//! The errors of the agent and of the tool provider, each with the text it is
//! reported under.

use vstd::prelude::*;

verus! {

/// A failure of the tool provider. Each variant carries the provider's own
/// account of what went wrong.
#[derive(Debug, PartialEq, Eq)]
pub enum McpError {
    TransportError(String),
    ProtocolError(String),
    ServiceError(String),
    InitializationError(String),
    TaskJoinError(String),
    ToolNotFound(String),
    ResourceNotFound(String),
    InvalidArguments(String),
    ConnectionError(String),
}

impl McpError {
    /// The text this error is reported under.
    pub open spec fn message_spec(self) -> Seq<char> {
        match self {
            McpError::TransportError(detail) => "MCP transport error: "@ + detail@,
            McpError::ProtocolError(detail) => "MCP protocol error: "@ + detail@,
            McpError::ServiceError(detail) => "MCP service error: "@ + detail@,
            McpError::InitializationError(detail) => "MCP client initialization error: "@
                + detail@,
            McpError::TaskJoinError(detail) => "Task join error: "@ + detail@,
            McpError::ToolNotFound(detail) => "Tool not found: "@ + detail@,
            McpError::ResourceNotFound(detail) => "Resource not found: "@ + detail@,
            McpError::InvalidArguments(detail) => "Invalid arguments: "@ + detail@,
            McpError::ConnectionError(detail) => "Server connection error: "@ + detail@,
        }
    }

    /// The text this error is reported under.
    pub fn message(&self) -> (text: String)
        ensures
            text@ == self.message_spec(),
    {
        match self {
            McpError::TransportError(detail) => prefixed("MCP transport error: ", detail),
            McpError::ProtocolError(detail) => prefixed("MCP protocol error: ", detail),
            McpError::ServiceError(detail) => prefixed("MCP service error: ", detail),
            McpError::InitializationError(detail) => prefixed(
                "MCP client initialization error: ",
                detail,
            ),
            McpError::TaskJoinError(detail) => prefixed("Task join error: ", detail),
            McpError::ToolNotFound(detail) => prefixed("Tool not found: ", detail),
            McpError::ResourceNotFound(detail) => prefixed("Resource not found: ", detail),
            McpError::InvalidArguments(detail) => prefixed("Invalid arguments: ", detail),
            McpError::ConnectionError(detail) => prefixed("Server connection error: ", detail),
        }
    }
}

/// A failure of the agent.
#[derive(Debug, PartialEq, Eq)]
pub enum AgentError {
    BedrockError(String),
    MessageBuildError(String),
    AwsSdkError(String),
    McpError(McpError),
    ConfigError(String),
}

impl AgentError {
    /// The text this error is reported under.
    pub open spec fn message_spec(self) -> Seq<char> {
        match self {
            AgentError::BedrockError(detail) => "AWS Bedrock API error: "@ + detail@,
            AgentError::MessageBuildError(detail) => "Message building error: "@ + detail@,
            AgentError::AwsSdkError(detail) => "AWS SDK error: "@ + detail@,
            AgentError::McpError(cause) => "MCP error: "@ + cause.message_spec(),
            AgentError::ConfigError(detail) => "Configuration error: "@ + detail@,
        }
    }

    /// The text this error is reported under.
    pub fn message(&self) -> (text: String)
        ensures
            text@ == self.message_spec(),
    {
        match self {
            AgentError::BedrockError(detail) => prefixed("AWS Bedrock API error: ", detail),
            AgentError::MessageBuildError(detail) => prefixed("Message building error: ", detail),
            AgentError::AwsSdkError(detail) => prefixed("AWS SDK error: ", detail),
            AgentError::McpError(cause) => {
                let inner = cause.message();
                prefixed("MCP error: ", &inner)
            },
            AgentError::ConfigError(detail) => prefixed("Configuration error: ", detail),
        }
    }
}

impl From<McpError> for AgentError {
    fn from(cause: McpError) -> (error: AgentError) {
        AgentError::McpError(cause)
    }
}

impl vstd::std_specs::convert::FromSpecImpl<McpError> for AgentError {
    open spec fn obeys_from_spec() -> bool {
        true
    }

    open spec fn from_spec(cause: McpError) -> AgentError {
        AgentError::McpError(cause)
    }
}

/// `prefix` followed by `detail`.
pub fn prefixed(prefix: &str, detail: &String) -> (text: String)
    ensures
        text@ == prefix@ + detail@,
{
    let mut text = prefix.to_owned();
    text.append(detail.as_str());
    text
}

} // verus!
