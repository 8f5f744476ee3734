use agent::agent::{
    convert_tool, AgentClient, ConverseRequest, ToolDescriptor, ToolSpecification,
};
use agent::json::JsonShape;
use agent::content::{ContentBlock, Message, Role};
use agent::error::{AgentError, McpError};

fn user(text: &str) -> Message {
    Message { role: Role::User, blocks: vec![ContentBlock::Text(text.to_string())] }
}

fn tool(name: &str, description: Option<&str>, schema: &str) -> ToolDescriptor {
    ToolDescriptor {
        name: name.to_string(),
        description: description.map(|text| text.to_string()),
        input_schema: schema.to_string(),
    }
}

fn not_connected() -> AgentError {
    AgentError::ConfigError("MCP client is not connected".to_string())
}

#[test]
fn a_new_session_is_empty_and_detached() {
    let agent = AgentClient::new("model-x".to_string());
    assert_eq!(agent.model_id(), "model-x");
    assert!(!agent.is_mcp_connected());
    assert!(agent.messages().is_empty());
}

#[test]
fn a_failed_connection_leaves_the_session_detached() {
    let mut agent = AgentClient::new("m".to_string());
    let result = agent.connect_mcp(Err(McpError::TransportError("no such command".to_string())));
    assert_eq!(
        result,
        Err(AgentError::McpError(McpError::TransportError("no such command".to_string())))
    );
    assert!(!agent.is_mcp_connected());
}

#[test]
fn a_failed_connection_drops_the_provider_that_was_attached() {
    let mut agent = AgentClient::new("m".to_string());
    assert_eq!(agent.connect_mcp(Ok(())), Ok(()));
    assert!(agent.is_mcp_connected());
    assert!(agent.connect_mcp(Err(McpError::InitializationError("x".to_string()))).is_err());
    assert!(!agent.is_mcp_connected());
}

#[test]
fn disconnect_without_connection_is_an_error() {
    let mut agent = AgentClient::new("m".to_string());
    let result = agent.disconnect_mcp();
    assert!(result.is_err());
    match result {
        Err(AgentError::ConfigError(message)) => assert!(message.contains("not connected")),
        other => panic!("unexpected: {:?}", other),
    }
    assert!(!agent.is_mcp_connected());
}

#[test]
fn connect_and_disconnect_can_be_repeated() {
    let mut agent = AgentClient::new("m".to_string());
    assert_eq!(agent.connect_mcp(Ok(())), Ok(()));
    assert!(agent.is_mcp_connected());
    assert_eq!(agent.disconnect_mcp(), Ok(()));
    assert!(!agent.is_mcp_connected());
    assert_eq!(agent.connect_mcp(Ok(())), Ok(()));
    assert_eq!(agent.connect_mcp(Ok(())), Ok(()));
    assert!(agent.is_mcp_connected());
    assert_eq!(agent.disconnect_mcp(), Ok(()));
    assert_eq!(agent.disconnect_mcp(), Err(not_connected()));
}

#[test]
fn listing_tools_needs_a_provider() {
    let mut agent = AgentClient::new("m".to_string());
    assert_eq!(agent.list_mcp_tools(None), Err(not_connected()));
    assert_eq!(agent.list_mcp_tools(Some(Ok(vec![tool("t", None, "{}")]))), Err(not_connected()));
    agent.connect_mcp(Ok(())).unwrap();
    assert_eq!(agent.list_mcp_tools(None), Err(not_connected()));
    assert_eq!(
        agent.list_mcp_tools(Some(Ok(vec![tool("t", None, "{}")]))),
        Ok(vec![tool("t", None, "{}")])
    );
    assert_eq!(
        agent.list_mcp_tools(Some(Err(McpError::ServiceError("down".to_string())))),
        Err(AgentError::McpError(McpError::ServiceError("down".to_string())))
    );
}

#[test]
fn calling_a_tool_needs_a_provider() {
    let mut agent = AgentClient::new("m".to_string());
    assert_eq!(agent.call_mcp_tool(Some(Ok("1".to_string()))), Err(not_connected()));
    assert_eq!(agent.call_mcp_tool(None), Err(not_connected()));
    agent.connect_mcp(Ok(())).unwrap();
    assert_eq!(agent.call_mcp_tool(Some(Ok("{\"r\":1}".to_string()))), Ok("{\"r\":1}".to_string()));
    assert_eq!(
        agent.call_mcp_tool(Some(Err(McpError::ToolNotFound("nope".to_string())))),
        Err(AgentError::McpError(McpError::ToolNotFound("nope".to_string())))
    );
    assert_eq!(agent.call_mcp_tool(None), Err(not_connected()));
}

#[test]
fn tools_are_converted_in_order() {
    let mut agent = AgentClient::new("m".to_string());
    agent.connect_mcp(Ok(())).unwrap();
    let listed = vec![
        tool("status", Some("Shows the status"), "{\"type\":\"object\"}"),
        tool("log", None, "{\"type\":\"object\",\"properties\":{}}"),
    ];
    assert_eq!(
        agent.convert_mcp_tools_to_bedrock(Some(Ok(listed))),
        Ok(vec![
            ToolSpecification {
                name: "status".to_string(),
                description: "Shows the status".to_string(),
                input_schema: "{\"type\":\"object\"}".to_string(),
            },
            ToolSpecification {
                name: "log".to_string(),
                description: String::new(),
                input_schema: "{\"type\":\"object\",\"properties\":{}}".to_string(),
            },
        ])
    );
}

#[test]
fn a_tool_with_a_null_schema_is_left_out() {
    let mut agent = AgentClient::new("m".to_string());
    agent.connect_mcp(Ok(())).unwrap();
    let listed = vec![tool("a", None, "null"), tool("b", Some("d"), "{}"), tool("c", None, " null ")];
    let converted = agent.convert_mcp_tools_to_bedrock(Some(Ok(listed))).unwrap();
    assert_eq!(converted.len(), 1);
    assert_eq!(converted[0].name, "b");
}

#[test]
fn a_schema_that_is_not_json_fails_the_conversion() {
    let mut agent = AgentClient::new("m".to_string());
    agent.connect_mcp(Ok(())).unwrap();
    let listed = vec![tool("a", None, "{}"), tool("b", None, "{oops"), tool("c", None, "{}")];
    assert_eq!(
        agent.convert_mcp_tools_to_bedrock(Some(Ok(listed))),
        Err(AgentError::MessageBuildError("Failed to serialize tool schema".to_string()))
    );
}

#[test]
fn conversion_hands_on_listing_failures() {
    let mut agent = AgentClient::new("m".to_string());
    assert_eq!(agent.convert_mcp_tools_to_bedrock(Some(Ok(Vec::new()))), Err(not_connected()));
    agent.connect_mcp(Ok(())).unwrap();
    assert_eq!(
        agent.convert_mcp_tools_to_bedrock(Some(Err(McpError::ServiceError("x".to_string())))),
        Err(AgentError::McpError(McpError::ServiceError("x".to_string())))
    );
    assert_eq!(agent.convert_mcp_tools_to_bedrock(Some(Ok(Vec::new()))), Ok(Vec::new()));
}

#[test]
fn tool_configuration_is_absent_unless_tools_are_on_offer() {
    let mut agent = AgentClient::new("m".to_string());
    assert_eq!(agent.tool_configuration(Some(Ok(vec![tool("a", None, "{}")]))), None);
    agent.connect_mcp(Ok(())).unwrap();
    assert_eq!(agent.tool_configuration(None), None);
    assert_eq!(agent.tool_configuration(Some(Ok(Vec::new()))), None);
    assert_eq!(agent.tool_configuration(Some(Ok(vec![tool("a", None, "null")]))), None);
    assert_eq!(agent.tool_configuration(Some(Ok(vec![tool("a", None, "{bad")]))), None);
    assert_eq!(
        agent.tool_configuration(Some(Err(McpError::ConnectionError("x".to_string())))),
        None
    );
    assert_eq!(
        agent.tool_configuration(Some(Ok(vec![tool("a", Some("does a"), "{}")]))),
        Some(vec![ToolSpecification {
            name: "a".to_string(),
            description: "does a".to_string(),
            input_schema: "{}".to_string(),
        }])
    );
}

#[test]
fn send_message_appends_and_sends_the_whole_history() {
    let mut agent = AgentClient::new("model-x".to_string());
    let first = agent.send_message("hello");
    assert_eq!(
        first,
        ConverseRequest { model_id: "model-x".to_string(), messages: vec![user("hello")] }
    );
    agent.add_assistant_message_with_blocks(vec![ContentBlock::Text("hi".to_string())]).unwrap();
    let second = agent.send_message("again");
    assert_eq!(second.messages.len(), 3);
    assert_eq!(second.messages[2], user("again"));
    assert_eq!(second.messages, agent.messages());
}

#[test]
fn rollback_takes_back_the_message_that_was_sent() {
    let mut agent = AgentClient::new("m".to_string());
    agent.send_message("lost");
    assert!(agent.rollback_last_user_message());
    assert!(agent.messages().is_empty());
    assert!(!agent.rollback_last_user_message());
}

#[test]
fn rollback_leaves_the_assistant_message() {
    let mut agent = AgentClient::new("m".to_string());
    agent.send_message("q");
    agent.add_assistant_message_with_blocks(vec![ContentBlock::Text("a".to_string())]).unwrap();
    assert!(!agent.rollback_last_user_message());
    assert_eq!(agent.messages().len(), 2);
}

#[test]
fn an_empty_assistant_message_is_refused() {
    let mut agent = AgentClient::new("m".to_string());
    agent.send_message("q");
    let result = agent.add_assistant_message_with_blocks(Vec::new());
    assert!(matches!(result, Err(AgentError::MessageBuildError(_))));
    assert_eq!(
        result.unwrap_err().message(),
        "Message building error: Failed to build message: content was not specified but it is required when building Message"
    );
    assert_eq!(agent.messages(), vec![user("q")]);
}

#[test]
fn add_tool_result_appends_a_user_message() {
    let mut agent = AgentClient::new("m".to_string());
    assert_eq!(agent.add_tool_result("id-1".to_string(), "{\"status\":\"clean\"}".to_string()), Ok(()));
    assert_eq!(
        agent.messages(),
        vec![Message {
            role: Role::User,
            blocks: vec![ContentBlock::ToolResult {
                id: "id-1".to_string(),
                payload: "{\"status\":\"clean\"}".to_string(),
            }],
        }]
    );
    assert!(agent.rollback_last_user_message());
}

#[test]
fn every_agent_error_has_its_message() {
    assert_eq!(AgentError::BedrockError("a".to_string()).message(), "AWS Bedrock API error: a");
    assert_eq!(
        AgentError::MessageBuildError("b".to_string()).message(),
        "Message building error: b"
    );
    assert_eq!(AgentError::AwsSdkError("c".to_string()).message(), "AWS SDK error: c");
    assert_eq!(AgentError::ConfigError("d".to_string()).message(), "Configuration error: d");
    assert_eq!(
        AgentError::McpError(McpError::ServiceError("e".to_string())).message(),
        "MCP error: MCP service error: e"
    );
    assert_eq!(
        AgentError::from(McpError::ToolNotFound("t".to_string())),
        AgentError::McpError(McpError::ToolNotFound("t".to_string()))
    );
}

#[test]
fn every_mcp_error_has_its_message() {
    assert_eq!(McpError::TransportError("x".to_string()).message(), "MCP transport error: x");
    assert_eq!(McpError::ProtocolError("x".to_string()).message(), "MCP protocol error: x");
    assert_eq!(McpError::ServiceError("x".to_string()).message(), "MCP service error: x");
    assert_eq!(
        McpError::InitializationError("x".to_string()).message(),
        "MCP client initialization error: x"
    );
    assert_eq!(McpError::TaskJoinError("x".to_string()).message(), "Task join error: x");
    assert_eq!(McpError::ToolNotFound("x".to_string()).message(), "Tool not found: x");
    assert_eq!(McpError::ResourceNotFound("x".to_string()).message(), "Resource not found: x");
    assert_eq!(McpError::InvalidArguments("x".to_string()).message(), "Invalid arguments: x");
    assert_eq!(McpError::ConnectionError("x".to_string()).message(), "Server connection error: x");
}

#[test]
fn convert_tool_goes_by_the_shape_of_the_schema() {
    let listed = tool("a", Some("does a"), "{}");
    assert_eq!(
        convert_tool(&listed, JsonShape::Object),
        Ok(Some(ToolSpecification {
            name: "a".to_string(),
            description: "does a".to_string(),
            input_schema: "{}".to_string(),
        }))
    );
    assert_eq!(convert_tool(&listed, JsonShape::Null), Ok(None));
    assert_eq!(
        convert_tool(&listed, JsonShape::Malformed),
        Err(AgentError::MessageBuildError("Failed to serialize tool schema".to_string()))
    );
    let plain = tool("b", None, "[]");
    for shape in [JsonShape::Array, JsonShape::Boolean, JsonShape::Number, JsonShape::Text] {
        assert_eq!(
            convert_tool(&plain, shape),
            Ok(Some(ToolSpecification {
                name: "b".to_string(),
                description: String::new(),
                input_schema: "[]".to_string(),
            }))
        );
    }
}
