//! The agent's session: the conversation history, whether a tool provider is
//! attached, and what is sent to the model. The session performs no I/O: it
//! is handed the outcome of each outside call and decides what follows.

use vstd::prelude::*;
use crate::content::{messages_view, ContentBlock, Message, MessageView, blocks_view};
use crate::error::{AgentError, McpError};
use crate::history::{
    assistant_message, empty_reply_detail, rolled_back, tool_result_message, user_text_message,
    HistoryStore,
};
use crate::json::{json_shape, shape_of, JsonShape};

verus! {

/// What the session answers where a tool provider is needed and none is
/// attached.
pub open spec fn not_connected_detail() -> Seq<char> {
    "MCP client is not connected"@
}

/// What a tool conversion answers to a schema that is not JSON.
pub open spec fn bad_schema_detail() -> Seq<char> {
    "Failed to serialize tool schema"@
}

/// A tool as its provider lists it; `input_schema` is JSON text.
#[derive(Debug, PartialEq, Eq)]
pub struct ToolDescriptor {
    pub name: String,
    pub description: Option<String>,
    pub input_schema: String,
}

/// A tool as it is offered to the model; `input_schema` is JSON text.
#[derive(Debug, PartialEq, Eq)]
pub struct ToolSpecification {
    pub name: String,
    pub description: String,
    pub input_schema: String,
}

/// The value of a [`ToolSpecification`].
pub struct ToolSpecificationView {
    pub name: Seq<char>,
    pub description: Seq<char>,
    pub input_schema: Seq<char>,
}

impl View for ToolSpecification {
    type V = ToolSpecificationView;

    open spec fn view(&self) -> ToolSpecificationView {
        ToolSpecificationView {
            name: self.name@,
            description: self.description@,
            input_schema: self.input_schema@,
        }
    }
}

/// The values of a list of tool specifications, in order.
pub open spec fn specifications_view(tools: Seq<ToolSpecification>) -> Seq<
    ToolSpecificationView,
> {
    tools.map_values(|tool: ToolSpecification| tool@)
}

/// The specification that `tool` is offered under: its description, where it
/// has none, is empty.
pub open spec fn specification_of(tool: ToolDescriptor) -> ToolSpecificationView {
    ToolSpecificationView {
        name: tool.name@,
        description: match tool.description {
            Some(text) => text@,
            None => Seq::empty(),
        },
        input_schema: tool.input_schema@,
    }
}

/// What becomes of `tool` in a conversion, given the shape of its schema:
/// `None` where the schema is not JSON, which fails the conversion; `Some`
/// of nothing where the schema is `null`, so that the tool is left out; else
/// `Some` of the tool's specification.
pub open spec fn conversion_of(tool: ToolDescriptor, schema_shape: JsonShape) -> Option<
    Option<ToolSpecificationView>,
> {
    match schema_shape {
        JsonShape::Malformed => None,
        JsonShape::Null => Some(None),
        _ => Some(Some(specification_of(tool))),
    }
}

/// The specifications of `tools`, in order: a tool whose schema is JSON `null`
/// is left out, and a schema that is not JSON fails the whole conversion.
pub open spec fn converted_tools(tools: Seq<ToolDescriptor>) -> Option<Seq<ToolSpecificationView>>
    decreases tools.len(),
{
    if tools.len() == 0 {
        Some(Seq::empty())
    } else {
        match converted_tools(tools.drop_last()) {
            None => None,
            Some(converted) => match conversion_of(
                tools.last(),
                json_shape(tools.last().input_schema@),
            ) {
                None => None,
                Some(None) => Some(converted),
                Some(Some(specification)) => Some(converted.push(specification)),
            },
        }
    }
}

/// Converts one tool, given the shape of its schema: an error where the
/// schema is not JSON, nothing where it is `null`, else the specification
/// that the tool is offered under.
pub fn convert_tool(tool: &ToolDescriptor, schema_shape: JsonShape) -> (result: Result<
    Option<ToolSpecification>,
    AgentError,
>)
    ensures
        match conversion_of(*tool, schema_shape) {
            None => result matches Err(AgentError::MessageBuildError(detail)) && detail@
                == bad_schema_detail(),
            Some(None) => result matches Ok(None),
            Some(Some(specification)) => result matches Ok(Some(converted)) && converted@
                == specification,
        },
{
    match schema_shape {
        JsonShape::Malformed => Err(
            AgentError::MessageBuildError("Failed to serialize tool schema".to_owned()),
        ),
        JsonShape::Null => Ok(None),
        _ => {
            let description = match &tool.description {
                Some(text) => text.clone(),
                None => String::new(),
            };
            Ok(
                Some(
                    ToolSpecification {
                        name: tool.name.clone(),
                        description,
                        input_schema: tool.input_schema.clone(),
                    },
                ),
            )
        },
    }
}

/// A request to the model: the whole conversation so far.
#[derive(Debug, PartialEq, Eq)]
pub struct ConverseRequest {
    pub model_id: String,
    pub messages: Vec<Message>,
}

/// The value of a [`ConverseRequest`].
pub struct ConverseRequestView {
    pub model_id: Seq<char>,
    pub messages: Seq<MessageView>,
}

impl View for ConverseRequest {
    type V = ConverseRequestView;

    open spec fn view(&self) -> ConverseRequestView {
        ConverseRequestView { model_id: self.model_id@, messages: messages_view(self.messages@) }
    }
}

/// The request that carries `history` to the model `model_id`.
pub open spec fn request_for(model_id: Seq<char>, history: Seq<MessageView>) -> ConverseRequestView {
    ConverseRequestView { model_id: model_id, messages: history }
}

/// The value of an [`AgentClient`].
pub struct AgentView {
    pub model_id: Seq<char>,
    pub history: Seq<MessageView>,
    pub mcp_connected: bool,
}

/// The agent's session.
pub struct AgentClient {
    model_id: String,
    history: HistoryStore,
    mcp_connected: bool,
}

impl View for AgentClient {
    type V = AgentView;

    closed spec fn view(&self) -> AgentView {
        AgentView {
            model_id: self.model_id@,
            history: self.history@,
            mcp_connected: self.mcp_connected,
        }
    }
}

impl AgentClient {
    /// A session with the model `model_id`, an empty history and no tool
    /// provider.
    pub fn new(model_id: String) -> (agent: Self)
        ensures
            agent@ == (AgentView {
                model_id: model_id@,
                history: Seq::empty(),
                mcp_connected: false,
            }),
    {
        AgentClient { model_id, history: HistoryStore::new(), mcp_connected: false }
    }

    /// Records the outcome of an attempt to attach a tool provider. The
    /// attempt replaces the provider that was attached: after a failure none
    /// is.
    pub fn connect_mcp(&mut self, outcome: Result<(), McpError>) -> (result: Result<
        (),
        AgentError,
    >)
        ensures
            final(self)@ == (AgentView { mcp_connected: outcome is Ok, ..old(self)@ }),
            match outcome {
                Ok(_) => result is Ok,
                Err(cause) => result == Err::<(), AgentError>(AgentError::McpError(cause)),
            },
    {
        match outcome {
            Ok(()) => {
                self.mcp_connected = true;
                Ok(())
            },
            Err(cause) => {
                self.mcp_connected = false;
                Err(AgentError::McpError(cause))
            },
        }
    }

    /// Detaches the tool provider. Fails where none is attached.
    pub fn disconnect_mcp(&mut self) -> (result: Result<(), AgentError>)
        ensures
            final(self)@ == (AgentView { mcp_connected: false, ..old(self)@ }),
            old(self)@.mcp_connected ==> result is Ok,
            !old(self)@.mcp_connected ==> (result matches Err(AgentError::ConfigError(detail))
                && detail@ == not_connected_detail()),
    {
        if self.mcp_connected {
            self.mcp_connected = false;
            Ok(())
        } else {
            Err(AgentError::ConfigError("MCP client is not connected".to_owned()))
        }
    }

    /// Whether a tool provider is attached.
    pub fn is_mcp_connected(&self) -> (connected: bool)
        ensures
            connected == self@.mcp_connected,
    {
        self.mcp_connected
    }

    /// The provider's answer to a request for its tools, as the session
    /// reports it. `listed` is `None` where there was no provider to ask.
    pub fn list_mcp_tools(&self, listed: Option<Result<Vec<ToolDescriptor>, McpError>>) -> (result:
        Result<Vec<ToolDescriptor>, AgentError>)
        ensures
            match listed {
                Some(Ok(tools)) if self@.mcp_connected => result == Ok::<
                    Vec<ToolDescriptor>,
                    AgentError,
                >(tools),
                Some(Err(cause)) if self@.mcp_connected => result == Err::<
                    Vec<ToolDescriptor>,
                    AgentError,
                >(AgentError::McpError(cause)),
                _ => result matches Err(AgentError::ConfigError(detail)) && detail@
                    == not_connected_detail(),
            },
    {
        if !self.mcp_connected {
            return Err(AgentError::ConfigError("MCP client is not connected".to_owned()));
        }
        match listed {
            Some(Ok(tools)) => Ok(tools),
            Some(Err(cause)) => Err(AgentError::McpError(cause)),
            None => Err(AgentError::ConfigError("MCP client is not connected".to_owned())),
        }
    }

    /// The provider's answer to a tool call, as the session reports it; the
    /// answer is JSON text. `reply` is `None` where there was no provider to
    /// ask.
    pub fn call_mcp_tool(&self, reply: Option<Result<String, McpError>>) -> (result: Result<
        String,
        AgentError,
    >)
        ensures
            match reply {
                Some(Ok(payload)) if self@.mcp_connected => result == Ok::<String, AgentError>(
                    payload,
                ),
                Some(Err(cause)) if self@.mcp_connected => result == Err::<String, AgentError>(
                    AgentError::McpError(cause),
                ),
                _ => result matches Err(AgentError::ConfigError(detail)) && detail@
                    == not_connected_detail(),
            },
    {
        if !self.mcp_connected {
            return Err(AgentError::ConfigError("MCP client is not connected".to_owned()));
        }
        match reply {
            Some(Ok(payload)) => Ok(payload),
            Some(Err(cause)) => Err(AgentError::McpError(cause)),
            None => Err(AgentError::ConfigError("MCP client is not connected".to_owned())),
        }
    }

    /// The tools to offer to the model, made from the provider's list.
    /// A failure to list is handed on; a schema that is not JSON fails the
    /// conversion; a tool whose schema is `null` is left out.
    pub fn convert_mcp_tools_to_bedrock(
        &self,
        listed: Option<Result<Vec<ToolDescriptor>, McpError>>,
    ) -> (result: Result<Vec<ToolSpecification>, AgentError>)
        ensures
            match listed {
                Some(Ok(tools)) if self@.mcp_connected => match converted_tools(tools@) {
                    Some(converted) => result matches Ok(specifications) && specifications_view(
                        specifications@,
                    ) == converted,
                    None => result matches Err(AgentError::MessageBuildError(detail)) && detail@
                        == bad_schema_detail(),
                },
                Some(Err(cause)) if self@.mcp_connected => result == Err::<
                    Vec<ToolSpecification>,
                    AgentError,
                >(AgentError::McpError(cause)),
                _ => result matches Err(AgentError::ConfigError(detail)) && detail@
                    == not_connected_detail(),
            },
    {
        let tools = match self.list_mcp_tools(listed) {
            Ok(tools) => tools,
            Err(error) => {
                return Err(error);
            },
        };
        convert_tools(&tools)
    }

    /// The tool catalogue that goes out with a request, if any: none where no
    /// provider is attached, where the tools could not be listed or
    /// converted, or where no tool is left to offer.
    pub fn tool_configuration(&self, listed: Option<Result<Vec<ToolDescriptor>, McpError>>) -> (config:
        Option<Vec<ToolSpecification>>)
        ensures
            match listed {
                Some(Ok(tools)) if self@.mcp_connected => match converted_tools(tools@) {
                    Some(converted) if converted.len() > 0 => config matches Some(specifications)
                        && specifications_view(specifications@) == converted,
                    _ => config is None,
                },
                _ => config is None,
            },
    {
        if !self.mcp_connected {
            return None;
        }
        match self.convert_mcp_tools_to_bedrock(listed) {
            Ok(specifications) => {
                if specifications.len() > 0 {
                    Some(specifications)
                } else {
                    None
                }
            },
            Err(_) => None,
        }
    }

    /// The model that requests are sent to.
    pub fn model_id(&self) -> (id: &str)
        ensures
            id@ == self@.model_id,
    {
        self.model_id.as_str()
    }

    /// The conversation so far, oldest message first.
    pub fn messages(&self) -> (messages: Vec<Message>)
        ensures
            messages_view(messages@) == self@.history,
    {
        self.history.snapshot()
    }

    /// Appends the user's message and hands out the request to send: the
    /// whole history, the new message last. If sending fails, the caller
    /// takes the message back with `rollback_last_user_message`.
    pub fn send_message(&mut self, user_input: &str) -> (request: ConverseRequest)
        ensures
            final(self)@ == (AgentView {
                history: old(self)@.history.push(user_text_message(user_input@)),
                ..old(self)@
            }),
            request@ == request_for(final(self)@.model_id, final(self)@.history),
    {
        self.history.append_user(user_input);
        ConverseRequest { model_id: self.model_id.clone(), messages: self.history.snapshot() }
    }

    /// Appends the assistant's reply. An empty list of blocks is refused and
    /// the history stays as it was.
    pub fn add_assistant_message_with_blocks(&mut self, content_blocks: Vec<ContentBlock>) -> (result:
        Result<(), AgentError>)
        ensures
            content_blocks@.len() > 0 ==> result is Ok && final(self)@ == (AgentView {
                history: old(self)@.history.push(
                    assistant_message(blocks_view(content_blocks@)),
                ),
                ..old(self)@
            }),
            content_blocks@.len() == 0 ==> final(self)@ == old(self)@ && (result matches Err(
                AgentError::MessageBuildError(detail),
            ) && detail@ == empty_reply_detail()),
    {
        self.history.append_assistant(content_blocks)
    }

    /// Appends the outcome of the tool call `tool_use_id`; `tool_result` is
    /// JSON text.
    pub fn add_tool_result(&mut self, tool_use_id: String, tool_result: String) -> (result: Result<
        (),
        AgentError,
    >)
        ensures
            result is Ok,
            final(self)@ == (AgentView {
                history: old(self)@.history.push(
                    tool_result_message(tool_use_id@, tool_result@),
                ),
                ..old(self)@
            }),
    {
        self.history.append_tool_result(tool_use_id, tool_result);
        Ok(())
    }

    /// Removes the last message if the user wrote it, and says whether it did.
    pub fn rollback_last_user_message(&mut self) -> (removed: bool)
        ensures
            removed == (old(self)@.history.len() > 0 && old(self)@.history.last().role
                == crate::content::Role::User),
            final(self)@ == (AgentView {
                history: rolled_back(old(self)@.history),
                ..old(self)@
            }),
    {
        self.history.rollback_last_if_user()
    }
}

/// Converts the tools one by one, in order.
fn convert_tools(tools: &Vec<ToolDescriptor>) -> (result: Result<
    Vec<ToolSpecification>,
    AgentError,
>)
    ensures
        match converted_tools(tools@) {
            Some(converted) => result matches Ok(specifications) && specifications_view(
                specifications@,
            ) == converted,
            None => result matches Err(AgentError::MessageBuildError(detail)) && detail@
                == bad_schema_detail(),
        },
{
    let mut specifications: Vec<ToolSpecification> = Vec::new();
    let mut i: usize = 0;
    assert(tools@.take(0) =~= Seq::<ToolDescriptor>::empty());
    assert(specifications_view(specifications@) =~= Seq::<ToolSpecificationView>::empty());
    while i < tools.len()
        invariant
            i <= tools.len(),
            converted_tools(tools@.take(i as int)) == Some(specifications_view(specifications@)),
        decreases tools.len() - i,
    {
        assert(tools@.take(i + 1).drop_last() =~= tools@.take(i as int));
        assert(tools@.take(i + 1).last() == tools@[i as int]);
        let tool = &tools[i];
        match convert_tool(tool, shape_of(tool.input_schema.as_str())) {
            Err(error) => {
                proof {
                    lemma_conversion_failure_is_final(tools@, i + 1);
                }
                return Err(error);
            },
            Ok(None) => {},
            Ok(Some(specification)) => {
                let ghost before = specifications@;
                specifications.push(specification);
                assert(specifications_view(specifications@) =~= specifications_view(before).push(
                    specification_of(tools@[i as int]),
                ));
            },
        }
        i += 1;
    }
    assert(tools@.take(i as int) =~= tools@);
    Ok(specifications)
}

/// Once the conversion of a prefix has failed, the conversion of the whole
/// list fails.
proof fn lemma_conversion_failure_is_final(tools: Seq<ToolDescriptor>, n: int)
    requires
        0 <= n <= tools.len(),
        converted_tools(tools.take(n)) is None,
    ensures
        converted_tools(tools) is None,
    decreases tools.len(),
{
    if n < tools.len() {
        assert(tools.drop_last().take(n) =~= tools.take(n));
        lemma_conversion_failure_is_final(tools.drop_last(), n);
    } else {
        assert(tools.take(n) =~= tools);
    }
}

} // verus!
