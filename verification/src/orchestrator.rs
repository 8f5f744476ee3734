//! The turn orchestrator: the state machine that carries one user submission
//! from the request to the model, through the decoding of the streamed reply
//! and the execution of the tools it asks for, back to rest.
//!
//! The orchestrator performs no I/O. It is handed events (the user's input, a
//! stream event, the outcome of a tool call) and answers each with the
//! actions to perform, in order. Its caller runs the loop: it performs the
//! actions and hands back what came of them.

use vstd::prelude::*;
use crate::agent::{
    request_for, AgentClient, AgentView, ConverseRequest, ConverseRequestView,
};
use crate::content::{blocks_view, ContentBlock, ContentBlockView, Message, MessageView, messages_view};
use crate::decoder::{
    DecoderView, Delta, StreamEvent, ToolInputDecodeError, ToolInputDecodeErrorView, TurnDecoder,
};
use crate::error::{AgentError, McpError};
use crate::history::{assistant_message, rolled_back, tool_result_message, user_text_message};
use crate::indicator::ProgressIndicator;
use crate::invariants::{lemma_step_keeps_well_formed, lemma_tool_payload_keeps_well_formed};
use crate::json::{json_member_text, json_shape, member_object, shape_of, JsonShape};

verus! {

/// Where the orchestrator stands.
#[derive(Clone, Copy, Debug, PartialEq, Eq, Structural)]
pub enum Phase {
    /// At rest; the last turn, if there was one, completed.
    Idle,
    /// A request is out and no event of its reply has arrived.
    AwaitingResponse,
    /// The reply is arriving.
    Decoding,
    /// The tools that the reply asked for are being run, one at a time.
    ExecutingTools,
    /// The last turn was aborted; at rest until the user has been told, or
    /// submits the next line.
    Failed,
}

/// A tool to run. `arguments` is the JSON text of the call's input where that
/// is a JSON object, and `None` where it is any other value.
#[derive(Debug, PartialEq, Eq)]
pub struct ToolCall {
    pub id: String,
    pub name: String,
    pub arguments: Option<String>,
}

/// The value of a [`ToolCall`].
pub struct ToolCallView {
    pub id: Seq<char>,
    pub name: Seq<char>,
    pub arguments: Option<Seq<char>>,
}

impl View for ToolCall {
    type V = ToolCallView;

    open spec fn view(&self) -> ToolCallView {
        ToolCallView {
            id: self.id@,
            name: self.name@,
            arguments: match self.arguments {
                Some(text) => Some(text@),
                None => None,
            },
        }
    }
}

impl Clone for ToolCall {
    fn clone(&self) -> (copy: Self)
        ensures
            copy@ == self@,
    {
        ToolCall {
            id: self.id.clone(),
            name: self.name.clone(),
            arguments: match &self.arguments {
                Some(text) => Some(text.clone()),
                None => None,
            },
        }
    }
}

/// The values of a list of tool calls, in order.
pub open spec fn calls_view(calls: Seq<ToolCall>) -> Seq<ToolCallView> {
    calls.map_values(|call: ToolCall| call@)
}

/// The call that the tool-use block `id`, `name`, `input` asks for, given
/// the shape of its input: the input is handed on as the call's arguments
/// where it is a JSON object, and left out where it is any other value.
pub open spec fn tool_call_with(
    id: Seq<char>,
    name: Seq<char>,
    input: Seq<char>,
    input_shape: JsonShape,
) -> ToolCallView {
    ToolCallView {
        id: id,
        name: name,
        arguments: if input_shape == JsonShape::Object {
            Some(input)
        } else {
            None
        },
    }
}

/// The call that the tool-use block `id`, `name`, `input` asks for.
pub open spec fn tool_call_of(id: Seq<char>, name: Seq<char>, input: Seq<char>) -> ToolCallView {
    tool_call_with(id, name, input, json_shape(input))
}

/// The call that the tool-use block `id`, `name`, `input` asks for, given
/// the shape of its input.
pub fn tool_call_for(id: &String, name: &String, input: &String, input_shape: JsonShape) -> (call:
    ToolCall)
    ensures
        call@ == tool_call_with(id@, name@, input@, input_shape),
{
    let arguments = match input_shape {
        JsonShape::Object => Some(input.clone()),
        _ => None,
    };
    ToolCall { id: id.clone(), name: name.clone(), arguments }
}

/// The tool calls that `blocks` ask for, in the order of the blocks.
pub open spec fn planned_calls(blocks: Seq<ContentBlockView>) -> Seq<ToolCallView>
    decreases blocks.len(),
{
    if blocks.len() == 0 {
        Seq::empty()
    } else {
        let earlier = planned_calls(blocks.drop_last());
        match blocks.last() {
            ContentBlockView::ToolUse { id, name, input } => earlier.push(
                tool_call_of(id, name, input),
            ),
            _ => earlier,
        }
    }
}

/// The tool calls that `blocks` ask for, in the order of the blocks.
pub fn plan_tool_calls(blocks: &Vec<ContentBlock>) -> (calls: Vec<ToolCall>)
    ensures
        calls_view(calls@) == planned_calls(blocks_view(blocks@)),
{
    let mut calls: Vec<ToolCall> = Vec::new();
    let mut i: usize = 0;
    let ghost all = blocks_view(blocks@);
    assert(all.take(0) =~= Seq::<ContentBlockView>::empty());
    assert(calls_view(calls@) =~= Seq::<ToolCallView>::empty());
    while i < blocks.len()
        invariant
            i <= blocks.len(),
            all == blocks_view(blocks@),
            calls_view(calls@) == planned_calls(all.take(i as int)),
        decreases blocks.len() - i,
    {
        assert(all.take(i + 1).drop_last() =~= all.take(i as int));
        assert(all.take(i + 1).last() == blocks@[i as int]@);
        match &blocks[i] {
            ContentBlock::ToolUse { id, name, input } => {
                let ghost before = calls@;
                calls.push(tool_call_for(id, name, input, shape_of(input.as_str())));
                assert(calls_view(calls@) =~= calls_view(before).push(
                    tool_call_of(id@, name@, input@),
                ));
            },
            _ => {},
        }
        i += 1;
    }
    assert(all.take(i as int) =~= all);
    calls
}

/// Why a turn was aborted.
#[derive(Debug, PartialEq, Eq)]
pub enum TurnError {
    /// The user's request could not be sent.
    Send { detail: String },
    /// The request that follows the tools' results could not be sent.
    FollowUp { detail: String },
    /// The stream broke before it ended.
    StreamReceive { detail: String },
    /// A tool call's arguments were not JSON.
    ToolInputDecode(ToolInputDecodeError),
    /// The reply held no block.
    AssistantMessage,
}

/// The value of a [`TurnError`].
pub enum TurnErrorView {
    Send { detail: Seq<char> },
    FollowUp { detail: Seq<char> },
    StreamReceive { detail: Seq<char> },
    ToolInputDecode(ToolInputDecodeErrorView),
    AssistantMessage,
}

impl View for TurnError {
    type V = TurnErrorView;

    open spec fn view(&self) -> TurnErrorView {
        match self {
            TurnError::Send { detail } => TurnErrorView::Send { detail: detail@ },
            TurnError::FollowUp { detail } => TurnErrorView::FollowUp { detail: detail@ },
            TurnError::StreamReceive { detail } => TurnErrorView::StreamReceive {
                detail: detail@,
            },
            TurnError::ToolInputDecode(error) => TurnErrorView::ToolInputDecode(error@),
            TurnError::AssistantMessage => TurnErrorView::AssistantMessage,
        }
    }
}

impl TurnErrorView {
    /// The text the error is reported under.
    pub open spec fn message(self) -> Seq<char> {
        match self {
            TurnErrorView::Send { detail } => "Bedrock API call failed: "@ + detail,
            TurnErrorView::FollowUp { .. } =>
                "Conversation processing failed: Failed to send follow-up message after tool use"@,
            TurnErrorView::StreamReceive { .. } =>
                "Conversation processing failed: Stream receive error"@,
            TurnErrorView::ToolInputDecode(_) =>
                "Conversation processing failed: Failed to parse tool use input as JSON"@,
            TurnErrorView::AssistantMessage =>
                "Conversation processing failed: Failed to add assistant message"@,
        }
    }
}

impl TurnError {
    /// The text the error is reported under.
    pub fn message(&self) -> (text: String)
        ensures
            text@ == self@.message(),
    {
        match self {
            TurnError::Send { detail } => crate::error::prefixed("Bedrock API call failed: ", detail),
            TurnError::FollowUp { .. } =>
                "Conversation processing failed: Failed to send follow-up message after tool use".to_owned(),
            TurnError::StreamReceive { .. } =>
                "Conversation processing failed: Stream receive error".to_owned(),
            TurnError::ToolInputDecode(_) =>
                "Conversation processing failed: Failed to parse tool use input as JSON".to_owned(),
            TurnError::AssistantMessage =>
                "Conversation processing failed: Failed to add assistant message".to_owned(),
        }
    }
}

/// What the orchestrator is told.
#[derive(Debug, PartialEq, Eq)]
pub enum TurnEvent {
    /// The user submitted a line.
    UserInput(String),
    /// The request failed before any event of its reply arrived.
    SendFailed(AgentError),
    /// An event of the reply arrived.
    Stream(StreamEvent),
    /// The stream broke.
    StreamFailed(String),
    /// The stream ended.
    StreamClosed,
    /// The tool call that was asked for has ended: with its result as JSON
    /// text, or with an error.
    ToolFinished(Result<String, AgentError>),
    /// The user has been told of the turn's abort.
    ErrorSurfaced,
}

/// What the orchestrator asks its caller to do.
#[derive(Debug, PartialEq, Eq)]
pub enum Action {
    /// Send this request to the model.
    SendRequest(ConverseRequest),
    /// Start the progress indicator.
    StartIndicator,
    /// Cancel the progress indicator.
    CancelIndicator,
    /// Write this text of the reply to the output sink.
    Render(String),
    /// Run this tool and report how it ended.
    InvokeTool(ToolCall),
    /// Tell the user that the turn was aborted.
    ReportError(TurnError),
}

/// The value of an [`Action`].
pub enum ActionView {
    SendRequest(ConverseRequestView),
    StartIndicator,
    CancelIndicator,
    Render(Seq<char>),
    InvokeTool(ToolCallView),
    ReportError(TurnErrorView),
}

impl View for Action {
    type V = ActionView;

    open spec fn view(&self) -> ActionView {
        match self {
            Action::SendRequest(request) => ActionView::SendRequest(request@),
            Action::StartIndicator => ActionView::StartIndicator,
            Action::CancelIndicator => ActionView::CancelIndicator,
            Action::Render(text) => ActionView::Render(text@),
            Action::InvokeTool(call) => ActionView::InvokeTool(call@),
            Action::ReportError(error) => ActionView::ReportError(error@),
        }
    }
}

/// The values of a list of actions, in order.
pub open spec fn actions_view(actions: Seq<Action>) -> Seq<ActionView> {
    actions.map_values(|action: Action| action@)
}

/// The payload recorded for a tool call that ended with `outcome`: the
/// tool's own result, or for an error the JSON object `{"error": message}`.
pub open spec fn payload_of(outcome: Result<String, AgentError>) -> Seq<char> {
    match outcome {
        Ok(payload) => payload@,
        Err(error) => json_member_text("error"@, error.message_spec()),
    }
}

/// The orchestrator's state as a mathematical value, and the rules that move
/// it.
#[verifier::ext_equal]
pub struct EngineView {
    /// The model that requests are sent to.
    pub model_id: Seq<char>,
    pub phase: Phase,
    /// The conversation so far.
    pub history: Seq<MessageView>,
    /// Whether a tool provider is attached.
    pub connected: bool,
    /// The decoder of the reply that is arriving.
    pub decoder: DecoderView,
    /// Whether the progress indicator is running.
    pub indicator: bool,
    /// Whether the request that is out follows the results of tools, so that
    /// the last message of the history is the empty one that stands for it.
    pub continuation: bool,
    /// The tool calls not yet answered, the one in flight first.
    pub queue: Seq<ToolCallView>,
}

impl EngineView {
    /// The state of a new orchestrator for the model `model_id`.
    pub open spec fn initial(model_id: Seq<char>) -> EngineView {
        EngineView {
            model_id: model_id,
            phase: Phase::Idle,
            history: Seq::empty(),
            connected: false,
            decoder: DecoderView::fresh(),
            indicator: false,
            continuation: false,
            queue: Seq::empty(),
        }
    }

    /// The cancellation of the indicator, where it is running.
    pub open spec fn cancellation(self) -> Seq<ActionView> {
        if self.indicator {
            seq![ActionView::CancelIndicator]
        } else {
            Seq::empty()
        }
    }

    /// A request goes out: `text` is appended as the user's message, the
    /// whole history is sent, and the indicator starts.
    pub open spec fn submit(self, text: Seq<char>, continuation: bool) -> (
        EngineView,
        Seq<ActionView>,
    ) {
        let history = self.history.push(user_text_message(text));
        (
            EngineView {
                model_id: self.model_id,
                phase: Phase::AwaitingResponse,
                history: history,
                connected: self.connected,
                decoder: DecoderView::fresh(),
                indicator: true,
                continuation: continuation,
                queue: Seq::empty(),
            },
            if self.indicator {
                seq![ActionView::SendRequest(request_for(self.model_id, history))]
            } else {
                seq![ActionView::SendRequest(request_for(self.model_id, history)), ActionView::StartIndicator]
            },
        )
    }

    /// The reply cannot be decoded: the indicator is cancelled and the error
    /// is reported. Nothing of the reply is committed, and the history stays
    /// as it is, but for the empty message that stood for a follow-up
    /// request: that one is taken back.
    pub open spec fn refuse(self, error: ToolInputDecodeErrorView) -> (
        EngineView,
        Seq<ActionView>,
    ) {
        (
            EngineView {
                model_id: self.model_id,
                phase: Phase::Failed,
                history: if self.continuation {
                    rolled_back(self.history)
                } else {
                    self.history
                },
                connected: self.connected,
                decoder: DecoderView::fresh(),
                indicator: false,
                continuation: false,
                queue: Seq::empty(),
            },
            self.cancellation().push(
                ActionView::ReportError(TurnErrorView::ToolInputDecode(error)),
            ),
        )
    }

    /// The request has failed, or its reply holds nothing: the indicator is
    /// cancelled, the message that was waiting for a reply is taken back, and
    /// the error is reported.
    pub open spec fn fail(self, error: TurnErrorView) -> (EngineView, Seq<ActionView>) {
        (
            EngineView {
                model_id: self.model_id,
                phase: Phase::Failed,
                history: rolled_back(self.history),
                connected: self.connected,
                decoder: DecoderView::fresh(),
                indicator: false,
                continuation: false,
                queue: Seq::empty(),
            },
            self.cancellation().push(ActionView::ReportError(error)),
        )
    }

    /// What an event of the reply does: the first one cancels the indicator;
    /// each goes to the decoder; text is rendered as it arrives. An event
    /// that the decoder refuses aborts the turn.
    pub open spec fn on_stream_event(self, event: StreamEvent) -> (EngineView, Seq<ActionView>) {
        match self.decoder.step(event) {
            Ok(decoder) => (
                EngineView {
                    model_id: self.model_id,
                    phase: Phase::Decoding,
                    history: self.history,
                    connected: self.connected,
                    decoder: decoder,
                    indicator: false,
                    continuation: self.continuation,
                    queue: self.queue,
                },
                match event {
                    StreamEvent::Delta(Delta::Text(fragment)) => self.cancellation().push(
                        ActionView::Render(fragment@),
                    ),
                    _ => self.cancellation(),
                },
            ),
            Err(error) => self.refuse(error),
        }
    }

    /// What the end of the stream does. The reply's blocks are committed as
    /// the assistant's message, after the empty message that stood for a
    /// follow-up request has been taken back. If the reply asks for tools and
    /// a provider is attached, the first tool is called; else the turn is
    /// complete. A reply that cannot be decoded, or holds no block, aborts
    /// the turn.
    pub open spec fn on_stream_closed(self) -> (EngineView, Seq<ActionView>) {
        match self.decoder.finish() {
            Err(error) => self.refuse(error),
            Ok(blocks) => if blocks.len() == 0 {
                self.fail(TurnErrorView::AssistantMessage)
            } else {
                let base = if self.continuation {
                    rolled_back(self.history)
                } else {
                    self.history
                };
                let history = base.push(assistant_message(blocks));
                let calls = planned_calls(blocks);
                if calls.len() > 0 && self.connected {
                    (
                        EngineView {
                            model_id: self.model_id,
                            phase: Phase::ExecutingTools,
                            history: history,
                            connected: self.connected,
                            decoder: DecoderView::fresh(),
                            indicator: false,
                            continuation: false,
                            queue: calls,
                        },
                        self.cancellation().push(ActionView::InvokeTool(calls[0])),
                    )
                } else {
                    (
                        EngineView {
                            model_id: self.model_id,
                            phase: Phase::Idle,
                            history: history,
                            connected: self.connected,
                            decoder: DecoderView::fresh(),
                            indicator: false,
                            continuation: false,
                            queue: Seq::empty(),
                        },
                        self.cancellation(),
                    )
                }
            },
        }
    }

    /// What the end of a tool call does, given the payload to record for
    /// it. The payload is appended to the history as the result of the call
    /// in flight; the next tool is called, or after the last one the
    /// follow-up request goes out. While no tools are being run, nothing
    /// happens.
    pub open spec fn on_tool_payload(self, payload: Seq<char>) -> (EngineView, Seq<ActionView>) {
        if self.phase != Phase::ExecutingTools || self.queue.len() == 0 {
            (self, Seq::empty())
        } else {
            let call = self.queue[0];
            let history = self.history.push(tool_result_message(call.id, payload));
            let rest = self.queue.remove(0);
            if rest.len() > 0 {
                (
                    EngineView {
                        model_id: self.model_id,
                        phase: self.phase,
                        history: history,
                        connected: self.connected,
                        decoder: self.decoder,
                        indicator: self.indicator,
                        continuation: self.continuation,
                        queue: rest,
                    },
                    seq![ActionView::InvokeTool(rest[0])],
                )
            } else {
                EngineView {
                    model_id: self.model_id,
                    phase: self.phase,
                    history: history,
                    connected: self.connected,
                    decoder: self.decoder,
                    indicator: self.indicator,
                    continuation: self.continuation,
                    queue: rest,
                }.submit(Seq::empty(), true)
            }
        }
    }

    /// What the end of a tool call does. Its outcome is recorded: the
    /// result, or for a failure an error payload, so that a failed tool does
    /// not abort the turn.
    pub open spec fn on_tool_finished(self, outcome: Result<String, AgentError>) -> (
        EngineView,
        Seq<ActionView>,
    ) {
        self.on_tool_payload(payload_of(outcome))
    }

    /// The state after `event`, and the actions it calls for, in order. An
    /// event that the phase does not expect changes nothing and calls for
    /// nothing; so does an empty line from the user. Once the user has been
    /// told of an abort, the orchestrator is `Idle` again.
    pub open spec fn step(self, event: TurnEvent) -> (EngineView, Seq<ActionView>) {
        match event {
            TurnEvent::UserInput(text) => if (self.phase == Phase::Idle || self.phase
                == Phase::Failed) && text@.len() > 0 {
                self.submit(text@, false)
            } else {
                (self, Seq::empty())
            },
            TurnEvent::SendFailed(error) => if self.phase == Phase::AwaitingResponse {
                if self.continuation {
                    self.fail(TurnErrorView::FollowUp { detail: error.message_spec() })
                } else {
                    self.fail(TurnErrorView::Send { detail: error.message_spec() })
                }
            } else {
                (self, Seq::empty())
            },
            TurnEvent::Stream(stream_event) => if self.phase == Phase::AwaitingResponse
                || self.phase == Phase::Decoding {
                self.on_stream_event(stream_event)
            } else {
                (self, Seq::empty())
            },
            TurnEvent::StreamFailed(detail) => if self.phase == Phase::AwaitingResponse
                || self.phase == Phase::Decoding {
                self.fail(TurnErrorView::StreamReceive { detail: detail@ })
            } else {
                (self, Seq::empty())
            },
            TurnEvent::StreamClosed => if self.phase == Phase::AwaitingResponse || self.phase
                == Phase::Decoding {
                self.on_stream_closed()
            } else {
                (self, Seq::empty())
            },
            TurnEvent::ToolFinished(outcome) => self.on_tool_finished(outcome),
            TurnEvent::ErrorSurfaced => if self.phase == Phase::Failed {
                (
                    EngineView {
                        model_id: self.model_id,
                        phase: Phase::Idle,
                        history: self.history,
                        connected: self.connected,
                        decoder: self.decoder,
                        indicator: self.indicator,
                        continuation: self.continuation,
                        queue: self.queue,
                    },
                    Seq::empty(),
                )
            } else {
                (self, Seq::empty())
            },
        }
    }
}

/// The turn orchestrator.
pub struct TurnOrchestrator {
    agent: AgentClient,
    phase: Phase,
    decoder: TurnDecoder,
    indicator: ProgressIndicator,
    continuation: bool,
    queue: Vec<ToolCall>,
}

impl View for TurnOrchestrator {
    type V = EngineView;

    closed spec fn view(&self) -> EngineView {
        EngineView {
            model_id: self.agent@.model_id,
            phase: self.phase,
            history: self.agent@.history,
            connected: self.agent@.mcp_connected,
            decoder: self.decoder@,
            indicator: self.indicator@,
            continuation: self.continuation,
            queue: calls_view(self.queue@),
        }
    }
}

fn push_action(actions: &mut Vec<Action>, action: Action)
    ensures
        actions_view(final(actions)@) == actions_view(old(actions)@).push(action@),
{
    actions.push(action);
    assert(actions_view(actions@) =~= actions_view(old(actions)@).push(action@));
}

fn no_actions() -> (actions: Vec<Action>)
    ensures
        actions_view(actions@) == Seq::<ActionView>::empty(),
{
    let actions: Vec<Action> = Vec::new();
    assert(actions_view(actions@) =~= Seq::<ActionView>::empty());
    actions
}

impl TurnOrchestrator {
    /// An orchestrator at rest for the model `model_id`, with an empty
    /// history and no tool provider.
    pub fn new(model_id: String) -> (engine: Self)
        ensures
            engine@ == EngineView::initial(model_id@),
            engine@.well_formed(),
    {
        let engine = TurnOrchestrator {
            agent: AgentClient::new(model_id),
            phase: Phase::Idle,
            decoder: TurnDecoder::new(),
            indicator: ProgressIndicator::stopped(),
            continuation: false,
            queue: Vec::new(),
        };
        assert(calls_view(engine.queue@) =~= Seq::<ToolCallView>::empty());
        engine
    }

    /// Where the orchestrator stands.
    pub fn phase(&self) -> (phase: Phase)
        ensures
            phase == self@.phase,
    {
        self.phase
    }

    /// The conversation so far, oldest message first.
    pub fn messages(&self) -> (messages: Vec<Message>)
        ensures
            messages_view(messages@) == self@.history,
    {
        self.agent.messages()
    }

    /// Whether a tool provider is attached.
    pub fn is_mcp_connected(&self) -> (connected: bool)
        ensures
            connected == self@.connected,
    {
        self.agent.is_mcp_connected()
    }

    /// The session that the orchestrator drives.
    pub fn agent(&self) -> (agent: &AgentClient)
        ensures
            agent@ == (AgentView {
                model_id: self@.model_id,
                history: self@.history,
                mcp_connected: self@.connected,
            }),
    {
        &self.agent
    }

    /// Whether the progress indicator is running.
    pub fn indicator_active(&self) -> (active: bool)
        ensures
            active == self@.indicator,
    {
        self.indicator.is_active()
    }

    /// Records the outcome of an attempt to attach a tool provider; nothing
    /// but the attachment changes.
    pub fn connect_mcp(&mut self, outcome: Result<(), McpError>) -> (result: Result<
        (),
        AgentError,
    >)
        ensures
            final(self)@ == (EngineView { connected: outcome is Ok, ..old(self)@ }),
            old(self)@.well_formed() ==> final(self)@.well_formed(),
            match outcome {
                Ok(_) => result is Ok,
                Err(cause) => result == Err::<(), AgentError>(AgentError::McpError(cause)),
            },
    {
        self.agent.connect_mcp(outcome)
    }

    /// Detaches the tool provider; nothing but the attachment changes. Fails
    /// where none is attached.
    pub fn disconnect_mcp(&mut self) -> (result: Result<(), AgentError>)
        ensures
            final(self)@ == (EngineView { connected: false, ..old(self)@ }),
            old(self)@.well_formed() ==> final(self)@.well_formed(),
            result is Ok == old(self)@.connected,
    {
        self.agent.disconnect_mcp()
    }

    fn cancel_indicator(&mut self, actions: &mut Vec<Action>)
        ensures
            final(self)@ == (EngineView { indicator: false, ..old(self)@ }),
            actions_view(final(actions)@) == actions_view(old(actions)@) + old(
                self,
            )@.cancellation(),
    {
        if self.indicator.cancel() {
            push_action(actions, Action::CancelIndicator);
            assert(actions_view(actions@) =~= actions_view(old(actions)@) + old(
                self,
            )@.cancellation());
        } else {
            assert(actions_view(actions@) =~= actions_view(old(actions)@) + old(
                self,
            )@.cancellation());
        }
    }

    fn submit(&mut self, text: &str, continuation: bool) -> (actions: Vec<Action>)
        ensures
            final(self)@ =~= old(self)@.submit(text@, continuation).0,
            actions_view(actions@) == old(self)@.submit(text@, continuation).1,
    {
        let request = self.agent.send_message(text);
        self.phase = Phase::AwaitingResponse;
        self.decoder = TurnDecoder::new();
        self.continuation = continuation;
        self.queue = Vec::new();
        assert(calls_view(self.queue@) =~= Seq::<ToolCallView>::empty());
        let mut actions = no_actions();
        push_action(&mut actions, Action::SendRequest(request));
        if self.indicator.start() {
            push_action(&mut actions, Action::StartIndicator);
        }
        assert(actions_view(actions@) =~= old(self)@.submit(text@, continuation).1);
        actions
    }

    fn refuse(&mut self, error: ToolInputDecodeError) -> (actions: Vec<Action>)
        ensures
            final(self)@ =~= old(self)@.refuse(error@).0,
            actions_view(actions@) == old(self)@.refuse(error@).1,
    {
        let mut actions = no_actions();
        self.cancel_indicator(&mut actions);
        if self.continuation {
            self.agent.rollback_last_user_message();
        }
        self.phase = Phase::Failed;
        self.decoder = TurnDecoder::new();
        self.continuation = false;
        self.queue = Vec::new();
        assert(calls_view(self.queue@) =~= Seq::<ToolCallView>::empty());
        push_action(&mut actions, Action::ReportError(TurnError::ToolInputDecode(error)));
        assert(actions_view(actions@) =~= old(self)@.refuse(error@).1);
        actions
    }

    fn fail(&mut self, error: TurnError) -> (actions: Vec<Action>)
        ensures
            final(self)@ =~= old(self)@.fail(error@).0,
            actions_view(actions@) == old(self)@.fail(error@).1,
    {
        let mut actions = no_actions();
        self.cancel_indicator(&mut actions);
        self.agent.rollback_last_user_message();
        self.phase = Phase::Failed;
        self.decoder = TurnDecoder::new();
        self.continuation = false;
        self.queue = Vec::new();
        assert(calls_view(self.queue@) =~= Seq::<ToolCallView>::empty());
        push_action(&mut actions, Action::ReportError(error));
        assert(actions_view(actions@) =~= old(self)@.fail(error@).1);
        actions
    }

    fn on_stream_event(&mut self, event: StreamEvent) -> (actions: Vec<Action>)
        ensures
            final(self)@ =~= old(self)@.on_stream_event(event).0,
            actions_view(actions@) == old(self)@.on_stream_event(event).1,
    {
        match self.decoder.push_event(&event) {
            Ok(()) => {
                let mut actions = no_actions();
                self.cancel_indicator(&mut actions);
                self.phase = Phase::Decoding;
                match event {
                    StreamEvent::Delta(Delta::Text(fragment)) => {
                        push_action(&mut actions, Action::Render(fragment));
                    },
                    _ => {},
                }
                assert(actions_view(actions@) =~= old(self)@.on_stream_event(event).1);
                actions
            },
            Err(error) => self.refuse(error),
        }
    }

    fn on_stream_closed(&mut self) -> (actions: Vec<Action>)
        ensures
            final(self)@ =~= old(self)@.on_stream_closed().0,
            actions_view(actions@) == old(self)@.on_stream_closed().1,
    {
        let mut decoder = TurnDecoder::new();
        core::mem::swap(&mut self.decoder, &mut decoder);
        match decoder.finish() {
            Err(error) => self.refuse(error),
            Ok(blocks) => {
                if blocks.len() == 0 {
                    assert(blocks_view(blocks@).len() == 0);
                    return self.fail(TurnError::AssistantMessage);
                }
                assert(blocks_view(blocks@).len() == blocks@.len());
                let mut actions = no_actions();
                self.cancel_indicator(&mut actions);
                if self.continuation {
                    self.agent.rollback_last_user_message();
                }
                let calls = plan_tool_calls(&blocks);
                let _ = self.agent.add_assistant_message_with_blocks(blocks);
                self.continuation = false;
                if calls.len() > 0 && self.agent.is_mcp_connected() {
                    assert(calls_view(calls@)[0] == calls@[0]@);
                    push_action(&mut actions, Action::InvokeTool(calls[0].clone()));
                    self.queue = calls;
                    self.phase = Phase::ExecutingTools;
                } else {
                    self.queue = Vec::new();
                    assert(calls_view(self.queue@) =~= Seq::<ToolCallView>::empty());
                    self.phase = Phase::Idle;
                }
                assert(actions_view(actions@) =~= old(self)@.on_stream_closed().1);
                actions
            },
        }
    }

    /// Records `payload` as the result of the tool call in flight and
    /// answers with what follows: the next call, or after the last one the
    /// follow-up request. While no tools are being run, nothing happens.
    pub fn tool_finished_with(&mut self, payload: String) -> (actions: Vec<Action>)
        ensures
            final(self)@ =~= old(self)@.on_tool_payload(payload@).0,
            actions_view(actions@) == old(self)@.on_tool_payload(payload@).1,
            old(self)@.well_formed() ==> final(self)@.well_formed(),
    {
        proof {
            if old(self)@.well_formed() {
                lemma_tool_payload_keeps_well_formed(old(self)@, payload@);
            }
        }
        if !matches!(self.phase, Phase::ExecutingTools) || self.queue.len() == 0 {
            return no_actions();
        }
        let ghost recorded = payload@;
        assert(calls_view(self.queue@)[0] == self.queue@[0]@);
        let call = self.queue.remove(0);
        assert(calls_view(self.queue@) =~= calls_view(old(self).queue@).remove(0));
        let _ = self.agent.add_tool_result(call.id, payload);
        if self.queue.len() > 0 {
            assert(calls_view(self.queue@)[0] == self.queue@[0]@);
            let mut actions = no_actions();
            push_action(&mut actions, Action::InvokeTool(self.queue[0].clone()));
            assert(actions_view(actions@) =~= old(self)@.on_tool_payload(recorded).1);
            actions
        } else {
            proof {
                reveal_strlit("");
            }
            assert(""@ =~= Seq::<char>::empty());
            self.submit("", true)
        }
    }

    fn on_tool_finished(&mut self, outcome: Result<String, AgentError>) -> (actions: Vec<Action>)
        ensures
            final(self)@ =~= old(self)@.on_tool_finished(outcome).0,
            actions_view(actions@) == old(self)@.on_tool_finished(outcome).1,
    {
        let payload = match outcome {
            Ok(payload) => payload,
            Err(error) => {
                let detail = error.message();
                member_object("error", detail.as_str())
            },
        };
        self.tool_finished_with(payload)
    }

    /// Takes one event and answers with the actions to perform, in order.
    /// A well-formed orchestrator stays well-formed.
    pub fn step(&mut self, event: TurnEvent) -> (actions: Vec<Action>)
        ensures
            final(self)@ =~= old(self)@.step(event).0,
            actions_view(actions@) == old(self)@.step(event).1,
            old(self)@.well_formed() ==> final(self)@.well_formed(),
    {
        proof {
            if old(self)@.well_formed() {
                lemma_step_keeps_well_formed(old(self)@, event);
            }
        }
        match event {
            TurnEvent::UserInput(text) => {
                if (matches!(self.phase, Phase::Idle) || matches!(self.phase, Phase::Failed))
                    && !text.as_str().is_empty() {
                    self.submit(text.as_str(), false)
                } else {
                    no_actions()
                }
            },
            TurnEvent::SendFailed(error) => {
                if matches!(self.phase, Phase::AwaitingResponse) {
                    let detail = error.message();
                    if self.continuation {
                        self.fail(TurnError::FollowUp { detail })
                    } else {
                        self.fail(TurnError::Send { detail })
                    }
                } else {
                    no_actions()
                }
            },
            TurnEvent::Stream(stream_event) => {
                if matches!(self.phase, Phase::AwaitingResponse) || matches!(
                    self.phase,
                    Phase::Decoding
                ) {
                    self.on_stream_event(stream_event)
                } else {
                    no_actions()
                }
            },
            TurnEvent::StreamFailed(detail) => {
                if matches!(self.phase, Phase::AwaitingResponse) || matches!(
                    self.phase,
                    Phase::Decoding
                ) {
                    self.fail(TurnError::StreamReceive { detail })
                } else {
                    no_actions()
                }
            },
            TurnEvent::StreamClosed => {
                if matches!(self.phase, Phase::AwaitingResponse) || matches!(
                    self.phase,
                    Phase::Decoding
                ) {
                    self.on_stream_closed()
                } else {
                    no_actions()
                }
            },
            TurnEvent::ToolFinished(outcome) => self.on_tool_finished(outcome),
            TurnEvent::ErrorSurfaced => {
                if matches!(self.phase, Phase::Failed) {
                    self.phase = Phase::Idle;
                }
                no_actions()
            },
        }
    }
}

} // verus!
