//! What holds of every run of the turn orchestrator: the shape that its state
//! keeps, the discipline of the progress indicator, and the course of a round
//! of tool calls. Everything here is stated over [`EngineView`], the value
//! that [`TurnOrchestrator::step`](crate::orchestrator::TurnOrchestrator::step)
//! is proved to follow.

use vstd::prelude::*;
use crate::content::{MessageView, Role};
use crate::decoder::{decode_spec, DecoderView, StreamEvent};
use crate::error::AgentError;
use crate::history::{assistant_message, rolled_back, tool_result_message, user_text_message};
use crate::json::json_member_text;
use crate::agent::request_for;
use crate::orchestrator::{
    payload_of, planned_calls, ActionView, EngineView, Phase, ToolCallView, TurnEvent,
};

verus! {

/// The empty message of the user's that stands for a follow-up request while
/// that request is out.
pub open spec fn placeholder() -> MessageView {
    user_text_message(Seq::empty())
}

/// The shape of a history at rest: it holds no empty message of the user's;
/// every message of the assistant's holds at least one block and stands
/// behind a message of the user's role.
pub open spec fn history_well_formed(history: Seq<MessageView>) -> bool {
    forall|i: int| 0 <= i < history.len() ==> #[trigger] message_in_place(history, i)
}

/// Whether the message at `i` may stand where it stands: it is no empty
/// message of the user's; if it is the assistant's, it holds at least one
/// block and the message before it has the user's role.
pub open spec fn message_in_place(history: Seq<MessageView>, i: int) -> bool {
    &&& history[i] != placeholder()
    &&& history[i].role == Role::Assistant ==> {
        &&& history[i].blocks.len() > 0
        &&& i > 0
        &&& history[i - 1].role == Role::User
    }
}

impl EngineView {
    /// Whether a request is out or its reply is arriving.
    pub open spec fn in_flight(self) -> bool {
        self.phase == Phase::AwaitingResponse || self.phase == Phase::Decoding
    }

    /// Whether the orchestrator waits for the user.
    pub open spec fn at_rest(self) -> bool {
        self.phase == Phase::Idle || self.phase == Phase::Failed
    }

    /// The history without the placeholder of a follow-up request.
    pub open spec fn settled_history(self) -> Seq<MessageView> {
        if self.continuation {
            self.history.drop_last()
        } else {
            self.history
        }
    }

    /// The shape that every reachable state has.
    pub open spec fn well_formed(self) -> bool {
        &&& self.indicator <==> self.phase == Phase::AwaitingResponse
        &&& self.queue.len() > 0 <==> self.phase == Phase::ExecutingTools
        &&& !self.in_flight() ==> self.decoder == DecoderView::fresh() && !self.continuation
        &&& self.in_flight() ==> self.history.len() > 0 && self.history.last().role == Role::User
        &&& self.continuation ==> {
            &&& self.history.len() >= 2
            &&& self.history.last() == placeholder()
            &&& self.history[self.history.len() - 2].role == Role::User
        }
        &&& history_well_formed(self.settled_history())
    }

    /// The state after a sequence of events, taken in order.
    pub open spec fn run(self, events: Seq<TurnEvent>) -> EngineView
        decreases events.len(),
    {
        if events.len() == 0 {
            self
        } else {
            self.run(events.drop_last()).step(events.last()).0
        }
    }

    /// All the actions that a sequence of events calls for, in order.
    pub open spec fn trace(self, events: Seq<TurnEvent>) -> Seq<ActionView>
        decreases events.len(),
    {
        if events.len() == 0 {
            Seq::empty()
        } else {
            self.trace(events.drop_last()) + self.run(events.drop_last()).step(events.last()).1
        }
    }
}

/// A user's message with text in it is no placeholder.
proof fn lemma_text_is_no_placeholder(text: Seq<char>)
    requires
        text.len() > 0,
    ensures
        user_text_message(text) != placeholder(),
{
    assert(user_text_message(text).blocks[0] != placeholder().blocks[0]);
}

/// A tool's result is no placeholder.
proof fn lemma_result_is_no_placeholder(id: Seq<char>, payload: Seq<char>)
    ensures
        tool_result_message(id, payload) != placeholder(),
        tool_result_message(id, payload).role == Role::User,
{
    assert(tool_result_message(id, payload).blocks[0] != placeholder().blocks[0]);
}

/// A well-formed history stays so when its last message is taken back.
proof fn lemma_rollback_keeps_history_well_formed(history: Seq<MessageView>)
    requires
        history_well_formed(history),
    ensures
        history_well_formed(rolled_back(history)),
        history.len() > 0 ==> history_well_formed(history.drop_last()),
{
    if history.len() > 0 {
        let shorter = history.drop_last();
        assert forall|i: int| 0 <= i < shorter.len() implies #[trigger] message_in_place(
            shorter,
            i,
        ) by {
            assert(message_in_place(history, i));
        }
    }
}

/// A well-formed history stays so when a message of the user's role that is
/// no placeholder is appended.
proof fn lemma_user_message_keeps_history_well_formed(
    history: Seq<MessageView>,
    message: MessageView,
)
    requires
        history_well_formed(history),
        message.role == Role::User,
        message != placeholder(),
    ensures
        history_well_formed(history.push(message)),
{
    let longer = history.push(message);
    assert forall|i: int| 0 <= i < longer.len() implies #[trigger] message_in_place(
        longer,
        i,
    ) by {
        if i < history.len() {
            assert(message_in_place(history, i));
        }
    }
}

/// A well-formed history that ends with a message of the user's role stays
/// well-formed when the assistant's reply, with at least one block, is
/// appended.
proof fn lemma_reply_keeps_history_well_formed(history: Seq<MessageView>, message: MessageView)
    requires
        history_well_formed(history),
        history.len() > 0,
        history.last().role == Role::User,
        message.role == Role::Assistant,
        message.blocks.len() > 0,
    ensures
        history_well_formed(history.push(message)),
{
    let longer = history.push(message);
    assert forall|i: int| 0 <= i < longer.len() implies #[trigger] message_in_place(
        longer,
        i,
    ) by {
        if i < history.len() {
            assert(message_in_place(history, i));
        } else {
            assert(longer[i - 1] == history.last());
            assert(message.blocks.len() > 0);
            assert(message != placeholder());
        }
    }
}

/// A new orchestrator is well-formed.
pub proof fn lemma_initial_is_well_formed(model_id: Seq<char>)
    ensures
        EngineView::initial(model_id).well_formed(),
{
}

/// Aborting a turn leaves a well-formed state at rest.
proof fn lemma_fail_keeps_well_formed(state: EngineView, error: crate::orchestrator::TurnErrorView)
    requires
        state.well_formed(),
    ensures
        state.fail(error).0.well_formed(),
        state.fail(error).0.phase == Phase::Failed,
{
    if state.continuation {
        assert(rolled_back(state.history) == state.history.drop_last());
    } else {
        lemma_rollback_keeps_history_well_formed(state.history);
    }
}

/// Refusing a reply leaves a well-formed state at rest.
proof fn lemma_refuse_keeps_well_formed(
    state: EngineView,
    error: crate::decoder::ToolInputDecodeErrorView,
)
    requires
        state.well_formed(),
    ensures
        state.refuse(error).0.well_formed(),
        state.refuse(error).0.phase == Phase::Failed,
{
    if state.continuation {
        assert(rolled_back(state.history) == state.history.drop_last());
    }
}

/// Every event leaves a well-formed state well-formed.
pub proof fn lemma_step_keeps_well_formed(state: EngineView, event: TurnEvent)
    requires
        state.well_formed(),
    ensures
        state.step(event).0.well_formed(),
{
    let next = state.step(event).0;
    match event {
        TurnEvent::UserInput(text) => {
            if state.at_rest() && text@.len() > 0 {
                lemma_text_is_no_placeholder(text@);
                lemma_user_message_keeps_history_well_formed(
                    state.history,
                    user_text_message(text@),
                );
            }
        },
        TurnEvent::SendFailed(error) => {
            if state.phase == Phase::AwaitingResponse {
                if state.continuation {
                    lemma_fail_keeps_well_formed(
                        state,
                        crate::orchestrator::TurnErrorView::FollowUp {
                            detail: error.message_spec(),
                        },
                    );
                } else {
                    lemma_fail_keeps_well_formed(
                        state,
                        crate::orchestrator::TurnErrorView::Send { detail: error.message_spec() },
                    );
                }
            }
        },
        TurnEvent::Stream(stream_event) => {
            if state.in_flight() {
                match state.decoder.step(stream_event) {
                    Ok(_) => {},
                    Err(error) => {
                        lemma_refuse_keeps_well_formed(state, error);
                    },
                }
            }
        },
        TurnEvent::StreamFailed(detail) => {
            if state.in_flight() {
                lemma_fail_keeps_well_formed(
                    state,
                    crate::orchestrator::TurnErrorView::StreamReceive { detail: detail@ },
                );
            }
        },
        TurnEvent::StreamClosed => {
            if state.in_flight() {
                lemma_closed_keeps_well_formed(state);
            }
        },
        TurnEvent::ToolFinished(outcome) => {
            lemma_tool_payload_keeps_well_formed(state, payload_of(outcome));
        },
        TurnEvent::ErrorSurfaced => {},
    }
}

proof fn lemma_closed_keeps_well_formed(state: EngineView)
    requires
        state.well_formed(),
        state.in_flight(),
    ensures
        state.on_stream_closed().0.well_formed(),
{
    match state.decoder.finish() {
        Err(error) => {
            lemma_refuse_keeps_well_formed(state, error);
        },
        Ok(blocks) => {
            if blocks.len() == 0 {
                lemma_fail_keeps_well_formed(
                    state,
                    crate::orchestrator::TurnErrorView::AssistantMessage,
                );
            } else {
                let base = if state.continuation {
                    rolled_back(state.history)
                } else {
                    state.history
                };
                if state.continuation {
                    assert(base == state.history.drop_last());
                    assert(base.last() == state.history[state.history.len() - 2]);
                }
                lemma_reply_keeps_history_well_formed(
                    base,
                    crate::history::assistant_message(blocks),
                );
            }
        },
    }
}

/// Recording a tool's payload leaves a well-formed state well-formed.
pub proof fn lemma_tool_payload_keeps_well_formed(state: EngineView, payload: Seq<char>)
    requires
        state.well_formed(),
    ensures
        state.on_tool_payload(payload).0.well_formed(),
{
    if state.phase == Phase::ExecutingTools {
        let call = state.queue[0];
        let message = tool_result_message(call.id, payload);
        lemma_result_is_no_placeholder(call.id, payload);
        lemma_user_message_keeps_history_well_formed(state.history, message);
        let history = state.history.push(message);
        let rest = state.queue.remove(0);
        if rest.len() == 0 {
            let sent = history.push(placeholder());
            assert(sent.drop_last() =~= history);
            assert(sent[sent.len() - 2] == message);
        }
    }
}

/// Every run from a well-formed state ends in a well-formed state. So at
/// rest the history holds no empty message of the user's, and no two
/// messages of the assistant's stand next to each other.
pub proof fn lemma_run_keeps_well_formed(state: EngineView, events: Seq<TurnEvent>)
    requires
        state.well_formed(),
    ensures
        state.run(events).well_formed(),
        !state.run(events).in_flight() ==> history_well_formed(state.run(events).history),
    decreases events.len(),
{
    if events.len() > 0 {
        lemma_run_keeps_well_formed(state, events.drop_last());
        lemma_step_keeps_well_formed(state.run(events.drop_last()), events.last());
    }
}

/// How the indicator stands after `action`, when it stood `active` before
/// it; `None` where the action breaks the indicator's discipline: a start
/// while it runs, a cancellation while it does not, or text rendered while
/// it runs.
pub open spec fn indicator_step(active: bool, action: ActionView) -> Option<bool> {
    match action {
        ActionView::StartIndicator => if active {
            None
        } else {
            Some(true)
        },
        ActionView::CancelIndicator => if active {
            Some(false)
        } else {
            None
        },
        ActionView::Render(_) => if active {
            None
        } else {
            Some(false)
        },
        _ => Some(active),
    }
}

/// How the indicator stands after `actions`, taken in order, when it stood
/// `active` before them; `None` where one of them breaks its discipline.
pub open spec fn indicator_after(active: bool, actions: Seq<ActionView>) -> Option<bool>
    decreases actions.len(),
{
    if actions.len() == 0 {
        Some(active)
    } else {
        match indicator_after(active, actions.drop_last()) {
            Some(before) => indicator_step(before, actions.last()),
            None => None,
        }
    }
}

/// How many of `actions` start the indicator.
pub open spec fn count_starts(actions: Seq<ActionView>) -> nat
    decreases actions.len(),
{
    if actions.len() == 0 {
        0
    } else {
        count_starts(actions.drop_last()) + if actions.last() is StartIndicator {
            1nat
        } else {
            0nat
        }
    }
}

/// How many of `actions` cancel the indicator.
pub open spec fn count_cancels(actions: Seq<ActionView>) -> nat
    decreases actions.len(),
{
    if actions.len() == 0 {
        0
    } else {
        count_cancels(actions.drop_last()) + if actions.last() is CancelIndicator {
            1nat
        } else {
            0nat
        }
    }
}

proof fn lemma_indicator_after_push(active: bool, actions: Seq<ActionView>, action: ActionView)
    ensures
        indicator_after(active, actions.push(action)) == match indicator_after(active, actions) {
            Some(before) => indicator_step(before, action),
            None => None,
        },
{
    assert(actions.push(action).drop_last() =~= actions);
}

proof fn lemma_indicator_after_concat(
    active: bool,
    first: Seq<ActionView>,
    second: Seq<ActionView>,
)
    ensures
        indicator_after(active, first + second) == match indicator_after(active, first) {
            Some(between) => indicator_after(between, second),
            None => None,
        },
    decreases second.len(),
{
    if second.len() == 0 {
        assert(first + second =~= first);
    } else {
        assert((first + second).drop_last() =~= first + second.drop_last());
        lemma_indicator_after_concat(active, first, second.drop_last());
    }
}

/// Under the discipline starts and cancellations alternate, so their numbers
/// differ by what the indicator's state accounts for.
proof fn lemma_counts_balance(active: bool, actions: Seq<ActionView>)
    ensures
        indicator_after(active, actions) matches Some(end) ==> count_starts(actions) + (if active {
            1nat
        } else {
            0nat
        }) == count_cancels(actions) + (if end {
            1nat
        } else {
            0nat
        }),
    decreases actions.len(),
{
    if actions.len() > 0 {
        lemma_counts_balance(active, actions.drop_last());
    }
}

/// The actions of one step keep the indicator's discipline, whatever the
/// state and the event: the indicator is started only while stopped,
/// cancelled only while running, and text is rendered only while it is
/// stopped, so that a cancellation always comes before the first text.
pub proof fn lemma_step_keeps_indicator_discipline(state: EngineView, event: TurnEvent)
    ensures
        indicator_after(state.indicator, state.step(event).1) == Some(
            state.step(event).0.indicator,
        ),
{
    let actions = state.step(event).1;
    let none = Seq::<ActionView>::empty();
    lemma_cancellation_discipline(state);
    match event {
        TurnEvent::UserInput(text) => {
            if state.at_rest() && text@.len() > 0 {
                lemma_submit_discipline(state, text@, false);
            }
        },
        TurnEvent::SendFailed(error) => {
            if state.phase == Phase::AwaitingResponse {
                lemma_indicator_after_push(state.indicator, state.cancellation(), actions.last());
                assert(actions =~= state.cancellation().push(actions.last()));
            }
        },
        TurnEvent::Stream(stream_event) => {
            if state.in_flight() {
                if actions.len() > state.cancellation().len() {
                    lemma_indicator_after_push(
                        state.indicator,
                        state.cancellation(),
                        actions.last(),
                    );
                    assert(actions =~= state.cancellation().push(actions.last()));
                }
            }
        },
        TurnEvent::StreamFailed(detail) => {
            if state.in_flight() {
                lemma_indicator_after_push(state.indicator, state.cancellation(), actions.last());
                assert(actions =~= state.cancellation().push(actions.last()));
            }
        },
        TurnEvent::StreamClosed => {
            if state.in_flight() {
                if actions.len() > state.cancellation().len() {
                    lemma_indicator_after_push(
                        state.indicator,
                        state.cancellation(),
                        actions.last(),
                    );
                    assert(actions =~= state.cancellation().push(actions.last()));
                }
            }
        },
        TurnEvent::ErrorSurfaced => {},
        TurnEvent::ToolFinished(outcome) => {
            if state.phase == Phase::ExecutingTools && state.queue.len() > 0 {
                let rest = state.queue.remove(0);
                if rest.len() > 0 {
                    lemma_indicator_after_push(state.indicator, none, actions.last());
                    assert(actions =~= none.push(actions.last()));
                } else {
                    let history = state.history.push(
                        tool_result_message(state.queue[0].id, payload_of(outcome)),
                    );
                    let middle = EngineView {
                        model_id: state.model_id,
                        phase: state.phase,
                        history: history,
                        connected: state.connected,
                        decoder: state.decoder,
                        indicator: state.indicator,
                        continuation: state.continuation,
                        queue: rest,
                    };
                    lemma_submit_discipline(middle, Seq::empty(), true);
                }
            }
        },
    }
}

proof fn lemma_cancellation_discipline(state: EngineView)
    ensures
        indicator_after(state.indicator, state.cancellation()) == Some(false),
{
    let none = Seq::<ActionView>::empty();
    if state.indicator {
        lemma_indicator_after_push(state.indicator, none, ActionView::CancelIndicator);
        assert(state.cancellation() =~= none.push(ActionView::CancelIndicator));
    }
}

proof fn lemma_submit_discipline(state: EngineView, text: Seq<char>, continuation: bool)
    ensures
        indicator_after(state.indicator, state.submit(text, continuation).1) == Some(true),
{
    let none = Seq::<ActionView>::empty();
    let actions = state.submit(text, continuation).1;
    let send = actions[0];
    lemma_indicator_after_push(state.indicator, none, send);
    if state.indicator {
        assert(actions =~= none.push(send));
    } else {
        lemma_indicator_after_push(state.indicator, none.push(send), ActionView::StartIndicator);
        assert(actions =~= none.push(send).push(ActionView::StartIndicator));
    }
}

/// Over every run the indicator's discipline holds of all the actions taken
/// together, and the numbers of starts and of cancellations differ only by
/// an indicator that is running now or was running at the outset.
pub proof fn lemma_run_keeps_indicator_discipline(state: EngineView, events: Seq<TurnEvent>)
    ensures
        indicator_after(state.indicator, state.trace(events)) == Some(
            state.run(events).indicator,
        ),
        count_starts(state.trace(events)) + (if state.indicator {
            1nat
        } else {
            0nat
        }) == count_cancels(state.trace(events)) + (if state.run(events).indicator {
            1nat
        } else {
            0nat
        }),
    decreases events.len(),
{
    if events.len() > 0 {
        let before = state.run(events.drop_last());
        lemma_run_keeps_indicator_discipline(state, events.drop_last());
        lemma_step_keeps_indicator_discipline(before, events.last());
        lemma_indicator_after_concat(
            state.indicator,
            state.trace(events.drop_last()),
            before.step(events.last()).1,
        );
    }
    lemma_counts_balance(state.indicator, state.trace(events));
}

/// Every indicator that was started is cancelled exactly once: in a run of
/// a new orchestrator, starts and cancellations alternate, beginning with a
/// start; text is rendered only between a cancellation and the next start;
/// and whenever no request is waiting for its first event, there have been
/// as many cancellations as starts.
pub proof fn lemma_every_indicator_is_cancelled_once(
    model_id: Seq<char>,
    events: Seq<TurnEvent>,
)
    ensures
        ({
            let start = EngineView::initial(model_id);
            &&& indicator_after(false, start.trace(events)) is Some
            &&& start.run(events).phase != Phase::AwaitingResponse ==> count_cancels(
                start.trace(events),
            ) == count_starts(start.trace(events))
            &&& start.run(events).phase == Phase::AwaitingResponse ==> count_cancels(
                start.trace(events),
            ) + 1 == count_starts(start.trace(events))
        }),
{
    let start = EngineView::initial(model_id);
    lemma_initial_is_well_formed(model_id);
    lemma_run_keeps_well_formed(start, events);
    lemma_run_keeps_indicator_discipline(start, events);
}

/// The events that report the ends of tool calls with `outcomes`, in order.
pub open spec fn tool_events(outcomes: Seq<Result<String, AgentError>>) -> Seq<TurnEvent> {
    outcomes.map_values(|outcome: Result<String, AgentError>| TurnEvent::ToolFinished(outcome))
}

/// The events that hand on the stream events `events`, in order.
pub open spec fn stream_events(events: Seq<StreamEvent>) -> Seq<TurnEvent> {
    events.map_values(|event: StreamEvent| TurnEvent::Stream(event))
}

/// The messages that record the first `k` of `outcomes` for the calls of
/// `queue`, in order: one message per call.
pub open spec fn recorded_results(
    queue: Seq<ToolCallView>,
    outcomes: Seq<Result<String, AgentError>>,
    k: int,
) -> Seq<MessageView> {
    Seq::new(
        k as nat,
        |i: int| tool_result_message(queue[i].id, payload_of(outcomes[i])),
    )
}

/// Whether no event of `events` takes a run from `state` into `Failed`.
pub open spec fn avoids_failure(state: EngineView, events: Seq<TurnEvent>) -> bool {
    forall|k: int|
        1 <= k <= events.len() ==> (#[trigger] state.run(events.take(k))).phase != Phase::Failed
}

/// A run over two sequences of events, one after the other, is the run over
/// the second from where the first ends.
pub proof fn lemma_run_concat(state: EngineView, first: Seq<TurnEvent>, second: Seq<TurnEvent>)
    ensures
        state.run(first + second) == state.run(first).run(second),
    decreases second.len(),
{
    if second.len() == 0 {
        assert(first + second =~= first);
    } else {
        assert((first + second).drop_last() =~= first + second.drop_last());
        lemma_run_concat(state, first, second.drop_last());
    }
}

proof fn lemma_avoids_failure_concat(
    state: EngineView,
    first: Seq<TurnEvent>,
    second: Seq<TurnEvent>,
)
    requires
        avoids_failure(state, first),
        avoids_failure(state.run(first), second),
    ensures
        avoids_failure(state, first + second),
        state.run(first + second) == state.run(first).run(second),
{
    lemma_run_concat(state, first, second);
    let both = first + second;
    assert forall|k: int| 1 <= k <= both.len() implies (#[trigger] state.run(
        both.take(k),
    )).phase != Phase::Failed by {
        if k <= first.len() {
            assert(both.take(k) =~= first.take(k));
        } else {
            let j = k - first.len();
            assert(both.take(k) =~= first + second.take(j));
            lemma_run_concat(state, first, second.take(j));
            assert(state.run(first).run(second.take(j)).phase != Phase::Failed);
        }
    }
}

proof fn lemma_single_event(state: EngineView, event: TurnEvent)
    ensures
        state.run(seq![event]) == state.step(event).0,
        state.step(event).0.phase != Phase::Failed ==> avoids_failure(state, seq![event]),
{
    let events = seq![event];
    assert(events.drop_last() =~= Seq::<TurnEvent>::empty());
    assert(state.run(events.drop_last()) == state);
    assert forall|k: int| 1 <= k <= events.len() implies (#[trigger] state.run(
        events.take(k),
    )).phase == state.step(event).0.phase by {
        assert(events.take(k) =~= events);
    }
}

/// While the stream's events decode, the orchestrator hands each to the
/// decoder and nothing else changes but that the first one ends the wait.
pub proof fn lemma_streaming_follows_decoder(state: EngineView, events: Seq<StreamEvent>)
    requires
        state.in_flight(),
        state.decoder.run(events) is Ok,
    ensures
        state.run(stream_events(events)) == (if events.len() == 0 {
            state
        } else {
            EngineView {
                model_id: state.model_id,
                phase: Phase::Decoding,
                decoder: state.decoder.run(events)->Ok_0,
                indicator: false,
                ..state
            }
        }),
        avoids_failure(state, stream_events(events)),
    decreases events.len(),
{
    let turn_events = stream_events(events);
    if events.len() > 0 {
        assert(turn_events.drop_last() =~= stream_events(events.drop_last()));
        lemma_streaming_follows_decoder(state, events.drop_last());
        let before = state.run(stream_events(events.drop_last()));
        assert(before.in_flight());
        assert(before.decoder == state.decoder.run(events.drop_last())->Ok_0);
        assert(state.run(turn_events) == before.step(turn_events.last()).0);
        assert forall|k: int| 1 <= k <= turn_events.len() implies (#[trigger] state.run(
            turn_events.take(k),
        )).phase != Phase::Failed by {
            if k < turn_events.len() {
                assert(turn_events.take(k) =~= stream_events(events.drop_last()).take(k));
            } else {
                assert(turn_events.take(k) =~= turn_events);
            }
        }
    } else {
        assert(turn_events =~= Seq::<TurnEvent>::empty());
    }
}

/// A round of tool calls runs to its end whatever the tools do: each outcome
/// is recorded in the history as one message, in the order of the calls, a
/// failure as its error payload; no earlier message is lost; the turn is
/// never aborted; and after the last outcome the follow-up request is out.
pub proof fn lemma_tool_round_completes(
    state: EngineView,
    outcomes: Seq<Result<String, AgentError>>,
)
    requires
        state.well_formed(),
        state.phase == Phase::ExecutingTools,
        outcomes.len() == state.queue.len(),
    ensures
        avoids_failure(state, tool_events(outcomes)),
        state.run(tool_events(outcomes)) == (EngineView {
            model_id: state.model_id,
            phase: Phase::AwaitingResponse,
            history: (state.history + recorded_results(
                state.queue,
                outcomes,
                outcomes.len() as int,
            )).push(placeholder()),
            connected: state.connected,
            decoder: DecoderView::fresh(),
            indicator: true,
            continuation: true,
            queue: Seq::empty(),
        }),
{
    let n = outcomes.len() as int;
    let events = tool_events(outcomes);
    lemma_tool_round_progress(state, outcomes, n - 1);
    assert(events.take(n) =~= events);
    assert(events.drop_last() =~= events.take(n - 1));
    let before = state.run(events.take(n - 1));
    assert(before.queue =~= state.queue.skip(n - 1));
    assert(before.queue.remove(0) =~= Seq::<ToolCallView>::empty());
    assert(recorded_results(state.queue, outcomes, n - 1).push(
        tool_result_message(state.queue[n - 1].id, payload_of(outcomes[n - 1])),
    ) =~= recorded_results(state.queue, outcomes, n));
    assert((state.history + recorded_results(state.queue, outcomes, n - 1)).push(
        tool_result_message(state.queue[n - 1].id, payload_of(outcomes[n - 1])),
    ) =~= state.history + recorded_results(state.queue, outcomes, n));
    assert forall|k: int| 1 <= k <= events.len() implies (#[trigger] state.run(
        events.take(k),
    )).phase != Phase::Failed by {
        if k < n {
            lemma_tool_round_progress(state, outcomes, k);
        }
    }
}

/// Where a round of tool calls stands after the first `k` outcomes, for `k`
/// short of the last: the calls not yet answered are still queued.
proof fn lemma_tool_round_progress(
    state: EngineView,
    outcomes: Seq<Result<String, AgentError>>,
    k: int,
)
    requires
        state.well_formed(),
        state.phase == Phase::ExecutingTools,
        outcomes.len() == state.queue.len(),
        0 <= k < outcomes.len(),
    ensures
        state.run(tool_events(outcomes).take(k)) == (EngineView {
            history: state.history + recorded_results(state.queue, outcomes, k),
            queue: state.queue.skip(k),
            ..state
        }),
    decreases k,
{
    let events = tool_events(outcomes);
    if k == 0 {
        assert(events.take(0) =~= Seq::<TurnEvent>::empty());
        assert(state.history + recorded_results(state.queue, outcomes, 0) =~= state.history);
        assert(state.queue.skip(0) =~= state.queue);
    } else {
        lemma_tool_round_progress(state, outcomes, k - 1);
        assert(events.take(k).drop_last() =~= events.take(k - 1));
        assert(events.take(k).last() == TurnEvent::ToolFinished(outcomes[k - 1]));
        let before = state.run(events.take(k - 1));
        assert(before.queue[0] == state.queue[k - 1]);
        assert(before.queue.remove(0) =~= state.queue.skip(k));
        assert(before.history.push(
            tool_result_message(state.queue[k - 1].id, payload_of(outcomes[k - 1])),
        ) =~= state.history + recorded_results(state.queue, outcomes, k));
    }
}

/// Tools are run one at a time, in the order of the blocks that ask for
/// them: the end of each call but the last calls for the next call and for
/// nothing else.
pub proof fn lemma_tools_are_called_in_order(
    state: EngineView,
    outcomes: Seq<Result<String, AgentError>>,
    k: int,
)
    requires
        state.well_formed(),
        state.phase == Phase::ExecutingTools,
        outcomes.len() == state.queue.len(),
        0 <= k < outcomes.len() - 1,
    ensures
        state.run(tool_events(outcomes).take(k)).step(TurnEvent::ToolFinished(outcomes[k])).1
            == seq![ActionView::InvokeTool(state.queue[k + 1])],
{
    lemma_tool_round_progress(state, outcomes, k);
    let before = state.run(tool_events(outcomes).take(k));
    assert(before.queue =~= state.queue.skip(k));
    assert(before.queue.remove(0) =~= state.queue.skip(k + 1));
    assert(before.queue.remove(0)[0] == state.queue[k + 1]);
}

/// A tool that fails does not abort the turn: the failed call is recorded as
/// the tool result `{"error": message}` behind everything the history held,
/// and the orchestrator goes on, to the next call or to the follow-up
/// request.
pub proof fn lemma_tool_failure_is_recorded(state: EngineView, error: AgentError)
    requires
        state.well_formed(),
        state.phase == Phase::ExecutingTools,
    ensures
        ({
            let next = state.step(TurnEvent::ToolFinished(Err(error))).0;
            let recorded = state.history.push(
                tool_result_message(
                    state.queue[0].id,
                    json_member_text("error"@, error.message_spec()),
                ),
            );
            &&& next.phase == Phase::ExecutingTools || next.phase == Phase::AwaitingResponse
            &&& next.settled_history() == recorded
        }),
{
    let recorded = state.history.push(
        tool_result_message(state.queue[0].id, json_member_text("error"@, error.message_spec())),
    );
    assert(recorded.push(placeholder()).drop_last() =~= recorded);
}

/// A turn whose tools all fail still completes. From rest, with a provider
/// attached: the user's line goes out; the reply decodes to blocks that ask
/// for tools; every call fails; the follow-up reply decodes to blocks that
/// ask for none. The run ends `Idle`, it never passes through `Failed`, and
/// the history has gained, in order, the user's message, the assistant's
/// request, one error result per call, and the assistant's answer: no
/// message is dropped and no empty message stays behind.
pub proof fn lemma_failing_tools_reach_idle(
    start: EngineView,
    input: String,
    reply: Seq<StreamEvent>,
    outcomes: Seq<Result<String, AgentError>>,
    follow_up: Seq<StreamEvent>,
)
    requires
        start.well_formed(),
        start.at_rest(),
        start.connected,
        input@.len() > 0,
        forall|i: int| 0 <= i < outcomes.len() ==> (#[trigger] outcomes[i]) is Err,
        decode_spec(reply) is Ok,
        planned_calls(decode_spec(reply)->Ok_0).len() == outcomes.len(),
        outcomes.len() > 0,
        decode_spec(follow_up) is Ok,
        decode_spec(follow_up)->Ok_0.len() > 0,
        planned_calls(decode_spec(follow_up)->Ok_0).len() == 0,
    ensures
        ({
            let events = seq![TurnEvent::UserInput(input)] + stream_events(reply)
                + seq![TurnEvent::StreamClosed] + tool_events(outcomes) + stream_events(follow_up)
                + seq![TurnEvent::StreamClosed];
            &&& start.run(events).phase == Phase::Idle
            &&& avoids_failure(start, events)
            &&& start.run(events).history == (start.history.push(
                user_text_message(input@),
            ).push(assistant_message(decode_spec(reply)->Ok_0)) + recorded_results(
                planned_calls(decode_spec(reply)->Ok_0),
                outcomes,
                outcomes.len() as int,
            )).push(assistant_message(decode_spec(follow_up)->Ok_0))
        }),
{
    let e1 = seq![TurnEvent::UserInput(input)];
    let e2 = stream_events(reply);
    let e3 = seq![TurnEvent::StreamClosed];
    let e4 = tool_events(outcomes);
    let e5 = stream_events(follow_up);
    let e6 = seq![TurnEvent::StreamClosed];

    let s1 = start.step(TurnEvent::UserInput(input)).0;
    lemma_single_event(start, TurnEvent::UserInput(input));
    lemma_step_keeps_well_formed(start, TurnEvent::UserInput(input));

    lemma_streaming_follows_decoder(s1, reply);
    let s2 = s1.run(e2);
    lemma_run_keeps_well_formed(s1, e2);
    lemma_avoids_failure_concat(start, e1, e2);

    let s3 = s2.step(TurnEvent::StreamClosed).0;
    lemma_single_event(s2, TurnEvent::StreamClosed);
    lemma_step_keeps_well_formed(s2, TurnEvent::StreamClosed);
    assert(s2.decoder.finish() == decode_spec(reply));
    assert(s3.phase == Phase::ExecutingTools);
    lemma_avoids_failure_concat(start, e1 + e2, e3);

    lemma_tool_round_completes(s3, outcomes);
    let s4 = s3.run(e4);
    lemma_run_keeps_well_formed(s3, e4);
    lemma_avoids_failure_concat(start, e1 + e2 + e3, e4);

    lemma_streaming_follows_decoder(s4, follow_up);
    let s5 = s4.run(e5);
    lemma_run_keeps_well_formed(s4, e5);
    lemma_avoids_failure_concat(start, e1 + e2 + e3 + e4, e5);

    let s6 = s5.step(TurnEvent::StreamClosed).0;
    lemma_single_event(s5, TurnEvent::StreamClosed);
    assert(s5.decoder.finish() == decode_spec(follow_up));
    assert(s5.history == s4.history);
    assert(rolled_back(s4.history) =~= s3.history + recorded_results(
        s3.queue,
        outcomes,
        outcomes.len() as int,
    ));
    assert(s6.phase == Phase::Idle);
    lemma_avoids_failure_concat(start, e1 + e2 + e3 + e4 + e5, e6);
}

/// The history loses nothing but its last message, and that one only if it
/// has the user's role: whatever the event, the history as it was, without
/// such a last message, is the beginning of the history as it is.
pub proof fn lemma_step_loses_at_most_the_last_user_message(state: EngineView, event: TurnEvent)
    ensures
        rolled_back(state.history).is_prefix_of(state.step(event).0.history),
        !state.history.is_prefix_of(state.step(event).0.history) ==> state.history.len() > 0
            && state.history.last().role == Role::User,
{
    let next = state.step(event).0;
    assert(rolled_back(state.history).is_prefix_of(state.history));
    assert(state.history.is_prefix_of(state.history));
    match event {
        TurnEvent::UserInput(text) => {},
        TurnEvent::SendFailed(error) => {},
        TurnEvent::Stream(stream_event) => {},
        TurnEvent::StreamFailed(detail) => {},
        TurnEvent::StreamClosed => {},
        TurnEvent::ToolFinished(outcome) => {
            if state.phase == Phase::ExecutingTools && state.queue.len() > 0 {
                let recorded = state.history.push(
                    tool_result_message(state.queue[0].id, payload_of(outcome)),
                );
                assert(state.history.is_prefix_of(recorded));
                assert(recorded.is_prefix_of(recorded.push(placeholder())));
            }
        },
        TurnEvent::ErrorSurfaced => {},
    }
}

/// Whether `event` brings the decoder of `state` to refuse the reply that
/// is arriving: a stream event that it cannot take, or the end of a stream
/// that leaves a tool call with arguments that are not JSON.
pub open spec fn refuses_reply(state: EngineView, event: TurnEvent) -> bool {
    state.in_flight() && match event {
        TurnEvent::Stream(stream_event) => state.decoder.step(stream_event) is Err,
        TurnEvent::StreamClosed => state.decoder.finish() is Err,
        _ => false,
    }
}

/// A reply that cannot be decoded aborts the turn and leaves the history as
/// it is: no message of the assistant's is committed, no tool is called, and
/// the user's message stays. Only the empty message that stood for a
/// follow-up request is taken back.
pub proof fn lemma_decode_error_keeps_the_history(state: EngineView, event: TurnEvent)
    requires
        state.well_formed(),
        refuses_reply(state, event),
    ensures
        state.step(event).0.phase == Phase::Failed,
        state.step(event).0.history == state.settled_history(),
        !state.continuation ==> state.step(event).0.history == state.history,
        forall|i: int|
            0 <= i < state.step(event).1.len() ==> !(#[trigger] state.step(event).1[i]
                is InvokeTool),
{
    if state.continuation {
        assert(rolled_back(state.history) == state.history.drop_last());
    }
}

/// An aborted turn commits nothing: the step that aborts it appends no
/// message. Where the reply could not be decoded the history stays as it
/// is, but for the empty follow-up message; where the request failed or the
/// reply held nothing, the message that was waiting for a reply is taken
/// back.
pub proof fn lemma_abort_commits_nothing(state: EngineView, event: TurnEvent)
    requires
        state.phase != Phase::Failed,
        state.step(event).0.phase == Phase::Failed,
    ensures
        state.step(event).0.history == (if refuses_reply(state, event) && !state.continuation {
            state.history
        } else {
            rolled_back(state.history)
        }),
{
}

/// Every request carries the whole history as it stands when the request
/// goes out, to the model of the orchestrator.
pub proof fn lemma_requests_carry_the_whole_history(state: EngineView, event: TurnEvent, i: int)
    requires
        0 <= i < state.step(event).1.len(),
        state.step(event).1[i] is SendRequest,
    ensures
        state.step(event).1[i] == ActionView::SendRequest(
            request_for(state.model_id, state.step(event).0.history),
        ),
{
}

} // verus!
