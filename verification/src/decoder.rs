//! The turn decoder: it assembles the wire events of one streamed reply into
//! an ordered list of content blocks. Text and tool calls may alternate freely
//! within a reply; blocks come out in the order in which they were closed.

use vstd::prelude::*;
use crate::content::{blocks_view, ContentBlock, ContentBlockView};
use crate::json::{is_well_formed, json_well_formed};

verus! {

/// The kind of block that a `Start` event opens.
#[derive(Debug, PartialEq, Eq)]
pub enum BlockStart {
    Text,
    ToolUse { id: String, name: String },
    /// A kind this decoder does not know; it opens nothing.
    Other,
}

/// A fragment of the block that is open.
#[derive(Debug, PartialEq, Eq)]
pub enum Delta {
    Text(String),
    /// A piece of the JSON text of a tool call's arguments.
    ToolInput(String),
}

/// One incremental unit of a streamed reply.
#[derive(Debug, PartialEq, Eq)]
pub enum StreamEvent {
    Start(BlockStart),
    Delta(Delta),
    Stop,
    /// Any other wire event; it carries no content.
    Other,
}

/// Why a reply could not be decoded: the arguments of the tool call `id` were
/// not JSON when the call was closed.
#[derive(Debug, PartialEq, Eq)]
pub struct ToolInputDecodeError {
    pub id: String,
    pub name: String,
    pub input: String,
}

/// The value of a [`ToolInputDecodeError`].
pub struct ToolInputDecodeErrorView {
    pub id: Seq<char>,
    pub name: Seq<char>,
    pub input: Seq<char>,
}

impl View for ToolInputDecodeError {
    type V = ToolInputDecodeErrorView;

    open spec fn view(&self) -> ToolInputDecodeErrorView {
        ToolInputDecodeErrorView { id: self.id@, name: self.name@, input: self.input@ }
    }
}

/// A tool call whose arguments are still arriving.
pub struct PendingToolCall {
    pub id: String,
    pub name: String,
    pub input_buffer: String,
}

/// The value of a [`PendingToolCall`].
pub struct PendingView {
    pub id: Seq<char>,
    pub name: Seq<char>,
    pub input_buffer: Seq<char>,
}

impl View for PendingToolCall {
    type V = PendingView;

    open spec fn view(&self) -> PendingView {
        PendingView { id: self.id@, name: self.name@, input_buffer: self.input_buffer@ }
    }
}

/// The decoder's state as a mathematical value, and the rules that move it.
pub struct DecoderView {
    /// Text received since the last flush.
    pub text: Seq<char>,
    /// The tool call that is open, if any.
    pub pending: Option<PendingView>,
    /// The blocks closed so far.
    pub output: Seq<ContentBlockView>,
}

impl DecoderView {
    /// The state before any event.
    pub open spec fn fresh() -> DecoderView {
        DecoderView { text: Seq::empty(), pending: None, output: Seq::empty() }
    }

    /// Moves the text received so far, if there is any, to the output.
    pub open spec fn flush_text(self) -> DecoderView {
        if self.text.len() > 0 {
            DecoderView {
                text: Seq::empty(),
                pending: self.pending,
                output: self.output.push(ContentBlockView::Text(self.text)),
            }
        } else {
            self
        }
    }

    /// The state after one event, or the error that aborts the decode.
    ///
    /// A `Start` of a tool call opens it, replacing a call that was still
    /// open. Fragments extend the text or the open call's arguments; a
    /// fragment of arguments with no call open is dropped. `Stop` flushes the
    /// text, then closes the open call: its arguments must be JSON.
    pub open spec fn step(self, event: StreamEvent) -> Result<
        DecoderView,
        ToolInputDecodeErrorView,
    > {
        match event {
            StreamEvent::Start(BlockStart::ToolUse { id, name }) => Ok(
                DecoderView {
                    pending: Some(
                        PendingView { id: id@, name: name@, input_buffer: Seq::empty() },
                    ),
                    ..self
                },
            ),
            StreamEvent::Start(_) => Ok(self),
            StreamEvent::Delta(Delta::Text(fragment)) => Ok(
                DecoderView { text: self.text + fragment@, ..self },
            ),
            StreamEvent::Delta(Delta::ToolInput(fragment)) => match self.pending {
                Some(call) => Ok(
                    DecoderView {
                        pending: Some(
                            PendingView { input_buffer: call.input_buffer + fragment@, ..call },
                        ),
                        ..self
                    },
                ),
                None => Ok(self),
            },
            StreamEvent::Stop => self.close(self.pending_is_json()),
            StreamEvent::Other => Ok(self),
        }
    }

    /// Whether a call is open whose arguments, as far as they have arrived,
    /// are one well-formed JSON value.
    pub open spec fn pending_is_json(self) -> bool {
        match self.pending {
            Some(call) => json_well_formed(call.input_buffer),
            None => false,
        }
    }

    /// The state after a `Stop`, given whether the open call's arguments are
    /// JSON: the text is flushed, and the open call becomes a tool-use block
    /// behind it, or the error that aborts the decode.
    pub open spec fn close(self, input_is_json: bool) -> Result<
        DecoderView,
        ToolInputDecodeErrorView,
    > {
        let flushed = self.flush_text();
        match flushed.pending {
            Some(call) => if input_is_json {
                Ok(
                    DecoderView {
                        text: flushed.text,
                        pending: None,
                        output: flushed.output.push(
                            ContentBlockView::ToolUse {
                                id: call.id,
                                name: call.name,
                                input: call.input_buffer,
                            },
                        ),
                    },
                )
            } else {
                Err(
                    ToolInputDecodeErrorView {
                        id: call.id,
                        name: call.name,
                        input: call.input_buffer,
                    },
                )
            },
            None => Ok(flushed),
        }
    }

    /// The blocks of the reply once the stream has ended, given whether the
    /// open call's arguments are JSON. Text that no `Stop` flushed becomes a
    /// trailing block. A call that is still open is dropped, unless arguments
    /// have arrived for it that are not JSON: that is an error.
    pub open spec fn end(self, input_is_json: bool) -> Result<
        Seq<ContentBlockView>,
        ToolInputDecodeErrorView,
    > {
        match self.pending {
            Some(call) if call.input_buffer.len() > 0 && !input_is_json => Err(
                ToolInputDecodeErrorView {
                    id: call.id,
                    name: call.name,
                    input: call.input_buffer,
                },
            ),
            _ => Ok(self.flush_text().output),
        }
    }

    /// The blocks of the reply once the stream has ended.
    pub open spec fn finish(self) -> Result<Seq<ContentBlockView>, ToolInputDecodeErrorView> {
        self.end(self.pending_is_json())
    }

    /// The state after a sequence of events, taken in order; the first error
    /// ends the run.
    pub open spec fn run(self, events: Seq<StreamEvent>) -> Result<
        DecoderView,
        ToolInputDecodeErrorView,
    >
        decreases events.len(),
    {
        if events.len() == 0 {
            Ok(self)
        } else {
            match self.run(events.drop_last()) {
                Ok(state) => state.step(events.last()),
                Err(error) => Err(error),
            }
        }
    }
}

/// The blocks that a whole stream of events decodes to.
pub open spec fn decode_spec(events: Seq<StreamEvent>) -> Result<
    Seq<ContentBlockView>,
    ToolInputDecodeErrorView,
> {
    match DecoderView::fresh().run(events) {
        Ok(state) => state.finish(),
        Err(error) => Err(error),
    }
}

/// The stateful assembler of one reply. A new one is made for every turn.
pub struct TurnDecoder {
    current_text: String,
    pending: Option<PendingToolCall>,
    output: Vec<ContentBlock>,
}

impl View for TurnDecoder {
    type V = DecoderView;

    closed spec fn view(&self) -> DecoderView {
        DecoderView {
            text: self.current_text@,
            pending: match self.pending {
                Some(call) => Some(call@),
                None => None,
            },
            output: blocks_view(self.output@),
        }
    }
}

impl TurnDecoder {
    /// A decoder that has seen no event.
    pub fn new() -> (decoder: Self)
        ensures
            decoder@ == DecoderView::fresh(),
    {
        let decoder = TurnDecoder { current_text: String::new(), pending: None, output: Vec::new() };
        assert(blocks_view(decoder.output@) =~= Seq::<ContentBlockView>::empty());
        decoder
    }

    /// Moves the text received so far, if there is any, to the output.
    fn flush_text(&mut self)
        ensures
            final(self)@ == old(self)@.flush_text(),
    {
        if !self.current_text.as_str().is_empty() {
            let mut text = String::new();
            core::mem::swap(&mut self.current_text, &mut text);
            self.output.push(ContentBlock::Text(text));
            assert(blocks_view(self.output@) =~= blocks_view(old(self).output@).push(
                ContentBlockView::Text(old(self).current_text@),
            ));
        }
    }

    /// Feeds one event to the decoder. On an error the decoder is left as new:
    /// nothing of the aborted reply stays in it.
    pub fn push_event(&mut self, event: &StreamEvent) -> (result: Result<
        (),
        ToolInputDecodeError,
    >)
        ensures
            match old(self)@.step(*event) {
                Ok(next) => result is Ok && final(self)@ == next,
                Err(error) => result matches Err(e) && e@ == error && final(self)@
                    == DecoderView::fresh(),
            },
    {
        match event {
            StreamEvent::Start(BlockStart::ToolUse { id, name }) => {
                self.pending = Some(
                    PendingToolCall {
                        id: id.clone(),
                        name: name.clone(),
                        input_buffer: String::new(),
                    },
                );
                Ok(())
            },
            StreamEvent::Start(_) => Ok(()),
            StreamEvent::Delta(Delta::Text(fragment)) => {
                self.current_text.append(fragment.as_str());
                Ok(())
            },
            StreamEvent::Delta(Delta::ToolInput(fragment)) => {
                match self.pending.take() {
                    Some(mut call) => {
                        call.input_buffer.append(fragment.as_str());
                        self.pending = Some(call);
                    },
                    None => {},
                }
                Ok(())
            },
            StreamEvent::Stop => {
                let input_is_json = self.pending_is_json();
                self.stop_with(input_is_json)
            },
            StreamEvent::Other => Ok(()),
        }
    }

    /// Whether a call is open whose arguments, as far as they have arrived,
    /// are one well-formed JSON value.
    pub fn pending_is_json(&self) -> (yes: bool)
        ensures
            yes == self@.pending_is_json(),
    {
        match &self.pending {
            Some(call) => is_well_formed(call.input_buffer.as_str()),
            None => false,
        }
    }

    /// Takes a `Stop`, given whether the open call's arguments are JSON. On an
    /// error the decoder is left as new.
    pub fn stop_with(&mut self, input_is_json: bool) -> (result: Result<(), ToolInputDecodeError>)
        ensures
            match old(self)@.close(input_is_json) {
                Ok(next) => result is Ok && final(self)@ == next,
                Err(error) => result matches Err(e) && e@ == error && final(self)@
                    == DecoderView::fresh(),
            },
    {
        self.flush_text();
        match self.pending.take() {
            Some(call) => {
                if input_is_json {
                    let ghost before = self.output@;
                    self.output.push(
                        ContentBlock::ToolUse {
                            id: call.id,
                            name: call.name,
                            input: call.input_buffer,
                        },
                    );
                    assert(blocks_view(self.output@) =~= blocks_view(before).push(
                        ContentBlockView::ToolUse {
                            id: call.id@,
                            name: call.name@,
                            input: call.input_buffer@,
                        },
                    ));
                    Ok(())
                } else {
                    *self = TurnDecoder::new();
                    Err(
                        ToolInputDecodeError {
                            id: call.id,
                            name: call.name,
                            input: call.input_buffer,
                        },
                    )
                }
            },
            None => Ok(()),
        }
    }

    /// Ends the reply and hands out its blocks, given whether the open call's
    /// arguments are JSON.
    pub fn finish_with(self, input_is_json: bool) -> (result: Result<
        Vec<ContentBlock>,
        ToolInputDecodeError,
    >)
        ensures
            match self@.end(input_is_json) {
                Ok(blocks) => result matches Ok(b) && blocks_view(b@) == blocks,
                Err(error) => result matches Err(e) && e@ == error,
            },
    {
        let mut decoder = self;
        match decoder.pending.take() {
            Some(call) => {
                if !call.input_buffer.as_str().is_empty() && !input_is_json {
                    return Err(
                        ToolInputDecodeError {
                            id: call.id,
                            name: call.name,
                            input: call.input_buffer,
                        },
                    );
                }
            },
            None => {},
        }
        decoder.flush_text();
        Ok(decoder.output)
    }

    /// Ends the reply and hands out its blocks.
    pub fn finish(self) -> (result: Result<Vec<ContentBlock>, ToolInputDecodeError>)
        ensures
            match self@.finish() {
                Ok(blocks) => result matches Ok(b) && blocks_view(b@) == blocks,
                Err(error) => result matches Err(e) && e@ == error,
            },
    {
        let input_is_json = self.pending_is_json();
        self.finish_with(input_is_json)
    }
}

/// Decodes one whole reply: the events in order, then the end of the stream.
pub fn decode(events: &Vec<StreamEvent>) -> (result: Result<
    Vec<ContentBlock>,
    ToolInputDecodeError,
>)
    ensures
        match decode_spec(events@) {
            Ok(blocks) => result matches Ok(b) && blocks_view(b@) == blocks,
            Err(error) => result matches Err(e) && e@ == error,
        },
{
    let mut decoder = TurnDecoder::new();
    let mut i: usize = 0;
    assert(events@.take(0) =~= Seq::<StreamEvent>::empty());
    while i < events.len()
        invariant
            i <= events.len(),
            DecoderView::fresh().run(events@.take(i as int)) == Ok::<
                DecoderView,
                ToolInputDecodeErrorView,
            >(decoder@),
        decreases events.len() - i,
    {
        assert(events@.take(i + 1).drop_last() =~= events@.take(i as int));
        assert(events@.take(i + 1).last() == events@[i as int]);
        match decoder.push_event(&events[i]) {
            Ok(()) => {},
            Err(error) => {
                proof {
                    lemma_run_error_is_final(DecoderView::fresh(), events@, i + 1);
                }
                return Err(error);
            },
        }
        i += 1;
    }
    assert(events@.take(i as int) =~= events@);
    decoder.finish()
}

/// Only a `Stop` closes blocks: any other event leaves the output as it was
/// and cannot fail.
pub proof fn lemma_only_stop_closes_blocks(state: DecoderView, event: StreamEvent)
    requires
        !(event is Stop),
    ensures
        state.step(event) matches Ok(next) && next.output == state.output,
{
}

/// A `Stop` keeps every block that was closed before it and puts what it
/// closes behind them: the text first, then the tool call.
pub proof fn lemma_stop_appends(state: DecoderView)
    ensures
        state.step(StreamEvent::Stop) matches Ok(next) ==> state.output.is_prefix_of(
            next.output,
        ),
{
    if let Ok(next) = state.step(StreamEvent::Stop) {
        let flushed = state.flush_text();
        assert(state.output.is_prefix_of(flushed.output));
        assert(flushed.output.is_prefix_of(next.output));
    }
}

/// Decoding preserves order: the blocks closed by the first `i` events are the
/// first blocks after the first `j` events, for every `i <= j`. A block, once
/// closed, keeps its place, and later blocks come behind it.
pub proof fn lemma_output_grows_at_its_end(
    start: DecoderView,
    events: Seq<StreamEvent>,
    i: int,
    j: int,
)
    requires
        0 <= i <= j <= events.len(),
    ensures
        start.run(events.take(j)) matches Ok(later) ==> (start.run(events.take(i)) matches Ok(
            earlier,
        ) && earlier.output.is_prefix_of(later.output)),
    decreases j - i,
{
    if i < j {
        if let Ok(later) = start.run(events.take(j)) {
            assert(events.take(j).drop_last() =~= events.take(j - 1));
            let before = start.run(events.take(j - 1))->Ok_0;
            lemma_output_grows_at_its_end(start, events, i, j - 1);
            let event = events.take(j).last();
            if event is Stop {
                lemma_stop_appends(before);
            } else {
                lemma_only_stop_closes_blocks(before, event);
            }
        }
    }
}

/// The end of the stream keeps every block that was closed and adds at most
/// the trailing text.
pub proof fn lemma_finish_keeps_output(state: DecoderView)
    ensures
        state.finish() matches Ok(blocks) ==> state.output.is_prefix_of(blocks),
{
}

/// The blocks of a decoded reply stand in the order in which they were
/// closed: what the first `i` events had closed are the reply's first blocks.
pub proof fn lemma_decode_preserves_order(events: Seq<StreamEvent>, i: int)
    requires
        0 <= i <= events.len(),
    ensures
        decode_spec(events) matches Ok(blocks) ==> (DecoderView::fresh().run(
            events.take(i),
        ) matches Ok(earlier) && earlier.output.is_prefix_of(blocks)),
{
    if let Ok(blocks) = decode_spec(events) {
        assert(events.take(events.len() as int) =~= events);
        lemma_output_grows_at_its_end(DecoderView::fresh(), events, i, events.len() as int);
        let last = DecoderView::fresh().run(events)->Ok_0;
        lemma_finish_keeps_output(last);
    }
}

/// Whether every tool-use block among `blocks` carries well-formed JSON as
/// its input.
pub open spec fn inputs_are_json(blocks: Seq<ContentBlockView>) -> bool {
    forall|i: int|
        0 <= i < blocks.len() ==> (#[trigger] blocks[i] matches ContentBlockView::ToolUse {
            input,
            ..
        } ==> json_well_formed(input))
}

proof fn lemma_step_keeps_inputs_json(state: DecoderView, event: StreamEvent)
    requires
        inputs_are_json(state.output),
    ensures
        state.step(event) matches Ok(next) ==> inputs_are_json(next.output),
{
    if let Ok(next) = state.step(event) {
        let flushed = state.flush_text();
        assert forall|i: int| 0 <= i < flushed.output.len() implies (
        #[trigger] flushed.output[i] matches ContentBlockView::ToolUse { input, .. }
            ==> json_well_formed(input)) by {
            if i < state.output.len() {
                assert(flushed.output[i] == state.output[i]);
            }
        }
        assert forall|i: int| 0 <= i < next.output.len() implies (
        #[trigger] next.output[i] matches ContentBlockView::ToolUse { input, .. }
            ==> json_well_formed(input)) by {
            if event is Stop {
                if i < flushed.output.len() {
                    assert(next.output[i] == flushed.output[i]);
                }
            } else {
                assert(next.output[i] == state.output[i]);
            }
        }
    }
}

/// Every tool call that the decoder hands out carries well-formed JSON as
/// its input: a call whose arguments are not JSON fails the decode instead.
pub proof fn lemma_decoded_inputs_are_json(events: Seq<StreamEvent>)
    ensures
        decode_spec(events) matches Ok(blocks) ==> inputs_are_json(blocks),
{
    lemma_run_keeps_inputs_json(DecoderView::fresh(), events);
    if let Ok(state) = DecoderView::fresh().run(events) {
        if let Ok(blocks) = state.finish() {
            assert forall|i: int| 0 <= i < blocks.len() implies (
            #[trigger] blocks[i] matches ContentBlockView::ToolUse { input, .. }
                ==> json_well_formed(input)) by {
                if i < state.output.len() {
                    assert(blocks[i] == state.output[i]);
                }
            }
        }
    }
}

proof fn lemma_run_keeps_inputs_json(start: DecoderView, events: Seq<StreamEvent>)
    requires
        inputs_are_json(start.output),
    ensures
        start.run(events) matches Ok(state) ==> inputs_are_json(state.output),
    decreases events.len(),
{
    if events.len() > 0 {
        lemma_run_keeps_inputs_json(start, events.drop_last());
        if let Ok(before) = start.run(events.drop_last()) {
            lemma_step_keeps_inputs_json(before, events.last());
        }
    }
}

/// Once a prefix of the events has failed, the whole run fails with the same
/// error.
pub proof fn lemma_run_error_is_final(start: DecoderView, events: Seq<StreamEvent>, n: int)
    requires
        0 <= n <= events.len(),
        start.run(events.take(n)) is Err,
    ensures
        start.run(events) == start.run(events.take(n)),
    decreases events.len(),
{
    if n < events.len() {
        assert(events.drop_last().take(n) =~= events.take(n));
        lemma_run_error_is_final(start, events.drop_last(), n);
    } else {
        assert(events.take(n) =~= events);
    }
}

} // verus!
