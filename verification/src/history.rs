//! The conversation history: an ordered log of messages that grows at its end
//! and gives up only its last message, and that one only if the user wrote it.

use vstd::prelude::*;
use crate::content::{
    blocks_view, clone_messages, messages_view, ContentBlock, ContentBlockView, Message,
    MessageView, Role,
};
use crate::error::AgentError;

verus! {

/// The user's message that holds `text` alone.
pub open spec fn user_text_message(text: Seq<char>) -> MessageView {
    MessageView { role: Role::User, blocks: seq![ContentBlockView::Text(text)] }
}

/// The message that carries the outcome `payload` of the tool call `id`. It
/// has the user's role: a tool's outcome continues the user's side of the
/// exchange.
pub open spec fn tool_result_message(id: Seq<char>, payload: Seq<char>) -> MessageView {
    MessageView {
        role: Role::User,
        blocks: seq![ContentBlockView::ToolResult { id: id, payload: payload }],
    }
}

/// The assistant's message that holds `blocks`.
pub open spec fn assistant_message(blocks: Seq<ContentBlockView>) -> MessageView {
    MessageView { role: Role::Assistant, blocks: blocks }
}

/// The history after a rollback: without its last message if the user wrote
/// it, else as it was.
pub open spec fn rolled_back(history: Seq<MessageView>) -> Seq<MessageView> {
    if history.len() > 0 && history.last().role == Role::User {
        history.drop_last()
    } else {
        history
    }
}

/// What `append_assistant` answers to an empty list of blocks.
pub open spec fn empty_reply_detail() -> Seq<char> {
    "Failed to build message: content was not specified but it is required when building Message"@
}

/// The ordered log of the conversation. Its value is the sequence of its
/// messages, oldest first.
pub struct HistoryStore {
    messages: Vec<Message>,
}

impl View for HistoryStore {
    type V = Seq<MessageView>;

    closed spec fn view(&self) -> Seq<MessageView> {
        messages_view(self.messages@)
    }
}

impl HistoryStore {
    /// An empty history.
    pub fn new() -> (history: Self)
        ensures
            history@ == Seq::<MessageView>::empty(),
    {
        let history = HistoryStore { messages: Vec::new() };
        assert(messages_view(history.messages@) =~= Seq::<MessageView>::empty());
        history
    }

    /// How many messages the history holds.
    pub fn len(&self) -> (n: usize)
        ensures
            n == self@.len(),
    {
        self.messages.len()
    }

    /// Whether the history holds no message.
    pub fn is_empty(&self) -> (empty: bool)
        ensures
            empty == (self@.len() == 0),
    {
        self.messages.len() == 0
    }

    fn push(&mut self, message: Message)
        ensures
            final(self)@ == old(self)@.push(message@),
    {
        self.messages.push(message);
        assert(messages_view(self.messages@) =~= messages_view(old(self).messages@).push(
            message@,
        ));
    }

    /// Appends the user's message `text`.
    pub fn append_user(&mut self, text: &str)
        ensures
            final(self)@ == old(self)@.push(user_text_message(text@)),
    {
        let mut blocks: Vec<ContentBlock> = Vec::new();
        blocks.push(ContentBlock::Text(text.to_owned()));
        assert(blocks_view(blocks@) =~= seq![ContentBlockView::Text(text@)]);
        self.push(Message { role: Role::User, blocks });
    }

    /// Appends the assistant's reply. A reply must carry at least one block:
    /// an empty list is refused and the history stays as it was.
    pub fn append_assistant(&mut self, blocks: Vec<ContentBlock>) -> (result: Result<
        (),
        AgentError,
    >)
        ensures
            blocks@.len() > 0 ==> result is Ok && final(self)@ == old(self)@.push(
                assistant_message(blocks_view(blocks@)),
            ),
            blocks@.len() == 0 ==> final(self)@ == old(self)@ && (result matches Err(
                AgentError::MessageBuildError(detail),
            ) && detail@ == empty_reply_detail()),
    {
        if blocks.len() == 0 {
            return Err(
                AgentError::MessageBuildError(
                    "Failed to build message: content was not specified but it is required when building Message".to_owned(),
                ),
            );
        }
        self.push(Message { role: Role::Assistant, blocks });
        Ok(())
    }

    /// Appends the outcome `payload` of the tool call `id`.
    pub fn append_tool_result(&mut self, id: String, payload: String)
        ensures
            final(self)@ == old(self)@.push(tool_result_message(id@, payload@)),
    {
        let mut blocks: Vec<ContentBlock> = Vec::new();
        let ghost id_view = id@;
        let ghost payload_view = payload@;
        blocks.push(ContentBlock::ToolResult { id, payload });
        assert(blocks_view(blocks@) =~= seq![
            ContentBlockView::ToolResult { id: id_view, payload: payload_view },
        ]);
        self.push(Message { role: Role::User, blocks });
    }

    /// Removes the last message if the user wrote it, and says whether it did.
    /// On an empty history, and on one that ends with the assistant's message,
    /// nothing changes and the answer is `false`.
    pub fn rollback_last_if_user(&mut self) -> (removed: bool)
        ensures
            removed == (old(self)@.len() > 0 && old(self)@.last().role == Role::User),
            final(self)@ == rolled_back(old(self)@),
            !removed ==> final(self)@ == old(self)@,
    {
        let n = self.messages.len();
        if n > 0 && matches!(self.messages[n - 1].role, Role::User) {
            self.messages.pop();
            assert(messages_view(self.messages@) =~= messages_view(old(self).messages@).drop_last());
            true
        } else {
            false
        }
    }

    /// A copy of the whole history, oldest message first.
    pub fn snapshot(&self) -> (messages: Vec<Message>)
        ensures
            messages_view(messages@) == self@,
    {
        clone_messages(&self.messages)
    }
}

} // verus!
