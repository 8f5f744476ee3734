//! The conversation's data: roles, content blocks and messages, each with the
//! mathematical value that the contracts speak of.

use vstd::prelude::*;

verus! {

/// Who authored a message.
#[derive(Clone, Copy, Debug, PartialEq, Eq, Structural)]
pub enum Role {
    User,
    Assistant,
}

/// One unit of a message.
#[derive(Debug, PartialEq, Eq)]
pub enum ContentBlock {
    /// A span of text.
    Text(String),
    /// The assistant's request to run a tool; `input` is JSON text.
    ToolUse { id: String, name: String, input: String },
    /// The outcome of a tool run; `payload` is JSON text.
    ToolResult { id: String, payload: String },
}

/// The value of a [`ContentBlock`].
pub enum ContentBlockView {
    Text(Seq<char>),
    ToolUse { id: Seq<char>, name: Seq<char>, input: Seq<char> },
    ToolResult { id: Seq<char>, payload: Seq<char> },
}

impl View for ContentBlock {
    type V = ContentBlockView;

    open spec fn view(&self) -> ContentBlockView {
        match self {
            ContentBlock::Text(text) => ContentBlockView::Text(text@),
            ContentBlock::ToolUse { id, name, input } => ContentBlockView::ToolUse {
                id: id@,
                name: name@,
                input: input@,
            },
            ContentBlock::ToolResult { id, payload } => ContentBlockView::ToolResult {
                id: id@,
                payload: payload@,
            },
        }
    }
}

impl Clone for ContentBlock {
    fn clone(&self) -> (copy: Self)
        ensures
            copy@ == self@,
    {
        match self {
            ContentBlock::Text(text) => ContentBlock::Text(text.clone()),
            ContentBlock::ToolUse { id, name, input } => ContentBlock::ToolUse {
                id: id.clone(),
                name: name.clone(),
                input: input.clone(),
            },
            ContentBlock::ToolResult { id, payload } => ContentBlock::ToolResult {
                id: id.clone(),
                payload: payload.clone(),
            },
        }
    }
}

impl ContentBlock {
    /// Whether this block asks for a tool to be run.
    pub fn is_tool_use(&self) -> (yes: bool)
        ensures
            yes == (self@ is ToolUse),
    {
        match self {
            ContentBlock::ToolUse { .. } => true,
            _ => false,
        }
    }
}

/// The values of a sequence of blocks, in order.
pub open spec fn blocks_view(blocks: Seq<ContentBlock>) -> Seq<ContentBlockView> {
    blocks.map_values(|block: ContentBlock| block@)
}

/// One entry of the conversation.
#[derive(Debug, PartialEq, Eq)]
pub struct Message {
    pub role: Role,
    pub blocks: Vec<ContentBlock>,
}

/// The value of a [`Message`].
pub struct MessageView {
    pub role: Role,
    pub blocks: Seq<ContentBlockView>,
}

impl View for Message {
    type V = MessageView;

    open spec fn view(&self) -> MessageView {
        MessageView { role: self.role, blocks: blocks_view(self.blocks@) }
    }
}

/// Copies a list of blocks.
pub fn clone_blocks(blocks: &Vec<ContentBlock>) -> (copy: Vec<ContentBlock>)
    ensures
        blocks_view(copy@) == blocks_view(blocks@),
{
    let mut copy: Vec<ContentBlock> = Vec::new();
    let mut i: usize = 0;
    while i < blocks.len()
        invariant
            i <= blocks.len(),
            copy.len() == i,
            forall|k: int| 0 <= k < i ==> copy[k]@ == blocks[k]@,
        decreases blocks.len() - i,
    {
        copy.push(blocks[i].clone());
        i += 1;
    }
    assert(blocks_view(copy@) =~= blocks_view(blocks@));
    copy
}

impl Clone for Message {
    fn clone(&self) -> (copy: Self)
        ensures
            copy@ == self@,
    {
        Message { role: self.role, blocks: clone_blocks(&self.blocks) }
    }
}

/// The values of a sequence of messages, in order.
pub open spec fn messages_view(messages: Seq<Message>) -> Seq<MessageView> {
    messages.map_values(|message: Message| message@)
}

/// Copies a list of messages.
pub fn clone_messages(messages: &Vec<Message>) -> (copy: Vec<Message>)
    ensures
        messages_view(copy@) == messages_view(messages@),
{
    let mut copy: Vec<Message> = Vec::new();
    let mut i: usize = 0;
    while i < messages.len()
        invariant
            i <= messages.len(),
            copy.len() == i,
            forall|k: int| 0 <= k < i ==> copy[k]@ == messages[k]@,
        decreases messages.len() - i,
    {
        copy.push(messages[i].clone());
        i += 1;
    }
    assert(messages_view(copy@) =~= messages_view(messages@));
    copy
}

} // verus!
