use vstd::prelude::*;

verus! {

/// One typed fragment of a displayed message.
#[derive(Debug, Clone, PartialEq)]
pub enum DisplayContentBlock {
    Text { text: String },
    Thinking { thinking: String },
    ToolUse { id: String, name: String, input: String },
    ToolResult { tool_use_id: String, content: String, is_error: bool },
    Reasoning { text: String },
    FunctionCall { name: String, arguments: String, call_id: String },
    FunctionCallOutput { call_id: String, output: String },
}

/// The model of a content block: its variant and the text of its fields.
pub enum BlockView {
    Text(Seq<char>),
    Thinking(Seq<char>),
    ToolUse(Seq<char>, Seq<char>, Seq<char>),
    ToolResult(Seq<char>, Seq<char>, bool),
    Reasoning(Seq<char>),
    FunctionCall(Seq<char>, Seq<char>, Seq<char>),
    FunctionCallOutput(Seq<char>, Seq<char>),
}

impl View for DisplayContentBlock {
    type V = BlockView;

    open spec fn view(&self) -> BlockView {
        match self {
            DisplayContentBlock::Text { text } => BlockView::Text(text@),
            DisplayContentBlock::Thinking { thinking } => BlockView::Thinking(thinking@),
            DisplayContentBlock::ToolUse { id, name, input } => BlockView::ToolUse(id@, name@, input@),
            DisplayContentBlock::ToolResult { tool_use_id, content, is_error } => BlockView::ToolResult(
                tool_use_id@,
                content@,
                *is_error,
            ),
            DisplayContentBlock::Reasoning { text } => BlockView::Reasoning(text@),
            DisplayContentBlock::FunctionCall { name, arguments, call_id } => BlockView::FunctionCall(
                name@,
                arguments@,
                call_id@,
            ),
            DisplayContentBlock::FunctionCallOutput { call_id, output } => BlockView::FunctionCallOutput(
                call_id@,
                output@,
            ),
        }
    }
}

/// One turn of a session, ready for display.
#[derive(Debug, Clone, PartialEq)]
pub struct DisplayMessage {
    pub uuid: Option<String>,
    pub role: String,
    pub timestamp: Option<String>,
    pub content: Vec<DisplayContentBlock>,
}

/// The model of a message.
pub struct MessageView {
    pub uuid: Option<Seq<char>>,
    pub role: Seq<char>,
    pub timestamp: Option<Seq<char>>,
    pub content: Seq<BlockView>,
}

pub open spec fn opt_view(o: Option<String>) -> Option<Seq<char>> {
    match o {
        Some(s) => Some(s@),
        None => None,
    }
}

pub open spec fn blocks_view(v: Seq<DisplayContentBlock>) -> Seq<BlockView> {
    v.map_values(|b: DisplayContentBlock| b@)
}

impl View for DisplayMessage {
    type V = MessageView;

    open spec fn view(&self) -> MessageView {
        MessageView {
            uuid: opt_view(self.uuid),
            role: self.role@,
            timestamp: opt_view(self.timestamp),
            content: blocks_view(self.content@),
        }
    }
}

pub open spec fn messages_view(v: Seq<DisplayMessage>) -> Seq<MessageView> {
    v.map_values(|m: DisplayMessage| m@)
}

/// One page of a session's messages.
#[derive(Debug, Clone, PartialEq)]
pub struct PaginatedMessages {
    pub messages: Vec<DisplayMessage>,
    pub total: usize,
    pub page: usize,
    pub page_size: usize,
    pub has_more: bool,
}

pub fn clone_opt(o: &Option<String>) -> (r: Option<String>)
    ensures
        r == *o,
{
    match o {
        Some(s) => Some(s.clone()),
        None => None,
    }
}

} // verus!
