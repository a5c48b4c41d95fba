//! The conversation history.
use vstd::prelude::*;

use crate::agent::tool::{copy_calls, CallView, ToolCall};
use crate::text::views;

verus! {

/// One message of a conversation.
#[derive(Debug)]
pub enum ChatMessage {
    System { content: String },
    User { content: String },
    Assistant { content: String, tool_calls: Vec<ToolCall> },
    Tool { tool_call_id: String, content: String },
}

/// Mathematical form of a [`ChatMessage`].
pub enum MessageView {
    System { content: Seq<char> },
    User { content: Seq<char> },
    Assistant { content: Seq<char>, tool_calls: Seq<CallView> },
    Tool { tool_call_id: Seq<char>, content: Seq<char> },
}

impl View for ChatMessage {
    type V = MessageView;

    open spec fn view(&self) -> MessageView {
        match self {
            ChatMessage::System { content } => MessageView::System { content: content@ },
            ChatMessage::User { content } => MessageView::User { content: content@ },
            ChatMessage::Assistant { content, tool_calls } => MessageView::Assistant {
                content: content@,
                tool_calls: views(tool_calls@),
            },
            ChatMessage::Tool { tool_call_id, content } => MessageView::Tool {
                tool_call_id: tool_call_id@,
                content: content@,
            },
        }
    }
}

impl Clone for ChatMessage {
    fn clone(&self) -> (r: Self)
        ensures
            r@ == self@,
    {
        match self {
            ChatMessage::System { content } => ChatMessage::System { content: content.clone() },
            ChatMessage::User { content } => ChatMessage::User { content: content.clone() },
            ChatMessage::Assistant { content, tool_calls } => ChatMessage::Assistant {
                content: content.clone(),
                tool_calls: copy_calls(tool_calls),
            },
            ChatMessage::Tool { tool_call_id, content } => ChatMessage::Tool {
                tool_call_id: tool_call_id.clone(),
                content: content.clone(),
            },
        }
    }
}

impl ChatMessage {
    /// A system message.
    pub fn system(content: &str) -> (r: ChatMessage)
        ensures
            r@ == (MessageView::System { content: content@ }),
    {
        ChatMessage::System { content: content.to_owned() }
    }

    /// A user message.
    pub fn user(content: &str) -> (r: ChatMessage)
        ensures
            r@ == (MessageView::User { content: content@ }),
    {
        ChatMessage::User { content: content.to_owned() }
    }
}

/// A copy of a history.
pub fn copy_messages(messages: &Vec<ChatMessage>) -> (r: Vec<ChatMessage>)
    ensures
        views(r@) == views(messages@),
{
    let mut out: Vec<ChatMessage> = Vec::new();
    let mut i: usize = 0;
    while i < messages.len()
        invariant
            i <= messages.len(),
            out@.len() == i,
            forall|j: int| 0 <= j < i ==> (#[trigger] out@[j])@ == messages@[j]@,
        decreases messages.len() - i,
    {
        out.push(messages[i].clone());
        i = i + 1;
    }
    assert(views(out@) =~= views(messages@));
    out
}

} // verus!
