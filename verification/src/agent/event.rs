//! What a run reports to the outside while it goes on.
use vstd::prelude::*;

use crate::agent::delta::{StatsView, StreamStats};
use crate::text::{copy_opt, opt_view};

verus! {

/// One event of an agent run. `result` is JSON text.
#[derive(Debug)]
pub enum AgentEvent {
    Token(String),
    Thinking(String),
    ToolStart { id: String, name: String },
    ToolEnd { id: String, ok: bool, result: Option<String>, error: Option<String> },
    Stats(StreamStats),
    Done { content: String },
    Cancelled,
    Error(String),
}

/// Mathematical form of an [`AgentEvent`].
pub enum EventView {
    Token(Seq<char>),
    Thinking(Seq<char>),
    ToolStart { id: Seq<char>, name: Seq<char> },
    ToolEnd { id: Seq<char>, ok: bool, result: Option<Seq<char>>, error: Option<Seq<char>> },
    Stats(StatsView),
    Done { content: Seq<char> },
    Cancelled,
    Error(Seq<char>),
}

impl View for AgentEvent {
    type V = EventView;

    open spec fn view(&self) -> EventView {
        match self {
            AgentEvent::Token(s) => EventView::Token(s@),
            AgentEvent::Thinking(s) => EventView::Thinking(s@),
            AgentEvent::ToolStart { id, name } => EventView::ToolStart { id: id@, name: name@ },
            AgentEvent::ToolEnd { id, ok, result, error } => EventView::ToolEnd {
                id: id@,
                ok: *ok,
                result: opt_view(*result),
                error: opt_view(*error),
            },
            AgentEvent::Stats(s) => EventView::Stats(s@),
            AgentEvent::Done { content } => EventView::Done { content: content@ },
            AgentEvent::Cancelled => EventView::Cancelled,
            AgentEvent::Error(s) => EventView::Error(s@),
        }
    }
}

impl Clone for AgentEvent {
    fn clone(&self) -> (r: Self)
        ensures
            r == *self,
    {
        match self {
            AgentEvent::Token(s) => AgentEvent::Token(s.clone()),
            AgentEvent::Thinking(s) => AgentEvent::Thinking(s.clone()),
            AgentEvent::ToolStart { id, name } => AgentEvent::ToolStart {
                id: id.clone(),
                name: name.clone(),
            },
            AgentEvent::ToolEnd { id, ok, result, error } => AgentEvent::ToolEnd {
                id: id.clone(),
                ok: *ok,
                result: copy_opt(result),
                error: copy_opt(error),
            },
            AgentEvent::Stats(s) => AgentEvent::Stats(s.clone()),
            AgentEvent::Done { content } => AgentEvent::Done { content: content.clone() },
            AgentEvent::Cancelled => AgentEvent::Cancelled,
            AgentEvent::Error(s) => AgentEvent::Error(s.clone()),
        }
    }
}

} // verus!
