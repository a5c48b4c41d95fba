//! The normalized stream of one model turn.
use vstd::prelude::*;

verus! {

/// Why the model stopped.
#[derive(Debug)]
pub enum FinishReason {
    Stop,
    Length,
    ToolCalls,
    Cancelled,
    Other(String),
}

/// Mathematical form of a [`FinishReason`].
pub enum FinishView {
    Stop,
    Length,
    ToolCalls,
    Cancelled,
    Other(Seq<char>),
}

impl View for FinishReason {
    type V = FinishView;

    open spec fn view(&self) -> FinishView {
        match self {
            FinishReason::Stop => FinishView::Stop,
            FinishReason::Length => FinishView::Length,
            FinishReason::ToolCalls => FinishView::ToolCalls,
            FinishReason::Cancelled => FinishView::Cancelled,
            FinishReason::Other(s) => FinishView::Other(s@),
        }
    }
}

impl Clone for FinishReason {
    fn clone(&self) -> (r: Self)
        ensures
            r == *self,
    {
        match self {
            FinishReason::Stop => FinishReason::Stop,
            FinishReason::Length => FinishReason::Length,
            FinishReason::ToolCalls => FinishReason::ToolCalls,
            FinishReason::Cancelled => FinishReason::Cancelled,
            FinishReason::Other(s) => FinishReason::Other(s.clone()),
        }
    }
}

/// Token counts and timing of one turn.
#[derive(Debug)]
pub struct StreamStats {
    pub provider: String,
    pub prompt_tokens: Option<u32>,
    pub cached_tokens: Option<u32>,
    pub gen_tokens: u32,
    pub duration_ms: u64,
}

/// Mathematical form of [`StreamStats`].
pub struct StatsView {
    pub provider: Seq<char>,
    pub prompt_tokens: Option<u32>,
    pub cached_tokens: Option<u32>,
    pub gen_tokens: u32,
    pub duration_ms: u64,
}

impl View for StreamStats {
    type V = StatsView;

    open spec fn view(&self) -> StatsView {
        StatsView {
            provider: self.provider@,
            prompt_tokens: self.prompt_tokens,
            cached_tokens: self.cached_tokens,
            gen_tokens: self.gen_tokens,
            duration_ms: self.duration_ms,
        }
    }
}

impl Clone for StreamStats {
    fn clone(&self) -> (r: Self)
        ensures
            r == *self,
    {
        StreamStats {
            provider: self.provider.clone(),
            prompt_tokens: self.prompt_tokens,
            cached_tokens: self.cached_tokens,
            gen_tokens: self.gen_tokens,
            duration_ms: self.duration_ms,
        }
    }
}

/// One normalized item of a model turn.
#[derive(Debug)]
pub enum AgentDelta {
    Content(String),
    Thinking(String),
    ToolCallStart { index: u32, id: String, name: String },
    ToolCallArgs { index: u32, fragment: String },
    ToolCallEnd { index: u32 },
    Stats(StreamStats),
    Done { finish_reason: FinishReason },
}

/// Mathematical form of an [`AgentDelta`].
pub enum DeltaView {
    Content(Seq<char>),
    Thinking(Seq<char>),
    ToolCallStart { index: u32, id: Seq<char>, name: Seq<char> },
    ToolCallArgs { index: u32, fragment: Seq<char> },
    ToolCallEnd { index: u32 },
    Stats(StatsView),
    Done { finish_reason: FinishView },
}

impl View for AgentDelta {
    type V = DeltaView;

    open spec fn view(&self) -> DeltaView {
        match self {
            AgentDelta::Content(s) => DeltaView::Content(s@),
            AgentDelta::Thinking(s) => DeltaView::Thinking(s@),
            AgentDelta::ToolCallStart { index, id, name } => DeltaView::ToolCallStart {
                index: *index,
                id: id@,
                name: name@,
            },
            AgentDelta::ToolCallArgs { index, fragment } => DeltaView::ToolCallArgs {
                index: *index,
                fragment: fragment@,
            },
            AgentDelta::ToolCallEnd { index } => DeltaView::ToolCallEnd { index: *index },
            AgentDelta::Stats(s) => DeltaView::Stats(s@),
            AgentDelta::Done { finish_reason } => DeltaView::Done {
                finish_reason: finish_reason@,
            },
        }
    }
}

impl Clone for AgentDelta {
    fn clone(&self) -> (r: Self)
        ensures
            r == *self,
    {
        match self {
            AgentDelta::Content(s) => AgentDelta::Content(s.clone()),
            AgentDelta::Thinking(s) => AgentDelta::Thinking(s.clone()),
            AgentDelta::ToolCallStart { index, id, name } => AgentDelta::ToolCallStart {
                index: *index,
                id: id.clone(),
                name: name.clone(),
            },
            AgentDelta::ToolCallArgs { index, fragment } => AgentDelta::ToolCallArgs {
                index: *index,
                fragment: fragment.clone(),
            },
            AgentDelta::ToolCallEnd { index } => AgentDelta::ToolCallEnd { index: *index },
            AgentDelta::Stats(s) => AgentDelta::Stats(s.clone()),
            AgentDelta::Done { finish_reason } => AgentDelta::Done {
                finish_reason: finish_reason.clone(),
            },
        }
    }
}

} // verus!
