//! Events for the terminal, and the terminal's confirmation policy.
use vstd::prelude::*;

use crate::agent::confirm::{
    decide, decision, outcome_of_reply, ConfirmationOutcome, GateDecision, ToolPermission,
};
use crate::agent::delta::StatsView;
use crate::agent::event::{AgentEvent, EventView};
use crate::agent::tool::ToolCall;
use crate::order::TextMap;
use crate::text::{holds, opt_text, opt_view, views};

verus! {

/// What the terminal shows of a turn's statistics.
#[derive(Debug, Clone, Copy)]
pub struct StatsLite {
    pub prompt_tokens: Option<u32>,
    pub gen_tokens: u32,
    pub duration_ms: u64,
}

/// The part of a turn's statistics that is shown.
pub open spec fn lite(s: StatsView) -> StatsLite {
    StatsLite {
        prompt_tokens: s.prompt_tokens,
        gen_tokens: s.gen_tokens,
        duration_ms: s.duration_ms,
    }
}

/// An event for the terminal. `T` carries the answer to a question back, `M`
/// is an item of the history.
#[derive(Debug)]
pub enum UiEvent<T, M> {
    Token(String),
    /// A piece of reasoning. Whether it is shown is the terminal's business.
    Thinking(String),
    Stats(StatsLite),
    Done,
    Error(String),
    ToolStart { name: String },
    ToolEnd { ok: bool, summary: String },
    /// A call that waits for the user. When there is a preview it is shown in
    /// place of the arguments. Dropping `tx` denies.
    Confirm { name: String, arguments: String, preview: Option<String>, tx: T },
    /// The history that a run leaves behind.
    AgentHistory(Vec<M>),
}

/// Mathematical form of a [`UiEvent`].
pub enum UiView<T, M> {
    Token(Seq<char>),
    Thinking(Seq<char>),
    Stats(StatsLite),
    Done,
    Error(Seq<char>),
    ToolStart { name: Seq<char> },
    ToolEnd { ok: bool, summary: Seq<char> },
    Confirm { name: Seq<char>, arguments: Seq<char>, preview: Option<Seq<char>>, tx: T },
    AgentHistory(Seq<M>),
}

impl<T, M> View for UiEvent<T, M> {
    type V = UiView<T, M>;

    open spec fn view(&self) -> UiView<T, M> {
        match self {
            UiEvent::Token(s) => UiView::Token(s@),
            UiEvent::Thinking(s) => UiView::Thinking(s@),
            UiEvent::Stats(s) => UiView::Stats(*s),
            UiEvent::Done => UiView::Done,
            UiEvent::Error(e) => UiView::Error(e@),
            UiEvent::ToolStart { name } => UiView::ToolStart { name: name@ },
            UiEvent::ToolEnd { ok, summary } => UiView::ToolEnd { ok: *ok, summary: summary@ },
            UiEvent::Confirm { name, arguments, preview, tx } => UiView::Confirm {
                name: name@,
                arguments: arguments@,
                preview: opt_view(*preview),
                tx: *tx,
            },
            UiEvent::AgentHistory(m) => UiView::AgentHistory(m@),
        }
    }
}

/// How many characters of a result are shown.
pub const SUMMARY_CHARS: usize = 200;

/// The line that is shown for the end of a call: the error of a failed call,
/// the beginning of a result.
pub open spec fn summary(
    ok: bool,
    result: Option<Seq<char>>,
    error: Option<Seq<char>>,
) -> Seq<char> {
    if !ok {
        match error {
            Some(e) => e,
            None => "error"@,
        }
    } else {
        match result {
            Some(v) => if v.len() > SUMMARY_CHARS {
                v.take(SUMMARY_CHARS as int) + "…"@
            } else {
                v
            },
            None => "ok"@,
        }
    }
}

/// Sums up the end of a call. `result` is JSON text.
pub fn summarize_tool_result(ok: bool, result: Option<&str>, error: Option<&str>) -> (r: String)
    ensures
        r@ == summary(ok, opt_view(result), opt_view(error)),
{
    if !ok {
        return match error {
            Some(e) => e.to_owned(),
            None => "error".to_owned(),
        };
    }
    match result {
        Some(v) => {
            if v.unicode_len() > SUMMARY_CHARS {
                let mut s = v.substring_char(0, SUMMARY_CHARS).to_owned();
                s.append("…");
                s
            } else {
                v.to_owned()
            }
        },
        None => "ok".to_owned(),
    }
}

/// The summary of a result is never longer than the cap and the mark behind it.
pub proof fn summaries_of_results_are_short(v: Seq<char>, error: Option<Seq<char>>)
    ensures
        summary(true, Some(v), error).len() <= SUMMARY_CHARS + 1,
{
    reveal_strlit("…");
}

/// What the terminal shows of an event. The end of a run is not shown here: it
/// follows the history.
pub open spec fn shown_as<T, M>(e: EventView) -> Option<UiView<T, M>> {
    match e {
        EventView::Token(s) => Some(UiView::Token(s)),
        EventView::Thinking(s) => Some(UiView::Thinking(s)),
        EventView::ToolStart { name, .. } => Some(UiView::ToolStart { name }),
        EventView::ToolEnd { ok, result, error, .. } => Some(
            UiView::ToolEnd { ok, summary: summary(ok, result, error) },
        ),
        EventView::Stats(s) => Some(UiView::Stats(lite(s))),
        EventView::Done { .. } => None,
        EventView::Cancelled => Some(UiView::Error("cancelled"@)),
        EventView::Error(e) => Some(UiView::Error(e)),
    }
}

/// What the terminal is sent for an event of a run.
pub fn ui_event<T, M>(event: AgentEvent) -> (r: Option<UiEvent<T, M>>)
    ensures
        opt_view(r) == shown_as::<T, M>(event@),
{
    match event {
        AgentEvent::Token(s) => Some(UiEvent::Token(s)),
        AgentEvent::Thinking(s) => Some(UiEvent::Thinking(s)),
        AgentEvent::ToolStart { name, .. } => Some(UiEvent::ToolStart { name }),
        AgentEvent::ToolEnd { ok, result, error, .. } => Some(
            UiEvent::ToolEnd {
                ok,
                summary: summarize_tool_result(ok, opt_text(&result), opt_text(&error)),
            },
        ),
        AgentEvent::Stats(s) => Some(
            UiEvent::Stats(
                StatsLite {
                    prompt_tokens: s.prompt_tokens,
                    gen_tokens: s.gen_tokens,
                    duration_ms: s.duration_ms,
                },
            ),
        ),
        AgentEvent::Done { .. } => None,
        AgentEvent::Cancelled => Some(UiEvent::Error("cancelled".to_owned())),
        AgentEvent::Error(e) => Some(UiEvent::Error(e)),
    }
}

/// The terminal's confirmation policy.
pub struct TuiGatePolicy {
    /// What each registered tool says about needing confirmation.
    confirm_required: TextMap<bool>,
    /// The tools that the user disabled.
    disabled: Vec<String>,
}

/// The terminal's verdict. There is no per-tool preference here, so the
/// default is `Always` and what a tool requires is all that prompts. A tool
/// that is not known requires confirmation.
pub open spec fn tui_rule(cancelled: bool, disabled: bool, required: Option<bool>) -> GateDecision {
    if cancelled {
        GateDecision::Deny
    } else {
        decision(
            if disabled {
                ToolPermission::Disable
            } else {
                ToolPermission::Always
            },
            match required {
                Some(b) => b,
                None => true,
            },
            false,
        )
    }
}

/// The value of a key, where there is one.
pub open spec fn lookup<V>(m: Map<Seq<char>, V>, key: Seq<char>) -> Option<V> {
    if m.contains_key(key) {
        Some(m[key])
    } else {
        None
    }
}

impl TuiGatePolicy {
    pub closed spec fn wf(&self) -> bool {
        self.confirm_required.wf()
    }

    /// What each registered tool says.
    pub closed spec fn required(&self) -> Map<Seq<char>, bool> {
        self.confirm_required@
    }

    /// The disabled tools.
    pub closed spec fn off(&self) -> Seq<Seq<char>> {
        views(self.disabled@)
    }

    pub fn new(confirm_required: TextMap<bool>, disabled: Vec<String>) -> (r: TuiGatePolicy)
        requires
            confirm_required.wf(),
        ensures
            r.wf(),
            r.required() == confirm_required@,
            r.off() == views(disabled@),
    {
        TuiGatePolicy { confirm_required, disabled }
    }

    /// The verdict on a call.
    pub fn verdict(&self, cancelled: bool, call: &ToolCall) -> (r: GateDecision)
        requires
            self.wf(),
        ensures
            r == tui_rule(
                cancelled,
                self.off().contains(call@.name),
                lookup(self.required(), call@.name),
            ),
    {
        if cancelled {
            return GateDecision::Deny;
        }
        let permission = if holds(&self.disabled, call.name.as_str()) {
            ToolPermission::Disable
        } else {
            ToolPermission::Always
        };
        let requires_confirmation: bool = match self.confirm_required.get(call.name.as_str()) {
            Some(b) => *b,
            None => true,
        };
        decide(permission, requires_confirmation, false)
    }
}

/// The question that is put to the user about a call.
pub fn confirm_event<T, M>(call: &ToolCall, preview: Option<&str>, tx: T) -> (r: UiEvent<T, M>)
    ensures
        r@ == (UiView::<T, M>::Confirm {
            name: call@.name,
            arguments: call@.arguments,
            preview: opt_view(preview),
            tx,
        }),
{
    UiEvent::Confirm {
        name: call.name.clone(),
        arguments: call.arguments.clone(),
        preview: match preview {
            Some(p) => Some(p.to_owned()),
            None => None,
        },
        tx,
    }
}

/// The outcome of a question: approved when it could be sent and the answer
/// was yes.
pub fn confirm_outcome(sent: bool, reply: Option<bool>) -> (r: ConfirmationOutcome)
    ensures
        r == ConfirmationOutcome::Approved <==> sent && reply == Some(true),
{
    if sent {
        outcome_of_reply(reply)
    } else {
        ConfirmationOutcome::Denied
    }
}

/// A tool that declares itself harmless is approved without a question, unless
/// it is disabled or the run is cancelled.
pub proof fn harmless_tools_do_not_prompt(cancelled: bool, disabled: bool)
    ensures
        tui_rule(cancelled, disabled, Some(false)) == (if cancelled || disabled {
            GateDecision::Deny
        } else {
            GateDecision::Approve
        }),
{
}

/// A tool that requires confirmation, and one that is not known, is never
/// approved without a question.
pub proof fn other_tools_are_never_waved_through(
    cancelled: bool,
    disabled: bool,
    required: Option<bool>,
)
    requires
        required != Some(false),
    ensures
        tui_rule(cancelled, disabled, required) == (if cancelled || disabled {
            GateDecision::Deny
        } else {
            GateDecision::Prompt
        }),
{
}

} // verus!
