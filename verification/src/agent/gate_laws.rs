//! Which calls run, which are refused, and which are asked about.
use vstd::prelude::*;

use crate::agent::confirm::{
    confirmation_id, confirmation_id_text, decide, next_confirmation_id, outcome_of_reply,
    AutoApproveGate, ConfirmationGate, ConfirmationOutcome, GateDecision, IdSource,
    ToolPermission,
};
use crate::agent::event::AgentEvent;
use crate::agent::tool::ToolCall;
use crate::clock::{is_reading, millis_of, millis_or_zero, seconds_or_zero, Elapsed};
use crate::json::{json_error, json_member, string_member};
use crate::text::{decimal, opt_view};
use crate::text_laws::{decimals_are_read_back, number_of};
use crate::tui::sink::{
    confirm_event, confirm_outcome, summarize_tool_result, ui_event, TuiGatePolicy, UiEvent,
};
use crate::web::gate::{question, WebGatePolicy};

verus! {

/// A call is refused without a question exactly when its tool is disabled. It
/// runs without one exactly when its tool is not disabled and either needs
/// confirmation and was granted, or needs none and is always allowed.
pub proof fn decisions_are_these(
    permission: ToolPermission,
    required: bool,
    granted: bool,
    r: GateDecision,
)
    requires
        call_ensures(decide, (permission, required, granted), r),
    ensures
        r == GateDecision::Deny <==> permission == ToolPermission::Disable,
        r == GateDecision::Approve <==> permission != ToolPermission::Disable && (required
            && granted || !required && permission == ToolPermission::Always),
        r == GateDecision::Prompt <==> permission != ToolPermission::Disable && (required
            && !granted || !required && permission == ToolPermission::Ask),
{
}

/// Two words are permissions of their own; every other word asks.
pub proof fn permission_words(s: &str, r: ToolPermission)
    requires
        call_ensures(ToolPermission::parse, (s,), r),
    ensures
        r == ToolPermission::Always <==> s@ == "always"@,
        r == ToolPermission::Disable <==> s@ == "disable"@,
        r == ToolPermission::Ask <==> s@ != "always"@ && s@ != "disable"@,
{
    reveal_strlit("always");
    reveal_strlit("disable");
    assert("always"@.len() != "disable"@.len());
}

/// On the desktop a call is refused exactly when the request disables its
/// tool. It runs without a question exactly when the tool is not disabled and
/// either there is a standing grant for one that needs confirmation, or is not
/// known, or the request always allows one that is known to need none.
pub proof fn desktop_decides(
    policy: WebGatePolicy,
    call: ToolCall,
    granted: bool,
    r: GateDecision,
)
    requires
        policy.wf(),
        call_ensures(WebGatePolicy::verdict, (&policy, &call, granted), r),
    ensures
        ({
            let name = call.name@;
            let hint = |word: Seq<char>|
                policy.hints().contains_key(name) && policy.hints()[name]@ == word;
            let harmless = policy.required().contains_key(name) && !policy.required()[name];
            &&& r == GateDecision::Deny <==> hint("disable"@)
            &&& r == GateDecision::Approve <==> !hint("disable"@) && if harmless {
                hint("always"@)
            } else {
                granted
            }
        }),
{
    reveal_strlit("always");
    reveal_strlit("disable");
    assert("always"@.len() != "disable"@.len());
}

/// In the terminal a call is refused exactly when the run is cancelled or the
/// user disabled its tool. It runs without a question exactly when it is not
/// refused and the tool is known to need no confirmation.
pub proof fn terminal_decides(policy: TuiGatePolicy, cancelled: bool, call: ToolCall, r: GateDecision)
    requires
        policy.wf(),
        call_ensures(TuiGatePolicy::verdict, (&policy, cancelled, &call), r),
    ensures
        ({
            let name = call.name@;
            let refused = cancelled || policy.off().contains(name);
            &&& r == GateDecision::Deny <==> refused
            &&& r == GateDecision::Approve <==> !refused && policy.required().contains_key(name)
                && !policy.required()[name]
        }),
{
}

/// A question is approved by a yes that came, and by nothing else.
pub proof fn only_a_yes_approves(
    sent: bool,
    reply: Option<bool>,
    a: ConfirmationOutcome,
    b: ConfirmationOutcome,
)
    requires
        call_ensures(outcome_of_reply, (reply,), a),
        call_ensures(confirm_outcome, (sent, reply), b),
    ensures
        a == ConfirmationOutcome::Approved <==> reply is Some && reply->0,
        b == ConfirmationOutcome::Approved <==> sent && reply is Some && reply->0,
        a == ConfirmationOutcome::Denied || a == ConfirmationOutcome::Approved,
{
}

/// The question that is put to the frontend can be read, and holds the
/// identifier, the tool, the arguments and the preview as they are.
pub proof fn questions_hold_the_call(
    id: &str,
    call: ToolCall,
    preview: Option<&str>,
    r: String,
)
    requires
        call_ensures(question, (id, &call, preview), r),
    ensures
        json_error(r@) is None,
        string_member(r@, "confirmationId"@) == Some(id@),
        string_member(r@, "name"@) == Some(call.name@),
        string_member(r@, "arguments"@) == Some(call.arguments@),
        preview is Some ==> string_member(r@, "preview"@) == Some(preview->0@),
        preview is None ==> json_member(r@, "preview"@) is None,
{
}

/// The question that is put to the user holds the tool, the arguments, the
/// preview and the way back, as they are.
pub proof fn terminal_questions_hold_the_call<T, M>(
    call: ToolCall,
    preview: Option<&str>,
    tx: T,
    r: UiEvent<T, M>,
)
    requires
        call_ensures(confirm_event::<T, M>, (&call, preview, tx), r),
    ensures
        match r {
            UiEvent::Confirm { name, arguments, preview: p, tx: back } => {
                &&& name@ == call.name@
                &&& arguments@ == call.arguments@
                &&& opt_view(p) == opt_view(preview)
                &&& back == tx
            },
            _ => false,
        },
{
}

/// The terminal is sent every event of a run but its end, with its text as it
/// is.
pub proof fn events_are_shown<T, M>(event: AgentEvent, r: Option<UiEvent<T, M>>)
    requires
        call_ensures(ui_event::<T, M>, (event,), r),
    ensures
        match event {
            AgentEvent::Token(s) => r matches Some(UiEvent::Token(t)) && t@ == s@,
            AgentEvent::Thinking(s) => r matches Some(UiEvent::Thinking(t)) && t@ == s@,
            AgentEvent::ToolStart { name, .. } => r matches Some(UiEvent::ToolStart { name: n })
                && n@ == name@,
            AgentEvent::ToolEnd { ok, result, error, .. } => r matches Some(
                UiEvent::ToolEnd { ok: o, summary },
            ) && o == ok && (!ok && error is Some ==> summary@ == error->0@) && (!ok
                && error is None ==> summary@ == "error"@) && (ok && result is None ==> summary@
                == "ok"@) && (ok && result is Some && result->0@.len() <= 200 ==> summary@
                == result->0@) && (ok && result is Some && result->0@.len() > 200 ==> summary@
                == result->0@.take(200) + "…"@),
            AgentEvent::Stats(s) => r matches Some(UiEvent::Stats(t)) && t.prompt_tokens
                == s.prompt_tokens && t.gen_tokens == s.gen_tokens && t.duration_ms
                == s.duration_ms,
            AgentEvent::Done { .. } => r is None,
            AgentEvent::Cancelled => r matches Some(UiEvent::Error(e)) && e@ == "cancelled"@,
            AgentEvent::Error(s) => r matches Some(UiEvent::Error(e)) && e@ == s@,
        },
{
}

/// A failed call is summed up by its error; a result by itself, or by its
/// first 200 characters and a mark when it is longer.
pub proof fn results_are_summed_up(
    ok: bool,
    result: Option<&str>,
    error: Option<&str>,
    r: String,
)
    requires
        call_ensures(summarize_tool_result, (ok, result, error), r),
    ensures
        !ok && error is Some ==> r@ == error->0@,
        !ok && error is None ==> r@ == "error"@,
        ok && result is None ==> r@ == "ok"@,
        ok && result is Some && result->0@.len() <= 200 ==> r@ == result->0@,
        ok && result is Some && result->0@.len() > 200 ==> r@ == result->0@.take(200) + "…"@,
{
}

/// An identifier names the time and the count that it was made of.
pub proof fn identifiers_name_their_time_and_count(millis: u128, counter: u64, r: String)
    requires
        call_ensures(confirmation_id, (millis, counter), r),
    ensures
        r@ == "conf-"@ + decimal(millis as nat) + "-"@ + decimal(counter as nat),
        number_of(decimal(millis as nat)) == millis,
        number_of(decimal(counter as nat)) == counter,
{
    decimals_are_read_back(millis as nat);
    decimals_are_read_back(counter as nat);
}

/// A time is counted in whole milliseconds and whole seconds, rounded down; a
/// clock before the epoch counts as at it.
pub proof fn times_are_rounded_down(
    elapsed: Option<Elapsed>,
    millis: u128,
    seconds: u64,
)
    requires
        call_ensures(millis_or_zero, (elapsed,), millis),
        call_ensures(seconds_or_zero, (elapsed,), seconds),
        elapsed matches Some(e) ==> e.nanos < 1_000_000_000,
    ensures
        elapsed is None ==> millis == 0 && seconds == 0,
        elapsed matches Some(e) ==> ({
            let nanos = e.secs * 1_000_000_000 + e.nanos;
            &&& millis * 1_000_000 <= nanos < (millis + 1) * 1_000_000
            &&& seconds * 1_000_000_000 <= nanos < (seconds + 1) * 1_000_000_000
        }),
{
}

/// A source gives out an identifier with the count of those before, and counts
/// it.
pub proof fn sources_count_their_identifiers(source: &mut IdSource, r: String, fresh: IdSource)
    requires
        call_ensures(IdSource::take, (source,), r),
        call_ensures(IdSource::new, (), fresh),
    ensures
        fresh@ == 0,
        exists|millis: nat|
            r@ == "conf-"@ + #[trigger] decimal(millis) + "-"@ + decimal(old(source)@),
        old(source)@ < u64::MAX ==> final(source)@ == old(source)@ + 1,
        old(source)@ == u64::MAX ==> final(source)@ == 0,
{
    let e = choose|e: Option<Elapsed>| #[trigger]
        is_reading(e) && r@ == confirmation_id_text(millis_of(e), old(source)@);
    assert(r@ == "conf-"@ + decimal(millis_of(e)) + "-"@ + decimal(old(source)@));
}

/// An identifier for this moment carries the count that it is given.
pub proof fn identifiers_carry_the_count(counter: u64, r: String)
    requires
        call_ensures(next_confirmation_id, (counter,), r),
    ensures
        exists|millis: nat|
            r@ == "conf-"@ + #[trigger] decimal(millis) + "-"@ + decimal(counter as nat),
{
    let e = choose|e: Option<Elapsed>| #[trigger]
        is_reading(e) && r@ == confirmation_id_text(millis_of(e), counter as nat);
    assert(r@ == "conf-"@ + decimal(millis_of(e)) + "-"@ + decimal(counter as nat));
}

/// The standing approval lets every call through.
pub proof fn approving_gates_approve(
    gate: &mut AutoApproveGate,
    call: ToolCall,
    preview: Option<&str>,
    r: ConfirmationOutcome,
)
    requires
        call_ensures(AutoApproveGate::ask, (gate, &call, preview), r),
    ensures
        r == ConfirmationOutcome::Approved,
{
}

} // verus!
