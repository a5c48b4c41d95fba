//! The confirmation gate: what to do with a tool call before it runs.
//!
//! The decision is a pure function of three inputs; asking the user is the
//! business of whoever holds the confirmation gate.
use vstd::prelude::*;

use crate::agent::tool::ToolCall;
use crate::clock::{is_reading, millis_of, millis_or_zero, read_clock, Elapsed};
use crate::text::{decimal, decimal_is_digits, decimal_is_injective, decimal_text, text_eq};

verus! {

/// What the configuration says about a tool, before the tool's own
/// requirement is taken into account.
#[derive(Debug, Clone, Copy, PartialEq, Eq, Structural)]
pub enum ToolPermission {
    /// Prompt before every call. The default for anything unrecognized.
    Ask,
    /// The user asked not to be prompted. Honored only for tools that do not
    /// declare that they require confirmation.
    Always,
    /// Never dispatch. Always honored.
    Disable,
}

/// The permission written as `s`. Unknown words ask.
pub open spec fn permission_of(s: Seq<char>) -> ToolPermission {
    if s == "always"@ {
        ToolPermission::Always
    } else if s == "disable"@ {
        ToolPermission::Disable
    } else {
        ToolPermission::Ask
    }
}

impl ToolPermission {
    /// Reads the wire form of a permission. Anything that is not exactly
    /// `always` or `disable` asks: a typo costs a prompt, never an approval.
    pub fn parse(s: &str) -> (r: ToolPermission)
        ensures
            r == permission_of(s@),
    {
        if text_eq(s, "always") {
            ToolPermission::Always
        } else if text_eq(s, "disable") {
            ToolPermission::Disable
        } else {
            ToolPermission::Ask
        }
    }
}

/// The confirmation gate's verdict for one call.
#[derive(Debug, Clone, Copy, PartialEq, Eq, Structural)]
pub enum GateDecision {
    /// Dispatch without asking.
    Approve,
    /// Refuse without asking.
    Deny,
    /// Ask the user.
    Prompt,
}

/// What is decided: a disabled tool is denied; one that requires confirmation is
/// approved by a backend grant alone, any other by the permission alone; the
/// rest prompts.
pub open spec fn decision(
    permission: ToolPermission,
    requires_confirmation: bool,
    has_backend_grant: bool,
) -> GateDecision {
    let waved_through = if requires_confirmation {
        has_backend_grant
    } else {
        permission == ToolPermission::Always
    };
    if permission == ToolPermission::Disable {
        GateDecision::Deny
    } else if waved_through {
        GateDecision::Approve
    } else {
        GateDecision::Prompt
    }
}

/// Decides what to do with one tool call.
///
/// A tool that requires confirmation cannot be approved by `permission`:
/// only `has_backend_grant` clears that floor. `Disable` is always honored,
/// and `Ask` on a read-only tool still prompts.
pub fn decide(
    permission: ToolPermission,
    requires_confirmation: bool,
    has_backend_grant: bool,
) -> (r: GateDecision)
    ensures
        r == decision(permission, requires_confirmation, has_backend_grant),
{
    if permission == ToolPermission::Disable {
        return GateDecision::Deny;
    }
    if requires_confirmation {
        return if has_backend_grant {
            GateDecision::Approve
        } else {
            GateDecision::Prompt
        };
    }
    match permission {
        ToolPermission::Always => GateDecision::Approve,
        _ => GateDecision::Prompt,
    }
}

/// The confirmation floor: without a backend grant, no permission approves a
/// tool that requires confirmation.
pub proof fn no_permission_clears_the_floor(permission: ToolPermission)
    ensures
        decision(permission, true, false) != GateDecision::Approve,
{
}

/// A disabled tool is denied, whatever it declares and whatever was granted.
pub proof fn disable_always_denies(requires_confirmation: bool, has_backend_grant: bool)
    ensures
        decision(ToolPermission::Disable, requires_confirmation, has_backend_grant)
            == GateDecision::Deny,
{
}

/// For a tool that requires confirmation, every permission but `Disable` gets
/// the same verdict.
pub proof fn permission_is_not_consulted_above_the_floor(
    a: ToolPermission,
    b: ToolPermission,
    has_backend_grant: bool,
)
    requires
        a != ToolPermission::Disable,
        b != ToolPermission::Disable,
    ensures
        decision(a, true, has_backend_grant) == decision(b, true, has_backend_grant),
{
}

/// A backend grant changes nothing for a tool that declares itself read-only.
pub proof fn grant_does_not_reach_read_only_tools(permission: ToolPermission)
    ensures
        decision(permission, false, true) == decision(permission, false, false),
{
}

/// A permission that is not written exactly `always` never lets a call
/// through on its own.
pub proof fn unknown_words_never_approve(s: Seq<char>, requires_confirmation: bool)
    requires
        s != "always"@,
    ensures
        decision(permission_of(s), requires_confirmation, false) != GateDecision::Approve,
{
}

/// The answer of a gate.
#[derive(Debug, Clone, Copy, PartialEq, Eq, Structural)]
pub enum ConfirmationOutcome {
    Approved,
    Denied,
}

/// The outcome of a prompt: approved only when an answer came and it was yes.
pub fn outcome_of_reply(reply: Option<bool>) -> (r: ConfirmationOutcome)
    ensures
        r == ConfirmationOutcome::Approved <==> reply == Some(true),
{
    match reply {
        Some(true) => ConfirmationOutcome::Approved,
        _ => ConfirmationOutcome::Denied,
    }
}

/// Decides whether a call is dispatched. `preview` is a readable rendering of
/// what the tool will do, to be shown in place of the raw arguments.
pub trait ConfirmationGate {
    fn ask(&mut self, call: &ToolCall, preview: Option<&str>) -> ConfirmationOutcome;
}

/// Always approves.
pub struct AutoApproveGate;

impl ConfirmationGate for AutoApproveGate {
    fn ask(&mut self, call: &ToolCall, preview: Option<&str>) -> (r: ConfirmationOutcome)
        ensures
            r == ConfirmationOutcome::Approved,
    {
        ConfirmationOutcome::Approved
    }
}

/// The identifier made of a time in milliseconds and a counter.
pub open spec fn confirmation_id_text(millis: nat, counter: nat) -> Seq<char> {
    "conf-"@ + decimal(millis) + "-"@ + decimal(counter)
}

/// The identifier `conf-<millis>-<counter>`.
pub fn confirmation_id(millis: u128, counter: u64) -> (r: String)
    ensures
        r@ == confirmation_id_text(millis as nat, counter as nat),
{
    let mut s = "conf-".to_owned();
    s.append(decimal_text(millis).as_str());
    s.append("-");
    s.append(decimal_text(counter as u128).as_str());
    s
}

/// A confirmation identifier for this moment. `counter` is a process-local
/// count of the identifiers given out before.
pub fn next_confirmation_id(counter: u64) -> (r: String)
    ensures
        exists|e: Option<Elapsed>| #[trigger]
            is_reading(e) && r@ == confirmation_id_text(millis_of(e), counter as nat),
{
    let reading = read_clock();
    confirmation_id(millis_or_zero(reading), counter)
}

/// Gives out confirmation identifiers and counts them. A process has one.
#[derive(Debug)]
pub struct IdSource {
    next: u64,
}

impl View for IdSource {
    type V = nat;

    /// How many identifiers were given out, up to where the count wraps.
    closed spec fn view(&self) -> nat {
        self.next as nat
    }
}

/// The count after one more identifier. It wraps as 64-bit numbers do.
pub open spec fn next_count(count: nat) -> nat {
    if count == u64::MAX {
        0
    } else {
        count + 1
    }
}

impl IdSource {
    /// A source that has given out nothing.
    pub fn new() -> (r: IdSource)
        ensures
            r@ == 0,
    {
        IdSource { next: 0 }
    }

    /// Gives out an identifier for this moment, with the count of those given
    /// out before.
    pub fn take(&mut self) -> (r: String)
        ensures
            exists|e: Option<Elapsed>| #[trigger]
                is_reading(e) && r@ == confirmation_id_text(millis_of(e), old(self)@),
            final(self)@ == next_count(old(self)@),
    {
        let counter: u64 = self.next;
        self.next = if counter == u64::MAX {
            0
        } else {
            counter + 1
        };
        next_confirmation_id(counter)
    }
}

/// The count of a new source after `n` identifiers.
pub open spec fn count_after(n: nat) -> nat
    decreases n,
{
    if n == 0 {
        0
    } else {
        next_count(count_after((n - 1) as nat))
    }
}

/// The identifiers that a new source gives out when the clock is read like
/// this, one reading after the other.
pub open spec fn given_out(readings: Seq<Option<Elapsed>>) -> Seq<Seq<char>> {
    Seq::new(
        readings.len(),
        |i: int| confirmation_id_text(millis_of(readings[i]), count_after(i as nat)),
    )
}

/// The count of a new source starts at zero and goes up by one, until it wraps.
pub proof fn counts_go_up_by_one(n: nat)
    requires
        n <= u64::MAX,
    ensures
        count_after(n) == n,
    decreases n,
{
    if n > 0 {
        counts_go_up_by_one((n - 1) as nat);
    }
}

/// The identifiers that a source gives out never repeat, whatever the clock
/// shows: of the first 2^64 no two are equal.
pub proof fn identifiers_never_repeat(readings: Seq<Option<Elapsed>>, i: int, j: int)
    requires
        readings.len() <= 0x1_0000_0000_0000_0000,
        0 <= i < j < readings.len(),
    ensures
        given_out(readings)[i] != given_out(readings)[j],
{
    counts_go_up_by_one(i as nat);
    counts_go_up_by_one(j as nat);
    if given_out(readings)[i] == given_out(readings)[j] {
        confirmation_ids_are_distinct(
            millis_of(readings[i]),
            i as nat,
            millis_of(readings[j]),
            j as nat,
        );
    }
}

/// Two equal identifiers have the same counter and the same time, so that a
/// counter that never repeats gives identifiers that never repeat.
pub proof fn confirmation_ids_are_distinct(m1: nat, c1: nat, m2: nat, c2: nat)
    requires
        confirmation_id_text(m1, c1) == confirmation_id_text(m2, c2),
    ensures
        m1 == m2,
        c1 == c2,
{
    reveal_strlit("conf-");
    reveal_strlit("-");
    decimal_is_digits(m1);
    decimal_is_digits(m2);
    let a = decimal(m1);
    let b = decimal(m2);
    let x = confirmation_id_text(m1, c1);
    let y = confirmation_id_text(m2, c2);
    assert(x.skip(5) =~= a + "-"@ + decimal(c1));
    assert(y.skip(5) =~= b + "-"@ + decimal(c2));
    let s = x.skip(5);
    assert(s[a.len() as int] == '-');
    assert(s[b.len() as int] == '-');
    if a.len() < b.len() {
        assert(s[a.len() as int] == b[a.len() as int]);
    } else if b.len() < a.len() {
        assert(s[b.len() as int] == a[b.len() as int]);
    }
    assert(a =~= s.take(a.len() as int));
    assert(b =~= s.take(a.len() as int));
    assert(decimal(c1) =~= s.skip(a.len() as int + 1));
    assert(decimal(c2) =~= s.skip(a.len() as int + 1));
    decimal_is_injective(m1, m2);
    decimal_is_injective(c1, c2);
}

} // verus!
