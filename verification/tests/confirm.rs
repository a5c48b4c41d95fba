use rezon::agent::confirm::{
    confirmation_id, decide, next_confirmation_id, outcome_of_reply, AutoApproveGate, IdSource,
    ConfirmationGate, ConfirmationOutcome, GateDecision, ToolPermission,
};
use rezon::agent::tool::ToolCall;

use GateDecision::{Approve, Deny, Prompt};
use ToolPermission::{Always, Ask, Disable};

/// The complete decision table.
#[test]
fn decision_table_is_exhaustive() {
    let table = [
        (Ask, false, false, Prompt),
        (Ask, false, true, Prompt),
        (Always, false, false, Approve),
        (Always, false, true, Approve),
        (Disable, false, false, Deny),
        (Disable, false, true, Deny),
        (Ask, true, false, Prompt),
        (Ask, true, true, Approve),
        (Always, true, false, Prompt),
        (Always, true, true, Approve),
        (Disable, true, false, Deny),
        (Disable, true, true, Deny),
    ];
    for (perm, requires, grant, expected) in table {
        let got = decide(perm, requires, grant);
        assert_eq!(
            got, expected,
            "decide({perm:?}, requires={requires}, grant={grant}) = {got:?}, want {expected:?}"
        );
    }
}

#[test]
fn frontend_always_cannot_auto_approve_a_side_effecting_tool() {
    assert_eq!(decide(Always, true, false), Prompt);
}

#[test]
fn disable_wins_over_a_backend_grant() {
    assert_eq!(decide(Disable, true, true), Deny);
    assert_eq!(decide(Disable, false, true), Deny);
}

#[test]
fn a_backend_grant_does_not_leak_into_read_only_tools() {
    assert_eq!(decide(Ask, false, true), Prompt);
}

#[test]
fn unknown_permission_strings_fall_back_to_ask() {
    for s in ["", "ALWAYS", "yes", "true", "allow", "always "] {
        assert_eq!(
            ToolPermission::parse(s),
            Ask,
            "{s:?} must not parse as anything permissive"
        );
    }
    assert_eq!(ToolPermission::parse("always"), Always);
    assert_eq!(ToolPermission::parse("disable"), Disable);
}

#[test]
fn an_unrecognized_tool_prompts_when_callers_default_to_true() {
    assert_eq!(decide(Ask, true, false), Prompt);
    assert_eq!(decide(Always, true, false), Prompt);
}

#[test]
fn confirmation_ids_carry_time_and_counter() {
    assert_eq!(confirmation_id(0, 0), "conf-0-0");
    assert_eq!(confirmation_id(1_700_000_000_123, 42), "conf-1700000000123-42");
    assert_eq!(
        confirmation_id(u128::MAX, u64::MAX),
        format!("conf-{}-{}", u128::MAX, u64::MAX)
    );
}

#[test]
fn confirmation_ids_of_different_counters_differ() {
    let a = next_confirmation_id(7);
    let b = next_confirmation_id(8);
    assert!(a.starts_with("conf-") && a.ends_with("-7"), "got {a}");
    assert_ne!(a, b);
    // A clock that works stands well after the epoch.
    assert!(!a.starts_with("conf-0-"), "got {a}");
}

#[test]
fn a_source_never_repeats_an_identifier() {
    let mut source = IdSource::new();
    let mut ids: Vec<String> = (0..50).map(|_| source.take()).collect();
    for (n, id) in ids.iter().enumerate() {
        assert!(id.starts_with("conf-") && id.ends_with(&format!("-{n}")), "got {id}");
        assert!(!id.starts_with("conf-0-"), "got {id}");
    }
    ids.sort();
    ids.dedup();
    assert_eq!(ids.len(), 50);
}

#[test]
fn only_a_yes_approves() {
    assert_eq!(outcome_of_reply(Some(true)), ConfirmationOutcome::Approved);
    assert_eq!(outcome_of_reply(Some(false)), ConfirmationOutcome::Denied);
    assert_eq!(outcome_of_reply(None), ConfirmationOutcome::Denied);
}

#[test]
fn auto_approve_gate_approves() {
    let call = ToolCall {
        id: "c".to_string(),
        name: "n".to_string(),
        arguments: "{}".to_string(),
    };
    assert_eq!(AutoApproveGate.ask(&call, None), ConfirmationOutcome::Approved);
}
