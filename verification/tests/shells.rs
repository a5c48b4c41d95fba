use rezon::agent::confirm::{ConfirmationOutcome, GateDecision};
use rezon::agent::delta::StreamStats;
use rezon::agent::event::AgentEvent;
use rezon::agent::loop_::AgentOutcome;
use rezon::agent::message::ChatMessage;
use rezon::agent::tool::{ToolCall, ToolInfo};
use rezon::json::read_string_member;
use rezon::model_catalog::CatalogSource;
use rezon::order::TextMap;
use rezon::tui::sink::{
    confirm_event, confirm_outcome, summarize_tool_result, ui_event, TuiGatePolicy, UiEvent,
};
use rezon::web::chat::{
    apply_expansion, chat_result, confirm_required, expand_targets, plan_chat, role_of, roles_of,
    set_content, unresolved_warning, visible_tools, AgentChatOpts, ExpandTargets, ProviderChoice,
    Role,
};
use rezon::web::gate::{question, WebGatePolicy};
use rezon::web::llm::{
    cloud_provider_def, has_secret, plan_models, CloudProviderDef, CloudProviderInfo, ModelsPlan,
};
use rezon::web::state::AgentState;

type Ui = UiEvent<u8, u8>;

fn call(name: &str) -> ToolCall {
    ToolCall {
        id: "c1".to_string(),
        name: name.to_string(),
        arguments: "{}".to_string(),
    }
}

fn flags(list: &[(&str, bool)]) -> TextMap<bool> {
    let mut m = TextMap::new();
    for (k, v) in list {
        m.insert(k, *v);
    }
    m
}

fn words(list: &[(&str, &str)]) -> TextMap<String> {
    let mut m = TextMap::new();
    for (k, v) in list {
        m.insert(k, v.to_string());
    }
    m
}

fn strings(list: &[&str]) -> Vec<String> {
    list.iter().map(|s| s.to_string()).collect()
}

/// Asks the terminal's policy; `answer` is what the user would say. Returns the
/// outcome and whether a question was put.
fn ask(
    required: &[(&str, bool)],
    disabled: &[&str],
    cancelled: bool,
    name: &str,
    answer: Option<bool>,
) -> (ConfirmationOutcome, bool) {
    let policy = TuiGatePolicy::new(flags(required), strings(disabled));
    let c = call(name);
    match policy.verdict(cancelled, &c) {
        GateDecision::Approve => (ConfirmationOutcome::Approved, false),
        GateDecision::Deny => (ConfirmationOutcome::Denied, false),
        GateDecision::Prompt => {
            match confirm_event::<u8, u8>(&c, None, 9) {
                UiEvent::Confirm { name: n, arguments, preview, tx } => {
                    assert_eq!(n, name);
                    assert_eq!(arguments, "{}");
                    assert!(preview.is_none());
                    assert_eq!(tx, 9);
                }
                other => panic!("expected Confirm, got {other:?}"),
            }
            (confirm_outcome(true, answer), true)
        }
    }
}

#[test]
fn read_only_tools_are_approved_without_prompting() {
    let got = ask(&[("current_time", false)], &[], false, "current_time", None);
    assert_eq!(got, (ConfirmationOutcome::Approved, false));
}

#[test]
fn side_effecting_tools_still_prompt() {
    let got = ask(&[("shell_exec", true)], &[], false, "shell_exec", Some(true));
    assert_eq!(got, (ConfirmationOutcome::Approved, true));
}

#[test]
fn a_denied_prompt_denies_the_call() {
    let got = ask(&[("shell_exec", true)], &[], false, "shell_exec", Some(false));
    assert_eq!(got, (ConfirmationOutcome::Denied, true));
}

#[test]
fn disabled_tools_are_denied_without_prompting() {
    let got = ask(&[("shell_exec", true)], &["shell_exec"], false, "shell_exec", Some(true));
    assert_eq!(got, (ConfirmationOutcome::Denied, false));
}

#[test]
fn an_unknown_tool_prompts_rather_than_being_waved_through() {
    let got = ask(&[("current_time", false)], &[], false, "mystery_tool", Some(false));
    assert_eq!(got, (ConfirmationOutcome::Denied, true));
}

#[test]
fn a_cancelled_run_denies_without_prompting() {
    let got = ask(&[], &[], true, "shell_exec", Some(true));
    assert_eq!(got, (ConfirmationOutcome::Denied, false));
}

#[test]
fn a_question_that_cannot_be_put_is_a_no() {
    assert_eq!(confirm_outcome(false, Some(true)), ConfirmationOutcome::Denied);
    assert_eq!(confirm_outcome(true, None), ConfirmationOutcome::Denied);
    let e = confirm_event::<u8, u8>(&call("t"), Some("+ line"), 1);
    assert!(matches!(e, UiEvent::Confirm { preview: Some(ref p), .. } if p == "+ line"));
}

#[test]
fn events_are_shown_in_the_terminal() {
    let stats = StreamStats {
        provider: "p".to_string(),
        prompt_tokens: Some(4),
        cached_tokens: Some(2),
        gen_tokens: 5,
        duration_ms: 6,
    };
    let shown = |e| ui_event::<u8, u8>(e);
    assert!(matches!(shown(AgentEvent::Token("a".to_string())), Some(Ui::Token(s)) if s == "a"));
    assert!(matches!(
        shown(AgentEvent::Thinking("a".to_string())),
        Some(Ui::Thinking(s)) if s == "a"
    ));
    assert!(matches!(
        shown(AgentEvent::ToolStart { id: "1".to_string(), name: "n".to_string() }),
        Some(Ui::ToolStart { name }) if name == "n"
    ));
    let end = AgentEvent::ToolEnd {
        id: "1".to_string(),
        ok: false,
        result: None,
        error: Some("bad".to_string()),
    };
    assert!(matches!(
        shown(end),
        Some(Ui::ToolEnd { ok: false, summary }) if summary == "bad"
    ));
    match shown(AgentEvent::Stats(stats)) {
        Some(Ui::Stats(s)) => {
            assert_eq!((s.prompt_tokens, s.gen_tokens, s.duration_ms), (Some(4), 5, 6))
        }
        other => panic!("expected Stats, got {other:?}"),
    }
    assert!(shown(AgentEvent::Done { content: "x".to_string() }).is_none());
    assert!(matches!(shown(AgentEvent::Cancelled), Some(Ui::Error(s)) if s == "cancelled"));
    assert!(matches!(shown(AgentEvent::Error("e".to_string())), Some(Ui::Error(s)) if s == "e"));
}

#[test]
fn long_results_are_cut() {
    let at_cap: String = "ü".repeat(200);
    let over: String = "ü".repeat(201);
    assert_eq!(summarize_tool_result(true, Some(&at_cap), None), at_cap);
    assert_eq!(summarize_tool_result(true, Some(&over), None), format!("{at_cap}…"));
    assert_eq!(summarize_tool_result(true, None, Some("e")), "ok");
    assert_eq!(summarize_tool_result(false, Some("v"), None), "error");
    assert_eq!(summarize_tool_result(false, None, Some("e")), "e");
}

// ---- The desktop's policy ---------------------------------------

fn web(perms: &[(&str, &str)], required: &[(&str, bool)], name: &str, granted: bool) -> GateDecision {
    WebGatePolicy::new(words(perms), flags(required)).verdict(&call(name), granted)
}

#[test]
fn requests_are_only_hints() {
    let req = [("shell_exec", true), ("clock", false)];
    assert_eq!(web(&[("shell_exec", "always")], &req, "shell_exec", false), GateDecision::Prompt);
    assert_eq!(web(&[("shell_exec", "ask")], &req, "shell_exec", true), GateDecision::Approve);
    assert_eq!(web(&[("shell_exec", "disable")], &req, "shell_exec", true), GateDecision::Deny);
    assert_eq!(web(&[("clock", "always")], &req, "clock", false), GateDecision::Approve);
    assert_eq!(web(&[], &req, "clock", false), GateDecision::Prompt);
    assert_eq!(web(&[("new", "always")], &req, "new", false), GateDecision::Prompt);
}

#[test]
fn questions_leave_out_a_missing_preview() {
    let with = question("conf-1-2", &call("t"), Some("+ x"));
    let v: serde_json::Value = serde_json::from_str(&with).unwrap();
    assert_eq!(v["confirmationId"], "conf-1-2");
    assert_eq!(v["name"], "t");
    assert_eq!(v["arguments"], "{}");
    assert_eq!(v["preview"], "+ x");
    let without = question("conf-1-2", &call("t"), None);
    let v: serde_json::Value = serde_json::from_str(&without).unwrap();
    assert!(!v.as_object().unwrap().contains_key("preview"));
    assert_eq!(read_string_member(&with, "preview").as_deref(), Some("+ x"));
    assert_eq!(read_string_member(&without, "preview"), None);
    assert_eq!(read_string_member(&without, "confirmationId").as_deref(), Some("conf-1-2"));
}

// ---- The shared state -------------------------------------------

#[test]
fn a_new_run_cancels_the_one_before() {
    let mut s: AgentState<&str, u8> = AgentState::new();
    assert!(s.active_flag().is_none());
    let (first, before) = s.begin_run("one");
    assert!(before.is_none());
    let (second, before) = s.begin_run("two");
    assert_eq!(before, Some("one"));
    assert_ne!(first, second);
    // The first run ends late: the slot is not its own any more.
    s.end_run(first);
    assert_eq!(s.active_flag(), Some(&"two"));
    s.end_run(second);
    assert!(s.active_flag().is_none());
}

#[test]
fn grants_are_given_and_withdrawn_per_tool() {
    let mut s: AgentState<u8, u8> = AgentState::new();
    assert!(!s.has_always_grant("shell_exec"));
    s.grant_always("shell_exec");
    s.grant_always("file_read");
    s.grant_always("shell_exec");
    assert_eq!(s.always_grants(), strings(&["file_read", "shell_exec"]));
    assert!(!s.has_always_grant("web_fetch"));
    s.revoke_always("shell_exec");
    assert!(!s.has_always_grant("shell_exec"));
    assert!(s.has_always_grant("file_read"));
}

#[test]
fn questions_are_answered_once() {
    let mut s: AgentState<u8, u8> = AgentState::new();
    s.register_pending_confirm("a", 1);
    s.register_pending_confirm("b", 2);
    s.register_pending_confirm("c", 3);
    assert_eq!(s.take_pending_confirm("a"), Some(1));
    assert_eq!(s.take_pending_confirm("a"), None);
    s.cancel_pending_confirm("b");
    assert_eq!(s.take_pending_confirm("b"), None);
    s.begin_run(7);
    assert_eq!(s.shutdown(), Some(&7));
    assert_eq!(s.take_pending_confirm("c"), None);
}

#[test]
fn a_replaced_run_leaves_no_questions() {
    let mut s: AgentState<u8, u8> = AgentState::new();
    // Without an active run nothing is dropped.
    s.register_pending_confirm("early", 1);
    s.begin_run(1);
    assert_eq!(s.take_pending_confirm("early"), Some(1));
    s.register_pending_confirm("a", 2);
    s.grant_always("t");
    let (_, before) = s.begin_run(2);
    assert_eq!(before, Some(1));
    assert_eq!(s.take_pending_confirm("a"), None);
    assert!(s.has_always_grant("t"));
}

#[test]
fn cancelling_drops_the_waiting_questions() {
    let mut s: AgentState<u8, u8> = AgentState::new();
    assert_eq!(s.cancel(), None);
    let (run, _) = s.begin_run(7);
    s.register_pending_confirm("a", 1);
    s.grant_always("t");
    assert_eq!(s.cancel(), Some(&7));
    assert_eq!(s.take_pending_confirm("a"), None);
    // The run itself ends when it sees its flag.
    assert_eq!(s.active_flag(), Some(&7));
    assert!(s.has_always_grant("t"));
    s.end_run(run);
    assert!(s.active_flag().is_none());
}

#[test]
fn grants_outlast_the_runs_around_them() {
    let mut s: AgentState<u8, u8> = AgentState::new();
    s.grant_always("shell_exec");
    assert!(s.can_begin());
    let (run, _) = s.begin_run(1);
    s.register_pending_confirm("a", 1);
    s.cancel_pending_confirm("a");
    s.end_run(run);
    assert!(s.has_always_grant("shell_exec"));
    s.shutdown();
    assert!(s.has_always_grant("shell_exec"));
}

// ---- The agent command ------------------------------------------

fn opts(provider: &str, perms: &[(&str, &str)]) -> AgentChatOpts {
    AgentChatOpts {
        provider: provider.to_string(),
        model: None,
        base_url: Some("http://b".to_string()),
        api_key: None,
        max_steps: None,
        max_tokens: None,
        tool_permissions: words(perms),
    }
}

fn tool(name: &str, requires_confirmation: bool) -> ToolInfo {
    ToolInfo {
        name: name.to_string(),
        description: format!("the {name} tool"),
        requires_confirmation,
    }
}

#[test]
fn a_request_is_planned() {
    let tools = vec![tool("b", true), tool("a", false), tool("c", false)];
    let plan = plan_chat(opts("openai", &[("a", "disable"), ("b", "always"), ("x", "disable")]), &tools);
    assert!(matches!(plan.provider, ProviderChoice::Cloud { ref label } if label == "openai"));
    assert_eq!(plan.agent.max_steps, 8);
    assert_eq!(plan.agent.tools, strings(&["b", "c"]));
    let shown: Vec<&str> = plan.tools.iter().map(|t| t.name.as_str()).collect();
    assert_eq!(shown, vec!["b", "c"]);
    assert_eq!(plan.policy.verdict(&call("b"), false), GateDecision::Prompt);
    assert_eq!(plan.policy.verdict(&call("c"), false), GateDecision::Prompt);
    assert_eq!(plan.policy.verdict(&call("a"), true), GateDecision::Deny);
}

#[test]
fn local_runs_are_labelled() {
    assert!(matches!(
        opts("local", &[]).provider_choice(),
        ProviderChoice::Local { model } if model == "local"
    ));
    let mut o = opts("local", &[]);
    o.model = Some("llama".to_string());
    o.max_steps = Some(3);
    assert!(matches!(o.provider_choice(), ProviderChoice::Local { model } if model == "llama"));
    assert_eq!(o.step_limit(), 3);
    let i = o.cloud_config_input();
    assert_eq!(i.provider, "local");
    assert_eq!(i.model, Some("llama"));
    assert_eq!(i.base_url, Some("http://b"));
    assert_eq!(i.api_key, None);
}

#[test]
fn only_exact_words_disable() {
    let o = opts("p", &[("z", "disable"), ("a", "disable"), ("m", "Disable"), ("k", "ask")]);
    assert_eq!(o.disabled_tools(), strings(&["a", "z"]));
    let tools = vec![tool("a", true), tool("m", true)];
    let left = visible_tools(&tools, &o.disabled_tools());
    assert_eq!(left.len(), 1);
    let req = confirm_required(&vec![tool("m", true), tool("m", false)]);
    assert_eq!(req.get("m"), Some(&false));
}

#[test]
fn the_command_answers_with_the_text() {
    assert_eq!(chat_result(Ok(AgentOutcome::Final("x".to_string()))), Ok("x".to_string()));
    assert_eq!(chat_result(Ok(AgentOutcome::Cancelled)), Err("cancelled".to_string()));
    assert_eq!(chat_result(Err("e".to_string())), Err("e".to_string()));
}

#[test]
fn expanded_texts_reach_their_messages_only() {
    let mut messages = vec![
        ChatMessage::system("s"),
        ChatMessage::user("one"),
        ChatMessage::user("two"),
        ChatMessage::Assistant { content: "a".to_string(), tool_calls: Vec::new() },
    ];
    let targets = expand_targets(&roles_of(&messages));
    apply_expansion(&mut messages, targets, "S".to_string(), "TWO".to_string());
    assert!(matches!(&messages[0], ChatMessage::System { content } if content == "S"));
    assert!(matches!(&messages[1], ChatMessage::User { content } if content == "one"));
    assert!(matches!(&messages[2], ChatMessage::User { content } if content == "TWO"));
    assert!(matches!(&messages[3], ChatMessage::Assistant { content, .. } if content == "a"));

    let mut bare = vec![ChatMessage::Assistant { content: "a".to_string(), tool_calls: Vec::new() }];
    let targets = expand_targets(&roles_of(&bare));
    apply_expansion(&mut bare, targets, "x".to_string(), "y".to_string());
    assert!(matches!(&bare[0], ChatMessage::Assistant { content, .. } if content == "a"));
}

#[test]
fn system_and_last_user_messages_are_expanded() {
    let mut messages = vec![
        ChatMessage::system("s"),
        ChatMessage::user("one"),
        ChatMessage::user("two"),
        ChatMessage::Assistant { content: "a".to_string(), tool_calls: Vec::new() },
    ];
    let roles = roles_of(&messages);
    assert_eq!(roles, vec![Role::System, Role::User, Role::User, Role::Other]);
    assert_eq!(expand_targets(&roles), ExpandTargets { first: true, user: Some(2) });
    set_content(&mut messages, 2, "TWO".to_string());
    assert!(matches!(&messages[1], ChatMessage::User { content } if content == "one"));
    assert!(matches!(&messages[2], ChatMessage::User { content } if content == "TWO"));
    set_content(&mut messages, 3, "no".to_string());
    assert!(matches!(&messages[3], ChatMessage::Assistant { content, .. } if content == "a"));
    assert_eq!(
        expand_targets(&vec![Role::Other, Role::System]),
        ExpandTargets { first: false, user: None }
    );
    assert_eq!(expand_targets(&Vec::new()), ExpandTargets { first: false, user: None });
    assert_eq!(role_of("system"), Role::System);
    assert_eq!(role_of("user"), Role::User);
    assert_eq!(role_of("tool"), Role::Other);
}

#[test]
fn unresolved_links_are_listed() {
    assert_eq!(unresolved_warning(&Vec::new()), None);
    assert_eq!(
        unresolved_warning(&strings(&["a", "b"])).as_deref(),
        Some("wikilink unresolved: a, b")
    );
}

// ---- Providers --------------------------------------------------

fn def(key: &str, base_url: &str, user_configurable: bool) -> CloudProviderDef {
    CloudProviderDef {
        key: key.to_string(),
        label: "L".to_string(),
        env_var: "E".to_string(),
        base_url: base_url.to_string(),
        default_model: "d".to_string(),
        recommended_models: strings(&["m1", "m2"]),
        user_configurable,
    }
}

#[test]
fn providers_are_described() {
    let i = CloudProviderInfo::from_def(&def("openai", "http://o", false), false);
    assert_eq!(i.key, "openai");
    assert_eq!(i.default_model, "d");
    assert_eq!(i.recommended_models, strings(&["m1", "m2"]));
    assert!(!i.api_key_set && !i.user_configurable);
    assert!(CloudProviderInfo::from_def(&def("openai", "", false), true).api_key_set);
    assert!(CloudProviderInfo::from_def(&def("other", "", true), false).api_key_set);
}

#[test]
fn model_lists_are_planned() {
    let defs = vec![def("openai", "http://o", false), def("other", "", true), def("bare", "", false)];
    match plan_models("nope", cloud_provider_def(&defs, "nope")).unwrap() {
        ModelsPlan::Answer(c) => {
            assert_eq!(c.source, CatalogSource::RecommendedOnly);
            assert!(c.recommended.is_empty() && c.fetched.is_empty());
            assert_eq!(c.fetched_at, None);
            assert_eq!(c.error.as_deref(), Some("unknown provider: nope"));
        }
        other => panic!("expected an answer, got {other:?}"),
    }
    for key in ["other", "bare"] {
        match plan_models(key, cloud_provider_def(&defs, key)).unwrap() {
            ModelsPlan::Answer(c) => {
                assert_eq!(c.source, CatalogSource::RecommendedOnly);
                assert_eq!(c.recommended, strings(&["m1", "m2"]));
                assert!(c.fetched.is_empty() && c.error.is_none());
            }
            other => panic!("expected an answer, got {other:?}"),
        }
    }
    match plan_models("openai", cloud_provider_def(&defs, "openai")).unwrap() {
        ModelsPlan::Resolve { key, base_url, recommended } => {
            assert_eq!(key, "openai");
            assert_eq!(base_url, "http://o");
            assert_eq!(recommended, strings(&["m1", "m2"]));
        }
        other => panic!("expected to resolve, got {other:?}"),
    }
}

#[test]
fn secrets_are_not_revealed() {
    assert_eq!(has_secret(Ok(Some("s".to_string()))), Ok(true));
    assert_eq!(has_secret(Ok(None)), Ok(false));
    assert_eq!(has_secret(Err("e".to_string())), Err("e".to_string()));
}
