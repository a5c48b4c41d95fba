use rezon::agent::confirm::{ConfirmationGate, ConfirmationOutcome};
use rezon::agent::delta::{AgentDelta, FinishReason, StreamStats};
use rezon::agent::event::AgentEvent;
use rezon::agent::loop_::{AgentOpts, AgentOutcome, AgentRun, RunInput, RunRequest};
use rezon::agent::message::ChatMessage;
use rezon::agent::testing::{
    turn_final, turn_tool_call, FakeTool, RecordingSink, Scripted, ScriptedGate, ScriptedProvider,
};
use rezon::agent::tool::{ToolCall, ToolError};

/// Runs an agent against the stand-ins. `cancel` is the cancel flag throughout.
fn run(
    provider: &mut ScriptedProvider,
    tool: &mut FakeTool,
    sink: &mut RecordingSink,
    messages: &mut Vec<ChatMessage>,
    gate: &mut ScriptedGate,
    max_steps: usize,
    cancel: bool,
) -> Result<AgentOutcome, String> {
    let opts = AgentOpts {
        max_steps,
        tools: vec![tool.name().clone()],
    };
    let (mut state, mut step) = AgentRun::start(messages.clone(), opts);
    let mut items: Vec<Scripted> = Vec::new();
    loop {
        for e in step.events {
            sink.emit(e);
        }
        let input = match step.request {
            RunRequest::ReadCancelFlag => RunInput::CancelFlag(cancel),
            RunRequest::OpenStream => {
                items = provider.stream(state.messages());
                items.reverse();
                RunInput::StreamOpened
            }
            RunRequest::NextDelta => match items.pop() {
                Some(Scripted::Delta(d)) => RunInput::Delta(d),
                Some(Scripted::Failure(e)) => RunInput::StreamFailed(e),
                None => RunInput::StreamEnded,
            },
            RunRequest::AskGate { call, preview_args } => {
                let preview = preview_args.and_then(|_| tool.preview());
                RunInput::GateAnswer(gate.ask(&call, preview.as_deref()))
            }
            RunRequest::Dispatch { name, arguments } => {
                assert_eq!(&name, tool.name());
                RunInput::ToolFinished(tool.dispatch(&arguments))
            }
            RunRequest::Finish(end) => {
                assert!(!state.accepts(&RunInput::StreamEnded), "nothing follows the end");
                *messages = state.into_messages();
                return end;
            }
        };
        assert!(state.accepts(&input));
        step = state.resume(input);
    }
}

fn user(text: &str) -> Vec<ChatMessage> {
    vec![ChatMessage::user(text)]
}

fn json(text: &str) -> serde_json::Value {
    serde_json::from_str(text).unwrap()
}

// ---- Happy paths ------------------------------------------------

#[test]
fn final_answer_returns_without_dispatching() {
    let mut provider = ScriptedProvider::new(vec![turn_final("hello world")]);
    let mut sink = RecordingSink::new();
    let mut gate = ScriptedGate::approving();
    let mut tool = FakeTool::new("noop");
    let mut messages = user("hi");

    let out = run(&mut provider, &mut tool, &mut sink, &mut messages, &mut gate, 8, false).unwrap();

    assert!(matches!(out, AgentOutcome::Final(ref s) if s == "hello world"));
    assert_eq!(sink.text(), "hello world");
    assert_eq!(sink.kinds(), vec!["token", "done"]);
    assert_eq!(gate.ask_count(), 0, "no tool calls means no gate prompts");
    assert!(!tool.was_dispatched());
    assert_eq!(provider.turns_taken(), 1);
}

#[test]
fn tool_call_dispatches_then_second_turn_finalizes() {
    let mut provider = ScriptedProvider::new(vec![
        turn_tool_call("call-1", "noop", r#"{"x":42}"#),
        turn_final("done thinking"),
    ]);
    let mut sink = RecordingSink::new();
    let mut gate = ScriptedGate::approving();
    let mut tool = FakeTool::new("noop");
    let mut messages = user("go");

    let out = run(&mut provider, &mut tool, &mut sink, &mut messages, &mut gate, 8, false).unwrap();

    assert!(matches!(out, AgentOutcome::Final(_)));
    assert_eq!(provider.turns_taken(), 2);

    let calls: Vec<serde_json::Value> = tool.calls().iter().map(|c| json(c)).collect();
    assert_eq!(calls, vec![json(r#"{"x": 42}"#)]);

    assert_eq!(sink.kinds(), vec!["tool_start", "tool_end", "token", "done"]);

    assert_eq!(messages.len(), 4);
    match &messages[1] {
        ChatMessage::Assistant { tool_calls, .. } => {
            assert_eq!(tool_calls.len(), 1);
            assert_eq!(tool_calls[0].id, "call-1");
            assert_eq!(tool_calls[0].arguments, r#"{"x":42}"#);
        }
        other => panic!("expected assistant turn, got {other:?}"),
    }
    match &messages[2] {
        ChatMessage::Tool { tool_call_id, content } => {
            assert_eq!(tool_call_id, "call-1");
            assert_eq!(content, r#"{"ok":true}"#);
        }
        other => panic!("expected tool turn, got {other:?}"),
    }

    let second = &provider.seen_turns()[1];
    assert!(matches!(second[2], ChatMessage::Tool { .. }));
}

#[test]
fn preview_is_rendered_once_and_passed_to_the_gate() {
    let mut provider = ScriptedProvider::new(vec![
        turn_tool_call("c1", "previewed", "{}"),
        turn_final("ok"),
    ]);
    let mut sink = RecordingSink::new();
    let mut gate = ScriptedGate::approving();
    let mut tool = FakeTool::with_preview("previewed", "+ added line");
    let mut messages = user("go");

    run(&mut provider, &mut tool, &mut sink, &mut messages, &mut gate, 8, false).unwrap();

    assert_eq!(
        gate.asked(),
        vec![("previewed".to_string(), Some("+ added line".to_string()))]
    );
}

#[test]
fn malformed_arguments_have_no_preview() {
    let mut provider = ScriptedProvider::new(vec![
        turn_tool_call("c1", "previewed", "{bad"),
        turn_final("ok"),
    ]);
    let mut sink = RecordingSink::new();
    let mut gate = ScriptedGate::approving();
    let mut tool = FakeTool::with_preview("previewed", "+ added line");
    let mut messages = user("go");
    run(&mut provider, &mut tool, &mut sink, &mut messages, &mut gate, 8, false).unwrap();
    assert_eq!(gate.asked(), vec![("previewed".to_string(), None)]);
}

// ---- Denial -----------------------------------------------------

#[test]
fn denied_call_does_not_dispatch_but_still_threads_a_tool_message() {
    let mut provider = ScriptedProvider::new(vec![
        turn_tool_call("c1", "noop", "{}"),
        turn_final("understood"),
    ]);
    let mut sink = RecordingSink::new();
    let mut gate = ScriptedGate::denying();
    let mut tool = FakeTool::new("noop");
    let mut messages = user("go");

    run(&mut provider, &mut tool, &mut sink, &mut messages, &mut gate, 8, false).unwrap();

    assert_eq!(gate.ask_count(), 1);
    assert!(!tool.was_dispatched(), "a denied call must never reach the tool");

    match &messages[2] {
        ChatMessage::Tool { tool_call_id, content } => {
            assert_eq!(tool_call_id, "c1");
            assert!(content.contains("denied by user"), "got {content}");
            assert_eq!(json(content)["error"], "denied by user");
        }
        other => panic!("expected tool turn, got {other:?}"),
    }

    let kinds = sink.kinds();
    assert_eq!(kinds[0], "tool_start");
    assert_eq!(kinds[1], "tool_end");
    match &sink.events()[1] {
        AgentEvent::ToolEnd { id, ok, result, error } => {
            assert_eq!(id, "c1");
            assert!(!ok);
            assert!(result.is_none());
            assert_eq!(error.as_deref(), Some("denied by user"));
        }
        other => panic!("expected a tool end, got {other:?}"),
    }
}

#[test]
fn some_calls_denied_and_some_approved() {
    // Two calls in one turn; the first is denied, the second runs.
    let turn = vec![
        Scripted::from(AgentDelta::ToolCallStart {
            index: 3,
            id: "late".to_string(),
            name: "noop".to_string(),
        }),
        Scripted::from(AgentDelta::ToolCallStart {
            index: 1,
            id: "early".to_string(),
            name: "noop".to_string(),
        }),
        Scripted::from(AgentDelta::ToolCallArgs { index: 3, fragment: "{\"b\":1}".to_string() }),
        Scripted::from(AgentDelta::ToolCallArgs { index: 9, fragment: "dropped".to_string() }),
        Scripted::from(AgentDelta::ToolCallEnd { index: 3 }),
        Scripted::from(AgentDelta::Done { finish_reason: FinishReason::ToolCalls }),
    ];
    let mut provider = ScriptedProvider::new(vec![turn, turn_final("ok")]);
    let mut sink = RecordingSink::new();
    let mut gate = ScriptedGate::scripted(vec![
        ConfirmationOutcome::Denied,
        ConfirmationOutcome::Approved,
    ]);
    let mut tool = FakeTool::new("noop");
    let mut messages = user("go");
    run(&mut provider, &mut tool, &mut sink, &mut messages, &mut gate, 8, false).unwrap();

    assert_eq!(gate.ask_count(), 2);
    assert_eq!(tool.calls(), vec!["{\"b\":1}".to_string()]);
    // The calls stand in the order of their indexes, each with its answer.
    match &messages[1] {
        ChatMessage::Assistant { tool_calls, .. } => {
            let ids: Vec<&str> = tool_calls.iter().map(|c| c.id.as_str()).collect();
            assert_eq!(ids, vec!["early", "late"]);
        }
        other => panic!("expected assistant turn, got {other:?}"),
    }
    let answered: Vec<&str> = messages[2..4]
        .iter()
        .map(|m| match m {
            ChatMessage::Tool { tool_call_id, .. } => tool_call_id.as_str(),
            other => panic!("expected tool turn, got {other:?}"),
        })
        .collect();
    assert_eq!(answered, vec!["early", "late"]);
    assert_eq!(
        sink.kinds(),
        vec!["tool_start", "tool_end", "tool_start", "tool_end", "token", "done"]
    );
}

// ---- Failure threading ------------------------------------------

#[test]
fn tool_error_is_threaded_back_so_the_model_can_recover() {
    let mut provider = ScriptedProvider::new(vec![
        turn_tool_call("c1", "boom", "{}"),
        turn_final("recovered"),
    ]);
    let mut sink = RecordingSink::new();
    let mut tool = FakeTool::failing("boom", "disk on fire");
    let mut messages = user("go");
    let mut gate = ScriptedGate::approving();

    let out = run(&mut provider, &mut tool, &mut sink, &mut messages, &mut gate, 8, false).unwrap();

    assert!(matches!(out, AgentOutcome::Final(ref s) if s == "recovered"));
    match &messages[2] {
        ChatMessage::Tool { content, .. } => {
            assert!(content.contains("disk on fire"), "got {content}")
        }
        other => panic!("expected tool turn, got {other:?}"),
    }
}

#[test]
fn unknown_tool_is_an_argument_error_not_a_panic() {
    let mut provider = ScriptedProvider::new(vec![
        turn_tool_call("c1", "does_not_exist", "{}"),
        turn_final("ok"),
    ]);
    let mut sink = RecordingSink::new();
    let mut messages = user("go");
    let mut gate = ScriptedGate::approving();
    let mut tool = FakeTool::new("noop");

    run(&mut provider, &mut tool, &mut sink, &mut messages, &mut gate, 8, false).unwrap();

    match &messages[2] {
        ChatMessage::Tool { content, .. } => {
            assert!(content.contains("unknown tool"), "got {content}");
            assert_eq!(json(content)["error"], "unknown tool `does_not_exist`");
        }
        other => panic!("expected tool turn, got {other:?}"),
    }
}

#[test]
fn malformed_tool_arguments_error_without_dispatching() {
    let mut provider = ScriptedProvider::new(vec![
        turn_tool_call("c1", "noop", "{not json"),
        turn_final("ok"),
    ]);
    let mut sink = RecordingSink::new();
    let mut tool = FakeTool::new("noop");
    let mut messages = user("go");
    let mut gate = ScriptedGate::approving();

    run(&mut provider, &mut tool, &mut sink, &mut messages, &mut gate, 8, false).unwrap();

    assert!(!tool.was_dispatched());
    match &messages[2] {
        ChatMessage::Tool { content, .. } => {
            assert!(content.contains("not valid JSON"), "got {content}");
            let want = serde_json::from_str::<serde_json::Value>("{not json").unwrap_err();
            assert_eq!(
                json(content)["error"],
                format!("arguments not valid JSON: {want} (raw: {{not json)")
            );
        }
        other => panic!("expected tool turn, got {other:?}"),
    }
}

#[test]
fn blank_arguments_are_an_empty_object() {
    let mut provider = ScriptedProvider::new(vec![
        turn_tool_call("c1", "noop", " \n "),
        turn_final("ok"),
    ]);
    let mut sink = RecordingSink::new();
    let mut tool = FakeTool::new("noop");
    let mut messages = user("go");
    let mut gate = ScriptedGate::approving();
    run(&mut provider, &mut tool, &mut sink, &mut messages, &mut gate, 8, false).unwrap();
    assert_eq!(tool.calls(), vec!["{}".to_string()]);
}

// ---- Cancellation -----------------------------------------------

#[test]
fn cancel_before_first_turn_returns_cancelled() {
    let mut provider = ScriptedProvider::new(vec![]);
    let mut sink = RecordingSink::new();
    let mut messages = user("go");
    let mut gate = ScriptedGate::approving();
    let mut tool = FakeTool::new("noop");

    let out = run(&mut provider, &mut tool, &mut sink, &mut messages, &mut gate, 8, true).unwrap();

    assert!(matches!(out, AgentOutcome::Cancelled));
    assert_eq!(sink.kinds(), vec!["cancelled"]);
    assert_eq!(provider.turns_taken(), 0, "must not open a stream after cancel");
}

#[test]
fn cancel_between_calls_leaves_the_later_call_alone() {
    let opts = AgentOpts { max_steps: 4, tools: vec!["noop".to_string()] };
    let (mut state, step) = AgentRun::start(user("go"), opts);
    assert!(matches!(step.request, RunRequest::ReadCancelFlag));
    state.resume(RunInput::CancelFlag(false));
    state.resume(RunInput::StreamOpened);
    state.resume(RunInput::Delta(AgentDelta::ToolCallStart {
        index: 0,
        id: "c".to_string(),
        name: "noop".to_string(),
    }));
    let step = state.resume(RunInput::Delta(AgentDelta::Done {
        finish_reason: FinishReason::ToolCalls,
    }));
    assert!(matches!(step.request, RunRequest::ReadCancelFlag));
    let step = state.resume(RunInput::CancelFlag(true));
    assert!(matches!(step.request, RunRequest::Finish(Ok(AgentOutcome::Cancelled))));
    assert_eq!(state.messages().len(), 2);
}

#[test]
fn cancelled_finish_reason_short_circuits_the_turn() {
    let mut provider = ScriptedProvider::new(vec![vec![
        AgentDelta::Content("partial".to_string()).into(),
        AgentDelta::Done { finish_reason: FinishReason::Cancelled }.into(),
    ]]);
    let mut sink = RecordingSink::new();
    let mut tool = FakeTool::new("noop");
    let mut messages = user("go");
    let mut gate = ScriptedGate::approving();

    let out = run(&mut provider, &mut tool, &mut sink, &mut messages, &mut gate, 8, false).unwrap();

    assert!(matches!(out, AgentOutcome::Cancelled));
    assert!(!tool.was_dispatched());
    assert!(matches!(
        &messages[1],
        ChatMessage::Assistant { content, .. } if content == "partial"
    ));
}

// ---- Bail-outs --------------------------------------------------

#[test]
fn max_steps_exhaustion_errors_and_emits_error_event() {
    let mut provider = ScriptedProvider::new(vec![
        turn_tool_call("c1", "noop", "{}"),
        turn_tool_call("c2", "noop", "{}"),
    ]);
    let mut sink = RecordingSink::new();
    let mut messages = user("go");
    let mut gate = ScriptedGate::approving();
    let mut tool = FakeTool::new("noop");

    let err = run(&mut provider, &mut tool, &mut sink, &mut messages, &mut gate, 2, false)
        .unwrap_err();

    assert!(err.contains("max_steps=2"), "got {err}");
    assert_eq!(err, "agent exceeded max_steps=2");
    assert_eq!(provider.turns_taken(), 2);
    assert_eq!(*sink.kinds().last().unwrap(), "error");
}

#[test]
fn no_steps_at_all_fail_at_once() {
    let opts = AgentOpts { max_steps: 0, tools: Vec::new() };
    let (_, step) = AgentRun::start(user("go"), opts);
    assert!(matches!(step.request, RunRequest::Finish(Err(ref e)) if e == "agent exceeded max_steps=0"));
    assert!(matches!(&step.events[0], AgentEvent::Error(e) if e == "agent exceeded max_steps=0"));
}

#[test]
fn tool_calls_finish_reason_with_no_calls_finalizes_instead_of_looping() {
    let mut provider = ScriptedProvider::new(vec![vec![
        AgentDelta::Content("nothing to call".to_string()).into(),
        AgentDelta::Done { finish_reason: FinishReason::ToolCalls }.into(),
    ]]);
    let mut sink = RecordingSink::new();
    let mut messages = user("go");
    let mut gate = ScriptedGate::approving();
    let mut tool = FakeTool::new("noop");

    let out = run(&mut provider, &mut tool, &mut sink, &mut messages, &mut gate, 8, false).unwrap();

    assert!(matches!(out, AgentOutcome::Final(ref s) if s == "nothing to call"));
    assert_eq!(provider.turns_taken(), 1);
}

#[test]
fn length_and_other_reasons_are_final_too() {
    for reason in [FinishReason::Length, FinishReason::Other("content_filter".to_string())] {
        let mut provider = ScriptedProvider::new(vec![vec![
            AgentDelta::Content("cut".to_string()).into(),
            AgentDelta::Done { finish_reason: reason }.into(),
        ]]);
        let mut sink = RecordingSink::new();
        let mut messages = user("go");
        let mut gate = ScriptedGate::approving();
        let mut tool = FakeTool::new("noop");
        let out =
            run(&mut provider, &mut tool, &mut sink, &mut messages, &mut gate, 8, false).unwrap();
        assert!(matches!(out, AgentOutcome::Final(ref s) if s == "cut"));
    }
}

#[test]
fn a_stream_that_just_ends_is_final() {
    let mut provider = ScriptedProvider::new(vec![vec![
        AgentDelta::Thinking("hm".to_string()).into(),
        AgentDelta::Content("short".to_string()).into(),
        AgentDelta::Stats(StreamStats {
            provider: "p".to_string(),
            prompt_tokens: Some(1),
            cached_tokens: None,
            gen_tokens: 2,
            duration_ms: 3,
        })
        .into(),
    ]]);
    let mut sink = RecordingSink::new();
    let mut messages = user("go");
    let mut gate = ScriptedGate::approving();
    let mut tool = FakeTool::new("noop");
    let out = run(&mut provider, &mut tool, &mut sink, &mut messages, &mut gate, 8, false).unwrap();
    assert!(matches!(out, AgentOutcome::Final(ref s) if s == "short"));
    assert_eq!(sink.kinds(), vec!["thinking", "token", "stats", "done"]);
    assert_eq!(sink.text(), "short");
}

// ---- Mid-stream provider failure --------------------------------

#[test]
fn mid_stream_error_preserves_partial_text_and_emits_error() {
    let mut provider = ScriptedProvider::new(vec![vec![
        AgentDelta::Content("partial answ".to_string()).into(),
        Scripted::Failure("connection reset".to_string()),
    ]]);
    let mut sink = RecordingSink::new();
    let mut messages = user("go");
    let mut gate = ScriptedGate::approving();
    let mut tool = FakeTool::new("noop");

    let out = run(&mut provider, &mut tool, &mut sink, &mut messages, &mut gate, 8, false);

    let err = out.expect_err("mid-stream provider failure must surface");
    assert!(err.contains("connection reset"), "got {err}");
    assert!(
        sink.kinds().contains(&"error"),
        "expected an Error event, got {:?}",
        sink.kinds()
    );
    assert!(
        matches!(&messages[1], ChatMessage::Assistant { content, .. } if content == "partial answ"),
        "partial assistant text was dropped: {:?}",
        messages
    );
}

#[test]
fn a_refused_stream_fails_without_an_event() {
    let opts = AgentOpts { max_steps: 1, tools: Vec::new() };
    let (mut state, _) = AgentRun::start(user("go"), opts);
    state.resume(RunInput::CancelFlag(false));
    let step = state.resume(RunInput::StreamRefused("no route".to_string()));
    assert!(step.events.is_empty());
    assert!(matches!(step.request, RunRequest::Finish(Err(ref e)) if e == "no route"));
    assert_eq!(state.messages().len(), 1);
}

// ---- Gate policy ------------------------------------------------

fn run_with(gate: &mut ScriptedGate, tool: &mut FakeTool) -> Result<AgentOutcome, String> {
    let mut provider =
        ScriptedProvider::new(vec![turn_tool_call("c1", "t", "{}"), turn_final("ok")]);
    let mut messages = user("go");
    run(&mut provider, tool, &mut RecordingSink::new(), &mut messages, gate, 8, false)
}

#[test]
fn a_call_is_announced_only_once_the_gate_has_answered() {
    let opts = AgentOpts {
        max_steps: 2,
        tools: vec!["noop".to_string()],
    };
    let (mut state, _) = AgentRun::start(user("go"), opts);
    let inputs = vec![
        RunInput::CancelFlag(false),
        RunInput::StreamOpened,
        RunInput::Delta(AgentDelta::ToolCallStart {
            index: 0,
            id: "c".to_string(),
            name: "noop".to_string(),
        }),
        RunInput::Delta(AgentDelta::Done {
            finish_reason: FinishReason::ToolCalls,
        }),
        RunInput::CancelFlag(false),
    ];
    for input in inputs {
        let step = state.resume(input);
        assert!(step.events.is_empty(), "announced too early: {:?}", step.events);
    }
    let step = state.resume(RunInput::GateAnswer(ConfirmationOutcome::Approved));
    assert!(
        matches!(&step.events[..], [AgentEvent::ToolStart { id, name }] if id == "c" && name == "noop")
    );
    assert!(matches!(&step.request, RunRequest::Dispatch { arguments, .. } if arguments == "{}"));
}

#[test]
fn every_tool_call_reaches_the_gate_exactly_once() {
    let mut gate = ScriptedGate::approving();
    let mut tool = FakeTool::new("t");
    run_with(&mut gate, &mut tool).unwrap();
    assert_eq!(gate.ask_count(), 1);
    assert!(tool.was_dispatched());
}

#[test]
fn a_denying_gate_is_authoritative_over_the_tools_own_declaration() {
    let mut gate = ScriptedGate::denying();
    let mut tool = FakeTool::new("t");
    assert!(!tool.requires_confirmation());
    run_with(&mut gate, &mut tool).unwrap();
    assert_eq!(gate.ask_count(), 1);
    assert!(
        !tool.was_dispatched(),
        "gate denial must win over a tool that declares itself safe"
    );
}

#[test]
fn confirmation_required_tool_is_not_dispatched_when_denied() {
    let mut gate = ScriptedGate::denying();
    let mut tool = FakeTool::with_preview("t", "+ writes a file");
    assert!(tool.requires_confirmation());
    run_with(&mut gate, &mut tool).unwrap();
    assert!(!tool.was_dispatched());
    assert_eq!(
        gate.asked(),
        vec![("t".to_string(), Some("+ writes a file".to_string()))]
    );
}

#[test]
fn tool_errors_show_their_text() {
    assert_eq!(ToolError::Argument("a".to_string()).message(), "a");
    assert_eq!(ToolError::Runtime("b".to_string()).message(), "b");
    assert_eq!(
        ToolError::invalid_args("missing field").message(),
        "invalid args: missing field"
    );
    let call = ToolCall {
        id: "1".to_string(),
        name: "n".to_string(),
        arguments: "{}".to_string(),
    };
    assert_eq!(call.clone().name, "n");
}
