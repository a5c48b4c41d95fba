use rezon::agent::cloud::{
    build_request, map_finish_reason, to_openai_messages, to_openai_tools, ChunkState,
    RequestMessage, StreamInput, StreamOutput, WireChoice, WireChunk, WireFinish, WireFunction,
    WireToolChunk, WireUsage,
};
use rezon::agent::delta::{AgentDelta, FinishReason};
use rezon::agent::message::ChatMessage;
use rezon::agent::tool::ToolCall;
use rezon::json::{Json, Member};

/// The whole normalized delta stream for a list of chunks.
fn deltas(chunks: Vec<WireChunk>) -> Vec<AgentDelta> {
    deltas_with_cancel(chunks, false)
}

fn deltas_with_cancel(chunks: Vec<WireChunk>, cancelled: bool) -> Vec<AgentDelta> {
    let mut state = ChunkState::new("testprovider");
    let mut upstream = chunks.into_iter();
    let mut out = Vec::new();
    let mut input = StreamInput::Poll { cancelled };
    loop {
        input = match state.react(input) {
            StreamOutput::Emit(d) => {
                out.push(d);
                StreamInput::Poll { cancelled }
            }
            StreamOutput::Fail(e) => panic!("stream item: {e}"),
            StreamOutput::Pull => match upstream.next() {
                Some(chunk) => StreamInput::Chunk { chunk, elapsed_ms: 5 },
                None => StreamInput::Ended,
            },
            StreamOutput::Again => StreamInput::Poll { cancelled },
            StreamOutput::End => return out,
        };
    }
}

/// Terse shape of a delta, for asserting sequences.
fn shape(d: &AgentDelta) -> String {
    match d {
        AgentDelta::Content(s) => format!("content:{s}"),
        AgentDelta::Thinking(s) => format!("thinking:{s}"),
        AgentDelta::ToolCallStart { index, id, name } => format!("start:{index}:{id}:{name}"),
        AgentDelta::ToolCallArgs { index, fragment } => format!("args:{index}:{fragment}"),
        AgentDelta::ToolCallEnd { index } => format!("end:{index}"),
        AgentDelta::Stats(s) => format!("stats:{}", s.provider),
        AgentDelta::Done { finish_reason } => format!("done:{finish_reason:?}"),
    }
}

fn shapes(ds: &[AgentDelta]) -> Vec<String> {
    ds.iter().map(shape).collect()
}

fn choice(
    content: Option<&str>,
    tool_calls: Option<Vec<WireToolChunk>>,
    finish_reason: Option<WireFinish>,
) -> WireChunk {
    WireChunk {
        choices: vec![WireChoice {
            content: content.map(str::to_string),
            tool_calls,
            finish_reason,
        }],
        usage: None,
    }
}

fn content_chunk(text: &str) -> WireChunk {
    choice(Some(text), None, None)
}

fn finish_chunk(reason: WireFinish) -> WireChunk {
    choice(None, None, Some(reason))
}

fn usage_chunk(prompt: u32, completion: u32, cached: Option<u32>) -> WireChunk {
    WireChunk {
        choices: Vec::new(),
        usage: Some(WireUsage {
            prompt_tokens: prompt,
            completion_tokens: completion,
            cached_tokens: cached,
        }),
    }
}

fn first(index: u32, id: &str, name: &str, arguments: &str) -> WireToolChunk {
    WireToolChunk {
        index,
        id: Some(id.to_string()),
        function: Some(WireFunction {
            name: Some(name.to_string()),
            arguments: Some(arguments.to_string()),
        }),
    }
}

fn more(index: u32, arguments: &str) -> WireToolChunk {
    WireToolChunk {
        index,
        id: None,
        function: Some(WireFunction { name: None, arguments: Some(arguments.to_string()) }),
    }
}

fn calls(list: Vec<WireToolChunk>) -> WireChunk {
    choice(None, Some(list), None)
}

// ---- Content ----------------------------------------------------

#[test]
fn content_chunks_stream_in_order_then_done() {
    let ds = deltas(vec![
        content_chunk("Hel"),
        content_chunk("lo"),
        finish_chunk(WireFinish::Stop),
    ]);
    assert_eq!(shapes(&ds), vec!["content:Hel", "content:lo", "done:Stop"]);
}

#[test]
fn empty_content_deltas_are_skipped() {
    let ds = deltas(vec![
        content_chunk(""),
        content_chunk("real"),
        choice(None, None, None),
        finish_chunk(WireFinish::Stop),
    ]);
    assert_eq!(shapes(&ds), vec!["content:real", "done:Stop"]);
}

// ---- Tool calls -------------------------------------------------

#[test]
fn tool_call_id_and_name_come_from_the_first_chunk_only() {
    let ds = deltas(vec![
        calls(vec![first(0, "call_1", "shell_exec", "")]),
        calls(vec![more(0, "{\"cmd\":")]),
        calls(vec![more(0, "\"ls\"}")]),
        finish_chunk(WireFinish::ToolCalls),
    ]);
    assert_eq!(
        shapes(&ds),
        vec![
            "start:0:call_1:shell_exec",
            r#"args:0:{"cmd":"#,
            r#"args:0:"ls"}"#,
            "done:ToolCalls",
        ]
    );
}

#[test]
fn arguments_on_the_first_chunk_are_not_dropped() {
    let ds = deltas(vec![
        calls(vec![first(0, "call_1", "t", "{\"a\":1")]),
        calls(vec![more(0, "}")]),
        finish_chunk(WireFinish::ToolCalls),
    ]);
    assert_eq!(
        shapes(&ds),
        vec![
            "start:0:call_1:t",
            r#"args:0:{"a":1"#,
            "args:0:}",
            "done:ToolCalls",
        ]
    );
}

#[test]
fn parallel_tool_calls_are_routed_by_index() {
    let ds = deltas(vec![
        calls(vec![first(0, "a", "first", "")]),
        calls(vec![first(1, "b", "second", "")]),
        calls(vec![more(0, "A1"), more(1, "B1")]),
        finish_chunk(WireFinish::ToolCalls),
    ]);
    assert_eq!(
        shapes(&ds),
        vec![
            "start:0:a:first",
            "start:1:b:second",
            "args:0:A1",
            "args:1:B1",
            "done:ToolCalls",
        ]
    );
}

#[test]
fn multiple_tool_call_chunks_in_one_message_keep_their_order() {
    let ds = deltas(vec![
        choice(Some("before"), Some(vec![first(0, "a", "t", "X")]), None),
        finish_chunk(WireFinish::ToolCalls),
    ]);
    assert_eq!(
        shapes(&ds),
        vec!["content:before", "start:0:a:t", "args:0:X", "done:ToolCalls"]
    );
}

#[test]
fn a_first_fragment_without_id_or_function_still_begins_the_call() {
    let ds = deltas(vec![
        calls(vec![WireToolChunk { index: 7, id: None, function: None }]),
        calls(vec![first(7, "late", "late", "z")]),
    ]);
    assert_eq!(shapes(&ds), vec!["start:7::", "args:7:z", "done:Stop"]);
}

// ---- Finish reasons ---------------------------------------------

#[test]
fn finish_reasons_map_onto_the_normalized_enum() {
    for (wire, want) in [
        (WireFinish::Stop, "done:Stop"),
        (WireFinish::ToolCalls, "done:ToolCalls"),
        (WireFinish::Length, "done:Length"),
        (WireFinish::ContentFilter, "done:Other(\"content_filter\")"),
    ] {
        let ds = deltas(vec![content_chunk("x"), finish_chunk(wire)]);
        assert_eq!(
            shapes(&ds).last().unwrap(),
            want,
            "wire finish_reason {wire:?} mapped wrong"
        );
    }
    assert!(matches!(
        map_finish_reason(WireFinish::FunctionCall),
        FinishReason::Other(s) if s == "function_call"
    ));
}

#[test]
fn a_stream_that_ends_without_a_finish_reason_defaults_to_stop() {
    let ds = deltas(vec![content_chunk("partial")]);
    assert_eq!(shapes(&ds), vec!["content:partial", "done:Stop"]);
}

#[test]
fn done_is_emitted_exactly_once() {
    let ds = deltas(vec![content_chunk("x"), finish_chunk(WireFinish::Stop)]);
    let dones = ds.iter().filter(|d| matches!(d, AgentDelta::Done { .. })).count();
    assert_eq!(dones, 1);
}

// ---- Usage / stats ----------------------------------------------

#[test]
fn usage_becomes_stats_before_done() {
    let ds = deltas(vec![
        content_chunk("hi"),
        finish_chunk(WireFinish::Stop),
        usage_chunk(11, 22, None),
    ]);
    assert_eq!(shapes(&ds), vec!["content:hi", "stats:testprovider", "done:Stop"]);
    match &ds[1] {
        AgentDelta::Stats(s) => {
            assert_eq!(s.prompt_tokens, Some(11));
            assert_eq!(s.gen_tokens, 22);
            assert_eq!(s.provider, "testprovider");
            assert_eq!(s.duration_ms, 5);
        }
        other => panic!("expected Stats, got {other:?}"),
    }
}

#[test]
fn cached_tokens_are_carried_through_when_present() {
    let ds = deltas(vec![finish_chunk(WireFinish::Stop), usage_chunk(100, 5, Some(64))]);
    match ds.iter().find(|d| matches!(d, AgentDelta::Stats(_))) {
        Some(AgentDelta::Stats(s)) => assert_eq!(s.cached_tokens, Some(64)),
        _ => panic!("no Stats delta: {:?}", shapes(&ds)),
    }
}

// ---- Cancellation and failure -----------------------------------

#[test]
fn a_cancelled_run_terminates_with_done_cancelled() {
    let ds = deltas_with_cancel(vec![content_chunk("never")], true);
    assert_eq!(shapes(&ds), vec!["done:Cancelled"]);
}

#[test]
fn what_waits_is_emitted_even_when_cancelled() {
    let mut state = ChunkState::new("p");
    assert!(matches!(
        state.react(StreamInput::Chunk {
            chunk: choice(Some("one"), Some(vec![first(0, "a", "t", "")]), None),
            elapsed_ms: 0,
        }),
        StreamOutput::Again
    ));
    let mut seen = Vec::new();
    loop {
        match state.react(StreamInput::Poll { cancelled: true }) {
            StreamOutput::Emit(d) => seen.push(shape(&d)),
            StreamOutput::End => break,
            other => panic!("unexpected {other:?}"),
        }
    }
    assert_eq!(seen, vec!["content:one", "start:0:a:t", "done:Cancelled"]);
}

#[test]
fn an_upstream_failure_is_named() {
    let mut state = ChunkState::new("p");
    match state.react(StreamInput::Failed("reset".to_string())) {
        StreamOutput::Fail(e) => assert_eq!(e, "upstream stream error: reset"),
        other => panic!("unexpected {other:?}"),
    }
}

// ---- Request construction ---------------------------------------

#[test]
fn assistant_tool_calls_and_tool_results_survive_the_outbound_mapping() {
    let msgs = vec![
        ChatMessage::system("sys"),
        ChatMessage::user("do it"),
        ChatMessage::Assistant {
            content: "calling".to_string(),
            tool_calls: vec![ToolCall {
                id: "call_1".to_string(),
                name: "shell_exec".to_string(),
                arguments: r#"{"command":"ls"}"#.to_string(),
            }],
        },
        ChatMessage::Tool {
            tool_call_id: "call_1".to_string(),
            content: r#"{"ok":true}"#.to_string(),
        },
    ];
    let out = to_openai_messages(&msgs);
    assert_eq!(out.len(), 4);
    assert!(matches!(&out[0], RequestMessage::System { content } if content == "sys"));
    assert!(matches!(&out[1], RequestMessage::User { content } if content == "do it"));
    match &out[2] {
        RequestMessage::Assistant { content, tool_calls } => {
            assert_eq!(content, "calling");
            let calls = tool_calls.as_ref().expect("tool_calls preserved");
            assert_eq!(calls.len(), 1);
            assert_eq!(calls[0].id, "call_1");
            assert_eq!(calls[0].arguments, r#"{"command":"ls"}"#);
        }
        other => panic!("expected Assistant, got {other:?}"),
    }
    assert!(matches!(
        &out[3],
        RequestMessage::Tool { tool_call_id, .. } if tool_call_id == "call_1"
    ));
}

#[test]
fn an_assistant_turn_with_no_tool_calls_maps_cleanly() {
    let msgs = vec![ChatMessage::Assistant {
        content: "just text".to_string(),
        tool_calls: Vec::new(),
    }];
    let out = to_openai_messages(&msgs);
    assert_eq!(out.len(), 1);
    assert!(matches!(&out[0], RequestMessage::Assistant { tool_calls: None, .. }));
}

/// The library's form of a JSON value.
fn json(value: &serde_json::Value) -> Json {
    match value {
        serde_json::Value::String(s) => Json::Text(s.clone()),
        serde_json::Value::Object(map) => Json::Object(
            map.iter()
                .map(|(key, value)| Member { key: key.clone(), value: json(value) })
                .collect(),
        ),
        other => Json::Other(other.clone()),
    }
}

fn parsed(text: &str) -> Json {
    json(&serde_json::from_str(text).unwrap())
}

fn schema() -> Json {
    parsed(
        r#"{
        "type": "function",
        "function": {
            "name": "current_time",
            "description": "Current local time.",
            "parameters": {"type": "object", "properties": {}}
        }
    }"#,
    )
}

#[test]
fn registry_schemas_convert_into_openai_tools() {
    let schemas = vec![schema()];
    let out = to_openai_tools(&schemas).unwrap();
    assert_eq!(out.len(), 1);
    assert_eq!(out[0].name, "current_time");
    assert_eq!(out[0].description.as_deref(), Some("Current local time."));
    assert_eq!(out[0].parameters.unwrap().get_text("type"), Some("object"));
}

#[test]
fn parameters_are_carried_as_they_stand() {
    // Deeper than JSON text is parsed, and with a number that text may change.
    let mut deep = serde_json::Value::from(0.1f64 + 0.2f64);
    for _ in 0..300 {
        let mut level = serde_json::Map::new();
        level.insert("properties".to_string(), deep);
        deep = serde_json::Value::Object(level);
    }
    let schemas = vec![Json::Object(vec![Member {
        key: "function".to_string(),
        value: Json::Object(vec![
            Member { key: "name".to_string(), value: Json::Text("n".to_string()) },
            Member { key: "parameters".to_string(), value: json(&deep) },
        ]),
    }])];
    let out = to_openai_tools(&schemas).unwrap();
    assert_eq!(out[0].name, "n");
    let mut at = out[0].parameters.unwrap();
    for _ in 0..300 {
        at = at.get("properties").unwrap();
    }
    assert!(matches!(at, Json::Other(v) if v.as_f64() == Some(0.1f64 + 0.2f64)));
    assert!(at.get("properties").is_none() && at.get_text("properties").is_none());
}

#[test]
fn a_malformed_tool_schema_errors_rather_than_being_sent() {
    let bad = vec![parsed(r#"{"type": "function"}"#)];
    assert!(to_openai_tools(&bad).is_err());
    assert_eq!(to_openai_tools(&bad).unwrap_err(), "tool schema missing `function`");
    let nameless = vec![
        schema(),
        parsed(r#"{"function": {"name": 3}}"#),
        parsed(r#"{"type": "function"}"#),
    ];
    assert_eq!(
        to_openai_tools(&nameless).unwrap_err(),
        "tool schema missing function.name"
    );
    let plain = vec![parsed(r#"{"function": {"name": "n", "description": 1}}"#)];
    let out = to_openai_tools(&plain).unwrap();
    assert!(out[0].description.is_none() && out[0].parameters.is_none());
}

#[test]
fn requests_leave_out_empty_tools_and_allow_a_token() {
    let none: Vec<Json> = Vec::new();
    let q = build_request("m", &vec![ChatMessage::user("hi")], &none, Some(0)).unwrap();
    assert_eq!(q.model, "m");
    assert!(q.tools.is_none());
    assert_eq!(q.max_tokens, Some(1));
    assert!(q.include_usage);
    let schemas = vec![schema()];
    let q = build_request("m", &Vec::new(), &schemas, None).unwrap();
    assert_eq!(q.tools.unwrap().len(), 1);
    assert_eq!(q.max_tokens, None);
    let q = build_request("m", &Vec::new(), &none, Some(77)).unwrap();
    assert_eq!(q.max_tokens, Some(77));
    assert!(build_request("m", &Vec::new(), &vec![parsed("{}")], None).is_err());
}
