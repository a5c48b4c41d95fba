//! Stand-ins for driving an agent run without a model or a network.
//!
//! A provider that replays prepared deltas, a sink that records events, a gate
//! with prepared verdicts and a tool with a prepared result are enough to
//! reach every branch of a run.
use vstd::prelude::*;
use vstd::utf8::{
    decode_utf8, decode_utf8_split, encode_utf8, encode_utf8_decode_utf8, encode_utf8_valid_utf8,
    is_char_boundary,
};

use crate::agent::confirm::{ConfirmationGate, ConfirmationOutcome};
use crate::agent::delta::{AgentDelta, DeltaView, FinishReason, FinishView};
use crate::agent::event::{AgentEvent, EventView};
use crate::agent::message::{copy_messages, ChatMessage, MessageView};
use crate::agent::run_laws::shown;
use crate::agent::tool::{result_view, ToolCall, ToolError, ToolErrorView};
use crate::json::{bool_field, json_object, object_text, Field, FieldView, ScalarView};
use crate::text::{copy_opt, copy_strings, opt_view, views, views_push};

verus! {

/// One prepared item of a turn: a delta, or a failure of the stream.
#[derive(Debug)]
pub enum Scripted {
    Delta(AgentDelta),
    Failure(String),
}

/// Mathematical form of a [`Scripted`].
pub enum ScriptedView {
    Delta(DeltaView),
    Failure(Seq<char>),
}

impl View for Scripted {
    type V = ScriptedView;

    open spec fn view(&self) -> ScriptedView {
        match self {
            Scripted::Delta(d) => ScriptedView::Delta(d@),
            Scripted::Failure(e) => ScriptedView::Failure(e@),
        }
    }
}

impl Clone for Scripted {
    fn clone(&self) -> (r: Self)
        ensures
            r == *self,
    {
        match self {
            Scripted::Delta(d) => Scripted::Delta(d.clone()),
            Scripted::Failure(e) => Scripted::Failure(e.clone()),
        }
    }
}

impl From<AgentDelta> for Scripted {
    fn from(d: AgentDelta) -> (r: Scripted) {
        Scripted::Delta(d)
    }
}

impl vstd::std_specs::convert::FromSpecImpl<AgentDelta> for Scripted {
    open spec fn obeys_from_spec() -> bool {
        true
    }

    open spec fn from_spec(d: AgentDelta) -> Scripted {
        Scripted::Delta(d)
    }
}

/// Replays one prepared list of items per turn.
pub struct ScriptedProvider {
    turns: Vec<Vec<Scripted>>,
    seen: Vec<Vec<ChatMessage>>,
}

/// The views of a list of lists.
pub open spec fn nested_views<T: View>(s: Seq<Vec<T>>) -> Seq<Seq<T::V>> {
    s.map_values(|v: Vec<T>| views(v@))
}

impl ScriptedProvider {
    /// The prepared turns.
    pub closed spec fn script(&self) -> Seq<Seq<ScriptedView>> {
        nested_views(self.turns@)
    }

    /// The history at the start of each turn taken.
    pub closed spec fn history(&self) -> Seq<Seq<MessageView>> {
        nested_views(self.seen@)
    }

    /// A provider with these turns.
    pub fn new(turns: Vec<Vec<Scripted>>) -> (r: ScriptedProvider)
        ensures
            r.script() == nested_views(turns@),
            r.history().len() == 0,
    {
        ScriptedProvider { turns, seen: Vec::new() }
    }

    /// Replays the next turn, and records the history that it was asked with.
    /// There must be a turn left.
    pub fn stream(&mut self, messages: &Vec<ChatMessage>) -> (r: Vec<Scripted>)
        requires
            old(self).history().len() < old(self).script().len(),
        ensures
            final(self).script() == old(self).script(),
            final(self).history() == old(self).history().push(views(messages@)),
            views(r@) == old(self).script()[old(self).history().len() as int],
    {
        let ghost before = self.history();
        let at: usize = self.seen.len();
        let turn = &self.turns[at];
        let mut out: Vec<Scripted> = Vec::new();
        let mut i: usize = 0;
        while i < turn.len()
            invariant
                i <= turn.len(),
                out@ == turn@.take(i as int),
            decreases turn.len() - i,
        {
            out.push(turn[i].clone());
            assert(turn@.take(i + 1) =~= turn@.take(i as int).push(turn@[i as int]));
            i = i + 1;
        }
        assert(turn@.take(turn@.len() as int) =~= turn@);
        self.seen.push(copy_messages(messages));
        assert(self.history() =~= before.push(views(messages@)));
        out
    }

    /// The history that each turn was asked with.
    pub fn seen_turns(&self) -> (r: Vec<Vec<ChatMessage>>)
        ensures
            nested_views(r@) == self.history(),
    {
        let mut out: Vec<Vec<ChatMessage>> = Vec::new();
        let mut i: usize = 0;
        while i < self.seen.len()
            invariant
                i <= self.seen.len(),
                out@.len() == i,
                forall|j: int| 0 <= j < i ==> views((#[trigger] out@[j])@) == views(self.seen@[j]@),
            decreases self.seen.len() - i,
        {
            out.push(copy_messages(&self.seen[i]));
            i = i + 1;
        }
        assert(nested_views(out@) =~= self.history());
        out
    }

    /// How many turns were asked for.
    pub fn turns_taken(&self) -> (r: usize)
        ensures
            r == self.history().len(),
    {
        self.seen.len()
    }
}

/// The name of an event's kind.
pub open spec fn kind_of(e: EventView) -> Seq<char> {
    match e {
        EventView::Token(_) => "token"@,
        EventView::Thinking(_) => "thinking"@,
        EventView::ToolStart { .. } => "tool_start"@,
        EventView::ToolEnd { .. } => "tool_end"@,
        EventView::Stats(_) => "stats"@,
        EventView::Done { .. } => "done"@,
        EventView::Cancelled => "cancelled"@,
        EventView::Error(_) => "error"@,
    }
}

fn kind(e: &AgentEvent) -> (r: &'static str)
    ensures
        r@ == kind_of(e@),
{
    match e {
        AgentEvent::Token(_) => "token",
        AgentEvent::Thinking(_) => "thinking",
        AgentEvent::ToolStart { .. } => "tool_start",
        AgentEvent::ToolEnd { .. } => "tool_end",
        AgentEvent::Stats(_) => "stats",
        AgentEvent::Done { .. } => "done",
        AgentEvent::Cancelled => "cancelled",
        AgentEvent::Error(_) => "error",
    }
}

/// Collects every event, in order.
pub struct RecordingSink {
    events: Vec<AgentEvent>,
}

impl View for RecordingSink {
    type V = Seq<EventView>;

    closed spec fn view(&self) -> Seq<EventView> {
        views(self.events@)
    }
}

impl RecordingSink {
    /// A sink without events.
    pub fn new() -> (r: RecordingSink)
        ensures
            r@ == Seq::<EventView>::empty(),
    {
        let r = RecordingSink { events: Vec::new() };
        assert(r@ =~= Seq::<EventView>::empty());
        r
    }

    /// Records an event.
    pub fn emit(&mut self, event: AgentEvent)
        ensures
            final(self)@ == old(self)@.push(event@),
    {
        proof {
            views_push(self.events@, event);
        }
        self.events.push(event);
    }

    /// The events.
    pub fn events(&self) -> (r: Vec<AgentEvent>)
        ensures
            views(r@) == self@,
    {
        let mut out: Vec<AgentEvent> = Vec::new();
        let mut i: usize = 0;
        while i < self.events.len()
            invariant
                i <= self.events.len(),
                out@ == self.events@.take(i as int),
            decreases self.events.len() - i,
        {
            out.push(self.events[i].clone());
            assert(self.events@.take(i + 1) =~= self.events@.take(i as int).push(
                self.events@[i as int],
            ));
            i = i + 1;
        }
        assert(self.events@.take(self.events@.len() as int) =~= self.events@);
        out
    }

    /// The kinds of the events, in order.
    pub fn kinds(&self) -> (r: Vec<&'static str>)
        ensures
            views(r@) == self@.map_values(|e: EventView| kind_of(e)),
    {
        let mut out: Vec<&'static str> = Vec::new();
        let mut i: usize = 0;
        while i < self.events.len()
            invariant
                i <= self.events.len(),
                out@.len() == i,
                forall|j: int| 0 <= j < i ==> (#[trigger] out@[j])@ == kind_of(self.events@[j]@),
            decreases self.events.len() - i,
        {
            out.push(kind(&self.events[i]));
            i = i + 1;
        }
        assert(views(out@) =~= self@.map_values(|e: EventView| kind_of(e)));
        out
    }

    /// The text of the token events, one after the other.
    pub fn text(&self) -> (r: String)
        ensures
            r@ == shown(self@),
    {
        let ghost all = self@;
        let mut out = String::new();
        let mut i: usize = 0;
        assert(out@ =~= shown(all.take(0)));
        while i < self.events.len()
            invariant
                i <= self.events.len(),
                all == views(self.events@),
                out@ == shown(all.take(i as int)),
            decreases self.events.len() - i,
        {
            assert(all.take(i + 1).drop_last() =~= all.take(i as int));
            if let AgentEvent::Token(s) = &self.events[i] {
                out.append(s.as_str());
            }
            i = i + 1;
        }
        assert(all.take(all.len() as int) =~= all);
        out
    }
}

/// A gate with a prepared verdict per call, which records what it was asked.
pub struct ScriptedGate {
    outcomes: Vec<ConfirmationOutcome>,
    default: ConfirmationOutcome,
    asked: Vec<(String, Option<String>)>,
}

/// What a gate was asked: the tool's name and the preview.
pub open spec fn asked_view(a: Seq<(String, Option<String>)>) -> Seq<(Seq<char>, Option<Seq<char>>)> {
    a.map_values(|p: (String, Option<String>)| (p.0@, opt_view(p.1)))
}

impl ScriptedGate {
    /// The prepared verdicts.
    pub closed spec fn script(&self) -> Seq<ConfirmationOutcome> {
        self.outcomes@
    }

    /// The verdict once the prepared ones are used up.
    pub closed spec fn fallback(&self) -> ConfirmationOutcome {
        self.default
    }

    /// What it was asked.
    pub closed spec fn questions(&self) -> Seq<(Seq<char>, Option<Seq<char>>)> {
        asked_view(self.asked@)
    }

    /// Approves everything.
    pub fn approving() -> (r: ScriptedGate)
        ensures
            r.script().len() == 0,
            r.fallback() == ConfirmationOutcome::Approved,
            r.questions().len() == 0,
    {
        ScriptedGate {
            outcomes: Vec::new(),
            default: ConfirmationOutcome::Approved,
            asked: Vec::new(),
        }
    }

    /// Denies everything.
    pub fn denying() -> (r: ScriptedGate)
        ensures
            r.script().len() == 0,
            r.fallback() == ConfirmationOutcome::Denied,
            r.questions().len() == 0,
    {
        ScriptedGate { outcomes: Vec::new(), default: ConfirmationOutcome::Denied, asked: Vec::new() }
    }

    /// Answers from `outcomes` in order, then approves.
    pub fn scripted(outcomes: Vec<ConfirmationOutcome>) -> (r: ScriptedGate)
        ensures
            r.script() == outcomes@,
            r.fallback() == ConfirmationOutcome::Approved,
            r.questions().len() == 0,
    {
        ScriptedGate { outcomes, default: ConfirmationOutcome::Approved, asked: Vec::new() }
    }

    /// The tool name and the preview of each call, in order.
    pub fn asked(&self) -> (r: Vec<(String, Option<String>)>)
        ensures
            asked_view(r@) == self.questions(),
    {
        let mut out: Vec<(String, Option<String>)> = Vec::new();
        let mut i: usize = 0;
        while i < self.asked.len()
            invariant
                i <= self.asked.len(),
                out@ == self.asked@.take(i as int),
            decreases self.asked.len() - i,
        {
            out.push((self.asked[i].0.clone(), copy_opt(&self.asked[i].1)));
            assert(self.asked@.take(i + 1) =~= self.asked@.take(i as int).push(
                self.asked@[i as int],
            ));
            i = i + 1;
        }
        assert(self.asked@.take(self.asked@.len() as int) =~= self.asked@);
        out
    }

    /// How often it was asked.
    pub fn ask_count(&self) -> (r: usize)
        ensures
            r == self.questions().len(),
    {
        self.asked.len()
    }
}

impl ConfirmationGate for ScriptedGate {
    fn ask(&mut self, call: &ToolCall, preview: Option<&str>) -> (r: ConfirmationOutcome)
        ensures
            final(self).questions() == old(self).questions().push((call@.name, opt_view(preview))),
            final(self).script() == old(self).script(),
            final(self).fallback() == old(self).fallback(),
            r == (if old(self).questions().len() < old(self).script().len() {
                old(self).script()[old(self).questions().len() as int]
            } else {
                old(self).fallback()
            }),
    {
        let ghost before = self.questions();
        let at: usize = self.asked.len();
        let shown_preview = match preview {
            Some(p) => Some(p.to_owned()),
            None => None,
        };
        self.asked.push((call.name.clone(), shown_preview));
        assert(self.questions() =~= before.push((call@.name, opt_view(preview))));
        if at < self.outcomes.len() {
            self.outcomes[at]
        } else {
            self.default
        }
    }
}

/// A tool with a prepared result, which records its calls.
pub struct FakeTool {
    name: String,
    requires_confirmation: bool,
    preview: Option<String>,
    result: Result<String, String>,
    calls: Vec<String>,
}

/// Mathematical form of a [`FakeTool`].
#[verifier::ext_equal]
pub struct FakeToolView {
    pub name: Seq<char>,
    pub requires_confirmation: bool,
    pub preview: Option<Seq<char>>,
    /// The JSON text of the result, or the message of the failure.
    pub result: Result<Seq<char>, Seq<char>>,
    /// The JSON arguments of each call.
    pub calls: Seq<Seq<char>>,
}

impl View for FakeTool {
    type V = FakeToolView;

    closed spec fn view(&self) -> FakeToolView {
        FakeToolView {
            name: self.name@,
            requires_confirmation: self.requires_confirmation,
            preview: opt_view(self.preview),
            result: match self.result {
                Ok(s) => Ok(s@),
                Err(e) => Err(e@),
            },
            calls: views(self.calls@),
        }
    }
}

/// The members of `{"ok": true}`.
pub open spec fn ok_fields() -> Seq<FieldView> {
    seq![FieldView { key: "ok"@, value: ScalarView::Bool(true) }]
}

fn ok_text() -> (r: String)
    ensures
        r@ == json_object(ok_fields()),
{
    let mut fields: Vec<Field> = Vec::new();
    fields.push(bool_field("ok", true));
    assert(views(fields@) =~= ok_fields());
    object_text(&fields)
}

impl FakeTool {
    /// A tool that needs no confirmation and answers `{"ok": true}`.
    pub fn new(name: &str) -> (r: FakeTool)
        ensures
            r@ == (FakeToolView {
                name: name@,
                requires_confirmation: false,
                preview: None,
                result: Ok(json_object(ok_fields())),
                calls: Seq::empty(),
            }),
    {
        let r = FakeTool {
            name: name.to_owned(),
            requires_confirmation: false,
            preview: None,
            result: Ok(ok_text()),
            calls: Vec::new(),
        };
        assert(views(r.calls@) =~= Seq::empty());
        r
    }

    /// A tool that always fails.
    pub fn failing(name: &str, msg: &str) -> (r: FakeTool)
        ensures
            r@ == (FakeToolView {
                name: name@,
                requires_confirmation: false,
                preview: None,
                result: Err(msg@),
                calls: Seq::empty(),
            }),
    {
        let r = FakeTool {
            name: name.to_owned(),
            requires_confirmation: false,
            preview: None,
            result: Err(msg.to_owned()),
            calls: Vec::new(),
        };
        assert(views(r.calls@) =~= Seq::empty());
        r
    }

    /// A tool that needs confirmation and offers a preview.
    pub fn with_preview(name: &str, preview: &str) -> (r: FakeTool)
        ensures
            r@ == (FakeToolView {
                name: name@,
                requires_confirmation: true,
                preview: Some(preview@),
                result: Ok(json_object(ok_fields())),
                calls: Seq::empty(),
            }),
    {
        let r = FakeTool {
            name: name.to_owned(),
            requires_confirmation: true,
            preview: Some(preview.to_owned()),
            result: Ok(ok_text()),
            calls: Vec::new(),
        };
        assert(views(r.calls@) =~= Seq::empty());
        r
    }

    pub fn name(&self) -> (r: &String)
        ensures
            r@ == self@.name,
    {
        &self.name
    }

    pub fn description(&self) -> (r: &'static str)
        ensures
            r@ == "fake tool for tests"@,
    {
        "fake tool for tests"
    }

    /// The JSON schema of the arguments.
    pub fn parameters(&self) -> (r: &'static str)
        ensures
            r@ == "{\"type\":\"object\",\"properties\":{}}"@,
    {
        "{\"type\":\"object\",\"properties\":{}}"
    }

    pub fn requires_confirmation(&self) -> (r: bool)
        ensures
            r == self@.requires_confirmation,
    {
        self.requires_confirmation
    }

    pub fn preview(&self) -> (r: Option<String>)
        ensures
            opt_view(r) == self@.preview,
    {
        copy_opt(&self.preview)
    }

    /// Whether the tool was run.
    pub fn was_dispatched(&self) -> (r: bool)
        ensures
            r == (self@.calls.len() > 0),
    {
        self.calls.len() > 0
    }

    /// The JSON arguments of each call, in order.
    pub fn calls(&self) -> (r: Vec<String>)
        ensures
            views(r@) == self@.calls,
    {
        copy_strings(&self.calls)
    }

    /// Runs the tool.
    pub fn dispatch(&mut self, args: &str) -> (r: Result<String, ToolError>)
        ensures
            final(self)@ == (FakeToolView {
                calls: old(self)@.calls.push(args@),
                ..old(self)@
            }),
            result_view(r) == (match old(self)@.result {
                Ok(v) => Ok::<Seq<char>, ToolErrorView>(v),
                Err(e) => Err::<Seq<char>, ToolErrorView>(ToolErrorView::Runtime(e)),
            }),
    {
        let ghost before = self@.calls;
        self.calls.push(args.to_owned());
        assert(views(self.calls@) =~= before.push(args@));
        match &self.result {
            Ok(v) => Ok(v.clone()),
            Err(e) => Err(ToolError::Runtime(e.clone())),
        }
    }
}

/// A turn that streams `text` and stops.
pub fn turn_final(text: &str) -> (r: Vec<Scripted>)
    ensures
        views(r@) == seq![
            ScriptedView::Delta(DeltaView::Content(text@)),
            ScriptedView::Delta(DeltaView::Done { finish_reason: FinishView::Stop }),
        ],
{
    let mut out: Vec<Scripted> = Vec::new();
    out.push(Scripted::Delta(AgentDelta::Content(text.to_owned())));
    out.push(Scripted::Delta(AgentDelta::Done { finish_reason: FinishReason::Stop }));
    assert(views(out@) =~= seq![
        ScriptedView::Delta(DeltaView::Content(text@)),
        ScriptedView::Delta(DeltaView::Done { finish_reason: FinishView::Stop }),
    ]);
    out
}

/// The items of a turn that asks for one call, its arguments in two parts.
pub open spec fn call_turn(
    id: Seq<char>,
    name: Seq<char>,
    a: Seq<char>,
    b: Seq<char>,
) -> Seq<ScriptedView> {
    seq![
        ScriptedView::Delta(DeltaView::ToolCallStart { index: 0, id, name }),
        ScriptedView::Delta(DeltaView::ToolCallArgs { index: 0, fragment: a }),
        ScriptedView::Delta(DeltaView::ToolCallArgs { index: 0, fragment: b }),
        ScriptedView::Delta(DeltaView::Done { finish_reason: FinishView::ToolCalls }),
    ]
}

/// A turn that asks for one call, with `args` cut in half by its bytes. The
/// cut must not go through a character.
pub fn turn_tool_call(id: &str, name: &str, args: &str) -> (r: Vec<Scripted>)
    requires
        is_char_boundary(encode_utf8(args@), encode_utf8(args@).len() as int / 2),
        encode_utf8(args@).len() <= usize::MAX,
    ensures
        ({
            let bytes = encode_utf8(args@);
            let mid = bytes.len() as int / 2;
            let a = decode_utf8(bytes.subrange(0, mid));
            let b = decode_utf8(bytes.subrange(mid, bytes.len() as int));
            views(r@) == call_turn(id@, name@, a, b) && a + b == args@
        }),
{
    let mid: usize = args.len() / 2;
    let (a, b) = args.split_at(mid);
    proof {
        let bytes = encode_utf8(args@);
        encode_utf8_decode_utf8(a@);
        encode_utf8_decode_utf8(b@);
        encode_utf8_decode_utf8(args@);
        encode_utf8_valid_utf8(args@);
        decode_utf8_split(bytes, mid as int);
    }
    let mut out: Vec<Scripted> = Vec::new();
    out.push(
        Scripted::Delta(
            AgentDelta::ToolCallStart { index: 0, id: id.to_owned(), name: name.to_owned() },
        ),
    );
    out.push(Scripted::Delta(AgentDelta::ToolCallArgs { index: 0, fragment: a.to_owned() }));
    out.push(Scripted::Delta(AgentDelta::ToolCallArgs { index: 0, fragment: b.to_owned() }));
    out.push(Scripted::Delta(AgentDelta::Done { finish_reason: FinishReason::ToolCalls }));
    assert(views(out@) =~= call_turn(id@, name@, a@, b@));
    out
}

} // verus!
