//! What the stand-ins stand for.
use vstd::prelude::*;
use vstd::utf8::{encode_utf8, is_char_boundary};

use crate::agent::cloud::{map_finish_reason, ChunkState, WireFinish};
use crate::agent::confirm::{ConfirmationGate, ConfirmationOutcome};
use crate::agent::delta::{DeltaView, FinishReason, FinishView};
use crate::agent::event::{AgentEvent, EventView};
use crate::agent::message::ChatMessage;
use crate::agent::run_laws::shown;
use crate::agent::testing::{
    kind_of, turn_final, turn_tool_call, FakeTool, RecordingSink, Scripted, ScriptedGate,
    ScriptedProvider, ScriptedView,
};
use crate::agent::tool::{CallView, ToolCall, ToolError};
use crate::agent::turn::TurnView;
use crate::json::{json_object, FieldView, ScalarView};
use crate::text::{opt_view, views};

verus! {

/// The deltas among prepared items.
pub open spec fn deltas_among(items: Seq<ScriptedView>) -> Seq<DeltaView>
    decreases items.len(),
{
    if items.len() == 0 {
        Seq::empty()
    } else {
        match items.last() {
            ScriptedView::Delta(d) => deltas_among(items.drop_last()).push(d),
            ScriptedView::Failure(_) => deltas_among(items.drop_last()),
        }
    }
}

/// A prepared final turn is assembled into its text, without calls, and stops.
pub proof fn final_turns_hold_their_text(text: &str, r: Vec<Scripted>)
    requires
        call_ensures(turn_final, (text,), r),
    ensures
        ({
            let t = TurnView::empty().absorb_all(deltas_among(views(r@)));
            &&& t.content == text@
            &&& t.calls == Map::<u32, CallView>::empty()
            &&& t.finish_reason is Stop
            &&& deltas_among(views(r@)).last() is Done
        }),
{
    let items = views(r@);
    reveal_with_fuel(deltas_among, 3);
    reveal_with_fuel(TurnView::absorb_all, 3);
    let d = deltas_among(items);
    assert(items.drop_last().drop_last() =~= Seq::empty());
    assert(d =~= seq![
        DeltaView::Content(text@),
        DeltaView::Done { finish_reason: FinishView::Stop },
    ]);
    assert(d.drop_last() =~= seq![DeltaView::Content(text@)]);
    assert(d.drop_last().drop_last() =~= Seq::empty());
    assert(Seq::<char>::empty() + text@ =~= text@);
}

/// A prepared call is assembled into one call with its identifier, its name
/// and its whole arguments, and ends with tool calls.
pub proof fn prepared_calls_hold_their_arguments(
    id: &str,
    name: &str,
    args: &str,
    r: Vec<Scripted>,
)
    requires
        is_char_boundary(encode_utf8(args@), encode_utf8(args@).len() as int / 2),
        encode_utf8(args@).len() <= usize::MAX,
        call_ensures(turn_tool_call, (id, name, args), r),
    ensures
        ({
            let t = TurnView::empty().absorb_all(deltas_among(views(r@)));
            &&& t.content.len() == 0
            &&& t.calls.contains_key(0)
            &&& t.calls[0] == (CallView { id: id@, name: name@, arguments: args@ })
            &&& t.finish_reason is ToolCalls
        }),
{
    let items = views(r@);
    reveal_with_fuel(deltas_among, 5);
    reveal_with_fuel(TurnView::absorb_all, 5);
    let d = deltas_among(items);
    let a = items[1]->Delta_0->ToolCallArgs_fragment;
    let b = items[2]->Delta_0->ToolCallArgs_fragment;
    assert(items.drop_last().drop_last().drop_last().drop_last() =~= Seq::empty());
    assert(d =~= seq![
        DeltaView::ToolCallStart { index: 0, id: id@, name: name@ },
        DeltaView::ToolCallArgs { index: 0, fragment: a },
        DeltaView::ToolCallArgs { index: 0, fragment: b },
        DeltaView::Done { finish_reason: FinishView::ToolCalls },
    ]);
    assert(d.drop_last().drop_last().drop_last().drop_last() =~= Seq::empty());
    assert(Seq::<char>::empty() + a + b =~= a + b);
}

/// Events of different kinds have different names.
pub proof fn kinds_are_told_apart(a: EventView, b: EventView)
    requires
        kind_of(a) == kind_of(b),
    ensures
        a is Token <==> b is Token,
        a is Thinking <==> b is Thinking,
        a is ToolStart <==> b is ToolStart,
        a is ToolEnd <==> b is ToolEnd,
        a is Stats <==> b is Stats,
        a is Done <==> b is Done,
        a is Cancelled <==> b is Cancelled,
        a is Error <==> b is Error,
        a is Token ==> kind_of(a) == "token"@,
        a is Thinking ==> kind_of(a) == "thinking"@,
        a is ToolStart ==> kind_of(a) == "tool_start"@,
        a is ToolEnd ==> kind_of(a) == "tool_end"@,
        a is Stats ==> kind_of(a) == "stats"@,
        a is Done ==> kind_of(a) == "done"@,
        a is Cancelled ==> kind_of(a) == "cancelled"@,
        a is Error ==> kind_of(a) == "error"@,
{
    reveal_strlit("token");
    reveal_strlit("thinking");
    reveal_strlit("tool_start");
    reveal_strlit("tool_end");
    reveal_strlit("stats");
    reveal_strlit("done");
    reveal_strlit("cancelled");
    reveal_strlit("error");
    assert("token"@[0] != "stats"@[0] && "token"@[0] != "error"@[0] && "stats"@[0]
        != "error"@[0]);
    assert("thinking"@[1] != "tool_end"@[1]);
    assert("token"@.len() == 5 && "stats"@.len() == 5 && "error"@.len() == 5);
    assert("thinking"@.len() == 8 && "tool_end"@.len() == 8);
    assert("tool_start"@.len() == 10 && "done"@.len() == 4 && "cancelled"@.len() == 9);
}

/// The text of some events is that of their tokens, one after the other.
pub proof fn tokens_make_the_text(events: Seq<EventView>, e: EventView)
    ensures
        shown(Seq::empty()) == Seq::<char>::empty(),
        e matches EventView::Token(s) ==> shown(events.push(e)) == shown(events) + s,
        !(e is Token) ==> shown(events.push(e)) == shown(events),
{
    assert(events.push(e).drop_last() =~= events);
}

/// What was recorded is given out: the text of the tokens, and the kind of
/// each event.
pub proof fn recordings_are_given_out(sink: RecordingSink, text: String, kinds: Vec<&'static str>)
    requires
        call_ensures(RecordingSink::text, (&sink,), text),
        call_ensures(RecordingSink::kinds, (&sink,), kinds),
    ensures
        text@ == shown(sink@),
        kinds@.len() == sink@.len(),
        forall|i: int| 0 <= i < sink@.len() ==> (#[trigger] kinds@[i])@ == kind_of(sink@[i]),
{
    assert(views(kinds@).len() == kinds@.len());
    assert forall|i: int| 0 <= i < sink@.len() implies (#[trigger] kinds@[i])@ == kind_of(
        sink@[i],
    ) by {
        assert(views(kinds@)[i] == kinds@[i]@);
    }
}

/// Gates approve or deny as they were made to.
pub proof fn gates_answer_as_prepared(
    outcomes: Vec<ConfirmationOutcome>,
    approving: ScriptedGate,
    denying: ScriptedGate,
    scripted: ScriptedGate,
)
    requires
        call_ensures(ScriptedGate::approving, (), approving),
        call_ensures(ScriptedGate::denying, (), denying),
        call_ensures(ScriptedGate::scripted, (outcomes,), scripted),
    ensures
        approving.script().len() == 0 && approving.fallback() == ConfirmationOutcome::Approved,
        denying.script().len() == 0 && denying.fallback() == ConfirmationOutcome::Denied,
        scripted.script() == outcomes@ && scripted.fallback() == ConfirmationOutcome::Approved,
        approving.questions().len() == 0,
        denying.questions().len() == 0,
        scripted.questions().len() == 0,
{
}

/// Tools answer, fail and ask as they were made to.
pub proof fn tools_behave_as_prepared(
    name: &str,
    text: &str,
    plain: FakeTool,
    failing: FakeTool,
    asking: FakeTool,
)
    requires
        call_ensures(FakeTool::new, (name,), plain),
        call_ensures(FakeTool::failing, (name, text), failing),
        call_ensures(FakeTool::with_preview, (name, text), asking),
    ensures
        plain@.name == name@ && failing@.name == name@ && asking@.name == name@,
        plain@.result is Ok && asking@.result is Ok,
        plain@.result == asking@.result,
        failing@.result == Err::<Seq<char>, Seq<char>>(text@),
        !plain@.requires_confirmation && !failing@.requires_confirmation
            && asking@.requires_confirmation,
        plain@.preview is None && failing@.preview is None && asking@.preview == Some(text@),
        plain@.calls.len() == 0 && failing@.calls.len() == 0 && asking@.calls.len() == 0,
{
}

/// The reasons of the wire are told apart; those without a name of their own
/// keep their words.
pub proof fn wire_reasons_are_kept(w: WireFinish, r: FinishReason)
    requires
        call_ensures(map_finish_reason, (w,), r),
    ensures
        match w {
            WireFinish::Stop => r is Stop,
            WireFinish::Length => r is Length,
            WireFinish::ToolCalls => r is ToolCalls,
            WireFinish::ContentFilter => r is Other && r->0@ == "content_filter"@,
            WireFinish::FunctionCall => r is Other && r->0@ == "function_call"@,
        },
{
    assert(r@ == crate::agent::cloud::finish_of(w));
    match r {
        FinishReason::Other(s) => {
            assert(r@ == FinishView::Other(s@));
        },
        _ => {},
    }
}

/// A stream begins with nothing.
pub proof fn streams_begin_with_nothing(label: &str, r: ChunkState)
    requires
        call_ensures(ChunkState::new, (label,), r),
    ensures
        r@.label == label@,
        r@.queue.len() == 0,
        r@.seen == Set::<u32>::empty(),
        r@.finish is None,
        !r@.done_emitted,
{
}

/// A provider replays its turns in their order and remembers what it was asked
/// with.
pub proof fn turns_are_replayed_in_order(
    provider: &mut ScriptedProvider,
    messages: Vec<ChatMessage>,
    r: Vec<Scripted>,
)
    requires
        old(provider).history().len() < old(provider).script().len(),
        call_ensures(ScriptedProvider::stream, (provider, &messages), r),
    ensures
        views(r@) == old(provider).script()[old(provider).history().len() as int],
        final(provider).history() == old(provider).history().push(views(messages@)),
        final(provider).script() == old(provider).script(),
{
}

/// A sink records each event behind those before.
pub proof fn events_are_recorded_in_order(sink: &mut RecordingSink, event: AgentEvent)
    requires
        call_ensures(RecordingSink::emit, (sink, event), ()),
    ensures
        final(sink)@.drop_last() == old(sink)@,
        final(sink)@.last() == event@,
{
    assert(final(sink)@.drop_last() =~= old(sink)@);
}

/// A tool records the arguments of each call and answers as prepared; a
/// failure is one of running.
pub proof fn prepared_tools_answer(
    tool: &mut FakeTool,
    args: &str,
    r: Result<String, ToolError>,
)
    requires
        call_ensures(FakeTool::dispatch, (tool, args), r),
    ensures
        final(tool)@.calls.drop_last() == old(tool)@.calls,
        final(tool)@.calls.last() == args@,
        final(tool)@.result == old(tool)@.result,
        old(tool)@.result matches Ok(v) ==> r is Ok && r->Ok_0@ == v,
        old(tool)@.result matches Err(e) ==> r is Err && r->Err_0 is Runtime
            && r->Err_0->Runtime_0@ == e,
{
    assert(final(tool)@.calls.drop_last() =~= old(tool)@.calls);
}

/// What the stand-ins recorded is what they tell.
pub proof fn stand_ins_tell_what_they_recorded(
    provider: ScriptedProvider,
    seen: Vec<Vec<ChatMessage>>,
    taken: usize,
    sink: RecordingSink,
    events: Vec<AgentEvent>,
    gate: ScriptedGate,
    asked: usize,
    tool: FakeTool,
    ran: bool,
    calls: Vec<String>,
)
    requires
        call_ensures(ScriptedProvider::seen_turns, (&provider,), seen),
        call_ensures(ScriptedProvider::turns_taken, (&provider,), taken),
        call_ensures(RecordingSink::events, (&sink,), events),
        call_ensures(ScriptedGate::ask_count, (&gate,), asked),
        call_ensures(FakeTool::was_dispatched, (&tool,), ran),
        call_ensures(FakeTool::calls, (&tool,), calls),
    ensures
        seen@.len() == provider.history().len(),
        forall|i: int|
            0 <= i < seen@.len() ==> views((#[trigger] seen@[i])@) == provider.history()[i],
        taken == provider.history().len(),
        views(events@) == sink@,
        asked == gate.questions().len(),
        ran <==> tool@.calls.len() > 0,
        views(calls@) == tool@.calls,
{
    let all = crate::agent::testing::nested_views(seen@);
    assert(all.len() == seen@.len());
    assert forall|i: int| 0 <= i < seen@.len() implies views((#[trigger] seen@[i])@)
        == provider.history()[i] by {
        assert(all[i] == views(seen@[i]@));
    }
}

/// A gate answers with the prepared verdicts in their order, then with its
/// last word, and remembers each question.
pub proof fn gates_answer_in_order(
    gate: &mut ScriptedGate,
    call: ToolCall,
    preview: Option<&str>,
    r: ConfirmationOutcome,
)
    requires
        call_ensures(ScriptedGate::ask, (gate, &call, preview), r),
    ensures
        ({
            let n = old(gate).questions().len();
            &&& n < old(gate).script().len() ==> r == old(gate).script()[n as int]
            &&& n >= old(gate).script().len() ==> r == old(gate).fallback()
            &&& final(gate).questions() == old(gate).questions().push(
                (call.name@, opt_view(preview)),
            )
            &&& final(gate).script() == old(gate).script()
            &&& final(gate).fallback() == old(gate).fallback()
        }),
{
}

/// A provider begins with the turns that it is given and with no history.
pub proof fn providers_begin_with_their_turns(turns: Vec<Vec<Scripted>>, r: ScriptedProvider, i: int)
    requires
        call_ensures(ScriptedProvider::new, (turns,), r),
        0 <= i < turns@.len(),
    ensures
        r.script().len() == turns@.len(),
        r.script()[i] == views(turns@[i]@),
        r.history().len() == 0,
{
    assert(crate::agent::testing::nested_views(turns@)[i] == views(turns@[i]@));
}

/// A tool tells its name, whether it asks, and its preview; one that was not
/// told otherwise answers that all is well.
pub proof fn tools_tell_how_they_were_prepared(
    tool: FakeTool,
    name: &String,
    asks: bool,
    preview: Option<String>,
    other: &str,
    plain: FakeTool,
)
    requires
        call_ensures(FakeTool::name, (&tool,), name),
        call_ensures(FakeTool::requires_confirmation, (&tool,), asks),
        call_ensures(FakeTool::preview, (&tool,), preview),
        call_ensures(FakeTool::new, (other,), plain),
    ensures
        name@ == tool@.name,
        asks == tool@.requires_confirmation,
        opt_view(preview) == tool@.preview,
        plain@.result == Ok::<Seq<char>, Seq<char>>(
            json_object(seq![FieldView { key: "ok"@, value: ScalarView::Bool(true) }]),
        ),
{
}

} // verus!
