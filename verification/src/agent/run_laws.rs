//! What holds of every agent run, whatever the provider, the confirmation gate and the
//! tools answer.
use vstd::prelude::*;

use crate::agent::confirm::ConfirmationOutcome;
use crate::agent::delta::DeltaView;
use crate::agent::event::EventView;
use crate::agent::loop_::{
    answer_message, denial, start_event, InputView, OutcomeView, Phase, RequestView, RunView, StepView,
};
use crate::agent::message::MessageView;
use crate::agent::tool::CallView;
use crate::agent::turn::{calls_in_order, TurnView};

verus! {

/// The run after a sequence of inputs.
pub open spec fn after(start: RunView, inputs: Seq<InputView>) -> RunView
    decreases inputs.len(),
{
    if inputs.len() == 0 {
        start
    } else {
        after(start, inputs.drop_last()).advance(inputs.last()).0
    }
}

/// The steps that a sequence of inputs leads to.
pub open spec fn steps(start: RunView, inputs: Seq<InputView>) -> Seq<StepView>
    decreases inputs.len(),
{
    if inputs.len() == 0 {
        Seq::empty()
    } else {
        steps(start, inputs.drop_last()).push(
            after(start, inputs.drop_last()).advance(inputs.last()).1,
        )
    }
}

/// Whether each input answers the request before it.
pub open spec fn admissible(start: RunView, inputs: Seq<InputView>) -> bool
    decreases inputs.len(),
{
    inputs.len() > 0 ==> admissible(start, inputs.drop_last()) && after(
        start,
        inputs.drop_last(),
    ).accepts(inputs.last())
}

/// A run that was just started.
pub open spec fn fresh(start: RunView) -> bool {
    &&& start.steps_taken == 0
    &&& start.turn == TurnView::empty()
    &&& start.phase == (if start.max_steps > 0 {
        Phase::TurnCheck
    } else {
        Phase::Finished
    })
}

/// The events of a sequence of steps.
pub open spec fn events_of(s: Seq<StepView>) -> Seq<EventView>
    decreases s.len(),
{
    if s.len() == 0 {
        Seq::empty()
    } else {
        events_of(s.drop_last()) + s.last().events
    }
}

/// How many streams a sequence of steps asks for.
pub open spec fn streams_opened(s: Seq<StepView>) -> nat
    decreases s.len(),
{
    if s.len() == 0 {
        0
    } else {
        streams_opened(s.drop_last()) + (if s.last().request is OpenStream {
            1nat
        } else {
            0nat
        })
    }
}

/// How often a sequence of steps asks the confirmation gate.
pub open spec fn gate_asks(s: Seq<StepView>) -> nat
    decreases s.len(),
{
    if s.len() == 0 {
        0
    } else {
        gate_asks(s.drop_last()) + (if s.last().request is AskGate {
            1nat
        } else {
            0nat
        })
    }
}

/// How many tool messages a history holds.
pub open spec fn tool_messages(m: Seq<MessageView>) -> nat
    decreases m.len(),
{
    if m.len() == 0 {
        0
    } else {
        tool_messages(m.drop_last()) + (if m.last() is Tool {
            1nat
        } else {
            0nat
        })
    }
}

/// The text that a sequence of events shows.
pub open spec fn shown(events: Seq<EventView>) -> Seq<char>
    decreases events.len(),
{
    if events.len() == 0 {
        Seq::empty()
    } else {
        match events.last() {
            EventView::Token(s) => shown(events.drop_last()) + s,
            _ => shown(events.drop_last()),
        }
    }
}

/// The text of the assistant's turns in a history.
pub open spec fn recorded(m: Seq<MessageView>) -> Seq<char>
    decreases m.len(),
{
    if m.len() == 0 {
        Seq::empty()
    } else {
        match m.last() {
            MessageView::Assistant { content, .. } => recorded(m.drop_last()) + content,
            _ => recorded(m.drop_last()),
        }
    }
}

/// Whether `answers` are the answers to the first of `calls`, one each and in
/// their order.
pub open spec fn answers_to(calls: Seq<CallView>, answers: Seq<MessageView>) -> bool {
    &&& answers.len() <= calls.len()
    &&& forall|i: int|
        0 <= i < answers.len() ==> ((#[trigger] answers[i]) matches MessageView::Tool {
            tool_call_id,
            ..
        } && tool_call_id == calls[i].id)
}

/// Whether the history is made of assistant turns, each followed by exactly
/// one answer to each of its calls, in the order of the calls.
pub open spec fn settled(m: Seq<MessageView>) -> bool
    decreases m.len(),
{
    m.len() > 0 ==> exists|k: int| #[trigger] closes_at(m, k) && 0 <= k && settled(m.take(k))
}

/// Whether the turn at `k` is the last one and all its calls are answered.
pub open spec fn closes_at(m: Seq<MessageView>, k: int) -> bool {
    &&& 0 <= k < m.len()
    &&& m[k] matches MessageView::Assistant { tool_calls, .. } && answers_to(
        tool_calls,
        m.skip(k + 1),
    ) && tool_calls.len() == m.len() - k - 1
}

/// Where a sequence of events stands between the starts and the ends of calls.
pub enum Pairing {
    /// Every start has its end.
    Idle,
    /// The call with this identifier was started and not yet ended.
    Open(Seq<char>),
    /// A start or an end stood in the wrong place.
    Broken,
}

/// Follows the starts and the ends of calls through a sequence of events.
pub open spec fn pairing(from: Pairing, events: Seq<EventView>) -> Pairing
    decreases events.len(),
{
    if events.len() == 0 {
        from
    } else {
        let before = pairing(from, events.drop_last());
        match (before, events.last()) {
            (Pairing::Idle, EventView::ToolStart { id, .. }) => Pairing::Open(id),
            (Pairing::Open(open), EventView::ToolEnd { id, .. }) if open == id => Pairing::Idle,
            (_, EventView::ToolStart { .. }) => Pairing::Broken,
            (_, EventView::ToolEnd { .. }) => Pairing::Broken,
            _ => before,
        }
    }
}

/// The consistency of a run is kept by every step.
pub proof fn consistency_is_kept(start: RunView, inputs: Seq<InputView>)
    requires
        start.wf(),
        admissible(start, inputs),
    ensures
        after(start, inputs).wf(),
    decreases inputs.len(),
{
    if inputs.len() > 0 {
        consistency_is_kept(start, inputs.drop_last());
    }
}

/// A run never changes or drops a message: the history only grows.
pub proof fn history_only_grows(start: RunView, inputs: Seq<InputView>)
    requires
        admissible(start, inputs),
    ensures
        start.messages.len() <= after(start, inputs).messages.len(),
        after(start, inputs).messages.take(start.messages.len() as int) == start.messages,
    decreases inputs.len(),
{
    if inputs.len() > 0 {
        history_only_grows(start, inputs.drop_last());
        let r = after(start, inputs.drop_last());
        let n = start.messages.len() as int;
        let m = r.advance(inputs.last()).0.messages;
        assert(r.messages.len() <= m.len() && m.take(r.messages.len() as int) =~= r.messages);
        assert(m.take(n) =~= r.messages.take(n));
    } else {
        assert(start.messages.take(start.messages.len() as int) =~= start.messages);
    }
}

/// A run opens at most `max_steps` streams.
pub proof fn turns_are_bounded(start: RunView, inputs: Seq<InputView>)
    requires
        fresh(start),
        admissible(start, inputs),
    ensures
        streams_opened(steps(start, inputs)) == after(start, inputs).steps_taken,
        streams_opened(steps(start, inputs)) <= start.max_steps,
    decreases inputs.len(),
{
    consistency_is_kept(start, inputs);
    settings_are_kept(start, inputs);
    if inputs.len() > 0 {
        turns_are_bounded(start, inputs.drop_last());
        let s = steps(start, inputs);
        assert(s.drop_last() =~= steps(start, inputs.drop_last()));
        consistency_is_kept(start, inputs.drop_last());
    }
}

/// The limit and the tools of a run never change.
pub proof fn settings_are_kept(start: RunView, inputs: Seq<InputView>)
    requires
        admissible(start, inputs),
    ensures
        after(start, inputs).max_steps == start.max_steps,
        after(start, inputs).tools == start.tools,
    decreases inputs.len(),
{
    if inputs.len() > 0 {
        settings_are_kept(start, inputs.drop_last());
    }
}

/// What a run waits for is what it asked for last.
pub proof fn phase_matches_request(r: RunView, input: InputView)
    requires
        r.wf(),
        r.accepts(input),
    ensures
        ({
            let (next, step) = r.advance(input);
            &&& next.phase == Phase::Opening <==> step.request is OpenStream
            &&& next.phase == Phase::Streaming <==> step.request is NextDelta
            &&& next.phase == Phase::Dispatching <==> step.request is Dispatch
            &&& next.phase == Phase::Finished <==> step.request is Finish
            &&& next.phase == Phase::Asking <==> step.request is AskGate
            &&& step.request matches RequestView::AskGate { call, .. } ==> call
                == next.calls[next.cursor as int]
        }),
{
}

/// A tool is run only when the confirmation gate, asked about that very call in the step
/// before, approved it.
pub proof fn dispatch_follows_approval(start: RunView, inputs: Seq<InputView>)
    requires
        fresh(start),
        admissible(start, inputs),
        inputs.len() > 0,
        steps(start, inputs).last().request is Dispatch,
    ensures
        inputs.len() > 1,
        inputs.last() == InputView::GateAnswer(ConfirmationOutcome::Approved),
        steps(start, inputs)[inputs.len() - 2].request matches RequestView::AskGate { call, .. }
            && steps(start, inputs).last().request->name == call.name,
{
    reveal_with_fuel(admissible, 2);
    let before = inputs.drop_last();
    consistency_is_kept(start, before);
    assert(after(start, before).phase == Phase::Asking);
    assert(before.len() > 0);
    consistency_is_kept(start, before.drop_last());
    phase_matches_request(after(start, before.drop_last()), before.last());
    steps_are_counted(start, inputs);
    steps_are_counted(start, before);
    assert(steps(start, inputs)[inputs.len() - 2] == steps(start, before).last());
}

/// A call is announced only after the confirmation gate, asked about that very
/// call in the step before, has answered.
pub proof fn announcement_follows_the_question(start: RunView, inputs: Seq<InputView>, i: int)
    requires
        fresh(start),
        admissible(start, inputs),
        inputs.len() > 0,
        0 <= i < steps(start, inputs).last().events.len(),
        steps(start, inputs).last().events[i] is ToolStart,
    ensures
        inputs.len() > 1,
        inputs.last() is GateAnswer,
        steps(start, inputs)[inputs.len() - 2].request matches RequestView::AskGate { call, .. }
            && steps(start, inputs).last().events[i] == start_event(call),
{
    reveal_with_fuel(admissible, 2);
    let before = inputs.drop_last();
    consistency_is_kept(start, before);
    assert(after(start, before).phase == Phase::Asking);
    assert(before.len() > 0);
    consistency_is_kept(start, before.drop_last());
    phase_matches_request(after(start, before.drop_last()), before.last());
    steps_are_counted(start, inputs);
    steps_are_counted(start, before);
    assert(steps(start, inputs)[inputs.len() - 2] == steps(start, before).last());
}

proof fn steps_are_counted(start: RunView, inputs: Seq<InputView>)
    ensures
        steps(start, inputs).len() == inputs.len(),
    decreases inputs.len(),
{
    if inputs.len() > 0 {
        steps_are_counted(start, inputs.drop_last());
    }
}

/// A denied call is not dispatched. It is answered by the refusal, and its
/// start and its failed end are reported.
pub proof fn denied_call_is_answered(r: RunView)
    requires
        r.wf(),
        r.phase == Phase::Asking,
    ensures
        ({
            let call = r.calls[r.cursor as int];
            let (next, step) = r.advance(InputView::GateAnswer(ConfirmationOutcome::Denied));
            &&& !(step.request is Dispatch)
            &&& next.messages == r.messages.push(answer_message(call, denial()))
            &&& step.events.len() >= 2
            &&& step.events[0] == start_event(call)
            &&& step.events[1] == (EventView::ToolEnd {
                id: call.id,
                ok: false,
                result: None,
                error: Some("denied by user"@),
            })
        }),
{
}

/// The confirmation gate is asked exactly once for each call that is answered, and once
/// more while a call is before the confirmation gate or running.
pub proof fn gate_is_asked_once_per_call(start: RunView, inputs: Seq<InputView>)
    requires
        fresh(start),
        admissible(start, inputs),
    ensures
        gate_asks(steps(start, inputs)) + tool_messages(start.messages) == tool_messages(
            after(start, inputs).messages,
        ) + (if after(start, inputs).phase == Phase::Asking || after(start, inputs).phase
            == Phase::Dispatching {
            1nat
        } else {
            0nat
        }),
    decreases inputs.len(),
{
    if inputs.len() > 0 {
        let before = inputs.drop_last();
        gate_is_asked_once_per_call(start, before);
        consistency_is_kept(start, before);
        let r = after(start, before);
        let next = r.advance(inputs.last()).0;
        assert(steps(start, inputs).drop_last() =~= steps(start, before));
        assert(next.messages.len() > r.messages.len() ==> next.messages.drop_last()
            =~= r.messages);
        assert(next.messages.len() <= r.messages.len() ==> next.messages =~= r.messages);
    }
}

/// The text shown while a run goes on is the text that its history records,
/// followed by what has been received of the turn that is still open. In
/// particular a stream that fails loses nothing that was shown.
pub proof fn shown_text_is_recorded(start: RunView, inputs: Seq<InputView>)
    requires
        fresh(start),
        admissible(start, inputs),
    ensures
        recorded(start.messages) + shown(events_of(steps(start, inputs))) == recorded(
            after(start, inputs).messages,
        ) + after(start, inputs).turn.content,
    decreases inputs.len(),
{
    if inputs.len() > 0 {
        let before = inputs.drop_last();
        shown_text_is_recorded(start, before);
        consistency_is_kept(start, before);
        let r = after(start, before);
        let (next, step) = r.advance(inputs.last());
        assert(steps(start, inputs).drop_last() =~= steps(start, before));
        let old_events = events_of(steps(start, before));
        shown_splits(old_events, step.events);
        step_shows(r, inputs.last());
        assert(recorded(start.messages) + shown(events_of(steps(start, inputs))) =~= recorded(
            start.messages,
        ) + shown(old_events) + shown(step.events));
        assert(recorded(r.messages) + r.turn.content + shown(step.events) =~= recorded(r.messages)
            + (r.turn.content + shown(step.events)));
    }
}

proof fn shown_splits(a: Seq<EventView>, b: Seq<EventView>)
    ensures
        shown(a + b) == shown(a) + shown(b),
    decreases b.len(),
{
    if b.len() == 0 {
        assert(a + b =~= a);
    } else {
        shown_splits(a, b.drop_last());
        assert((a + b).drop_last() =~= a + b.drop_last());
        assert(shown(a + b) =~= shown(a) + shown(b));
    }
}

proof fn step_shows(r: RunView, input: InputView)
    requires
        r.wf(),
        r.accepts(input),
    ensures
        recorded(r.messages) + (r.turn.content + shown(r.advance(input).1.events)) == recorded(
            r.advance(input).0.messages,
        ) + r.advance(input).0.turn.content,
{
    reveal_with_fuel(shown, 5);
    let (next, step) = r.advance(input);
    let new_text = r.turn.content + shown(step.events);
    if next.messages.len() > r.messages.len() {
        assert(next.messages.drop_last() =~= r.messages);
    }
    match input {
        InputView::Delta(d) => {
            if d is Done {
                assert(new_text =~= r.turn.content);
            } else {
                assert(new_text =~= next.turn.content);
            }
        },
        InputView::StreamFailed(_) => {
            assert(new_text =~= r.turn.content);
        },
        InputView::StreamEnded => {
            assert(new_text =~= r.turn.content);
        },
        _ => {
            assert(shown(step.events) =~= Seq::empty());
        },
    }
    assert(recorded(r.messages) + new_text =~= recorded(next.messages) + next.turn.content);
}

/// When a stream fails, what was received of the turn stands in the history,
/// the failure is reported, and the run ends with it.
pub proof fn failed_stream_keeps_the_turn(r: RunView, e: Seq<char>)
    requires
        r.phase == Phase::Streaming,
    ensures
        ({
            let (next, step) = r.advance(InputView::StreamFailed(e));
            &&& next.messages == r.messages.push(
                MessageView::Assistant {
                    content: r.turn.content,
                    tool_calls: calls_in_order(r.turn.calls),
                },
            )
            &&& step.events == seq![EventView::Error(e)]
            &&& step.request == RequestView::Finish(Err(e))
        }),
{
    assert(Seq::<EventView>::empty().push(EventView::Error(e)) =~= seq![EventView::Error(e)]);
}

/// While calls are being worked on, the history ends with their turn and the
/// answers to the calls before the current one; otherwise all is settled.
spec fn threaded(start: RunView, r: RunView) -> bool {
    let n = start.messages.len() as int;
    let m = r.messages.skip(n);
    let k = m.len() - 1 - r.cursor;
    &&& n <= r.messages.len()
    &&& match r.phase {
        Phase::TurnCheck | Phase::Opening | Phase::Streaming => settled(m),
        Phase::CallCheck | Phase::Asking | Phase::Dispatching => {
            &&& 0 <= k
            &&& settled(m.take(k))
            &&& m[k] matches MessageView::Assistant { tool_calls, .. } && tool_calls == r.calls
            &&& answers_to(r.calls, m.skip(k + 1))
        },
        Phase::Finished => true,
    }
}

proof fn threading_is_kept(start: RunView, r: RunView, input: InputView)
    requires
        r.wf(),
        r.accepts(input),
        threaded(start, r),
    ensures
        threaded(start, r.advance(input).0),
{
    let next = r.advance(input).0;
    let n = start.messages.len() as int;
    let m = r.messages.skip(n);
    let m2 = next.messages.skip(n);
    if next.messages.len() == r.messages.len() {
        assert(m2 =~= m);
    } else {
        assert(m2 =~= m.push(next.messages.last()));
    }
    match input {
        InputView::Delta(_) | InputView::StreamFailed(_) | InputView::StreamEnded => {
            if next.phase == Phase::CallCheck {
                assert(m2.take(m2.len() - 1) =~= m);
                assert(m2.skip(m2.len() as int) =~= Seq::empty());
            }
        },
        InputView::GateAnswer(_) | InputView::ToolFinished(_) => {
            if next.messages.len() > r.messages.len() {
                let k = m.len() - 1 - r.cursor;
                let call = r.calls[r.cursor as int];
                assert(m2.take(k) =~= m.take(k));
                assert(m2.skip(k + 1) =~= m.skip(k + 1).push(next.messages.last()));
                assert(next.messages.last() matches MessageView::Tool { tool_call_id, .. }
                    && tool_call_id == call.id);
                if next.phase == Phase::TurnCheck {
                    assert(closes_at(m2, k));
                }
            }
        },
        _ => {},
    }
}

/// Whenever a stream is opened, every assistant turn that the run added to the
/// history is followed by exactly one answer to each of its calls, in order:
/// the model never sees a call without its result.
pub proof fn calls_are_answered_before_the_next_turn(start: RunView, inputs: Seq<InputView>)
    requires
        fresh(start),
        admissible(start, inputs),
        inputs.len() > 0,
        steps(start, inputs).last().request is OpenStream,
    ensures
        settled(after(start, inputs).messages.skip(start.messages.len() as int)),
{
    threading_holds(start, inputs);
    consistency_is_kept(start, inputs.drop_last());
    phase_matches_request(after(start, inputs.drop_last()), inputs.last());
}

proof fn threading_holds(start: RunView, inputs: Seq<InputView>)
    requires
        fresh(start),
        admissible(start, inputs),
    ensures
        threaded(start, after(start, inputs)),
    decreases inputs.len(),
{
    if inputs.len() > 0 {
        threading_holds(start, inputs.drop_last());
        consistency_is_kept(start, inputs.drop_last());
        threading_is_kept(start, after(start, inputs.drop_last()), inputs.last());
    }
}

/// The starts and the ends of calls are reported in pairs, one call at a time.
/// Only while a tool runs is a start without its end.
pub proof fn tool_events_come_in_pairs(start: RunView, inputs: Seq<InputView>)
    requires
        fresh(start),
        admissible(start, inputs),
    ensures
        ({
            let r = after(start, inputs);
            pairing(Pairing::Idle, events_of(steps(start, inputs))) == (if r.phase
                == Phase::Dispatching {
                Pairing::Open(r.calls[r.cursor as int].id)
            } else {
                Pairing::Idle
            })
        }),
    decreases inputs.len(),
{
    if inputs.len() > 0 {
        let before = inputs.drop_last();
        tool_events_come_in_pairs(start, before);
        consistency_is_kept(start, before);
        let r = after(start, before);
        let (next, step) = r.advance(inputs.last());
        assert(steps(start, inputs).drop_last() =~= steps(start, before));
        pairing_splits(Pairing::Idle, events_of(steps(start, before)), step.events);
        step_pairs(r, inputs.last());
    }
}

proof fn pairing_splits(from: Pairing, a: Seq<EventView>, b: Seq<EventView>)
    ensures
        pairing(from, a + b) == pairing(pairing(from, a), b),
    decreases b.len(),
{
    if b.len() == 0 {
        assert(a + b =~= a);
    } else {
        pairing_splits(from, a, b.drop_last());
        assert((a + b).drop_last() =~= a + b.drop_last());
    }
}

proof fn step_pairs(r: RunView, input: InputView)
    requires
        r.wf(),
        r.accepts(input),
    ensures
        ({
            let (next, step) = r.advance(input);
            pairing(
                if r.phase == Phase::Dispatching {
                    Pairing::Open(r.calls[r.cursor as int].id)
                } else {
                    Pairing::Idle
                },
                step.events,
            ) == (if next.phase == Phase::Dispatching {
                Pairing::Open(next.calls[next.cursor as int].id)
            } else {
                Pairing::Idle
            })
        }),
{
    reveal_with_fuel(pairing, 4);
    let call = r.calls[r.cursor as int];
    let (next, step) = r.advance(input);
    let s = step.events;
    if s.len() > 0 {
        let s1 = s.drop_last();
        if s1.len() > 0 {
            let s2 = s1.drop_last();
            assert(s1.last() == s[s.len() - 2]);
            if s2.len() > 0 {
                assert(s2.last() == s[s.len() - 3]);
            }
        }
    }
}

/// How a run ends: with a final answer that stands at the end of the history
/// and was reported, with a cancellation that was reported, or with an error
/// that was reported unless the stream could not be opened at all.
pub proof fn ends_are_reported(r: RunView, input: InputView)
    requires
        r.wf(),
        r.accepts(input),
    ensures
        ({
            let (next, step) = r.advance(input);
            step.request matches RequestView::Finish(end) ==> match end {
                Ok(OutcomeView::Final(content)) => {
                    &&& step.events.last() == (EventView::Done { content })
                    &&& next.messages.last() matches MessageView::Assistant { content: c, .. } && c
                        == content
                },
                Ok(OutcomeView::Cancelled) => step.events.last() == EventView::Cancelled,
                Err(e) => {
                    ||| step.events.last() == EventView::Error(e)
                    ||| input == InputView::StreamRefused(e) && step.events.len() == 0
                },
            }
        }),
{
}

/// A raised cancel flag ends the run where it stands: no stream is opened, no
/// gate asked, no tool run and no message added.
pub proof fn cancel_flag_ends_the_run(r: RunView)
    requires
        r.accepts(InputView::CancelFlag(true)),
    ensures
        ({
            let (next, step) = r.advance(InputView::CancelFlag(true));
            &&& next.messages == r.messages
            &&& next.phase == Phase::Finished
            &&& step.events == seq![EventView::Cancelled]
            &&& step.request == RequestView::Finish(Ok(OutcomeView::Cancelled))
        }),
{
    assert(Seq::<EventView>::empty().push(EventView::Cancelled) =~= seq![EventView::Cancelled]);
}

/// Nothing follows the end of a run.
pub proof fn nothing_follows_the_end(start: RunView, inputs: Seq<InputView>, input: InputView)
    requires
        start.wf(),
        admissible(start, inputs),
        inputs.len() > 0,
        steps(start, inputs).last().request is Finish,
    ensures
        !admissible(start, inputs.push(input)),
{
    consistency_is_kept(start, inputs.drop_last());
    phase_matches_request(after(start, inputs.drop_last()), inputs.last());
    assert(inputs.push(input).drop_last() =~= inputs);
}

/// The text of a turn is the text of its content deltas, in order.
pub open spec fn content_of(deltas: Seq<DeltaView>) -> Seq<char>
    decreases deltas.len(),
{
    if deltas.len() == 0 {
        Seq::empty()
    } else {
        match deltas.last() {
            DeltaView::Content(s) => content_of(deltas.drop_last()) + s,
            _ => content_of(deltas.drop_last()),
        }
    }
}

/// The arguments that a sequence of deltas spells out for the call `index`
/// after it was last begun.
pub open spec fn arguments_of(deltas: Seq<DeltaView>, index: u32) -> Seq<char>
    decreases deltas.len(),
{
    if deltas.len() == 0 {
        Seq::empty()
    } else {
        let before = arguments_of(deltas.drop_last(), index);
        match deltas.last() {
            DeltaView::ToolCallStart { index: i, .. } if i == index => Seq::empty(),
            DeltaView::ToolCallArgs { index: i, fragment } if i == index => before + fragment,
            _ => before,
        }
    }
}

/// A turn holds the concatenated text of its content deltas, and each of its
/// calls the concatenated fragments of its arguments.
pub proof fn turn_is_reassembled(deltas: Seq<DeltaView>, index: u32)
    ensures
        TurnView::empty().absorb_all(deltas).content == content_of(deltas),
        TurnView::empty().absorb_all(deltas).calls.contains_key(index) ==> TurnView::empty().absorb_all(
            deltas,
        ).calls[index].arguments == arguments_of(deltas, index),
    decreases deltas.len(),
{
    if deltas.len() > 0 {
        turn_is_reassembled(deltas.drop_last(), index);
    }
}

/// The inputs that hand over these deltas.
pub open spec fn delta_inputs(deltas: Seq<DeltaView>) -> Seq<InputView> {
    deltas.map_values(|d: DeltaView| InputView::Delta(d))
}

/// A run takes in the deltas of a turn one after the other, up to the one that
/// ends it.
pub proof fn deltas_are_taken_in(r: RunView, deltas: Seq<DeltaView>)
    requires
        r.phase == Phase::Streaming,
        forall|i: int| 0 <= i < deltas.len() ==> !((#[trigger] deltas[i]) is Done),
    ensures
        admissible(r, delta_inputs(deltas)),
        after(r, delta_inputs(deltas)) == (RunView { turn: r.turn.absorb_all(deltas), ..r }),
    decreases deltas.len(),
{
    if deltas.len() > 0 {
        let front = deltas.drop_last();
        assert forall|i: int| 0 <= i < front.len() implies !((#[trigger] front[i]) is Done) by {
            assert(front[i] == deltas[i]);
        }
        deltas_are_taken_in(r, front);
        assert(delta_inputs(deltas).drop_last() =~= delta_inputs(front));
        assert(!(deltas[deltas.len() - 1] is Done));
    }
}

} // verus!
