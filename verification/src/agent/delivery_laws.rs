//! What arrives of what the upstream sends.
use vstd::prelude::*;

use crate::agent::cloud::{
    atom_deltas, choice_atoms, choices_atoms, chunk_atoms, deltas_of, last_finish, seen_after,
    tool_atoms, Atom, ChoiceView, ChunkState, ChunkView, StreamInput, StreamInputView, StreamOutput,
    StreamOutputView, StreamView, ToolChunkView, WireFinish, WireUsage,
};
use crate::agent::delta::{DeltaView, FinishView, StatsView};
use crate::agent::stream_laws::{
    atoms_received, calls_arrive_whole, content_arrives_whole, done_comes_last, first_fragment,
    fresh_stream, outputs, payload, stream_admissible, stream_after, wire_arguments, wire_content,
};
use crate::agent::tool::CallView;
use crate::agent::turn::TurnView;

verus! {

/// All choices that came in, in their order.
pub open spec fn choices_sent(inputs: Seq<StreamInputView>) -> Seq<ChoiceView>
    decreases inputs.len(),
{
    if inputs.len() == 0 {
        Seq::empty()
    } else {
        match inputs.last() {
            StreamInputView::Chunk { chunk, .. } => choices_sent(inputs.drop_last())
                + chunk.choices,
            _ => choices_sent(inputs.drop_last()),
        }
    }
}

/// The text of some choices, one after the other.
pub open spec fn text_of(choices: Seq<ChoiceView>) -> Seq<char>
    decreases choices.len(),
{
    if choices.len() == 0 {
        Seq::empty()
    } else {
        match choices.last().content {
            Some(s) => text_of(choices.drop_last()) + s,
            None => text_of(choices.drop_last()),
        }
    }
}

/// The tool-call fragments of some choices, one after the other.
pub open spec fn fragments_of(choices: Seq<ChoiceView>) -> Seq<ToolChunkView>
    decreases choices.len(),
{
    if choices.len() == 0 {
        Seq::empty()
    } else {
        fragments_of(choices.drop_last()) + choices.last().tool_calls
    }
}

/// The argument text of the fragments for one index, one after the other.
pub open spec fn arguments_for(fragments: Seq<ToolChunkView>, index: u32) -> Seq<char>
    decreases fragments.len(),
{
    if fragments.len() == 0 {
        Seq::empty()
    } else {
        let before = arguments_for(fragments.drop_last(), index);
        let t = fragments.last();
        if t.index != index {
            before
        } else {
            match t.function {
                Some(f) => match f.arguments {
                    Some(s) => before + s,
                    None => before,
                },
                None => before,
            }
        }
    }
}

/// Whether the `i`-th fragment is the first for its index.
pub open spec fn is_first_fragment(fragments: Seq<ToolChunkView>, i: int) -> bool {
    &&& 0 <= i < fragments.len()
    &&& forall|j: int| 0 <= j < i ==> (#[trigger] fragments[j]).index != fragments[i].index
}

spec fn tools_in(atoms: Seq<Atom>) -> Seq<ToolChunkView>
    decreases atoms.len(),
{
    if atoms.len() == 0 {
        Seq::empty()
    } else {
        match atoms.last() {
            Atom::Tool(t) => tools_in(atoms.drop_last()).push(t),
            _ => tools_in(atoms.drop_last()),
        }
    }
}

proof fn atoms_split(a: Seq<Atom>, b: Seq<Atom>)
    ensures
        wire_content(a + b) == wire_content(a) + wire_content(b),
        tools_in(a + b) == tools_in(a) + tools_in(b),
    decreases b.len(),
{
    if b.len() == 0 {
        assert(a + b =~= a);
        assert(wire_content(a) + wire_content(b) =~= wire_content(a));
        assert(tools_in(a) + tools_in(b) =~= tools_in(a));
    } else {
        atoms_split(a, b.drop_last());
        assert((a + b).drop_last() =~= a + b.drop_last());
        assert(wire_content(a + b) =~= wire_content(a) + wire_content(b));
        assert(tools_in(a + b) =~= tools_in(a) + tools_in(b));
    }
}

proof fn tool_atoms_hold_the_tools(t: Seq<ToolChunkView>)
    ensures
        wire_content(tool_atoms(t)) == Seq::<char>::empty(),
        tools_in(tool_atoms(t)) == t,
    decreases t.len(),
{
    if t.len() > 0 {
        tool_atoms_hold_the_tools(t.drop_last());
        assert(tool_atoms(t).drop_last() =~= tool_atoms(t.drop_last()));
        assert(t =~= t.drop_last().push(t.last()));
    } else {
        assert(tools_in(tool_atoms(t)) =~= t);
    }
}

proof fn choice_atoms_hold_the_choice(c: ChoiceView)
    ensures
        wire_content(choice_atoms(c)) == (match c.content {
            Some(s) => s,
            None => Seq::empty(),
        }),
        tools_in(choice_atoms(c)) == c.tool_calls,
{
    let head = match c.content {
        Some(s) => seq![Atom::Content(s)],
        None => Seq::<Atom>::empty(),
    };
    atoms_split(head, tool_atoms(c.tool_calls));
    tool_atoms_hold_the_tools(c.tool_calls);
    reveal_with_fuel(wire_content, 2);
    reveal_with_fuel(tools_in, 2);
    if let Some(s) = c.content {
        assert(wire_content(head) =~= s);
    }
    assert(tools_in(head) =~= Seq::empty());
    assert(wire_content(choice_atoms(c)) =~= wire_content(head));
    assert(tools_in(choice_atoms(c)) =~= c.tool_calls);
}

proof fn choices_atoms_hold_the_choices(c: Seq<ChoiceView>)
    ensures
        wire_content(choices_atoms(c)) == text_of(c),
        tools_in(choices_atoms(c)) == fragments_of(c),
    decreases c.len(),
{
    if c.len() > 0 {
        choices_atoms_hold_the_choices(c.drop_last());
        choice_atoms_hold_the_choice(c.last());
        atoms_split(choices_atoms(c.drop_last()), choice_atoms(c.last()));
        assert(wire_content(choices_atoms(c)) =~= text_of(c));
        assert(tools_in(choices_atoms(c)) =~= fragments_of(c));
    }
}

proof fn choices_split(a: Seq<ChoiceView>, b: Seq<ChoiceView>)
    ensures
        text_of(a + b) == text_of(a) + text_of(b),
        fragments_of(a + b) == fragments_of(a) + fragments_of(b),
    decreases b.len(),
{
    if b.len() == 0 {
        assert(a + b =~= a);
        assert(text_of(a) + text_of(b) =~= text_of(a));
        assert(fragments_of(a) + fragments_of(b) =~= fragments_of(a));
    } else {
        choices_split(a, b.drop_last());
        assert((a + b).drop_last() =~= a + b.drop_last());
        assert(text_of(a + b) =~= text_of(a) + text_of(b));
        assert(fragments_of(a + b) =~= fragments_of(a) + fragments_of(b));
    }
}

proof fn received_atoms_hold_what_was_sent(inputs: Seq<StreamInputView>)
    ensures
        wire_content(atoms_received(inputs)) == text_of(choices_sent(inputs)),
        tools_in(atoms_received(inputs)) == fragments_of(choices_sent(inputs)),
    decreases inputs.len(),
{
    if inputs.len() > 0 {
        let before = inputs.drop_last();
        received_atoms_hold_what_was_sent(before);
        match inputs.last() {
            StreamInputView::Chunk { chunk, elapsed_ms } => {
                let usage = match chunk.usage {
                    Some(u) => seq![Atom::Usage(u, elapsed_ms)],
                    None => Seq::<Atom>::empty(),
                };
                choices_atoms_hold_the_choices(chunk.choices);
                atoms_split(choices_atoms(chunk.choices), usage);
                atoms_split(atoms_received(before), chunk_atoms(chunk, elapsed_ms));
                choices_split(choices_sent(before), chunk.choices);
                reveal_with_fuel(wire_content, 2);
                reveal_with_fuel(tools_in, 2);
                assert(wire_content(usage) =~= Seq::empty());
                assert(tools_in(usage) =~= Seq::empty());
                assert(wire_content(chunk_atoms(chunk, elapsed_ms)) =~= text_of(chunk.choices));
                assert(tools_in(chunk_atoms(chunk, elapsed_ms)) =~= fragments_of(chunk.choices));
            },
            _ => {
                assert(atoms_received(inputs) =~= atoms_received(before));
            },
        }
    }
}

proof fn atoms_spell_the_calls(atoms: Seq<Atom>, index: u32)
    ensures
        wire_arguments(atoms, index) == arguments_for(tools_in(atoms), index),
        match first_fragment(atoms, index) {
            Some(t) => exists|i: int| #[trigger]
                is_first_fragment(tools_in(atoms), i) && tools_in(atoms)[i] == t && t.index == index,
            None => forall|i: int|
                0 <= i < tools_in(atoms).len() ==> (#[trigger] tools_in(atoms)[i]).index != index,
        },
    decreases atoms.len(),
{
    if atoms.len() > 0 {
        let front = atoms.drop_last();
        atoms_spell_the_calls(front, index);
        let before = tools_in(front);
        let after = tools_in(atoms);
        if let Atom::Tool(t) = atoms.last() {
            assert(after.drop_last() =~= before);
            assert(wire_arguments(atoms, index) =~= arguments_for(after, index));
            match first_fragment(front, index) {
                Some(u) => {
                    let i = choose|i: int| #[trigger]
                        is_first_fragment(before, i) && before[i] == u && u.index == index;
                    assert forall|j: int| 0 <= j < i implies (#[trigger] after[j]).index
                        != after[i].index by {
                        assert(after[j] == before[j]);
                    }
                    assert(is_first_fragment(after, i) && after[i] == u);
                },
                None => {
                    if t.index == index {
                        let n = before.len() as int;
                        assert forall|j: int| 0 <= j < n implies (#[trigger] after[j]).index
                            != after[n].index by {
                            assert(after[j] == before[j]);
                        }
                        assert(is_first_fragment(after, n) && after[n] == t);
                    } else {
                        assert forall|i: int| 0 <= i < after.len() implies (#[trigger] after[i]).index
                            != index by {
                            if i < before.len() {
                                assert(after[i] == before[i]);
                            }
                        }
                    }
                },
            }
        }
    }
}

/// Once a stream has ended, the turn assembled from it holds exactly the text
/// that the upstream sent in all choices of all chunks.
pub proof fn streamed_text_is_the_text_sent(start: StreamView, inputs: Seq<StreamInputView>)
    requires
        fresh_stream(start),
        stream_admissible(start, inputs),
        inputs.len() > 0,
        outputs(start, inputs).last() matches StreamOutputView::Emit(d) && d is Done,
    ensures
        TurnView::empty().absorb_all(payload(outputs(start, inputs))).content == text_of(
            choices_sent(inputs),
        ),
{
    done_comes_last(start, inputs);
    content_arrives_whole(start.label, atoms_received(inputs));
    received_atoms_hold_what_was_sent(inputs);
}

/// Once a stream has ended, the turn assembled from it holds one call for each
/// index that the upstream sent a fragment for: with the identifier and the
/// name of the first fragment, and with the arguments of all of them.
pub proof fn streamed_calls_are_the_calls_sent(
    start: StreamView,
    inputs: Seq<StreamInputView>,
    index: u32,
)
    requires
        fresh_stream(start),
        stream_admissible(start, inputs),
        inputs.len() > 0,
        outputs(start, inputs).last() matches StreamOutputView::Emit(d) && d is Done,
    ensures
        ({
            let calls = TurnView::empty().absorb_all(payload(outputs(start, inputs))).calls;
            let sent = fragments_of(choices_sent(inputs));
            &&& calls.contains_key(index) <==> exists|i: int|
                0 <= i < sent.len() && (#[trigger] sent[i]).index == index
            &&& forall|i: int| #[trigger]
                is_first_fragment(sent, i) && sent[i].index == index ==> {
                    &&& calls[index].id == (match sent[i].id {
                        Some(id) => id,
                        None => Seq::empty(),
                    })
                    &&& calls[index].name == (match sent[i].function {
                        Some(f) => match f.name {
                            Some(name) => name,
                            None => Seq::empty(),
                        },
                        None => Seq::empty(),
                    })
                    &&& calls[index].arguments == arguments_for(sent, index)
                }
        }),
{
    let atoms = atoms_received(inputs);
    done_comes_last(start, inputs);
    calls_arrive_whole(start.label, atoms, index);
    received_atoms_hold_what_was_sent(inputs);
    atoms_spell_the_calls(atoms, index);
    let sent = fragments_of(choices_sent(inputs));
    match first_fragment(atoms, index) {
        Some(t) => {
            let k = choose|i: int| #[trigger]
                is_first_fragment(sent, i) && sent[i] == t && t.index == index;
            assert(sent[k].index == index);
            assert forall|i: int| #[trigger]
                is_first_fragment(sent, i) && sent[i].index == index implies i == k by {
                if i < k {
                    assert(sent[i].index != sent[k].index);
                } else if k < i {
                    assert(sent[k].index != sent[i].index);
                }
            }
        },
        None => {
            assert forall|i: int| #[trigger]
                is_first_fragment(sent, i) && sent[i].index == index implies false by {
                assert(sent[i].index != index);
            }
        },
    }
}

/// Whether `r` is the last reason that these choices give, where they give one.
pub open spec fn is_last_reason(choices: Seq<ChoiceView>, r: Option<WireFinish>) -> bool {
    match r {
        Some(w) => exists|i: int|
            0 <= i < choices.len() && (#[trigger] choices[i]).finish_reason == Some(w) && forall|
                j: int,
            |
                i < j < choices.len() ==> (#[trigger] choices[j]).finish_reason is None,
        None => forall|i: int|
            0 <= i < choices.len() ==> (#[trigger] choices[i]).finish_reason is None,
    }
}

proof fn last_finish_is_the_last_reason(
    before: Option<WireFinish>,
    past: Seq<ChoiceView>,
    c: Seq<ChoiceView>,
)
    requires
        is_last_reason(past, before),
    ensures
        is_last_reason(past + c, last_finish(before, c)),
    decreases c.len(),
{
    if c.len() == 0 {
        assert(past + c =~= past);
    } else {
        let all = past + c;
        let front = past + c.drop_last();
        last_finish_is_the_last_reason(before, past, c.drop_last());
        assert(all.drop_last() =~= front);
        let n = all.len() - 1;
        assert(all[n] == c.last());
        match c.last().finish_reason {
            Some(w) => {
                assert(all[n].finish_reason == Some(w));
            },
            None => {
                match last_finish(before, c) {
                    Some(w) => {
                        let i = choose|i: int|
                            0 <= i < front.len() && (#[trigger] front[i]).finish_reason == Some(w)
                                && forall|j: int|
                                i < j < front.len() ==> (#[trigger] front[j]).finish_reason is None;
                        assert(all[i].finish_reason == Some(w));
                        assert forall|j: int| i < j < all.len() implies (
                        #[trigger] all[j]).finish_reason is None by {
                            if j < n {
                                assert(all[j] == front[j]);
                            }
                        }
                    },
                    None => {
                        assert forall|j: int| 0 <= j < all.len() implies (
                        #[trigger] all[j]).finish_reason is None by {
                            if j < n {
                                assert(all[j] == front[j]);
                            }
                        }
                    },
                }
            },
        }
    }
}

proof fn reason_is_remembered(start: StreamView, inputs: Seq<StreamInputView>)
    requires
        fresh_stream(start),
        stream_admissible(start, inputs),
    ensures
        !stream_after(start, inputs).done_emitted ==> is_last_reason(
            choices_sent(inputs),
            stream_after(start, inputs).finish,
        ),
    decreases inputs.len(),
{
    if inputs.len() > 0 {
        let before = inputs.drop_last();
        reason_is_remembered(start, before);
        let s = stream_after(start, before);
        if let StreamInputView::Chunk { chunk, .. } = inputs.last() {
            if !s.done_emitted {
                last_finish_is_the_last_reason(s.finish, choices_sent(before), chunk.choices);
            }
        }
    }
}

/// A stream whose upstream ends is ended with the last reason that any choice
/// gave, in its normalized form, or as stopped when none gave one.
pub proof fn streams_end_with_the_last_reason(start: StreamView, inputs: Seq<StreamInputView>)
    requires
        fresh_stream(start),
        stream_admissible(start, inputs.push(StreamInputView::Ended)),
        !stream_after(start, inputs).done_emitted,
    ensures
        exists|r: Option<WireFinish>| #[trigger]
            is_last_reason(choices_sent(inputs), r) && outputs(
                start,
                inputs.push(StreamInputView::Ended),
            ).last() == StreamOutputView::Emit(
                DeltaView::Done {
                    finish_reason: match r {
                        None => FinishView::Stop,
                        Some(WireFinish::Stop) => FinishView::Stop,
                        Some(WireFinish::Length) => FinishView::Length,
                        Some(WireFinish::ToolCalls) => FinishView::ToolCalls,
                        Some(WireFinish::ContentFilter) => FinishView::Other("content_filter"@),
                        Some(WireFinish::FunctionCall) => FinishView::Other("function_call"@),
                    },
                },
            ),
{
    let all = inputs.push(StreamInputView::Ended);
    assert(all.drop_last() =~= inputs);
    reason_is_remembered(start, inputs);
    assert(is_last_reason(choices_sent(inputs), stream_after(start, inputs).finish));
}

/// The token counts that were sent, with the time at which each came.
pub open spec fn stats_sent(label: Seq<char>, inputs: Seq<StreamInputView>) -> Seq<StatsView>
    decreases inputs.len(),
{
    if inputs.len() == 0 {
        Seq::empty()
    } else {
        let before = stats_sent(label, inputs.drop_last());
        match inputs.last() {
            StreamInputView::Chunk { chunk, elapsed_ms } => match chunk.usage {
                Some(u) => before.push(
                    StatsView {
                        provider: label,
                        prompt_tokens: Some(u.prompt_tokens),
                        cached_tokens: u.cached_tokens,
                        gen_tokens: u.completion_tokens,
                        duration_ms: elapsed_ms,
                    },
                ),
                None => before,
            },
            _ => before,
        }
    }
}

/// The token counts among some deltas.
pub open spec fn stats_in(deltas: Seq<DeltaView>) -> Seq<StatsView>
    decreases deltas.len(),
{
    if deltas.len() == 0 {
        Seq::empty()
    } else {
        match deltas.last() {
            DeltaView::Stats(s) => stats_in(deltas.drop_last()).push(s),
            _ => stats_in(deltas.drop_last()),
        }
    }
}

proof fn stats_split(a: Seq<DeltaView>, b: Seq<DeltaView>)
    ensures
        stats_in(a + b) == stats_in(a) + stats_in(b),
    decreases b.len(),
{
    if b.len() == 0 {
        assert(a + b =~= a);
        assert(stats_in(a) + stats_in(b) =~= stats_in(a));
    } else {
        stats_split(a, b.drop_last());
        assert((a + b).drop_last() =~= a + b.drop_last());
        assert(stats_in(a + b) =~= stats_in(a) + stats_in(b));
    }
}

proof fn no_stats_in_choices(label: Seq<char>, seen: Set<u32>, c: Seq<ChoiceView>)
    ensures
        stats_in(deltas_of(label, seen, choices_atoms(c))).len() == 0,
        forall|i: int|
            0 <= i < choices_atoms(c).len() ==> !((#[trigger] choices_atoms(c)[i]) is Usage),
{
    no_usage_in_choices(c);
    no_usage_no_stats(label, seen, choices_atoms(c));
}

proof fn no_usage_in_choices(c: Seq<ChoiceView>)
    ensures
        forall|i: int|
            0 <= i < choices_atoms(c).len() ==> !((#[trigger] choices_atoms(c)[i]) is Usage),
    decreases c.len(),
{
    if c.len() > 0 {
        no_usage_in_choices(c.drop_last());
        let a = choices_atoms(c.drop_last());
        let b = choice_atoms(c.last());
        assert forall|i: int| 0 <= i < choices_atoms(c).len() implies !((
        #[trigger] choices_atoms(c)[i]) is Usage) by {
            if i < a.len() {
                assert(choices_atoms(c)[i] == a[i]);
            } else {
                assert(choices_atoms(c)[i] == b[i - a.len()]);
            }
        }
    }
}

proof fn no_usage_no_stats(label: Seq<char>, seen: Set<u32>, atoms: Seq<Atom>)
    requires
        forall|i: int| 0 <= i < atoms.len() ==> !((#[trigger] atoms[i]) is Usage),
    ensures
        stats_in(deltas_of(label, seen, atoms)).len() == 0,
    decreases atoms.len(),
{
    if atoms.len() > 0 {
        let front = atoms.drop_last();
        assert forall|i: int| 0 <= i < front.len() implies !((#[trigger] front[i]) is Usage) by {
            assert(front[i] == atoms[i]);
        }
        no_usage_no_stats(label, seen, front);
        let more = atom_deltas(label, seen_after(seen, front), atoms.last());
        stats_split(deltas_of(label, seen, front), more);
        assert(!(atoms[atoms.len() - 1] is Usage));
        reveal_with_fuel(stats_in, 3);
        assert(more.len() <= 2);
    }
}

proof fn stats_of_received(label: Seq<char>, inputs: Seq<StreamInputView>)
    ensures
        stats_in(deltas_of(label, Set::empty(), atoms_received(inputs))) == stats_sent(
            label,
            inputs,
        ),
    decreases inputs.len(),
{
    if inputs.len() > 0 {
        let before = inputs.drop_last();
        stats_of_received(label, before);
        let past = atoms_received(before);
        match inputs.last() {
            StreamInputView::Chunk { chunk, elapsed_ms } => {
                let seen = seen_after(Set::empty(), past);
                let head = choices_atoms(chunk.choices);
                let part = chunk_atoms(chunk, elapsed_ms);
                crate::agent::cloud::deltas_split(label, Set::empty(), past, part);
                stats_split(
                    deltas_of(label, Set::empty(), past),
                    deltas_of(label, seen, part),
                );
                no_stats_in_choices(label, seen, chunk.choices);
                match chunk.usage {
                    Some(u) => {
                        let tail = seq![Atom::Usage(u, elapsed_ms)];
                        crate::agent::cloud::deltas_split(label, seen, head, tail);
                        stats_split(
                            deltas_of(label, seen, head),
                            deltas_of(label, seen_after(seen, head), tail),
                        );
                        reveal_with_fuel(deltas_of, 2);
                        reveal_with_fuel(stats_in, 2);
                        let d = deltas_of(label, seen_after(seen, head), tail);
                        assert(tail.drop_last() =~= Seq::empty());
                        assert(d.len() == 1);
                        assert(d.drop_last() =~= Seq::empty());
                        assert(stats_in(deltas_of(label, Set::empty(), past + part))
                            =~= stats_sent(label, inputs));
                    },
                    None => {
                        assert(part =~= head);
                        assert(stats_in(deltas_of(label, Set::empty(), past + part))
                            =~= stats_sent(label, inputs));
                    },
                }
            },
            _ => {
                assert(atoms_received(inputs) =~= past);
            },
        }
    }
}

/// Once a stream has ended, all token counts that were sent have been emitted,
/// as they were sent and in their order, under the provider's label.
pub proof fn token_counts_arrive(start: StreamView, inputs: Seq<StreamInputView>)
    requires
        fresh_stream(start),
        stream_admissible(start, inputs),
        inputs.len() > 0,
        outputs(start, inputs).last() matches StreamOutputView::Emit(d) && d is Done,
    ensures
        stats_in(payload(outputs(start, inputs))) == stats_sent(start.label, inputs),
{
    done_comes_last(start, inputs);
    stats_of_received(start.label, inputs);
}

/// A piece gives a delta only for what it holds: never for empty text, and of
/// no kind that the upstream does not send.
pub proof fn deltas_are_never_empty(label: Seq<char>, seen: Set<u32>, a: Atom, i: int)
    requires
        0 <= i < atom_deltas(label, seen, a).len(),
    ensures
        match atom_deltas(label, seen, a)[i] {
            DeltaView::Content(s) => s.len() > 0,
            DeltaView::ToolCallArgs { fragment, .. } => fragment.len() > 0,
            DeltaView::ToolCallStart { index, .. } => !seen.contains(index),
            DeltaView::Stats(_) => true,
            _ => false,
        },
{
}

/// What waits is emitted first, in its order, also when the stream is
/// cancelled; only then is the upstream pulled.
pub proof fn waiting_deltas_come_first(s: StreamView, cancelled: bool)
    ensures
        ({
            let (next, out) = s.react(StreamInputView::Poll { cancelled });
            if s.queue.len() > 0 {
                &&& out == StreamOutputView::Emit(s.queue[0])
                &&& seq![s.queue[0]] + next.queue == s.queue
                &&& next.done_emitted == s.done_emitted
                &&& next.finish == s.finish
            } else if !cancelled {
                out is Pull && next == s
            } else {
                !(out is Pull)
            }
        }),
{
    if s.queue.len() > 0 {
        assert(seq![s.queue[0]] + s.queue.skip(1) =~= s.queue);
    }
}

/// A failure of the upstream is passed on with its text and changes nothing; a
/// stream that has ended stays ended.
pub proof fn failures_are_passed_on(s: StreamView, e: Seq<char>)
    ensures
        s.react(StreamInputView::Failed(e)).0 == s,
        s.react(StreamInputView::Failed(e)).1 == StreamOutputView::Fail(
            "upstream stream error: "@ + e,
        ),
        s.done_emitted ==> s.react(StreamInputView::Ended).1 is End,
{
}

/// A stream answers an input as its rule says: the laws of the rule are laws
/// of the stream.
pub proof fn streams_react_by_their_rule(s: &mut ChunkState, input: StreamInput, r: StreamOutput)
    requires
        old(s)@.accepts(input@),
        call_ensures(ChunkState::react, (s, input), r),
    ensures
        final(s)@ == old(s)@.react(input@).0,
        r@ == old(s)@.react(input@).1,
{
}

/// The stream after a chunk with these choices and token counts.
pub open spec fn fed(
    s: StreamView,
    choices: Seq<ChoiceView>,
    usage: Option<WireUsage>,
    elapsed_ms: u64,
) -> StreamView {
    s.react(StreamInputView::Chunk { chunk: ChunkView { choices, usage }, elapsed_ms }).0
}

/// A choice of the upstream.
pub open spec fn choice(
    content: Option<Seq<char>>,
    tool_calls: Seq<ToolChunkView>,
    finish_reason: Option<WireFinish>,
) -> ChoiceView {
    ChoiceView { content, tool_calls, finish_reason }
}

proof fn choices_atoms_split(a: Seq<ChoiceView>, b: Seq<ChoiceView>)
    ensures
        choices_atoms(a + b) == choices_atoms(a) + choices_atoms(b),
    decreases b.len(),
{
    if b.len() == 0 {
        assert(a + b =~= a);
        assert(choices_atoms(a) + choices_atoms(b) =~= choices_atoms(a));
    } else {
        choices_atoms_split(a, b.drop_last());
        assert((a + b).drop_last() =~= a + b.drop_last());
        assert(choices_atoms(a + b) =~= choices_atoms(a) + choices_atoms(b));
    }
}

proof fn last_finish_splits(before: Option<WireFinish>, a: Seq<ChoiceView>, b: Seq<ChoiceView>)
    ensures
        last_finish(before, a + b) == last_finish(last_finish(before, a), b),
    decreases b.len(),
{
    if b.len() == 0 {
        assert(a + b =~= a);
    } else {
        assert((a + b).drop_last() =~= a + b.drop_last());
        last_finish_splits(before, a, b.drop_last());
    }
}

/// It makes no difference how the upstream cuts its choices into chunks; the
/// token counts of a chunk come behind its choices.
pub proof fn chunks_can_be_cut(
    s: StreamView,
    a: Seq<ChoiceView>,
    b: Seq<ChoiceView>,
    usage: Option<WireUsage>,
    elapsed_ms: u64,
)
    ensures
        fed(s, a + b, usage, elapsed_ms) == fed(
            fed(s, a, None, elapsed_ms),
            b,
            usage,
            elapsed_ms,
        ),
        fed(s, a, usage, elapsed_ms) == fed(
            fed(s, a, None, elapsed_ms),
            Seq::empty(),
            usage,
            elapsed_ms,
        ),
{
    chunks_can_be_cut_once(s, a, b, usage, elapsed_ms);
    chunks_can_be_cut_once(s, a, Seq::empty(), usage, elapsed_ms);
    assert(a + Seq::<ChoiceView>::empty() =~= a);
}

proof fn chunks_can_be_cut_once(
    s: StreamView,
    a: Seq<ChoiceView>,
    b: Seq<ChoiceView>,
    usage: Option<WireUsage>,
    elapsed_ms: u64,
)
    ensures
        fed(s, a + b, usage, elapsed_ms) == fed(
            fed(s, a, None, elapsed_ms),
            b,
            usage,
            elapsed_ms,
        ),
{
    choices_atoms_split(a, b);
    last_finish_splits(s.finish, a, b);
    let first = chunk_atoms(ChunkView { choices: a, usage: None }, elapsed_ms);
    let second = chunk_atoms(ChunkView { choices: b, usage }, elapsed_ms);
    let whole = chunk_atoms(ChunkView { choices: a + b, usage }, elapsed_ms);
    assert(whole =~= first + second);
    crate::agent::cloud::deltas_split(s.label, s.seen, first, second);
    assert(fed(s, a + b, usage, elapsed_ms).queue =~= fed(
        fed(s, a, None, elapsed_ms),
        b,
        usage,
        elapsed_ms,
    ).queue);
}

/// The text of a choice comes before its fragments, and its fragments come one
/// after the other.
pub proof fn choices_can_be_cut(
    s: StreamView,
    content: Option<Seq<char>>,
    a: Seq<ToolChunkView>,
    b: Seq<ToolChunkView>,
    reason: Option<WireFinish>,
    elapsed_ms: u64,
)
    ensures
        fed(s, seq![choice(content, a + b, reason)], None, elapsed_ms) == fed(
            s,
            seq![choice(content, a, None), choice(None, b, reason)],
            None,
            elapsed_ms,
        ),
{
    reveal_with_fuel(choices_atoms, 3);
    reveal_with_fuel(last_finish, 3);
    let one = seq![choice(content, a + b, reason)];
    let two = seq![choice(content, a, None), choice(None, b, reason)];
    assert(one.drop_last() =~= Seq::empty());
    assert(two.drop_last() =~= seq![two[0]]);
    assert(two.drop_last().drop_last() =~= Seq::empty());
    assert(tool_atoms(a + b) =~= tool_atoms(a) + tool_atoms(b));
    assert(choices_atoms(one) =~= choices_atoms(two));
}

/// What the smallest chunks add: text that is not empty is a piece of text; the
/// first fragment for an index begins its call, and a fragment with arguments
/// adds them; token counts are told under the stream's label; a reason is
/// remembered; and a chunk without any of these adds nothing.
pub proof fn smallest_chunks_add_their_part(
    s: StreamView,
    text: Seq<char>,
    t: ToolChunkView,
    reason: Option<WireFinish>,
    u: WireUsage,
    elapsed_ms: u64,
)
    ensures
        fed(s, Seq::empty(), None, elapsed_ms) == s,
        ({
            let n = fed(s, seq![choice(Some(text), Seq::empty(), reason)], None, elapsed_ms);
            &&& n.queue == (if text.len() > 0 {
                s.queue.push(DeltaView::Content(text))
            } else {
                s.queue
            })
            &&& n.seen == s.seen
            &&& n.finish == (if reason is Some {
                reason
            } else {
                s.finish
            })
            &&& n.done_emitted == s.done_emitted
            &&& n.label == s.label
        }),
        ({
            let n = fed(s, seq![choice(None, seq![t], None)], None, elapsed_ms);
            let id = match t.id {
                Some(id) => id,
                None => Seq::empty(),
            };
            let name = match t.function {
                Some(f) => match f.name {
                    Some(name) => name,
                    None => Seq::empty(),
                },
                None => Seq::empty(),
            };
            let fragment = match t.function {
                Some(f) => match f.arguments {
                    Some(a) => a,
                    None => Seq::empty(),
                },
                None => Seq::empty(),
            };
            let begun = if s.seen.contains(t.index) {
                s.queue
            } else {
                s.queue.push(DeltaView::ToolCallStart { index: t.index, id, name })
            };
            &&& n.queue == (if fragment.len() > 0 {
                begun.push(DeltaView::ToolCallArgs { index: t.index, fragment })
            } else {
                begun
            })
            &&& n.seen == s.seen.insert(t.index)
            &&& n.finish == s.finish
        }),
        ({
            let n = fed(s, Seq::empty(), Some(u), elapsed_ms);
            &&& n.queue == s.queue.push(
                DeltaView::Stats(
                    StatsView {
                        provider: s.label,
                        prompt_tokens: Some(u.prompt_tokens),
                        cached_tokens: u.cached_tokens,
                        gen_tokens: u.completion_tokens,
                        duration_ms: elapsed_ms,
                    },
                ),
            )
            &&& n.seen == s.seen
            &&& n.finish == s.finish
        }),
{
    reveal_with_fuel(choices_atoms, 2);
    reveal_with_fuel(last_finish, 2);
    reveal_with_fuel(deltas_of, 2);
    reveal_with_fuel(seen_after, 2);
    let none = Seq::<ChoiceView>::empty();
    let nothing = chunk_atoms(ChunkView { choices: none, usage: None }, elapsed_ms);
    assert(nothing =~= Seq::empty());
    assert(fed(s, none, None, elapsed_ms).queue =~= s.queue);

    let c = seq![choice(Some(text), Seq::empty(), reason)];
    assert(c.drop_last() =~= none);
    let ca = chunk_atoms(ChunkView { choices: c, usage: None }, elapsed_ms);
    assert(ca =~= seq![Atom::Content(text)]);
    assert(ca.drop_last() =~= Seq::empty());
    let cn = fed(s, c, None, elapsed_ms);
    assert(cn.queue =~= (if text.len() > 0 {
        s.queue.push(DeltaView::Content(text))
    } else {
        s.queue
    }));

    let d = seq![choice(None, seq![t], None)];
    assert(d.drop_last() =~= none);
    let da = chunk_atoms(ChunkView { choices: d, usage: None }, elapsed_ms);
    assert(da =~= seq![Atom::Tool(t)]);
    assert(da.drop_last() =~= Seq::empty());
    let dn = fed(s, d, None, elapsed_ms);
    assert(dn.queue =~= s.queue + atom_deltas(s.label, s.seen, Atom::Tool(t)));
    let deltas = atom_deltas(s.label, s.seen, Atom::Tool(t));
    if deltas.len() == 2 {
        assert(dn.queue =~= s.queue.push(deltas[0]).push(deltas[1]));
    } else if deltas.len() == 1 {
        assert(dn.queue =~= s.queue.push(deltas[0]));
    } else {
        assert(dn.queue =~= s.queue);
    }

    let ua = chunk_atoms(ChunkView { choices: none, usage: Some(u) }, elapsed_ms);
    assert(ua =~= seq![Atom::Usage(u, elapsed_ms)]);
    assert(ua.drop_last() =~= Seq::empty());
    let un = fed(s, none, Some(u), elapsed_ms);
    assert(un.queue =~= s.queue + atom_deltas(s.label, s.seen, Atom::Usage(u, elapsed_ms)));
    assert(un.queue =~= s.queue.push(
        atom_deltas(s.label, s.seen, Atom::Usage(u, elapsed_ms))[0],
    ));
}

} // verus!
