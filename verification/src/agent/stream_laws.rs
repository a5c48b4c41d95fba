//! What holds of every delta stream, whatever the upstream sends.
use vstd::prelude::*;

use crate::agent::cloud::{
    atom_deltas, chunk_atoms, deltas_of, deltas_split, finish_of, fragment_of, name_of, or_empty,
    seen_after, Atom, StreamInputView, StreamOutputView, StreamView, ToolChunkView,
};
use crate::agent::delta::{DeltaView, FinishView};
use crate::agent::tool::CallView;
use crate::agent::turn::TurnView;

verus! {

/// The stream after a sequence of inputs.
pub open spec fn stream_after(start: StreamView, inputs: Seq<StreamInputView>) -> StreamView
    decreases inputs.len(),
{
    if inputs.len() == 0 {
        start
    } else {
        stream_after(start, inputs.drop_last()).react(inputs.last()).0
    }
}

/// What a sequence of inputs leads to.
pub open spec fn outputs(start: StreamView, inputs: Seq<StreamInputView>) -> Seq<StreamOutputView>
    decreases inputs.len(),
{
    if inputs.len() == 0 {
        Seq::empty()
    } else {
        outputs(start, inputs.drop_last()).push(
            stream_after(start, inputs.drop_last()).react(inputs.last()).1,
        )
    }
}

/// Whether each input can come when it comes.
pub open spec fn stream_admissible(start: StreamView, inputs: Seq<StreamInputView>) -> bool
    decreases inputs.len(),
{
    inputs.len() > 0 ==> stream_admissible(start, inputs.drop_last()) && stream_after(
        start,
        inputs.drop_last(),
    ).accepts(inputs.last())
}

/// A stream that has not received anything.
pub open spec fn fresh_stream(s: StreamView) -> bool {
    s.queue.len() == 0 && s.seen == Set::<u32>::empty() && !s.done_emitted && s.finish is None
}

/// The pieces of all chunks that came in.
pub open spec fn atoms_received(inputs: Seq<StreamInputView>) -> Seq<Atom>
    decreases inputs.len(),
{
    if inputs.len() == 0 {
        Seq::empty()
    } else {
        atoms_received(inputs.drop_last()) + (match inputs.last() {
            StreamInputView::Chunk { chunk, elapsed_ms } => chunk_atoms(chunk, elapsed_ms),
            _ => Seq::empty(),
        })
    }
}

/// The deltas that were emitted, without those that end the stream.
pub open spec fn payload(out: Seq<StreamOutputView>) -> Seq<DeltaView>
    decreases out.len(),
{
    if out.len() == 0 {
        Seq::empty()
    } else {
        match out.last() {
            StreamOutputView::Emit(d) if !(d is Done) => payload(out.drop_last()).push(d),
            _ => payload(out.drop_last()),
        }
    }
}

/// How often the end of the stream was emitted.
pub open spec fn dones(out: Seq<StreamOutputView>) -> nat
    decreases out.len(),
{
    if out.len() == 0 {
        0
    } else {
        dones(out.drop_last()) + (if out.last() matches StreamOutputView::Emit(d) && d is Done {
            1nat
        } else {
            0nat
        })
    }
}

/// How often the call `index` is begun.
pub open spec fn starts(deltas: Seq<DeltaView>, index: u32) -> nat
    decreases deltas.len(),
{
    if deltas.len() == 0 {
        0
    } else {
        starts(deltas.drop_last(), index) + (if deltas.last() matches DeltaView::ToolCallStart {
            index: i,
            ..
        } && i == index {
            1nat
        } else {
            0nat
        })
    }
}

/// The text that the pieces spell out.
pub open spec fn wire_content(atoms: Seq<Atom>) -> Seq<char>
    decreases atoms.len(),
{
    if atoms.len() == 0 {
        Seq::empty()
    } else {
        match atoms.last() {
            Atom::Content(s) => wire_content(atoms.drop_last()) + s,
            _ => wire_content(atoms.drop_last()),
        }
    }
}

/// The argument text that the pieces spell out for the call `index`.
pub open spec fn wire_arguments(atoms: Seq<Atom>, index: u32) -> Seq<char>
    decreases atoms.len(),
{
    if atoms.len() == 0 {
        Seq::empty()
    } else {
        match atoms.last() {
            Atom::Tool(t) if t.index == index => wire_arguments(atoms.drop_last(), index)
                + fragment_of(t),
            _ => wire_arguments(atoms.drop_last(), index),
        }
    }
}

/// The first fragment for the call `index`, where there is one.
pub open spec fn first_fragment(atoms: Seq<Atom>, index: u32) -> Option<ToolChunkView>
    decreases atoms.len(),
{
    if atoms.len() == 0 {
        None
    } else {
        match (first_fragment(atoms.drop_last(), index), atoms.last()) {
            (Some(t), _) => Some(t),
            (None, Atom::Tool(t)) if t.index == index => Some(t),
            _ => None,
        }
    }
}

proof fn no_done_inside(label: Seq<char>, seen: Set<u32>, atoms: Seq<Atom>)
    ensures
        forall|i: int|
            0 <= i < deltas_of(label, seen, atoms).len() ==> !((#[trigger] deltas_of(
                label,
                seen,
                atoms,
            )[i]) is Done),
    decreases atoms.len(),
{
    if atoms.len() > 0 {
        no_done_inside(label, seen, atoms.drop_last());
    }
}

/// Everything that the upstream sends is emitted, in its order: the deltas
/// emitted so far and those still waiting are the deltas of all pieces
/// received.
pub proof fn order_is_kept(start: StreamView, inputs: Seq<StreamInputView>)
    requires
        fresh_stream(start),
        stream_admissible(start, inputs),
    ensures
        payload(outputs(start, inputs)) + stream_after(start, inputs).queue == deltas_of(
            start.label,
            Set::empty(),
            atoms_received(inputs),
        ),
        stream_after(start, inputs).seen == seen_after(Set::empty(), atoms_received(inputs)),
        stream_after(start, inputs).label == start.label,
    decreases inputs.len(),
{
    if inputs.len() > 0 {
        let before = inputs.drop_last();
        order_is_kept(start, before);
        let s = stream_after(start, before);
        let (next, out) = s.react(inputs.last());
        let done_before = payload(outputs(start, before));
        let received = atoms_received(before);
        let produced = deltas_of(start.label, Set::empty(), received);
        assert(outputs(start, inputs).drop_last() =~= outputs(start, before));
        match inputs.last() {
            StreamInputView::Chunk { chunk, elapsed_ms } => {
                let part = chunk_atoms(chunk, elapsed_ms);
                deltas_split(start.label, Set::empty(), received, part);
                assert(done_before + (s.queue + deltas_of(s.label, s.seen, part)) =~= (done_before
                    + s.queue) + deltas_of(s.label, s.seen, part));
            },
            StreamInputView::Poll { .. } => {
                assert(atoms_received(inputs) =~= received);
                if s.queue.len() > 0 {
                    no_done_inside(start.label, Set::empty(), received);
                    assert(produced[done_before.len() as int] == s.queue[0]);
                    assert(done_before.push(s.queue[0]) + s.queue.skip(1) =~= done_before
                        + s.queue);
                }
            },
            _ => {
                assert(atoms_received(inputs) =~= received);
            },
        }
    } else {
        assert(start.queue =~= Seq::empty());
        assert(payload(outputs(start, inputs)) + start.queue =~= Seq::empty());
    }
}

/// The end of the stream is emitted at most once.
pub proof fn done_comes_at_most_once(start: StreamView, inputs: Seq<StreamInputView>)
    requires
        fresh_stream(start),
        stream_admissible(start, inputs),
    ensures
        dones(outputs(start, inputs)) == (if stream_after(start, inputs).done_emitted {
            1nat
        } else {
            0nat
        }),
    decreases inputs.len(),
{
    if inputs.len() > 0 {
        let before = inputs.drop_last();
        done_comes_at_most_once(start, before);
        order_is_kept(start, before);
        let s = stream_after(start, before);
        assert(outputs(start, inputs).drop_last() =~= outputs(start, before));
        if s.queue.len() > 0 {
            let received = atoms_received(before);
            no_done_inside(start.label, Set::empty(), received);
            assert(deltas_of(start.label, Set::empty(), received)[payload(
                outputs(start, before),
            ).len() as int] == s.queue[0]);
        }
    }
}

/// The end of the stream is emitted when nothing waits any more, so that the
/// token counts always come before it.
pub proof fn done_comes_last(start: StreamView, inputs: Seq<StreamInputView>)
    requires
        fresh_stream(start),
        stream_admissible(start, inputs),
        inputs.len() > 0,
        outputs(start, inputs).last() matches StreamOutputView::Emit(d) && d is Done,
    ensures
        payload(outputs(start, inputs)) == deltas_of(
            start.label,
            Set::empty(),
            atoms_received(inputs),
        ),
{
    let before = inputs.drop_last();
    order_is_kept(start, inputs);
    order_is_kept(start, before);
    let s = stream_after(start, before);
    if s.queue.len() > 0 {
        let received = atoms_received(before);
        no_done_inside(start.label, Set::empty(), received);
        assert(deltas_of(start.label, Set::empty(), received)[payload(
            outputs(start, before),
        ).len() as int] == s.queue[0]);
    }
    assert(stream_after(start, inputs).queue.len() == 0);
    assert(payload(outputs(start, inputs)) + stream_after(start, inputs).queue =~= payload(
        outputs(start, inputs),
    ));
}

/// An upstream that ends is answered by the end of the stream, with the reason
/// it gave or `Stop` when it gave none.
pub proof fn ended_upstream_ends_the_stream(s: StreamView)
    requires
        !s.done_emitted,
    ensures
        s.react(StreamInputView::Ended).1 == StreamOutputView::Emit(
            DeltaView::Done {
                finish_reason: match s.finish {
                    Some(r) => finish_of(r),
                    None => FinishView::Stop,
                },
            },
        ),
{
}

/// A raised cancel flag ends the stream once nothing waits any more.
pub proof fn cancelled_stream_ends(s: StreamView)
    requires
        s.queue.len() == 0,
    ensures
        s.react(StreamInputView::Poll { cancelled: true }).1 == (if s.done_emitted {
            StreamOutputView::End
        } else {
            StreamOutputView::Emit(DeltaView::Done { finish_reason: FinishView::Cancelled })
        }),
{
}

/// A call is begun exactly once, when its index is first met, so that no
/// arguments are lost to a second beginning.
pub proof fn calls_begin_once(label: Seq<char>, atoms: Seq<Atom>, index: u32)
    ensures
        starts(deltas_of(label, Set::empty(), atoms), index) == (if seen_after(
            Set::empty(),
            atoms,
        ).contains(index) {
            1nat
        } else {
            0nat
        }),
    decreases atoms.len(),
{
    if atoms.len() > 0 {
        let front = atoms.drop_last();
        calls_begin_once(label, front, index);
        let old_deltas = deltas_of(label, Set::empty(), front);
        let more = atom_deltas(label, seen_after(Set::empty(), front), atoms.last());
        starts_split(old_deltas, more, index);
        reveal_with_fuel(starts, 3);
        assert(more.len() <= 2);
        if more.len() > 0 {
            assert(more.drop_last().len() == more.len() - 1);
        }
    }
}

proof fn starts_split(a: Seq<DeltaView>, b: Seq<DeltaView>, index: u32)
    ensures
        starts(a + b, index) == starts(a, index) + starts(b, index),
    decreases b.len(),
{
    if b.len() == 0 {
        assert(a + b =~= a);
    } else {
        starts_split(a, b.drop_last(), index);
        assert((a + b).drop_last() =~= a + b.drop_last());
    }
}

/// A turn assembled from the deltas of a stream holds exactly the text that
/// the upstream sent.
pub proof fn content_arrives_whole(label: Seq<char>, atoms: Seq<Atom>)
    ensures
        TurnView::empty().absorb_all(deltas_of(label, Set::empty(), atoms)).content
            == wire_content(atoms),
    decreases atoms.len(),
{
    if atoms.len() > 0 {
        let front = atoms.drop_last();
        content_arrives_whole(label, front);
        let more = atom_deltas(label, seen_after(Set::empty(), front), atoms.last());
        absorb_split(TurnView::empty(), deltas_of(label, Set::empty(), front), more);
        absorb_few(TurnView::empty().absorb_all(deltas_of(label, Set::empty(), front)), more);
        assert(wire_content(atoms) =~= TurnView::empty().absorb_all(
            deltas_of(label, Set::empty(), atoms),
        ).content);
    }
}

/// A turn assembled from the deltas of a stream holds one call for each index
/// met. Its identifier and name come from the first fragment for the index,
/// its arguments are all fragments for the index in order, however those of
/// several calls were interleaved.
pub proof fn calls_arrive_whole(label: Seq<char>, atoms: Seq<Atom>, index: u32)
    ensures
        ({
            let calls = TurnView::empty().absorb_all(deltas_of(label, Set::empty(), atoms)).calls;
            match first_fragment(atoms, index) {
                Some(t) => calls.contains_key(index) && calls[index] == (CallView {
                    id: or_empty(t.id),
                    name: name_of(t),
                    arguments: wire_arguments(atoms, index),
                }),
                None => !calls.contains_key(index) && wire_arguments(atoms, index).len() == 0,
            }
        }),
        first_fragment(atoms, index) is Some <==> seen_after(Set::empty(), atoms).contains(index),
    decreases atoms.len(),
{
    if atoms.len() > 0 {
        let front = atoms.drop_last();
        calls_arrive_whole(label, front, index);
        let more = atom_deltas(label, seen_after(Set::empty(), front), atoms.last());
        absorb_split(TurnView::empty(), deltas_of(label, Set::empty(), front), more);
        let turn = TurnView::empty().absorb_all(deltas_of(label, Set::empty(), front));
        absorb_few(turn, more);
        if let Atom::Tool(t) = atoms.last() {
            if t.index == index {
                calls_arrive_whole(label, front, t.index);
                let after = turn.absorb_all(more);
                assert(after.calls[index].arguments =~= wire_arguments(front, index)
                    + fragment_of(t));
            }
        }
    }
}

proof fn absorb_split(t: TurnView, a: Seq<DeltaView>, b: Seq<DeltaView>)
    ensures
        t.absorb_all(a + b) == t.absorb_all(a).absorb_all(b),
    decreases b.len(),
{
    if b.len() == 0 {
        assert(a + b =~= a);
    } else {
        absorb_split(t, a, b.drop_last());
        assert((a + b).drop_last() =~= a + b.drop_last());
    }
}

proof fn absorb_few(t: TurnView, more: Seq<DeltaView>)
    requires
        more.len() <= 2,
    ensures
        more.len() == 0 ==> t.absorb_all(more) == t,
        more.len() == 1 ==> t.absorb_all(more) == t.absorb(more[0]),
        more.len() == 2 ==> t.absorb_all(more) == t.absorb(more[0]).absorb(more[1]),
{
    reveal_with_fuel(TurnView::absorb_all, 3);
    if more.len() == 2 {
        assert(more.drop_last()[0] == more[0]);
    }
}

} // verus!
