//! Assembly of one assistant turn from its deltas.
use vstd::prelude::*;

use crate::agent::delta::{AgentDelta, DeltaView, FinishReason, FinishView};
use crate::agent::tool::{CallView, ToolCall};
use crate::text::{views, views_push};

verus! {

/// A call under construction and the index that the provider gave it.
pub struct IndexedCall {
    pub index: u32,
    pub call: ToolCall,
}

/// The calls of a turn, keyed by index and held in ascending order of it.
pub struct CallTable {
    entries: Vec<IndexedCall>,
}

/// The map that a list of indexed calls stands for; a later entry replaces an
/// earlier one.
pub open spec fn table_map(s: Seq<IndexedCall>) -> Map<u32, CallView>
    decreases s.len(),
{
    if s.len() == 0 {
        Map::empty()
    } else {
        table_map(s.drop_last()).insert(s.last().index, s.last().call@)
    }
}

spec fn ascending(s: Seq<IndexedCall>) -> bool {
    forall|i: int, j: int| 0 <= i < j < s.len() ==> (#[trigger] s[i]).index < (#[trigger] s[j]).index
}

/// The calls of `m` with an index below `n`, in ascending order of index.
pub open spec fn calls_below(m: Map<u32, CallView>, n: nat) -> Seq<CallView>
    decreases n,
{
    if n == 0 {
        Seq::empty()
    } else {
        let rest = calls_below(m, (n - 1) as nat);
        let k = (n - 1) as u32;
        if m.contains_key(k) {
            rest.push(m[k])
        } else {
            rest
        }
    }
}

/// All calls of `m` in ascending order of index.
pub open spec fn calls_in_order(m: Map<u32, CallView>) -> Seq<CallView> {
    calls_below(m, 0x1_0000_0000)
}

proof fn table_map_entries(s: Seq<IndexedCall>)
    requires
        ascending(s),
    ensures
        forall|i: int|
            0 <= i < s.len() ==> table_map(s).contains_key((#[trigger] s[i]).index)
                && table_map(s)[s[i].index] == s[i].call@,
        forall|k: u32| #[trigger]
            table_map(s).contains_key(k) ==> exists|i: int|
                0 <= i < s.len() && (#[trigger] s[i]).index == k,
    decreases s.len(),
{
    if s.len() > 0 {
        let front = s.drop_last();
        assert(ascending(front));
        table_map_entries(front);
        assert forall|i: int| 0 <= i < s.len() implies table_map(s).contains_key(
            (#[trigger] s[i]).index,
        ) && table_map(s)[s[i].index] == s[i].call@ by {
            if i < s.len() - 1 {
                assert(front[i] == s[i]);
                assert(s[i].index < s[s.len() - 1].index);
            }
        }
        assert forall|k: u32| #[trigger] table_map(s).contains_key(k) implies exists|i: int|
            0 <= i < s.len() && (#[trigger] s[i]).index == k by {
            if k == s.last().index {
                assert(s[s.len() - 1].index == k);
            } else {
                assert(table_map(front).contains_key(k));
                let i = choose|i: int| 0 <= i < front.len() && (#[trigger] front[i]).index == k;
                assert(s[i].index == k);
            }
        }
    }
}

/// The views of the calls alone.
spec fn call_views(s: Seq<IndexedCall>) -> Seq<CallView> {
    s.map_values(|e: IndexedCall| e.call@)
}

proof fn calls_below_is_a_prefix(s: Seq<IndexedCall>, k: int, n: nat)
    requires
        ascending(s),
        n <= 0x1_0000_0000,
        0 <= k <= s.len(),
        forall|i: int| 0 <= i < k ==> (#[trigger] s[i]).index < n,
        forall|i: int| k <= i < s.len() ==> (#[trigger] s[i]).index >= n,
    ensures
        calls_below(table_map(s), n) == call_views(s.take(k)),
    decreases n,
{
    table_map_entries(s);
    if n == 0 {
        if k > 0 {
            assert(s[0].index < n);
        }
        assert(call_views(s.take(k)) =~= Seq::empty());
    } else {
        let key = (n - 1) as u32;
        if k > 0 && s[k - 1].index == key {
            assert forall|i: int| 0 <= i < k - 1 implies (#[trigger] s[i]).index < n - 1 by {
                assert(s[i].index < s[k - 1].index);
            }
            calls_below_is_a_prefix(s, k - 1, (n - 1) as nat);
            assert(call_views(s.take(k)) =~= call_views(s.take(k - 1)).push(s[k - 1].call@));
        } else {
            assert forall|i: int| 0 <= i < k implies (#[trigger] s[i]).index < n - 1 by {
                if s[i].index == key {
                    assert(i < k - 1);
                    assert(s[i].index < s[k - 1].index);
                }
            }
            calls_below_is_a_prefix(s, k, (n - 1) as nat);
            if table_map(s).contains_key(key) {
                let i = choose|i: int| 0 <= i < s.len() && (#[trigger] s[i]).index == key;
                assert(i < k);
            }
        }
    }
}

impl View for CallTable {
    type V = Map<u32, CallView>;

    closed spec fn view(&self) -> Map<u32, CallView> {
        table_map(self.entries@)
    }
}

impl CallTable {
    /// The entries stand in ascending order of index.
    pub closed spec fn wf(&self) -> bool {
        ascending(self.entries@)
    }

    /// A table without calls.
    pub fn new() -> (r: CallTable)
        ensures
            r.wf(),
            r@ == Map::<u32, CallView>::empty(),
    {
        CallTable { entries: Vec::new() }
    }

    /// The first position whose index is not below `index`.
    fn position(&self, index: u32) -> (r: usize)
        requires
            self.wf(),
        ensures
            r <= self.entries@.len(),
            forall|i: int| 0 <= i < r ==> (#[trigger] self.entries@[i]).index < index,
            forall|i: int|
                r <= i < self.entries@.len() ==> (#[trigger] self.entries@[i]).index >= index,
    {
        let mut i: usize = 0;
        while i < self.entries.len() && self.entries[i].index < index
            invariant
                i <= self.entries@.len(),
                forall|j: int| 0 <= j < i ==> (#[trigger] self.entries@[j]).index < index,
            decreases self.entries@.len() - i,
        {
            i = i + 1;
        }
        i
    }

    /// Begins the call `index` afresh, with no arguments yet.
    pub fn start(&mut self, index: u32, id: String, name: String)
        requires
            old(self).wf(),
        ensures
            final(self).wf(),
            final(self)@ == old(self)@.insert(
                index,
                CallView { id: id@, name: name@, arguments: Seq::empty() },
            ),
    {
        let at: usize = self.position(index);
        let ghost before = self.entries@;
        let entry = IndexedCall { index, call: ToolCall { id, name, arguments: String::new() } };
        let ghost view = entry.call@;
        if at < self.entries.len() && self.entries[at].index == index {
            self.entries.set(at, entry);
            proof {
                assert(ascending(self.entries@));
                table_map_entries(before);
                table_map_entries(self.entries@);
                same_map(before, self.entries@, index, view, at as int, at + 1);
            }
        } else {
            self.entries.insert(at, entry);
            proof {
                assert(ascending(self.entries@));
                table_map_entries(before);
                table_map_entries(self.entries@);
                same_map(before, self.entries@, index, view, at as int, at as int);
            }
        }
    }

    /// Appends to the arguments of the call `index`; a fragment for a call
    /// that was never begun is dropped.
    pub fn extend(&mut self, index: u32, fragment: &str)
        requires
            old(self).wf(),
        ensures
            final(self).wf(),
            final(self)@ == (if old(self)@.contains_key(index) {
                let call = old(self)@[index];
                old(self)@.insert(
                    index,
                    CallView { arguments: call.arguments + fragment@, ..call },
                )
            } else {
                old(self)@
            }),
    {
        let at: usize = self.position(index);
        let ghost before = self.entries@;
        proof {
            table_map_entries(before);
        }
        if at < self.entries.len() && self.entries[at].index == index {
            let mut arguments = self.entries[at].call.arguments.clone();
            arguments.append(fragment);
            let call = ToolCall {
                id: self.entries[at].call.id.clone(),
                name: self.entries[at].call.name.clone(),
                arguments,
            };
            let ghost view = call@;
            self.entries.set(at, IndexedCall { index, call });
            proof {
                assert(ascending(self.entries@));
                table_map_entries(self.entries@);
                same_map(before, self.entries@, index, view, at as int, at + 1);
            }
        } else {
            assert(!table_map(before).contains_key(index));
        }
    }

    /// The calls in ascending order of index.
    pub fn into_calls(self) -> (r: Vec<ToolCall>)
        requires
            self.wf(),
        ensures
            views(r@) == calls_in_order(self@),
    {
        let mut out: Vec<ToolCall> = Vec::new();
        let mut i: usize = 0;
        while i < self.entries.len()
            invariant
                i <= self.entries@.len(),
                views(out@) == call_views(self.entries@.take(i as int)),
            decreases self.entries@.len() - i,
        {
            out.push(self.entries[i].call.clone());
            proof {
                views_push(out@.drop_last(), out@.last());
            }
            assert(out@.drop_last().push(out@.last()) =~= out@);
            assert(call_views(self.entries@.take(i + 1)) =~= call_views(
                self.entries@.take(i as int),
            ).push(self.entries@[i as int].call@));
            i = i + 1;
        }
        proof {
            calls_below_is_a_prefix(self.entries@, self.entries@.len() as int, 0x1_0000_0000);
        }
        out
    }
}

/// Replacing `before[lo..hi]` by one entry for `index` inserts it into the map.
proof fn same_map(
    before: Seq<IndexedCall>,
    after: Seq<IndexedCall>,
    index: u32,
    view: CallView,
    lo: int,
    hi: int,
)
    requires
        ascending(before),
        ascending(after),
        0 <= lo <= hi <= before.len(),
        after.len() == before.len() - (hi - lo) + 1,
        after[lo].index == index,
        after[lo].call@ == view,
        forall|i: int| 0 <= i < lo ==> after[i] == #[trigger] before[i],
        forall|i: int| hi <= i < before.len() ==> after[i - hi + lo + 1] == #[trigger] before[i],
        forall|i: int| lo <= i < hi ==> (#[trigger] before[i]).index == index,
    ensures
        table_map(after) == table_map(before).insert(index, view),
{
    table_map_entries(before);
    table_map_entries(after);
    let m = table_map(before).insert(index, view);
    assert forall|k: u32| #[trigger] table_map(after).contains_key(k) <==> m.contains_key(k) by {
        if table_map(after).contains_key(k) && k != index {
            let i = choose|i: int| 0 <= i < after.len() && (#[trigger] after[i]).index == k;
            if i < lo {
                assert(after[i] == before[i]);
            } else {
                assert(i > lo);
                let j = i - lo - 1 + hi;
                assert(after[i] == before[j]);
            }
        }
        if table_map(before).contains_key(k) {
            let i = choose|i: int| 0 <= i < before.len() && (#[trigger] before[i]).index == k;
            if i < lo {
                assert(after[i] == before[i]);
            } else if i >= hi {
                assert(after[i - hi + lo + 1] == before[i]);
            }
        }
    }
    assert forall|k: u32| #[trigger] table_map(after).contains_key(k) implies table_map(after)[k]
        == m[k] by {
        let i = choose|i: int| 0 <= i < after.len() && (#[trigger] after[i]).index == k;
        if i < lo {
            assert(after[i] == before[i]);
            assert(after[i].index < after[lo].index);
        } else if i > lo {
            assert(after[lo].index < after[i].index);
            let j = i - lo - 1 + hi;
            assert(after[i] == before[j]);
        }
    }
    assert(table_map(after) =~= m);
}

/// What has been received of a turn so far.
pub struct TurnAccumulator {
    pub content: String,
    pub thinking: String,
    pub calls: CallTable,
    pub finish_reason: FinishReason,
}

/// Mathematical form of a [`TurnAccumulator`].
pub struct TurnView {
    pub content: Seq<char>,
    pub thinking: Seq<char>,
    pub calls: Map<u32, CallView>,
    pub finish_reason: FinishView,
}

impl TurnView {
    /// Nothing received yet. A stream that never says why it ended stopped.
    pub open spec fn empty() -> TurnView {
        TurnView {
            content: Seq::empty(),
            thinking: Seq::empty(),
            calls: Map::empty(),
            finish_reason: FinishView::Stop,
        }
    }

    /// The turn after one more delta.
    pub open spec fn absorb(self, d: DeltaView) -> TurnView {
        match d {
            DeltaView::Content(s) => TurnView { content: self.content + s, ..self },
            DeltaView::Thinking(s) => TurnView { thinking: self.thinking + s, ..self },
            DeltaView::ToolCallStart { index, id, name } => TurnView {
                calls: self.calls.insert(
                    index,
                    CallView { id, name, arguments: Seq::empty() },
                ),
                ..self
            },
            DeltaView::ToolCallArgs { index, fragment } => if self.calls.contains_key(index) {
                let call = self.calls[index];
                TurnView {
                    calls: self.calls.insert(
                        index,
                        CallView { arguments: call.arguments + fragment, ..call },
                    ),
                    ..self
                }
            } else {
                self
            },
            DeltaView::ToolCallEnd { .. } => self,
            DeltaView::Stats(_) => self,
            DeltaView::Done { finish_reason } => TurnView { finish_reason, ..self },
        }
    }

    /// The turn after a whole sequence of deltas.
    pub open spec fn absorb_all(self, ds: Seq<DeltaView>) -> TurnView
        decreases ds.len(),
    {
        if ds.len() == 0 {
            self
        } else {
            self.absorb_all(ds.drop_last()).absorb(ds.last())
        }
    }
}

impl View for TurnAccumulator {
    type V = TurnView;

    open spec fn view(&self) -> TurnView {
        TurnView {
            content: self.content@,
            thinking: self.thinking@,
            calls: self.calls@,
            finish_reason: self.finish_reason@,
        }
    }
}

impl TurnAccumulator {
    pub open spec fn wf(&self) -> bool {
        self.calls.wf()
    }

    /// An accumulator that has received nothing.
    pub fn new() -> (r: TurnAccumulator)
        ensures
            r.wf(),
            r@ == TurnView::empty(),
    {
        TurnAccumulator {
            content: String::new(),
            thinking: String::new(),
            calls: CallTable::new(),
            finish_reason: FinishReason::Stop,
        }
    }

    /// Takes in one delta.
    pub fn absorb(&mut self, d: &AgentDelta)
        requires
            old(self).wf(),
        ensures
            final(self).wf(),
            final(self)@ == old(self)@.absorb(d@),
    {
        match d {
            AgentDelta::Content(s) => self.content.append(s.as_str()),
            AgentDelta::Thinking(s) => self.thinking.append(s.as_str()),
            AgentDelta::ToolCallStart { index, id, name } => {
                self.calls.start(*index, id.clone(), name.clone())
            },
            AgentDelta::ToolCallArgs { index, fragment } => {
                self.calls.extend(*index, fragment.as_str())
            },
            AgentDelta::ToolCallEnd { .. } => {},
            AgentDelta::Stats(_) => {},
            AgentDelta::Done { finish_reason } => {
                self.finish_reason = finish_reason.clone();
            },
        }
    }
}

} // verus!
