//! The state that the agent commands share.
//!
//! One run is active at a time. Questions that wait for the user are kept
//! under their identifiers. Standing grants are given and withdrawn by
//! commands of their own and live as long as the process.
use vstd::prelude::*;

use crate::order::{ascending, TextMap};
use crate::text::{copy_strings, views};

verus! {

/// The active run: its number and its cancel flag.
pub struct RunSlot<C> {
    pub run: u64,
    pub flag: C,
}

/// The shared state. `C` is a cancel flag, `S` answers a waiting question.
pub struct AgentState<C, S> {
    active: Option<RunSlot<C>>,
    next_run: u64,
    pending_confirms: TextMap<S>,
    always_grants: TextMap<()>,
}

/// Mathematical form of an [`AgentState`].
#[verifier::ext_equal]
pub struct AgentStateView<C, S> {
    /// The active run.
    pub active: Option<(nat, C)>,
    /// How many runs have begun.
    pub runs: nat,
    /// The waiting questions.
    pub pending: Map<Seq<char>, S>,
    /// The tools with a standing grant.
    pub grants: Set<Seq<char>>,
}

impl<C, S> AgentStateView<C, S> {
    /// A run has begun. The one before is cancelled by it, and its questions do
    /// not wait any more.
    pub open spec fn begin(self, flag: C) -> AgentStateView<C, S> {
        AgentStateView {
            active: Some((self.runs, flag)),
            runs: self.runs + 1,
            pending: if self.active is Some {
                Map::empty()
            } else {
                self.pending
            },
            ..self
        }
    }

    /// The run with this number has ended.
    pub open spec fn end(self, run: nat) -> AgentStateView<C, S> {
        AgentStateView {
            active: match self.active {
                Some((r, _)) if r == run => None,
                other => other,
            },
            ..self
        }
    }

    /// A tool was given a standing grant.
    pub open spec fn grant(self, tool: Seq<char>) -> AgentStateView<C, S> {
        AgentStateView { grants: self.grants.insert(tool), ..self }
    }

    /// The standing grant of a tool was withdrawn.
    pub open spec fn revoke(self, tool: Seq<char>) -> AgentStateView<C, S> {
        AgentStateView { grants: self.grants.remove(tool), ..self }
    }

    /// A question waits.
    pub open spec fn ask(self, id: Seq<char>, sender: S) -> AgentStateView<C, S> {
        AgentStateView { pending: self.pending.insert(id, sender), ..self }
    }

    /// No question waits any more.
    pub open spec fn drop_questions(self) -> AgentStateView<C, S> {
        AgentStateView { pending: Map::empty(), ..self }
    }

    /// A question does not wait any more.
    pub open spec fn drop_question(self, id: Seq<char>) -> AgentStateView<C, S> {
        AgentStateView { pending: self.pending.remove(id), ..self }
    }
}

impl<C, S> View for AgentState<C, S> {
    type V = AgentStateView<C, S>;

    closed spec fn view(&self) -> AgentStateView<C, S> {
        AgentStateView {
            active: match self.active {
                Some(slot) => Some((slot.run as nat, slot.flag)),
                None => None,
            },
            runs: self.next_run as nat,
            pending: self.pending_confirms@,
            grants: self.always_grants@.dom(),
        }
    }
}

impl<C, S> AgentState<C, S> {
    /// The tables are in order, and the active run has begun.
    pub closed spec fn wf(&self) -> bool {
        &&& self.pending_confirms.wf()
        &&& self.always_grants.wf()
        &&& self.active matches Some(slot) ==> slot.run < self.next_run
    }

    /// Nothing runs, nothing waits, nothing is granted.
    pub fn new() -> (r: AgentState<C, S>)
        ensures
            r.wf(),
            r@ == (AgentStateView::<C, S> {
                active: None,
                runs: 0,
                pending: Map::empty(),
                grants: Set::empty(),
            }),
    {
        let r = AgentState {
            active: None,
            next_run: 0,
            pending_confirms: TextMap::new(),
            always_grants: TextMap::new(),
        };
        assert(r@.grants =~= Set::empty());
        r
    }

    /// Whether there is a number left for another run.
    pub fn can_begin(&self) -> (r: bool)
        ensures
            r == (self@.runs < u64::MAX),
    {
        self.next_run < u64::MAX
    }

    /// Begins a run. Returns its number and the cancel flag of the run that was
    /// active before, which is to be raised; the questions of that run are
    /// dropped, which denies them.
    pub fn begin_run(&mut self, flag: C) -> (r: (u64, Option<C>))
        requires
            old(self).wf(),
            old(self)@.runs < u64::MAX,
        ensures
            final(self).wf(),
            r.0 == old(self)@.runs,
            final(self)@ == old(self)@.begin(flag),
            match old(self)@.active {
                Some((_, c)) => r.1 == Some(c),
                None => r.1 is None,
            },
    {
        let run: u64 = self.next_run;
        self.next_run = run + 1;
        let before = self.active.take();
        self.active = Some(RunSlot { run, flag });
        let previous = match before {
            Some(slot) => {
                self.pending_confirms = TextMap::new();
                Some(slot.flag)
            },
            None => None,
        };
        (run, previous)
    }

    /// Ends a run. The slot is cleared only while it is that run's own: a later
    /// run may have taken it.
    pub fn end_run(&mut self, run: u64)
        requires
            old(self).wf(),
        ensures
            final(self).wf(),
            final(self)@ == old(self)@.end(run as nat),
    {
        let ours: bool = match &self.active {
            Some(slot) => slot.run == run,
            None => false,
        };
        if ours {
            self.active = None;
        }
    }

    /// The cancel flag of the active run, to be raised when the user cancels.
    pub fn active_flag(&self) -> (r: Option<&C>)
        ensures
            match self@.active {
                Some((_, c)) => r == Some(&c),
                None => r is None,
            },
    {
        match &self.active {
            Some(slot) => Some(&slot.flag),
            None => None,
        }
    }

    /// Cancels the active run: drops every waiting question, which denies it,
    /// and gives the cancel flag that is to be raised.
    pub fn cancel(&mut self) -> (r: Option<&C>)
        requires
            old(self).wf(),
        ensures
            final(self).wf(),
            final(self)@ == old(self)@.drop_questions(),
            match old(self)@.active {
                Some((_, c)) => r == Some(&c),
                None => r is None,
            },
    {
        self.pending_confirms = TextMap::new();
        match &self.active {
            Some(slot) => Some(&slot.flag),
            None => None,
        }
    }

    /// Shuts down: whatever runs is cancelled, and whatever waits is denied.
    pub fn shutdown(&mut self) -> (r: Option<&C>)
        requires
            old(self).wf(),
        ensures
            final(self).wf(),
            final(self)@ == old(self)@.drop_questions(),
            match old(self)@.active {
                Some((_, c)) => r == Some(&c),
                None => r is None,
            },
    {
        self.cancel()
    }

    /// Gives a tool a standing grant.
    pub fn grant_always(&mut self, tool: &str)
        requires
            old(self).wf(),
        ensures
            final(self).wf(),
            final(self)@ == old(self)@.grant(tool@),
    {
        self.always_grants.insert(tool, ());
        assert(self@.grants =~= old(self)@.grants.insert(tool@));
    }

    /// Withdraws a standing grant.
    pub fn revoke_always(&mut self, tool: &str)
        requires
            old(self).wf(),
        ensures
            final(self).wf(),
            final(self)@ == old(self)@.revoke(tool@),
    {
        let _ = self.always_grants.remove(tool);
        assert(self@.grants =~= old(self)@.grants.remove(tool@));
    }

    /// Whether a tool has a standing grant.
    pub fn has_always_grant(&self, tool: &str) -> (r: bool)
        requires
            self.wf(),
        ensures
            r == self@.grants.contains(tool@),
    {
        self.always_grants.contains(tool)
    }

    /// The tools with a standing grant, in ascending order.
    pub fn always_grants(&self) -> (r: Vec<String>)
        requires
            self.wf(),
        ensures
            ascending(views(r@)),
            views(r@).to_set() == self@.grants,
    {
        let r = copy_strings(self.always_grants.keys());
        assert(views(r@).to_set() =~= self@.grants) by {
            assert forall|k: Seq<char>| views(r@).to_set().contains(k) <==> self@.grants.contains(
                k,
            ) by {
                assert(views(r@).contains(k) <==> self.always_grants@.contains_key(k));
            }
        }
        r
    }

    /// Keeps a question until it is answered.
    pub fn register_pending_confirm(&mut self, id: &str, sender: S)
        requires
            old(self).wf(),
        ensures
            final(self).wf(),
            final(self)@ == old(self)@.ask(id@, sender),
    {
        self.pending_confirms.insert(id, sender);
    }

    /// Drops a question without answering it.
    pub fn cancel_pending_confirm(&mut self, id: &str)
        requires
            old(self).wf(),
        ensures
            final(self).wf(),
            final(self)@ == old(self)@.drop_question(id@),
    {
        let _ = self.pending_confirms.remove(id);
    }

    /// Takes a question out, to be answered. An unknown identifier is of no
    /// consequence.
    pub fn take_pending_confirm(&mut self, id: &str) -> (r: Option<S>)
        requires
            old(self).wf(),
        ensures
            final(self).wf(),
            final(self)@ == old(self)@.drop_question(id@),
            match r {
                Some(s) => old(self)@.pending.contains_key(id@) && old(self)@.pending[id@] == s,
                None => !old(self)@.pending.contains_key(id@),
            },
    {
        self.pending_confirms.remove(id)
    }
}

/// A run that ends late leaves the run that took its place active; a run that
/// ends while it is active leaves none.
pub proof fn late_end_leaves_the_new_run<C, S>(state: AgentStateView<C, S>, flag: C, run: nat)
    ensures
        run < state.runs ==> state.begin(flag).end(run) == state.begin(flag),
        state.begin(flag).end(state.runs).active is None,
{
}

/// A run that takes the place of another leaves none of its questions waiting,
/// as cancelling it would.
pub proof fn replaced_runs_leave_no_questions<C, S>(
    state: AgentStateView<C, S>,
    first: C,
    id: Seq<char>,
    sender: S,
    second: C,
)
    ensures
        state.begin(first).ask(id, sender).begin(second).pending == Map::<Seq<char>, S>::empty(),
        state.begin(first).ask(id, sender).begin(second).pending == state.begin(first).ask(
            id,
            sender,
        ).drop_questions().pending,
{
}

/// A grant holds for its own tool alone, touches nothing else, and withdrawing
/// it restores what was there before.
pub proof fn grants_are_per_tool<C, S>(
    state: AgentStateView<C, S>,
    tool: Seq<char>,
    other: Seq<char>,
)
    requires
        tool != other,
        !state.grants.contains(tool),
    ensures
        state.grant(tool).grants.contains(tool),
        state.grant(tool).grants.contains(other) == state.grants.contains(other),
        state.grant(tool).revoke(tool) == state,
        !state.revoke(tool).grants.contains(tool),
{
    assert(state.grants.insert(tool).remove(tool) =~= state.grants);
}

/// A standing grant outlasts the runs and the questions around it: only
/// withdrawing it takes it away.
pub proof fn grants_outlast_runs<C, S>(
    state: AgentStateView<C, S>,
    flag: C,
    run: nat,
    id: Seq<char>,
    sender: S,
)
    ensures
        state.begin(flag).grants == state.grants,
        state.end(run).grants == state.grants,
        state.ask(id, sender).grants == state.grants,
        state.drop_question(id).grants == state.grants,
        state.drop_questions().grants == state.grants,
{
}

/// A question that was put can be answered, once, and answering it leaves the
/// others waiting.
pub proof fn questions_are_answered_once<C, S>(
    state: AgentStateView<C, S>,
    id: Seq<char>,
    sender: S,
    other: Seq<char>,
)
    requires
        id != other,
    ensures
        state.ask(id, sender).pending.contains_key(id),
        state.ask(id, sender).pending[id] == sender,
        !state.ask(id, sender).drop_question(id).pending.contains_key(id),
        state.ask(id, sender).drop_question(id).pending.contains_key(other)
            == state.pending.contains_key(other),
        state.pending.contains_key(other) ==> state.ask(id, sender).drop_question(
            id,
        ).pending[other] == state.pending[other],
{
}

} // verus!
