//! What holds of every tree that is shown and of every search in it.
use vstd::prelude::*;

use crate::order::{precedes, precedes_is_total, precedes_is_transitive};
use crate::order_laws::{order_is_by_the_first_difference, smaller_at_first_difference};
use crate::text::{begins_with, lowercase, push_contains};
use crate::vault::tree::{
    collected, contribution, entries_view, finding, found_from, is_hidden, is_note, name_of,
    note_name, placed, read_tree, shown_before, sorted_entries, stem, tree_of, vault_list_tree, Contribution,
    EntryView, Finding, RawEntry, VaultEntry,
};

verus! {

/// Whether no entry stands behind one that it is shown before.
pub open spec fn in_order(s: Seq<EntryView>) -> bool {
    forall|i: int, j: int| 0 <= i < j < s.len() ==> !shown_before(#[trigger] s[j], #[trigger] s[i])
}

proof fn shown_before_is_an_order(a: EntryView, b: EntryView, c: EntryView)
    ensures
        !(shown_before(a, b) && shown_before(b, a)),
        !shown_before(b, a) && shown_before(b, c) ==> shown_before(a, c) || !shown_before(c, a),
        !shown_before(a, b) && !shown_before(b, c) ==> !shown_before(a, c),
{
    let x = lowercase(name_of(a));
    let y = lowercase(name_of(b));
    let z = lowercase(name_of(c));
    precedes_is_total(x, y);
    precedes_is_total(y, z);
    precedes_is_total(x, z);
    if precedes(x, z) && precedes(z, y) {
        precedes_is_transitive(x, z, y);
    }
    if precedes(y, x) && precedes(x, z) {
        precedes_is_transitive(y, x, z);
    }
    if precedes(z, x) && precedes(x, y) {
        precedes_is_transitive(z, x, y);
    }
    if precedes(y, z) && precedes(z, x) {
        precedes_is_transitive(y, z, x);
    }
}

proof fn placing_keeps_order(s: Seq<EntryView>, e: EntryView)
    requires
        in_order(s),
    ensures
        in_order(placed(s, e)),
        placed(s, e).to_multiset() == s.to_multiset().insert(e),
        placed(s, e).len() == s.len() + 1,
    decreases s.len(),
{
    if s.len() > 0 && shown_before(e, s.last()) {
        let front = s.drop_last();
        assert(in_order(front)) by {
            assert forall|i: int, j: int| 0 <= i < j < front.len() implies !shown_before(
                #[trigger] front[j],
                #[trigger] front[i],
            ) by {
                assert(!shown_before(s[j], s[i]));
            }
        }
        placing_keeps_order(front, e);
        let p = placed(front, e);
        let q = p.push(s.last());
        assert forall|i: int, j: int| 0 <= i < j < q.len() implies !shown_before(
            #[trigger] q[j],
            #[trigger] q[i],
        ) by {
            if j < p.len() {
                assert(!shown_before(p[j], p[i]));
            } else {
                members_of_placed(front, e, p[i]);
                if p[i] == e {
                    shown_before_is_an_order(e, s.last(), e);
                } else {
                    let k = choose|k: int| 0 <= k < front.len() && front[k] == p[i];
                    assert(!shown_before(s[s.len() - 1], s[k]));
                }
            }
        }
        broadcast use vstd::seq_lib::group_to_multiset_ensures;

        assert(s =~= front.push(s.last()));
        assert(q.to_multiset() =~= s.to_multiset().insert(e));
    } else {
        broadcast use vstd::seq_lib::group_to_multiset_ensures;

        let q = s.push(e);
        assert forall|i: int, j: int| 0 <= i < j < q.len() implies !shown_before(
            #[trigger] q[j],
            #[trigger] q[i],
        ) by {
            if j < s.len() {
                assert(!shown_before(s[j], s[i]));
            } else if i < s.len() - 1 {
                assert(!shown_before(s[s.len() - 1], s[i]));
                shown_before_is_an_order(e, s.last(), s[i]);
            }
        }
    }
}

proof fn members_of_placed(s: Seq<EntryView>, e: EntryView, x: EntryView)
    ensures
        placed(s, e).contains(x) <==> s.contains(x) || x == e,
    decreases s.len(),
{
    if s.len() > 0 && shown_before(e, s.last()) {
        let front = s.drop_last();
        members_of_placed(front, e, x);
        assert(s =~= front.push(s.last()));
        push_contains(front, s.last(), x);
        push_contains(placed(front, e), s.last(), x);
    } else {
        push_contains(s, e, x);
    }
}

/// Entries are shown in order, and nothing is lost or added by ordering them.
pub proof fn entries_are_shown_in_order(s: Seq<EntryView>)
    ensures
        in_order(sorted_entries(s)),
        sorted_entries(s).to_multiset() == s.to_multiset(),
    decreases s.len(),
{
    if s.len() > 0 {
        entries_are_shown_in_order(s.drop_last());
        placing_keeps_order(sorted_entries(s.drop_last()), s.last());
        broadcast use vstd::seq_lib::group_to_multiset_ensures;

        assert(s =~= s.drop_last().push(s.last()));
    } else {
        assert(s =~= Seq::empty());
    }
}

/// Whether two entries are on a par: neither is shown before the other.
pub open spec fn on_a_par(a: EntryView, b: EntryView) -> bool {
    !shown_before(a, b) && !shown_before(b, a)
}

proof fn filter_pushed(s: Seq<EntryView>, e: EntryView, keep: spec_fn(EntryView) -> bool)
    ensures
        s.push(e).filter(keep) == (if keep(e) {
            s.filter(keep).push(e)
        } else {
            s.filter(keep)
        }),
{
    reveal(Seq::filter);
    assert(s.push(e).drop_last() =~= s);
}

proof fn placing_keeps_ties(s: Seq<EntryView>, e: EntryView, like: EntryView)
    ensures
        placed(s, e).filter(|x: EntryView| on_a_par(x, like)) == s.push(e).filter(
            |x: EntryView| on_a_par(x, like),
        ),
    decreases s.len(),
{
    let keep = |x: EntryView| on_a_par(x, like);
    if s.len() > 0 && shown_before(e, s.last()) {
        let front = s.drop_last();
        placing_keeps_ties(front, e, like);
        assert(s =~= front.push(s.last()));
        filter_pushed(placed(front, e), s.last(), keep);
        filter_pushed(front, e, keep);
        filter_pushed(front, s.last(), keep);
        filter_pushed(s, e, keep);
        if keep(e) && keep(s.last()) {
            shown_before_is_an_order(e, like, s.last());
        }
    }
}

/// Entries that are on a par stay in the order in which they came.
pub proof fn ties_keep_their_order(s: Seq<EntryView>, like: EntryView)
    ensures
        sorted_entries(s).filter(|x: EntryView| on_a_par(x, like)) == s.filter(
            |x: EntryView| on_a_par(x, like),
        ),
    decreases s.len(),
{
    let keep = |x: EntryView| on_a_par(x, like);
    if s.len() > 0 {
        let front = s.drop_last();
        ties_keep_their_order(front, like);
        placing_keeps_ties(sorted_entries(front), s.last(), like);
        filter_pushed(sorted_entries(front), s.last(), keep);
        filter_pushed(front, s.last(), keep);
        assert(s =~= front.push(s.last()));
    } else {
        assert(sorted_entries(s) =~= s);
    }
}

proof fn members_of_sorted(s: Seq<EntryView>, x: EntryView)
    ensures
        sorted_entries(s).contains(x) <==> s.contains(x),
    decreases s.len(),
{
    if s.len() > 0 {
        members_of_sorted(s.drop_last(), x);
        members_of_placed(sorted_entries(s.drop_last()), s.last(), x);
        push_contains(s.drop_last(), s.last(), x);
        assert(s =~= s.drop_last().push(s.last()));
    }
}

/// Whether an entry may be shown: its name is not hidden, a file is a note,
/// and a directory holds only such entries, in order.
pub open spec fn presentable(e: EntryView) -> bool
    decreases e,
{
    &&& !begins_with(name_of(e), '.')
    &&& match e {
        EntryView::File { name, .. } => note_name(name),
        EntryView::Dir { children, .. } => in_order(children) && forall|i: int|
            0 <= i < children.len() ==> presentable(#[trigger] children[i]),
    }
}

proof fn contributions_are_presentable(e: RawEntry)
    ensures
        contribution(e) matches Contribution::Entry(v) ==> presentable(v),
    decreases e, 0nat,
{
    if let RawEntry::Dir { name, path, children } = e {
        if !begins_with(e.name_view(), '.') {
            collections_are_presentable(children@, children@.len());
            if let Ok(list) = collected(children@, children@.len()) {
                entries_are_shown_in_order(list);
                let t = sorted_entries(list);
                assert forall|i: int| 0 <= i < t.len() implies presentable(#[trigger] t[i]) by {
                    assert(t.contains(t[i]));
                    members_of_sorted(list, t[i]);
                    let k = choose|k: int| 0 <= k < list.len() && list[k] == t[i];
                    assert(presentable(list[k]));
                }
            }
        }
    }
}

proof fn collections_are_presentable(raw: Seq<RawEntry>, n: nat)
    ensures
        collected(raw, n) matches Ok(list) ==> forall|i: int|
            0 <= i < list.len() ==> presentable(#[trigger] list[i]),
    decreases raw, n,
{
    if n > 0 && n <= raw.len() {
        collections_are_presentable(raw, (n - 1) as nat);
        contributions_are_presentable(raw[n - 1]);
    }
}

/// A tree shows notes and directories only, nothing hidden, and at every level
/// in order.
pub proof fn trees_are_presentable(raw: Seq<RawEntry>)
    ensures
        tree_of(raw) matches Ok(t) ==> in_order(t) && forall|i: int|
            0 <= i < t.len() ==> presentable(#[trigger] t[i]),
{
    collections_are_presentable(raw, raw.len());
    if let Ok(list) = collected(raw, raw.len()) {
        entries_are_shown_in_order(list);
        let t = sorted_entries(list);
        assert forall|i: int| 0 <= i < t.len() implies presentable(#[trigger] t[i]) by {
            assert(t.contains(t[i]));
            members_of_sorted(list, t[i]);
            let k = choose|k: int| 0 <= k < list.len() && list[k] == t[i];
            assert(presentable(list[k]));
        }
    }
}

/// Whether an entry is, or holds at any depth, the note `path` with this stem.
pub open spec fn holds_note(e: EntryView, stem_lower: Seq<char>, path: Seq<char>) -> bool
    decreases e,
{
    match e {
        EntryView::File { name, path: p } => p == path && lowercase(stem(name)) == stem_lower,
        EntryView::Dir { children, .. } => exists|i: int|
            0 <= i < children.len() && holds_note(#[trigger] children[i], stem_lower, path),
    }
}

/// Whether a list of entries holds the note `path` with this stem.
pub open spec fn list_holds(s: Seq<EntryView>, stem_lower: Seq<char>, path: Seq<char>) -> bool {
    exists|i: int| 0 <= i < s.len() && holds_note(#[trigger] s[i], stem_lower, path)
}

proof fn list_holds_sorted(s: Seq<EntryView>, stem_lower: Seq<char>, path: Seq<char>)
    ensures
        list_holds(sorted_entries(s), stem_lower, path) == list_holds(s, stem_lower, path),
{
    let t = sorted_entries(s);
    if list_holds(t, stem_lower, path) {
        let i = choose|i: int| 0 <= i < t.len() && holds_note(#[trigger] t[i], stem_lower, path);
        assert(t.contains(t[i]));
        members_of_sorted(s, t[i]);
        let k = choose|k: int| 0 <= k < s.len() && s[k] == t[i];
        assert(holds_note(s[k], stem_lower, path));
    }
    if list_holds(s, stem_lower, path) {
        let i = choose|i: int| 0 <= i < s.len() && holds_note(#[trigger] s[i], stem_lower, path);
        assert(s.contains(s[i]));
        members_of_sorted(s, s[i]);
        let k = choose|k: int| 0 <= k < t.len() && t[k] == s[i];
        assert(holds_note(t[k], stem_lower, path));
    }
}

proof fn directory_holds(v: EntryView, stem_lower: Seq<char>, path: Seq<char>)
    requires
        v is Dir,
    ensures
        holds_note(v, stem_lower, path) == list_holds(v->children, stem_lower, path),
{
    let children = v->children;
    if holds_note(v, stem_lower, path) {
        let i = choose|i: int|
            0 <= i < children.len() && holds_note(#[trigger] children[i], stem_lower, path);
        assert(holds_note(children[i], stem_lower, path));
    }
    if list_holds(children, stem_lower, path) {
        let i = choose|i: int|
            0 <= i < children.len() && holds_note(#[trigger] children[i], stem_lower, path);
        assert(holds_note(children[i], stem_lower, path));
        assert(holds_note(v, stem_lower, path));
    }
}

proof fn finding_agrees(e: RawEntry, stem_lower: Seq<char>, path: Seq<char>)
    ensures
        match (contribution(e), finding(e, stem_lower)) {
            (Contribution::Failure(_), _) => true,
            (Contribution::Nothing, f) => f is Nothing,
            (Contribution::Entry(v), Finding::Nothing) => !holds_note(v, stem_lower, path),
            (Contribution::Entry(v), Finding::Note(p)) => holds_note(v, stem_lower, p),
            (Contribution::Entry(_), Finding::GiveUp) => false,
        },
    decreases e, 0nat,
{
    if let RawEntry::Dir { name, path: dir, children } = e {
        if !begins_with(e.name_view(), '.') {
            if let Ok(list) = collected(children@, children@.len()) {
                search_agrees(children@, stem_lower, path, children@.len());
                assert(children@.skip(0) =~= children@);
                list_holds_sorted(list, stem_lower, path);
                let v = EntryView::Dir {
                    name: name@,
                    path: dir@,
                    children: sorted_entries(list),
                };
                assert(contribution(e) == Contribution::Entry(v));
                directory_holds(v, stem_lower, path);
                if let Some(p) = found_from(children@, stem_lower, children@.len()) {
                    list_holds_sorted(list, stem_lower, p);
                    directory_holds(v, stem_lower, p);
                }
            }
        }
    }
}

/// The entries that the last `n` raw entries contribute to a listing that does
/// not fail.
spec fn tail_entries(raw: Seq<RawEntry>, n: nat) -> Seq<EntryView>
    decreases n,
{
    if n == 0 || n > raw.len() {
        Seq::empty()
    } else {
        (match contribution(raw[raw.len() - n]) {
            Contribution::Entry(v) => seq![v],
            _ => Seq::empty(),
        }) + tail_entries(raw, (n - 1) as nat)
    }
}

proof fn no_failures(raw: Seq<RawEntry>, n: nat)
    requires
        n <= raw.len(),
        collected(raw, n) is Ok,
    ensures
        forall|i: int| 0 <= i < n ==> !(contribution(#[trigger] raw[i]) is Failure),
    decreases n,
{
    if n > 0 {
        no_failures(raw, (n - 1) as nat);
    }
}

proof fn head_and_tail(raw: Seq<RawEntry>, n: nat)
    requires
        n <= raw.len(),
        collected(raw, raw.len()) is Ok,
    ensures
        collected(raw, (raw.len() - n) as nat) is Ok,
        collected(raw, raw.len())->Ok_0 == collected(raw, (raw.len() - n) as nat)->Ok_0
            + tail_entries(raw, n),
    decreases n,
{
    if n > 0 {
        head_and_tail(raw, (n - 1) as nat);
        let mid = (raw.len() - n + 1) as nat;
        let before = collected(raw, (raw.len() - n) as nat);
        assert(collected(raw, mid) is Ok);
        assert(before is Ok);
        assert(collected(raw, raw.len())->Ok_0 =~= before->Ok_0 + tail_entries(raw, n));
    } else {
        assert(collected(raw, raw.len())->Ok_0 =~= collected(raw, raw.len())->Ok_0
            + Seq::<EntryView>::empty());
    }
}

proof fn tail_search_agrees(
    raw: Seq<RawEntry>,
    stem_lower: Seq<char>,
    path: Seq<char>,
    n: nat,
)
    requires
        n <= raw.len(),
        forall|i: int| 0 <= i < raw.len() ==> !(contribution(#[trigger] raw[i]) is Failure),
    ensures
        match found_from(raw, stem_lower, n) {
            Some(p) => list_holds(tail_entries(raw, n), stem_lower, p),
            None => !list_holds(tail_entries(raw, n), stem_lower, path),
        },
    decreases raw, n,
{
    if n > 0 {
        let e = raw[raw.len() - n];
        let rest = tail_entries(raw, (n - 1) as nat);
        let all = tail_entries(raw, n);
        tail_search_agrees(raw, stem_lower, path, (n - 1) as nat);
        finding_agrees(e, stem_lower, path);
        match contribution(e) {
            Contribution::Entry(v) => {
                assert(all[0] == v);
                assert forall|i: int| 0 <= i < rest.len() implies #[trigger] all[i + 1]
                    == rest[i] by {}
                match finding(e, stem_lower) {
                    Finding::Note(p) => {
                        assert(holds_note(all[0], stem_lower, p));
                    },
                    _ => {
                        match found_from(raw, stem_lower, (n - 1) as nat) {
                            Some(p) => {
                                let i = choose|i: int|
                                    0 <= i < rest.len() && holds_note(
                                        #[trigger] rest[i],
                                        stem_lower,
                                        p,
                                    );
                                assert(holds_note(all[i + 1], stem_lower, p));
                            },
                            None => {
                                if list_holds(all, stem_lower, path) {
                                    let i = choose|i: int|
                                        0 <= i < all.len() && holds_note(
                                            #[trigger] all[i],
                                            stem_lower,
                                            path,
                                        );
                                    if i > 0 {
                                        assert(rest[i - 1] == all[i]);
                                    }
                                }
                            },
                        }
                    },
                }
            },
            _ => {
                assert(all =~= rest);
            },
        }
    }
}

proof fn search_agrees(raw: Seq<RawEntry>, stem_lower: Seq<char>, path: Seq<char>, n: nat)
    requires
        n == raw.len(),
        collected(raw, raw.len()) is Ok,
    ensures
        match found_from(raw, stem_lower, raw.len()) {
            Some(p) => list_holds(collected(raw, raw.len())->Ok_0, stem_lower, p),
            None => !list_holds(collected(raw, raw.len())->Ok_0, stem_lower, path),
        },
    decreases raw, n + 1,
{
    no_failures(raw, raw.len());
    tail_search_agrees(raw, stem_lower, path, raw.len());
    head_and_tail(raw, raw.len());
    assert(collected(raw, raw.len())->Ok_0 =~= tail_entries(raw, raw.len()));
}

/// A search and a listing agree: in a vault that can be listed, what a search
/// finds is a note that the tree shows and that has this stem, and when it
/// finds nothing the tree shows no such note.
pub proof fn search_and_tree_agree(raw: Seq<RawEntry>, stem_lower: Seq<char>, path: Seq<char>)
    requires
        tree_of(raw) is Ok,
    ensures
        match found_from(raw, stem_lower, raw.len()) {
            Some(p) => list_holds(tree_of(raw)->Ok_0, stem_lower, p),
            None => !list_holds(tree_of(raw)->Ok_0, stem_lower, path),
        },
{
    let list = collected(raw, raw.len())->Ok_0;
    search_agrees(raw, stem_lower, path, raw.len());
    list_holds_sorted(list, stem_lower, path);
    if let Some(p) = found_from(raw, stem_lower, raw.len()) {
        list_holds_sorted(list, stem_lower, p);
    }
}

/// Whether an entry is shown: it is not hidden, and a directory or a note.
pub open spec fn is_shown(e: RawEntry) -> bool {
    match e {
        RawEntry::Dir { name, .. } => !begins_with(name@, '.'),
        RawEntry::File { name, .. } => !begins_with(name@, '.') && note_name(name@),
        _ => false,
    }
}

/// Whether an entry stops the listing with this message: it is not hidden, and
/// could not be read, is of unknown kind, or is a directory whose own listing
/// stops with it.
pub open spec fn stops_with(e: RawEntry, error: Seq<char>) -> bool {
    match e {
        RawEntry::Unreadable { name, error: text } => !begins_with(name@, '.') && text@ == error,
        RawEntry::Unknown { name, error: text } => !begins_with(name@, '.') && text@ == error,
        RawEntry::Dir { name, children, .. } => !begins_with(name@, '.') && tree_of(children@)
            == Err::<Seq<EntryView>, Seq<char>>(error),
        _ => false,
    }
}

/// Whether `v` shows `e`: the same name and path, and below a directory its
/// own tree.
pub open spec fn shows(v: EntryView, e: RawEntry) -> bool {
    match (v, e) {
        (EntryView::File { name, path }, RawEntry::File { name: n, path: p }) => name == n@ && path
            == p@,
        (
            EntryView::Dir { name, path, children },
            RawEntry::Dir { name: n, path: p, children: below },
        ) => name == n@ && path == p@ && tree_of(below@) == Ok::<Seq<EntryView>, Seq<char>>(
            children,
        ),
        _ => false,
    }
}

proof fn contributions_show_their_entry(e: RawEntry)
    ensures
        match contribution(e) {
            Contribution::Entry(v) => is_shown(e) && shows(v, e),
            Contribution::Nothing => !is_shown(e),
            Contribution::Failure(error) => stops_with(e, error),
        },
        forall|error: Seq<char>| #[trigger]
            stops_with(e, error) ==> contribution(e) == Contribution::Failure(error),
{
}

/// Whether none of the first `n` entries stops the listing.
pub open spec fn nothing_stops(raw: Seq<RawEntry>, n: int) -> bool {
    forall|j: int, error: Seq<char>| 0 <= j < n ==> !(#[trigger] stops_with(raw[j], error))
}

/// Whether the `i`-th entry is the first to stop the listing, with this
/// message.
pub open spec fn first_stop(raw: Seq<RawEntry>, i: int, error: Seq<char>) -> bool {
    &&& 0 <= i < raw.len()
    &&& stops_with(raw[i], error)
    &&& nothing_stops(raw, i)
}

proof fn collected_shows(raw: Seq<RawEntry>, n: nat)
    requires
        n <= raw.len(),
    ensures
        collected(raw, n) matches Ok(list) ==> {
            &&& nothing_stops(raw, n as int)
            &&& list.len() == raw.take(n as int).filter(|e: RawEntry| is_shown(e)).len()
            &&& forall|k: int|
                0 <= k < list.len() ==> shows(
                    #[trigger] list[k],
                    raw.take(n as int).filter(|e: RawEntry| is_shown(e))[k],
                )
        },
    decreases n,
{
    let keep = |e: RawEntry| is_shown(e);
    reveal(Seq::filter);
    if n > 0 {
        let m = (n - 1) as nat;
        collected_shows(raw, m);
        contributions_show_their_entry(raw[n - 1]);
        assert(raw.take(n as int).drop_last() =~= raw.take(m as int));
        assert(raw.take(n as int).last() == raw[n - 1]);
        if collected(raw, n) is Ok {
            assert forall|j: int, error: Seq<char>| 0 <= j < n implies !(#[trigger] stops_with(
                raw[j],
                error,
            )) by {
                if j < n - 1 {
                    assert(nothing_stops(raw, m as int));
                }
            }
        }
    }
}

proof fn collected_stops(raw: Seq<RawEntry>, n: nat) -> (i: int)
    requires
        n <= raw.len(),
        collected(raw, n) is Err,
    ensures
        first_stop(raw, i, collected(raw, n)->Err_0),
    decreases n,
{
    let m = (n - 1) as nat;
    if collected(raw, m) is Err {
        collected_stops(raw, m)
    } else {
        collected_shows(raw, m);
        contributions_show_their_entry(raw[n - 1]);
        n - 1
    }
}

/// A listing stops exactly when an entry makes it stop, with the message of
/// the first that does.
pub proof fn listings_stop_at_the_first_fault(raw: Seq<RawEntry>)
    ensures
        tree_of(raw) is Ok <==> nothing_stops(raw, raw.len() as int),
        tree_of(raw) matches Err(error) ==> exists|i: int| #[trigger] first_stop(raw, i, error),
{
    collected_shows(raw, raw.len());
    if let Err(error) = tree_of(raw) {
        let i = collected_stops(raw, raw.len());
        assert(first_stop(raw, i, error));
        assert(stops_with(raw[i], error));
    }
}

/// Whether an entry of `t` shows `e`.
pub open spec fn is_shown_in(e: RawEntry, t: Seq<EntryView>) -> bool {
    exists|k: int| 0 <= k < t.len() && shows(#[trigger] t[k], e)
}

/// Whether `v` shows one of `raw` that is to be shown.
pub open spec fn comes_from(v: EntryView, raw: Seq<RawEntry>) -> bool {
    exists|i: int| 0 <= i < raw.len() && is_shown(raw[i]) && shows(v, #[trigger] raw[i])
}

/// A tree has one entry for each entry that is shown, with its name and path
/// and, below a directory, the tree of that directory, and has no other.
pub proof fn trees_show_what_is_there(raw: Seq<RawEntry>)
    requires
        tree_of(raw) is Ok,
    ensures
        ({
            let t = tree_of(raw)->Ok_0;
            &&& t.len() == raw.filter(|e: RawEntry| is_shown(e)).len()
            &&& forall|i: int|
                0 <= i < raw.len() && is_shown(#[trigger] raw[i]) ==> is_shown_in(raw[i], t)
            &&& forall|k: int| 0 <= k < t.len() ==> comes_from(#[trigger] t[k], raw)
        }),
{
    let keep = |e: RawEntry| is_shown(e);
    let there = raw.filter(keep);
    let list = collected(raw, raw.len())->Ok_0;
    let t = tree_of(raw)->Ok_0;
    collected_shows(raw, raw.len());
    assert(raw.take(raw.len() as int) =~= raw);
    entries_are_shown_in_order(list);
    assert(t.len() == list.len()) by {
        broadcast use vstd::seq_lib::group_to_multiset_ensures;

        assert(t.to_multiset().len() == list.to_multiset().len());
    }
    assert forall|i: int| 0 <= i < raw.len() && is_shown(#[trigger] raw[i]) implies is_shown_in(
        raw[i],
        t,
    ) by {
        broadcast use vstd::seq_lib::group_filter_ensures;

        assert(keep(raw[i]));
        assert(there.contains(raw[i]));
        let m = choose|m: int| 0 <= m < there.len() && there[m] == raw[i];
        assert(shows(list[m], there[m]));
        assert(list.contains(list[m]));
        members_of_sorted(list, list[m]);
        let k = choose|k: int| 0 <= k < t.len() && t[k] == list[m];
        assert(shows(t[k], raw[i]));
    }
    assert forall|k: int| 0 <= k < t.len() implies comes_from(#[trigger] t[k], raw) by {
        broadcast use vstd::seq_lib::group_filter_ensures;

        assert(t.contains(t[k]));
        members_of_sorted(list, t[k]);
        let m = choose|m: int| 0 <= m < list.len() && list[m] == t[k];
        assert(shows(list[m], there[m]));
        assert(there.contains(there[m]));
        raw.lemma_filter_contains_rev(keep, there[m]);
        assert(keep(there[m]));
        let i = choose|i: int| 0 <= i < raw.len() && raw[i] == there[m];
        assert(shows(t[k], raw[i]));
    }
}

/// Directories come before notes; among either, the names never descend,
/// without regard to case.
pub proof fn directories_come_first(raw: Seq<RawEntry>, i: int, j: int)
    requires
        tree_of(raw) is Ok,
        0 <= i < j < tree_of(raw)->Ok_0.len(),
    ensures
        ({
            let (a, b) = (tree_of(raw)->Ok_0[i], tree_of(raw)->Ok_0[j]);
            &&& b is Dir ==> a is Dir
            &&& (a is Dir <==> b is Dir) ==> {
                ||| lowercase(name_of(a)) == lowercase(name_of(b))
                ||| smaller_at_first_difference(lowercase(name_of(a)), lowercase(name_of(b)))
            }
        }),
{
    trees_are_presentable(raw);
    let (a, b) = (tree_of(raw)->Ok_0[i], tree_of(raw)->Ok_0[j]);
    assert(!shown_before(b, a));
    let x = lowercase(name_of(a));
    let y = lowercase(name_of(b));
    precedes_is_total(x, y);
    order_is_by_the_first_difference(x, y);
}

/// A vault whose root is no directory is named in the message; a directory
/// that could not be read gives its own; all else is the tree.
pub proof fn vaults_are_listed(
    vault: &str,
    is_dir: bool,
    read: Result<Vec<RawEntry>, String>,
    r: Result<Vec<VaultEntry>, String>,
)
    requires
        call_ensures(vault_list_tree, (vault, is_dir, read), r),
    ensures
        !is_dir ==> r is Err && r->Err_0@ == "vault root is not a directory: "@ + vault@,
        is_dir && read is Err ==> r is Err && r->Err_0@ == read->Err_0@,
        is_dir && read is Ok ==> match r {
            Ok(t) => tree_of(read->Ok_0@) == Ok::<Seq<EntryView>, Seq<char>>(entries_view(t@)),
            Err(e) => tree_of(read->Ok_0@) == Err::<Seq<EntryView>, Seq<char>>(e@),
        },
{
}

/// A name is hidden when it begins with a dot; it is a note's when it ends in
/// `.md` or `.markdown` in lower case.
pub proof fn notes_are_known_by_their_names(name: &str, hidden: bool, note: bool)
    requires
        call_ensures(is_hidden, (name,), hidden),
        call_ensures(is_note, (name,), note),
    ensures
        hidden <==> name@.len() > 0 && name@[0] == '.',
        note <==> ({
            let s = lowercase(name@);
            ||| s.len() >= 3 && s.skip(s.len() - 3) == seq!['.', 'm', 'd']
            ||| s.len() >= 9 && s.skip(s.len() - 9) == seq![
                '.',
                'm',
                'a',
                'r',
                'k',
                'd',
                'o',
                'w',
                'n',
            ]
        }),
{
    reveal_strlit(".md");
    reveal_strlit(".markdown");
    assert(".md"@ =~= seq!['.', 'm', 'd']);
    assert(".markdown"@ =~= seq!['.', 'm', 'a', 'r', 'k', 'd', 'o', 'w', 'n']);
}

/// A directory is read into its tree, or into the message that stopped it.
pub proof fn directories_are_read(raw: Vec<RawEntry>, r: Result<Vec<VaultEntry>, String>)
    requires
        call_ensures(read_tree, (&raw,), r),
    ensures
        r is Ok <==> nothing_stops(raw@, raw@.len() as int),
        r matches Ok(t) ==> tree_of(raw@) == Ok::<Seq<EntryView>, Seq<char>>(entries_view(t@)),
        r matches Err(e) ==> exists|i: int| #[trigger] first_stop(raw@, i, e@),
{
    listings_stop_at_the_first_fault(raw@);
}

} // verus!
