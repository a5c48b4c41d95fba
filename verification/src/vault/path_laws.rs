//! What the spelling of a path means, and when a path lies in the vault.
use vstd::prelude::*;

use crate::text::views;
use crate::vault::path::{
    lies_in, normalize_for_display, normalized, resolve_from,
    unresolvable_vault, within, LinkView, PartView, PathPart, PathWalk, Probe, Shown, WalkRequest,
    WalkView,
};

verus! {

proof fn only_the_place_matters(a: Seq<PartView>, b: Seq<PartView>, rest: Seq<PartView>)
    requires
        normalized(a) == normalized(b),
    ensures
        normalized(a + rest) == normalized(b + rest),
    decreases rest.len(),
{
    if rest.len() == 0 {
        assert(a + rest =~= a);
        assert(b + rest =~= b);
    } else {
        only_the_place_matters(a, b, rest.drop_last());
        assert((a + rest).drop_last() =~= a + rest.drop_last());
        assert((b + rest).drop_last() =~= b + rest.drop_last());
    }
}

/// A name is added at the end of a path.
pub proof fn names_are_added(parts: Seq<PartView>, name: Seq<u8>)
    ensures
        normalized(Seq::empty()) == Seq::<PartView>::empty(),
        normalized(parts.push(PartView::Normal(name))) == normalized(parts).push(
            PartView::Normal(name),
        ),
{
    assert(parts.push(PartView::Normal(name)).drop_last() =~= parts);
}

/// `.` means nothing.
pub proof fn current_means_nothing(parts: Seq<PartView>, rest: Seq<PartView>)
    ensures
        normalized(parts.push(PartView::Current) + rest) == normalized(parts + rest),
{
    assert(parts.push(PartView::Current).drop_last() =~= parts);
    only_the_place_matters(parts.push(PartView::Current), parts, rest);
}

/// A name and `..` after it cancel.
pub proof fn parent_cancels_a_name(parts: Seq<PartView>, name: Seq<u8>, rest: Seq<PartView>)
    ensures
        normalized(parts.push(PartView::Normal(name)).push(PartView::Parent) + rest) == normalized(
            parts + rest,
        ),
{
    let a = parts.push(PartView::Normal(name));
    let b = a.push(PartView::Parent);
    assert(a.drop_last() =~= parts);
    assert(b.drop_last() =~= a);
    assert(normalized(a).drop_last() =~= normalized(parts));
    only_the_place_matters(b, parts, rest);
}

/// `..` at the root stays there, and at the beginning of a path it means
/// nothing.
pub proof fn parent_of_the_root_is_the_root(parts: Seq<PartView>, rest: Seq<PartView>)
    ensures
        normalized(parts.push(PartView::Root).push(PartView::Parent) + rest) == normalized(
            parts.push(PartView::Root) + rest,
        ),
        normalized(seq![PartView::Parent] + rest) == normalized(rest),
{
    let a = parts.push(PartView::Root);
    let b = a.push(PartView::Parent);
    assert(a.drop_last() =~= parts);
    assert(b.drop_last() =~= a);
    only_the_place_matters(b, a, rest);
    let up = seq![PartView::Parent];
    assert(up.drop_last() =~= Seq::empty());
    only_the_place_matters(up, Seq::empty(), rest);
    assert(Seq::empty() + rest =~= rest);
}

/// A root or a prefix begins the path anew; a root stays behind a prefix.
pub proof fn roots_begin_anew(
    parts: Seq<PartView>,
    prefix: Seq<u8>,
    rest: Seq<PartView>,
)
    ensures
        normalized(parts.push(PartView::Prefix(prefix)) + rest) == normalized(
            seq![PartView::Prefix(prefix)] + rest,
        ),
        (forall|i: int| 0 <= i < parts.len() ==> !((#[trigger] parts[i]) is Prefix)) ==> normalized(
            parts.push(PartView::Root) + rest,
        ) == normalized(seq![PartView::Root] + rest),
        normalized(seq![PartView::Prefix(prefix), PartView::Root]) == seq![
            PartView::Prefix(prefix),
            PartView::Root,
        ],
{
    reveal_with_fuel(normalized, 3);
    let p = seq![PartView::Prefix(prefix)];
    assert(p.drop_last() =~= Seq::empty());
    assert(parts.push(PartView::Prefix(prefix)).drop_last() =~= parts);
    only_the_place_matters(parts.push(PartView::Prefix(prefix)), p, rest);
    let pr = seq![PartView::Prefix(prefix), PartView::Root];
    assert(pr.drop_last() =~= p);
    let r = seq![PartView::Root];
    assert(r.drop_last() =~= Seq::empty());
    assert(parts.push(PartView::Root).drop_last() =~= parts);
    if forall|i: int| 0 <= i < parts.len() ==> !((#[trigger] parts[i]) is Prefix) {
        no_prefix_comes_from_nowhere(parts);
        only_the_place_matters(parts.push(PartView::Root), r, rest);
    }
}

proof fn no_prefix_comes_from_nowhere(parts: Seq<PartView>)
    requires
        forall|i: int| 0 <= i < parts.len() ==> !((#[trigger] parts[i]) is Prefix),
    ensures
        normalized(parts).len() > 0 ==> !(normalized(parts)[0] is Prefix),
    decreases parts.len(),
{
    if parts.len() > 0 {
        let front = parts.drop_last();
        assert forall|i: int| 0 <= i < front.len() implies !((#[trigger] front[i]) is Prefix) by {
            assert(front[i] == parts[i]);
        }
        no_prefix_comes_from_nowhere(front);
        assert(!(parts[parts.len() - 1] is Prefix));
    }
}

/// A path of names alone, or of names behind a root, is shown as it is.
pub proof fn plain_paths_are_shown_as_they_are(parts: Vec<PathPart>, r: Vec<PathPart>)
    requires
        call_ensures(normalize_for_display, (&parts,), r),
        forall|i: int|
            0 <= i < parts@.len() ==> (#[trigger] parts@[i]) is Normal || (i == 0
                && parts@[i] is Root),
    ensures
        views(r@) == views(parts@),
{
    plain_is_normal(views(parts@), parts@.len() as int);
    assert(views(parts@).take(parts@.len() as int) =~= views(parts@));
}

proof fn plain_is_normal(parts: Seq<PartView>, n: int)
    requires
        0 <= n <= parts.len(),
        forall|i: int|
            0 <= i < parts.len() ==> (#[trigger] parts[i]) is Normal || (i == 0
                && parts[i] is Root),
    ensures
        normalized(parts.take(n)) == parts.take(n),
    decreases n,
{
    if n > 0 {
        plain_is_normal(parts, n - 1);
        assert(parts.take(n).drop_last() =~= parts.take(n - 1));
        assert(parts.take(n).last() == parts[n - 1]);
        assert(parts.take(n) =~= parts.take(n - 1).push(parts[n - 1]));
        if parts[n - 1] is Root {
            assert(parts.take(n) =~= seq![PartView::Root]);
        }
    }
}

/// Each name on the way is looked at: one that is no link is entered, a link
/// is followed to where it leads, and a broken one ends the way there. `.`
/// stays, `..` goes to the parent of where the way has led so far.
pub proof fn ways_follow_links(
    place: Seq<PartView>,
    name: Seq<u8>,
    rest: Seq<PartView>,
    links: spec_fn(Seq<PartView>) -> LinkView,
)
    ensures
        resolve_from(place, Seq::empty(), links) == Ok::<Seq<PartView>, Seq<PartView>>(place),
        resolve_from(place, seq![PartView::Normal(name)] + rest, links) == (match links(
            place.push(PartView::Normal(name)),
        ) {
            LinkView::Plain => resolve_from(place.push(PartView::Normal(name)), rest, links),
            LinkView::To(c) => resolve_from(c, rest, links),
            LinkView::Broken => Err(place.push(PartView::Normal(name))),
        }),
        resolve_from(place, seq![PartView::Current] + rest, links) == resolve_from(
            place,
            rest,
            links,
        ),
        resolve_from(
            place.push(PartView::Normal(name)),
            seq![PartView::Parent] + rest,
            links,
        ) == resolve_from(place, rest, links),
        resolve_from(place.push(PartView::Root), seq![PartView::Parent] + rest, links)
            == resolve_from(place.push(PartView::Root), rest, links),
{
    assert((seq![PartView::Normal(name)] + rest).skip(1) =~= rest);
    assert((seq![PartView::Current] + rest).skip(1) =~= rest);
    assert((seq![PartView::Parent] + rest).skip(1) =~= rest);
    assert(place.push(PartView::Normal(name)).drop_last() =~= place);
}

/// A path lies in the vault exactly when it is the vault's and then anything.
pub proof fn inside_means_below(root: Seq<PartView>, rest: Seq<PartView>, path: Seq<PartView>)
    ensures
        lies_in(root + rest, root),
        lies_in(path, root) ==> path == root + path.skip(root.len() as int),
{
    assert((root + rest).take(root.len() as int) =~= root);
    if lies_in(path, root) {
        assert(path =~= path.take(root.len() as int) + path.skip(root.len() as int));
    }
}

/// A path is let through exactly when it is the vault's root and then
/// anything. A refusal names the path and the vault, and where the path leads
/// when that is not what its text says.
pub proof fn only_paths_below_the_vault_pass(
    vault: Vec<PathPart>,
    resolved: Vec<PathPart>,
    target: Vec<PathPart>,
    shown: Shown,
    plain: Vec<PathPart>,
    r: Result<(), String>,
)
    requires
        call_ensures(within, (&vault, &resolved, &target, &shown), r),
        call_ensures(normalize_for_display, (&target,), plain),
    ensures
        r is Ok <==> exists|rest: Seq<PartView>| views(resolved@) == #[trigger] (views(vault@)
            + rest),
        r is Err && views(resolved@) == views(plain@) ==> r->Err_0@ == "path "@ + shown.target@
            + " is outside vault "@ + shown.vault@,
        r is Err && views(resolved@) != views(plain@) ==> r->Err_0@ == "path "@ + shown.target@
            + " resolves to "@ + shown.resolved@ + ", which is outside vault "@ + shown.vault@,
{
    let path = views(resolved@);
    let root = views(vault@);
    inside_means_below(root, path.skip(root.len() as int), path);
    if exists|rest: Seq<PartView>| path == #[trigger] (root + rest) {
        let rest = choose|rest: Seq<PartView>| path == #[trigger] (root + rest);
        inside_means_below(root, rest, path);
    }
}

/// A walk begins nowhere with the whole path ahead; where it ends is given
/// out, and a path that leads nowhere is refused by its name.
pub proof fn walks_begin_and_end(
    parts: Vec<PathPart>,
    walk: PathWalk,
    ended: PathWalk,
    shown: &str,
    r: Result<Vec<PathPart>, String>,
)
    requires
        call_ensures(PathWalk::new, (parts,), walk),
        call_ensures(PathWalk::finish, (ended, shown), r),
    ensures
        walk@.place.len() == 0,
        walk@.ahead == views(parts@),
        ended@.place.len() > 0 ==> r is Ok && views(r->Ok_0@) == ended@.place,
        ended@.place.len() == 0 ==> r is Err && r->Err_0@ == "cannot resolve path "@ + shown@,
{
}

/// A vault that does not exist is named, with the reason.
pub proof fn missing_vaults_are_named(vault: &str, error: &str, r: String)
    requires
        call_ensures(unresolvable_vault, (vault, error), r),
    ensures
        r@ == "vault root "@ + vault@ + " is not resolvable: "@ + error@,
{
}

/// A walk that goes on stops at the next name, which it has entered, or ends;
/// it leaves out nothing on its way.
pub proof fn walks_go_on_to_the_next_name(
    walk: &mut PathWalk,
    n: int,
    r: WalkRequest,
    links: spec_fn(Seq<PartView>) -> LinkView,
)
    requires
        old(walk).wf(),
        call_ensures(PathWalk::advance, (walk,), r),
        0 <= n <= old(walk)@.ahead.len(),
        forall|i: int| 0 <= i < n ==> !((#[trigger] old(walk)@.ahead[i]) is Normal),
        n < old(walk)@.ahead.len() ==> old(walk)@.ahead[n] is Normal,
    ensures
        final(walk).wf(),
        r is Look <==> n < old(walk)@.ahead.len(),
        r is Arrived ==> final(walk)@.ahead.len() == 0 && resolve_from(
            old(walk)@.place,
            old(walk)@.ahead,
            links,
        ) == Ok::<Seq<PartView>, Seq<PartView>>(final(walk)@.place),
        r is Look ==> final(walk)@.ahead == old(walk)@.ahead.skip(n + 1)
            && final(walk)@.place.last() == old(walk)@.ahead[n],
{
    let w = old(walk)@;
    if n < w.ahead.len() {
        assert(w.ahead[n] is Normal);
        stops_at_the_name(w, n);
    }
    crate::vault::path::walk_keeps_the_destination(w, links);
}

proof fn stops_at_the_name(w: WalkView, n: int)
    requires
        0 <= n < w.ahead.len(),
        forall|i: int| 0 <= i < n ==> !((#[trigger] w.ahead[i]) is Normal),
        w.ahead[n] is Normal,
    ensures
        w.advance().ahead == w.ahead.skip(n + 1),
        w.advance().place.len() > 0,
        w.advance().place.last() == w.ahead[n],
    decreases n,
{
    if n > 0 {
        assert(!(w.ahead[0] is Normal));
        let next = WalkView {
            place: crate::vault::path::enter(w.place, w.ahead[0]),
            ahead: w.ahead.skip(1),
        };
        assert forall|i: int| 0 <= i < n - 1 implies !((#[trigger] next.ahead[i]) is Normal) by {
            assert(next.ahead[i] == w.ahead[i + 1]);
        }
        assert(next.ahead[n - 1] == w.ahead[n]);
        stops_at_the_name(next, n - 1);
        assert(w.ahead.skip(1).skip(n) =~= w.ahead.skip(n + 1));
    }
}

/// A walk that met no link goes on from where it stands, one that met a link
/// from where that leads; a broken link is told by the place and the reason.
pub proof fn walks_follow_what_they_find(
    walk: &mut PathWalk,
    found: Probe,
    shown: &str,
    r: Result<(), String>,
)
    requires
        old(walk).wf(),
        call_ensures(PathWalk::follow, (walk, found, shown), r),
    ensures
        final(walk).wf(),
        final(walk)@.ahead == old(walk)@.ahead,
        r is Err <==> found is Broken,
        match found {
            Probe::Plain => final(walk)@.place == old(walk)@.place,
            Probe::To(c) => final(walk)@.place == views(c@),
            Probe::Broken(e) => final(walk)@.place == old(walk)@.place && r->Err_0@
                == "cannot resolve symlink "@ + shown@ + ": "@ + e@,
        },
{
}

/// A walk tells where it stands.
pub proof fn walks_tell_where_they_stand(walk: PathWalk, place: &Vec<PathPart>)
    requires
        call_ensures(PathWalk::place, (&walk,), place),
    ensures
        views(place@) == walk@.place,
{
}

} // verus!
