//! Where a path really leads, and whether that is inside the vault.
//!
//! A path is walked from left to right. Each symbolic link is followed as it
//! is met, so that a later `..` applies to where the link leads, as it does
//! for the operating system. Components that do not exist are taken as they
//! are: a path may name a file that is about to be created.
use vstd::prelude::*;

use crate::text::views;

verus! {

/// One component of a path. Names are kept as their bytes.
#[derive(Debug)]
pub enum PathPart {
    /// A drive or a share, where a platform has them.
    Prefix(Vec<u8>),
    /// The root directory.
    Root,
    /// `.`
    Current,
    /// `..`
    Parent,
    Normal(Vec<u8>),
}

/// Mathematical form of a [`PathPart`].
pub enum PartView {
    Prefix(Seq<u8>),
    Root,
    Current,
    Parent,
    Normal(Seq<u8>),
}

impl View for PathPart {
    type V = PartView;

    open spec fn view(&self) -> PartView {
        match self {
            PathPart::Prefix(b) => PartView::Prefix(b@),
            PathPart::Root => PartView::Root,
            PathPart::Current => PartView::Current,
            PathPart::Parent => PartView::Parent,
            PathPart::Normal(b) => PartView::Normal(b@),
        }
    }
}

fn copy_bytes(b: &Vec<u8>) -> (r: Vec<u8>)
    ensures
        r@ == b@,
{
    let mut out: Vec<u8> = Vec::new();
    let mut i: usize = 0;
    while i < b.len()
        invariant
            i <= b.len(),
            out@ == b@.take(i as int),
        decreases b.len() - i,
    {
        out.push(b[i]);
        assert(b@.take(i + 1) =~= b@.take(i as int).push(b@[i as int]));
        i = i + 1;
    }
    assert(b@.take(b@.len() as int) =~= b@);
    out
}

fn same_bytes(a: &Vec<u8>, b: &Vec<u8>) -> (r: bool)
    ensures
        r == (a@ == b@),
{
    if a.len() != b.len() {
        return false;
    }
    let mut i: usize = 0;
    while i < a.len()
        invariant
            i <= a.len(),
            a.len() == b.len(),
            forall|j: int| 0 <= j < i ==> a@[j] == b@[j],
        decreases a.len() - i,
    {
        if a[i] != b[i] {
            return false;
        }
        i = i + 1;
    }
    assert(a@ =~= b@);
    true
}

impl Clone for PathPart {
    fn clone(&self) -> (r: Self)
        ensures
            r@ == self@,
    {
        match self {
            PathPart::Prefix(b) => PathPart::Prefix(copy_bytes(b)),
            PathPart::Root => PathPart::Root,
            PathPart::Current => PathPart::Current,
            PathPart::Parent => PathPart::Parent,
            PathPart::Normal(b) => PathPart::Normal(copy_bytes(b)),
        }
    }
}

fn same_part(a: &PathPart, b: &PathPart) -> (r: bool)
    ensures
        r == (a@ == b@),
{
    match (a, b) {
        (PathPart::Prefix(x), PathPart::Prefix(y)) => same_bytes(x, y),
        (PathPart::Root, PathPart::Root) => true,
        (PathPart::Current, PathPart::Current) => true,
        (PathPart::Parent, PathPart::Parent) => true,
        (PathPart::Normal(x), PathPart::Normal(y)) => same_bytes(x, y),
        _ => false,
    }
}

/// The parent: without the last name. The root has no parent and stays.
pub open spec fn parent_of(place: Seq<PartView>) -> Seq<PartView> {
    if place.len() > 0 && place.last() is Normal {
        place.drop_last()
    } else {
        place
    }
}

/// The path after one more component, links aside. A prefix or a root begins
/// the path anew; a root keeps the prefix.
pub open spec fn enter(place: Seq<PartView>, part: PartView) -> Seq<PartView> {
    match part {
        PartView::Prefix(_) => seq![part],
        PartView::Root => if place.len() > 0 && place[0] is Prefix {
            seq![place[0], PartView::Root]
        } else {
            seq![PartView::Root]
        },
        PartView::Current => place,
        PartView::Parent => parent_of(place),
        PartView::Normal(_) => place.push(part),
    }
}

/// The path with `.` and `..` taken out, by its text alone.
pub open spec fn normalized(parts: Seq<PartView>) -> Seq<PartView>
    decreases parts.len(),
{
    if parts.len() == 0 {
        Seq::empty()
    } else {
        enter(normalized(parts.drop_last()), parts.last())
    }
}

/// What lies at a path, as far as following it goes.
pub enum LinkView {
    /// No symbolic link: something else, or nothing.
    Plain,
    /// A symbolic link that leads to this canonical path.
    To(Seq<PartView>),
    /// A symbolic link that leads nowhere.
    Broken,
}

/// Walks `parts` on from `place`, with `links` saying what lies where. The
/// error is the broken link.
pub open spec fn resolve_from(
    place: Seq<PartView>,
    parts: Seq<PartView>,
    links: spec_fn(Seq<PartView>) -> LinkView,
) -> Result<Seq<PartView>, Seq<PartView>>
    decreases parts.len(),
{
    if parts.len() == 0 {
        Ok(place)
    } else {
        let next = enter(place, parts[0]);
        let rest = parts.skip(1);
        if parts[0] is Normal {
            match links(next) {
                LinkView::Plain => resolve_from(next, rest, links),
                LinkView::To(canonical) => resolve_from(canonical, rest, links),
                LinkView::Broken => Err(next),
            }
        } else {
            resolve_from(next, rest, links)
        }
    }
}

/// Adds one component to a path, links aside.
fn enter_part(place: &mut Vec<PathPart>, part: &PathPart)
    ensures
        views(final(place)@) == enter(views(old(place)@), part@),
{
    let ghost before = views(place@);
    match part {
        PathPart::Prefix(_) => {
            place.clear();
            place.push(part.clone());
            assert(views(place@) =~= seq![part@]);
        },
        PathPart::Root => {
            if place.len() > 0 && matches!(place[0], PathPart::Prefix(_)) {
                place.truncate(1);
                place.push(PathPart::Root);
                assert(views(place@) =~= seq![before[0], PartView::Root]);
            } else {
                place.clear();
                place.push(PathPart::Root);
                assert(views(place@) =~= seq![PartView::Root]);
            }
        },
        PathPart::Current => {},
        PathPart::Parent => {
            if place.len() > 0 && matches!(place[place.len() - 1], PathPart::Normal(_)) {
                let _ = place.pop();
                assert(views(place@) =~= before.drop_last());
            }
        },
        PathPart::Normal(_) => {
            place.push(part.clone());
            assert(views(place@) =~= before.push(part@));
        },
    }
}

/// Takes `.` and `..` out of a path by its text alone. This serves messages;
/// whether a path is inside the vault is never decided on it.
pub fn normalize_for_display(parts: &Vec<PathPart>) -> (r: Vec<PathPart>)
    ensures
        views(r@) == normalized(views(parts@)),
{
    let ghost all = views(parts@);
    let mut out: Vec<PathPart> = Vec::new();
    let mut i: usize = 0;
    assert(views(out@) =~= normalized(all.take(0)));
    while i < parts.len()
        invariant
            i <= parts.len(),
            all == views(parts@),
            views(out@) == normalized(all.take(i as int)),
        decreases parts.len() - i,
    {
        enter_part(&mut out, &parts[i]);
        assert(all.take(i + 1).drop_last() =~= all.take(i as int));
        i = i + 1;
    }
    assert(all.take(all.len() as int) =~= all);
    out
}

/// What was found at a probed path.
#[derive(Debug)]
pub enum Probe {
    /// No symbolic link.
    Plain,
    /// A symbolic link that leads to this canonical path.
    To(Vec<PathPart>),
    /// A symbolic link that cannot be resolved, with the reason.
    Broken(String),
}

/// What a walk wants.
#[derive(Debug)]
pub enum WalkRequest {
    /// Look what lies at [`PathWalk::place`].
    Look,
    /// The walk is over; [`PathWalk::place`] is where the path leads.
    Arrived,
}

/// A walk along a path.
pub struct PathWalk {
    parts: Vec<PathPart>,
    next: usize,
    place: Vec<PathPart>,
}

/// Mathematical form of a [`PathWalk`].
#[verifier::ext_equal]
pub struct WalkView {
    /// Where the walk stands.
    pub place: Seq<PartView>,
    /// The components still ahead.
    pub ahead: Seq<PartView>,
}

impl View for PathWalk {
    type V = WalkView;

    closed spec fn view(&self) -> WalkView {
        WalkView { place: views(self.place@), ahead: views(self.parts@).skip(self.next as int) }
    }
}

impl WalkView {
    /// Goes on to the next name, which must be looked at, or to the end.
    pub open spec fn advance(self) -> WalkView
        decreases self.ahead.len(),
    {
        if self.ahead.len() == 0 {
            self
        } else {
            let next = WalkView {
                place: enter(self.place, self.ahead[0]),
                ahead: self.ahead.skip(1),
            };
            if self.ahead[0] is Normal {
                next
            } else {
                next.advance()
            }
        }
    }

    /// Whether a name lies ahead, so that advancing asks to look.
    pub open spec fn asks(self) -> bool {
        exists|i: int| 0 <= i < self.ahead.len() && (#[trigger] self.ahead[i]) is Normal
    }
}

impl PathWalk {
    /// The walk is consistent.
    pub closed spec fn wf(&self) -> bool {
        self.next <= self.parts@.len()
    }

    /// Begins a walk.
    pub fn new(parts: Vec<PathPart>) -> (r: PathWalk)
        ensures
            r.wf(),
            r@ == (WalkView { place: Seq::empty(), ahead: views(parts@) }),
    {
        let r = PathWalk { parts, next: 0, place: Vec::new() };
        assert(views(r.place@) =~= Seq::empty());
        assert(views(r.parts@).skip(0) =~= views(parts@));
        r
    }

    /// Where the walk stands.
    pub fn place(&self) -> (r: &Vec<PathPart>)
        ensures
            views(r@) == self@.place,
    {
        &self.place
    }

    /// Goes on until there is something to look at, or to the end.
    pub fn advance(&mut self) -> (r: WalkRequest)
        requires
            old(self).wf(),
        ensures
            final(self).wf(),
            final(self)@ == old(self)@.advance(),
            r is Look <==> old(self)@.asks(),
            r is Arrived ==> final(self)@.ahead.len() == 0,
    {
        let ghost start = self@;
        let ghost all = views(self.parts@);
        let ghost mut passed: int = 0;
        while self.next < self.parts.len()
            invariant
                self.wf(),
                start == old(self)@,
                self@.advance() == start.advance(),
                all == views(self.parts@),
                0 <= passed <= start.ahead.len(),
                self@.ahead == start.ahead.skip(passed),
                forall|i: int| 0 <= i < passed ==> !((#[trigger] start.ahead[i]) is Normal),
            decreases self.parts@.len() - self.next,
        {
            let at: usize = self.next;
            let ghost before = self@;
            assert(before.ahead[0] == all[at as int]);
            assert(before.ahead[0] == start.ahead[passed]);
            enter_part(&mut self.place, &self.parts[at]);
            self.next = at + 1;
            assert(self@.ahead =~= before.ahead.skip(1));
            if matches!(self.parts[at], PathPart::Normal(_)) {
                assert(start.ahead[passed] is Normal);
                return WalkRequest::Look;
            }
            proof {
                assert(before.ahead.skip(1) =~= start.ahead.skip(passed + 1));
                passed = passed + 1;
            }
        }
        assert(self@.ahead.len() == 0);
        WalkRequest::Arrived
    }

    /// Takes in what was found. A link that leads somewhere is followed; one
    /// that does not ends the walk with its message. `shown` is the readable
    /// form of where the walk stands.
    pub fn follow(&mut self, found: Probe, shown: &str) -> (r: Result<(), String>)
        requires
            old(self).wf(),
        ensures
            final(self).wf(),
            match found {
                Probe::Plain => r is Ok && final(self)@ == old(self)@,
                Probe::To(c) => r is Ok && final(self)@ == (WalkView {
                    place: views(c@),
                    ..old(self)@
                }),
                Probe::Broken(e) => {
                    &&& r matches Err(text) && text@ == "cannot resolve symlink "@ + shown@ + ": "@
                        + e@
                    &&& final(self)@ == old(self)@
                },
            },
    {
        match found {
            Probe::Plain => Ok(()),
            Probe::To(canonical) => {
                self.place = canonical;
                Ok(())
            },
            Probe::Broken(e) => {
                let mut text = "cannot resolve symlink ".to_owned();
                text.append(shown);
                text.append(": ");
                text.append(e.as_str());
                Err(text)
            },
        }
    }

    /// Where the path leads, once the walk has arrived. A path that leads
    /// nowhere at all is refused; `shown` is its readable form.
    pub fn finish(self, shown: &str) -> (r: Result<Vec<PathPart>, String>)
        ensures
            match r {
                Ok(p) => self@.place.len() > 0 && views(p@) == self@.place,
                Err(e) => self@.place.len() == 0 && e@ == "cannot resolve path "@ + shown@,
            },
    {
        if self.place.len() == 0 {
            let mut text = "cannot resolve path ".to_owned();
            text.append(shown);
            Err(text)
        } else {
            Ok(self.place)
        }
    }
}

/// Whether `path` lies below `root` or is it, component by component.
pub open spec fn lies_in(path: Seq<PartView>, root: Seq<PartView>) -> bool {
    root.len() <= path.len() && path.take(root.len() as int) == root
}

fn starts_with(path: &Vec<PathPart>, root: &Vec<PathPart>) -> (r: bool)
    ensures
        r == lies_in(views(path@), views(root@)),
{
    if root.len() > path.len() {
        return false;
    }
    let mut i: usize = 0;
    while i < root.len()
        invariant
            i <= root.len() <= path.len(),
            forall|j: int| 0 <= j < i ==> (#[trigger] path@[j])@ == root@[j]@,
        decreases root.len() - i,
    {
        if !same_part(&path[i], &root[i]) {
            assert(views(path@).take(root@.len() as int)[i as int] == path@[i as int]@);
            assert(views(root@)[i as int] == root@[i as int]@);
            return false;
        }
        i = i + 1;
    }
    assert(views(path@).take(root@.len() as int) =~= views(root@));
    true
}

/// The readable forms of the paths in a refusal.
#[derive(Debug)]
pub struct Shown {
    pub target: String,
    pub resolved: String,
    pub vault: String,
}

/// The message that refuses a path. It names where the path leads when that
/// is not what its text says.
pub open spec fn refusal(
    resolved: Seq<PartView>,
    target: Seq<PartView>,
    shown_target: Seq<char>,
    shown_resolved: Seq<char>,
    shown_vault: Seq<char>,
) -> Seq<char> {
    if resolved != normalized(target) {
        "path "@ + shown_target + " resolves to "@ + shown_resolved
            + ", which is outside vault "@ + shown_vault
    } else {
        "path "@ + shown_target + " is outside vault "@ + shown_vault
    }
}

/// Refuses a path that does not lead into the vault. `vault` is the canonical
/// root, `resolved` is where the path leads, `target` is the path as it was
/// given.
pub fn within(
    vault: &Vec<PathPart>,
    resolved: &Vec<PathPart>,
    target: &Vec<PathPart>,
    shown: &Shown,
) -> (r: Result<(), String>)
    ensures
        r is Ok <==> lies_in(views(resolved@), views(vault@)),
        r matches Err(e) ==> e@ == refusal(
            views(resolved@),
            views(target@),
            shown.target@,
            shown.resolved@,
            shown.vault@,
        ),
{
    if starts_with(resolved, vault) {
        return Ok(());
    }
    let plain = normalize_for_display(target);
    let same: bool = plain.len() == resolved.len() && starts_with(resolved, &plain);
    proof {
        assert(views(resolved@).take(resolved@.len() as int) =~= views(resolved@));
    }
    let mut text = "path ".to_owned();
    text.append(shown.target.as_str());
    if !same {
        text.append(" resolves to ");
        text.append(shown.resolved.as_str());
        text.append(", which is outside vault ");
    } else {
        text.append(" is outside vault ");
    }
    text.append(shown.vault.as_str());
    Err(text)
}

/// The message of a vault root that does not exist.
pub fn unresolvable_vault(shown_vault: &str, error: &str) -> (r: String)
    ensures
        r@ == "vault root "@ + shown_vault@ + " is not resolvable: "@ + error@,
{
    let mut text = "vault root ".to_owned();
    text.append(shown_vault);
    text.append(" is not resolvable: ");
    text.append(error);
    text
}

/// One step of a walk keeps its destination: going on to the next name, and
/// then following what is found there, changes nothing about where the rest of
/// the path leads.
pub proof fn walk_keeps_the_destination(
    walk: WalkView,
    links: spec_fn(Seq<PartView>) -> LinkView,
)
    ensures
        ({
            let next = walk.advance();
            if walk.asks() {
                resolve_from(walk.place, walk.ahead, links) == (match links(next.place) {
                    LinkView::Plain => resolve_from(next.place, next.ahead, links),
                    LinkView::To(c) => resolve_from(c, next.ahead, links),
                    LinkView::Broken => Err(next.place),
                })
            } else {
                next.ahead.len() == 0 && resolve_from(walk.place, walk.ahead, links) == Ok::<
                    Seq<PartView>,
                    Seq<PartView>,
                >(next.place)
            }
        }),
    decreases walk.ahead.len(),
{
    if walk.ahead.len() > 0 && !(walk.ahead[0] is Normal) {
        let next = WalkView {
            place: enter(walk.place, walk.ahead[0]),
            ahead: walk.ahead.skip(1),
        };
        walk_keeps_the_destination(next, links);
        if walk.asks() {
            let i = choose|i: int| 0 <= i < walk.ahead.len() && (#[trigger] walk.ahead[i]) is Normal;
            assert(next.ahead[i - 1] is Normal);
        }
        if next.asks() {
            let i = choose|i: int| 0 <= i < next.ahead.len() && (#[trigger] next.ahead[i]) is Normal;
            assert(walk.ahead[i + 1] is Normal);
        }
    } else if walk.ahead.len() > 0 {
        assert(walk.ahead[0] is Normal);
    }
}

/// Going on to the next name leaves less of the path ahead.
pub proof fn advancing_leaves_less(walk: WalkView)
    requires
        walk.asks(),
    ensures
        walk.advance().ahead.len() < walk.ahead.len(),
    decreases walk.ahead.len(),
{
    if !(walk.ahead[0] is Normal) {
        let next = WalkView {
            place: enter(walk.place, walk.ahead[0]),
            ahead: walk.ahead.skip(1),
        };
        let i = choose|i: int| 0 <= i < walk.ahead.len() && (#[trigger] walk.ahead[i]) is Normal;
        assert(next.ahead[i - 1] is Normal);
        advancing_leaves_less(next);
    }
}

/// Where a walk ends that is advanced and followed until it arrives, with
/// `links` saying what is found at each place. The error is the place of the
/// broken link that ended it.
pub open spec fn walked(walk: WalkView, links: spec_fn(Seq<PartView>) -> LinkView) -> Result<
    Seq<PartView>,
    Seq<PartView>,
>
    decreases walk.ahead.len(),
{
    proof {
        if walk.asks() {
            advancing_leaves_less(walk);
        }
    }
    let next = walk.advance();
    if walk.asks() {
        match links(next.place) {
            LinkView::Plain => walked(next, links),
            LinkView::To(c) => walked(WalkView { place: c, ..next }, links),
            LinkView::Broken => Err(next.place),
        }
    } else {
        Ok(next.place)
    }
}

proof fn walks_resolve(walk: WalkView, links: spec_fn(Seq<PartView>) -> LinkView)
    ensures
        walked(walk, links) == resolve_from(walk.place, walk.ahead, links),
    decreases walk.ahead.len(),
{
    walk_keeps_the_destination(walk, links);
    if walk.asks() {
        advancing_leaves_less(walk);
        let next = walk.advance();
        match links(next.place) {
            LinkView::Plain => walks_resolve(next, links),
            LinkView::To(c) => walks_resolve(WalkView { place: c, ..next }, links),
            LinkView::Broken => {},
        }
    }
}

/// A walk along a whole path, from its beginning until it arrives, ends where
/// the path leads; it fails exactly where the path has a broken link.
pub proof fn walk_ends_at_the_destination(
    parts: Seq<PartView>,
    links: spec_fn(Seq<PartView>) -> LinkView,
)
    ensures
        walked(WalkView { place: Seq::empty(), ahead: parts }, links) == resolve_from(
            Seq::empty(),
            parts,
            links,
        ),
{
    walks_resolve(WalkView { place: Seq::empty(), ahead: parts }, links);
}

/// Where a path leads is found piece by piece.
pub proof fn resolution_splits(
    place: Seq<PartView>,
    a: Seq<PartView>,
    b: Seq<PartView>,
    links: spec_fn(Seq<PartView>) -> LinkView,
)
    ensures
        resolve_from(place, a + b, links) == (match resolve_from(place, a, links) {
            Ok(mid) => resolve_from(mid, b, links),
            Err(e) => Err(e),
        }),
    decreases a.len(),
{
    if a.len() == 0 {
        assert(a + b =~= b);
    } else {
        assert((a + b)[0] == a[0]);
        assert((a + b).skip(1) =~= a.skip(1) + b);
        let next = enter(place, a[0]);
        resolution_splits(next, a.skip(1), b, links);
        if let LinkView::To(c) = links(next) {
            resolution_splits(c, a.skip(1), b, links);
        }
    }
}

/// `..` after a link leads to the parent of the link's target, not to the
/// directory that holds the link.
pub proof fn parent_applies_to_the_link_target(
    place: Seq<PartView>,
    name: Seq<u8>,
    canonical: Seq<PartView>,
    rest: Seq<PartView>,
    links: spec_fn(Seq<PartView>) -> LinkView,
)
    requires
        links(place.push(PartView::Normal(name))) == LinkView::To(canonical),
    ensures
        resolve_from(place, seq![PartView::Normal(name), PartView::Parent] + rest, links)
            == resolve_from(parent_of(canonical), rest, links),
{
    let head = seq![PartView::Normal(name), PartView::Parent];
    let all = head + rest;
    assert(all[0] == head[0] && all[1] == head[1]);
    assert(all.skip(1)[0] == PartView::Parent);
    assert(all.skip(1).skip(1) =~= rest);
    reveal_with_fuel(resolve_from, 3);
}

/// Where there are no links, a path leads to what its text says.
pub proof fn without_links_the_text_decides(
    parts: Seq<PartView>,
    links: spec_fn(Seq<PartView>) -> LinkView,
)
    requires
        forall|p: Seq<PartView>| #[trigger] links(p) == LinkView::Plain,
    ensures
        resolve_from(Seq::empty(), parts, links) == Ok::<Seq<PartView>, Seq<PartView>>(
            normalized(parts),
        ),
    decreases parts.len(),
{
    if parts.len() > 0 {
        let front = parts.drop_last();
        without_links_the_text_decides(front, links);
        let last = seq![parts.last()];
        assert(parts =~= front + last);
        resolution_splits(Seq::empty(), front, last, links);
        let mid = normalized(front);
        assert(last[0] == parts.last());
        assert(last.skip(1) =~= Seq::empty());
        reveal_with_fuel(resolve_from, 2);
    }
}

/// Whether a path holds no `.` and no `..`.
pub open spec fn is_plain(p: Seq<PartView>) -> bool {
    forall|i: int| 0 <= i < p.len() ==> !((#[trigger] p[i]) is Current) && !(p[i] is Parent)
}

/// Where a path leads holds no `.` and no `..`, so that being inside the vault
/// is more than a matter of spelling.
pub proof fn destinations_are_plain(
    place: Seq<PartView>,
    parts: Seq<PartView>,
    links: spec_fn(Seq<PartView>) -> LinkView,
)
    requires
        is_plain(place),
        forall|p: Seq<PartView>| (#[trigger] links(p)) matches LinkView::To(c) ==> is_plain(c),
    ensures
        resolve_from(place, parts, links) matches Ok(p) ==> is_plain(p),
    decreases parts.len(),
{
    if parts.len() > 0 {
        let next = enter(place, parts[0]);
        assert(is_plain(next));
        destinations_are_plain(next, parts.skip(1), links);
        if let LinkView::To(c) = links(next) {
            destinations_are_plain(c, parts.skip(1), links);
        }
    }
}

/// What lies in a vault that lies in another lies in the other.
pub proof fn containment_is_transitive(
    path: Seq<PartView>,
    inner: Seq<PartView>,
    outer: Seq<PartView>,
)
    requires
        lies_in(path, inner),
        lies_in(inner, outer),
    ensures
        lies_in(path, outer),
{
    assert(path.take(outer.len() as int) =~= inner.take(outer.len() as int));
}

/// A file named directly below the vault, on a way without links, is inside.
pub proof fn names_below_the_vault_are_inside(
    vault: Seq<PartView>,
    name: Seq<u8>,
    links: spec_fn(Seq<PartView>) -> LinkView,
)
    requires
        resolve_from(Seq::empty(), vault, links) == Ok::<Seq<PartView>, Seq<PartView>>(vault),
        links(vault.push(PartView::Normal(name))) == LinkView::Plain,
    ensures
        resolve_from(Seq::empty(), vault.push(PartView::Normal(name)), links) matches Ok(p)
            && lies_in(p, vault),
{
    let last = seq![PartView::Normal(name)];
    assert(vault.push(PartView::Normal(name)) =~= vault + last);
    resolution_splits(Seq::empty(), vault, last, links);
    assert(last.skip(1) =~= Seq::empty());
    reveal_with_fuel(resolve_from, 2);
    assert(vault.push(last[0]).take(vault.len() as int) =~= vault);
}

} // verus!
