//! What a wikilink leads to, from the target as it was written to the note.
use vstd::prelude::*;

use crate::text::{begins_with, is_space, lowercase};
use crate::text_laws::trimming_takes_space_from_the_ends_only;
use crate::vault::tree::{
    file_stem, find_by_stem, finding, found_from, last_dot, note_name, stem, tree_of, Finding, RawEntry,
};
use crate::vault::tree_laws::{list_holds, search_and_tree_agree};
use crate::vault::wikilink::{
    with_extension, without_slashes, CreateFaultView, LinkInput, LinkInputView, LinkPhase,
    LinkRequest, LinkRequestView, LinkSearch, LinkView, ResolvedView,
};

verus! {

/// Whether a note with some name and path lies at `e` or below it, past no
/// hidden name.
pub open spec fn note_within(e: RawEntry, which: spec_fn(Seq<char>, Seq<char>) -> bool) -> bool
    decreases e,
{
    match e {
        RawEntry::File { name, path } => !begins_with(name@, '.') && note_name(name@) && which(
            name@,
            path@,
        ),
        RawEntry::Dir { name, children, .. } => !begins_with(name@, '.') && exists|i: int|
            0 <= i < children@.len() && note_within(#[trigger] children@[i], which),
        _ => false,
    }
}

/// Whether such a note lies in a directory or below it.
pub open spec fn note_among(
    raw: Seq<RawEntry>,
    which: spec_fn(Seq<char>, Seq<char>) -> bool,
) -> bool {
    exists|i: int| 0 <= i < raw.len() && note_within(#[trigger] raw[i], which)
}

/// Whether the kind of each entry at `e` and below it is known, past no hidden
/// name.
pub open spec fn known(e: RawEntry) -> bool
    decreases e,
{
    match e {
        RawEntry::Unknown { name, .. } => begins_with(name@, '.'),
        RawEntry::Dir { name, children, .. } => begins_with(name@, '.') || forall|i: int|
            0 <= i < children@.len() ==> known(#[trigger] children@[i]),
        _ => true,
    }
}

/// Whether the kind of every entry of a directory and below it is known.
pub open spec fn all_known(raw: Seq<RawEntry>) -> bool {
    forall|i: int| 0 <= i < raw.len() ==> known(#[trigger] raw[i])
}

/// Whether a note has this stem, without regard to case.
pub open spec fn stem_matches(s: Seq<char>) -> spec_fn(Seq<char>, Seq<char>) -> bool {
    |name: Seq<char>, path: Seq<char>| lowercase(stem(name)) == lowercase(s)
}

/// Whether a note has this stem, without regard to case, and this path.
pub open spec fn stem_and_path_match(
    s: Seq<char>,
    at: Seq<char>,
) -> spec_fn(Seq<char>, Seq<char>) -> bool {
    |name: Seq<char>, path: Seq<char>| lowercase(stem(name)) == lowercase(s) && path == at
}

proof fn finding_is_right(e: RawEntry, s: Seq<char>)
    ensures
        match finding(e, lowercase(s)) {
            Finding::Note(p) => note_within(e, stem_and_path_match(s, p)),
            Finding::Nothing => known(e) ==> !note_within(e, stem_matches(s)),
            Finding::GiveUp => !known(e),
        },
    decreases e, 0nat,
{
    if let RawEntry::Dir { name, path, children } = e {
        let c = children@;
        if !begins_with(name@, '.') {
            found_is_right(c, s, c.len());
            match found_from(c, lowercase(s), c.len()) {
                Some(p) => {
                    let i = choose|i: int|
                        0 <= i < c.len() && note_within(#[trigger] c[i], stem_and_path_match(s, p));
                    assert(note_within(c[i], stem_and_path_match(s, p)));
                },
                None => {
                    if known(e) && note_within(e, stem_matches(s)) {
                        let i = choose|i: int|
                            0 <= i < c.len() && note_within(#[trigger] c[i], stem_matches(s));
                        assert(c.len() - c.len() <= i);
                        assert(!note_within(c[i], stem_matches(s)));
                    }
                },
            }
        }
    }
}

proof fn found_is_right(raw: Seq<RawEntry>, s: Seq<char>, n: nat)
    requires
        n <= raw.len(),
    ensures
        match found_from(raw, lowercase(s), n) {
            Some(p) => note_among(raw, stem_and_path_match(s, p)),
            None => all_known(raw) ==> forall|i: int|
                raw.len() - n <= i < raw.len() ==> !note_within(
                    #[trigger] raw[i],
                    stem_matches(s),
                ),
        },
    decreases raw, n,
{
    if n > 0 {
        let at = raw.len() - n;
        finding_is_right(raw[at], s);
        match finding(raw[at], lowercase(s)) {
            Finding::Nothing => {
                found_is_right(raw, s, (n - 1) as nat);
            },
            Finding::Note(p) => {
                assert(note_within(raw[at], stem_and_path_match(s, p)));
            },
            Finding::GiveUp => {
                assert(!known(raw[at]));
            },
        }
    }
}

/// A target that is no file itself leads to a note whose stem is that of the
/// target's last name, however either is spelled in case, whenever the vault
/// holds one: the stem that the search asks for finds such a note, and that
/// note is what the link resolves to, without being created.
pub proof fn notes_are_found_in_any_case(
    link: LinkView,
    direct: Seq<char>,
    name: Seq<char>,
    raw: Seq<RawEntry>,
)
    requires
        link.phase == LinkPhase::Direct,
        all_known(raw),
        note_among(raw, stem_matches(stem(name))),
    ensures
        ({
            let (next, request) = link.advance(
                LinkInputView::Direct { is_file: false, path: direct, file_name: Some(name) },
            );
            &&& request matches LinkRequestView::SearchStem { stem: asked }
            &&& found_from(raw, asked, raw.len()) matches Some(p)
            &&& note_among(raw, stem_and_path_match(stem(name), p))
            &&& next.accepts(LinkInputView::Found(Some(p)))
            &&& next.advance(LinkInputView::Found(Some(p))).1 == LinkRequestView::Finish(
                Ok(ResolvedView { path: p, created: false }),
            )
        }),
{
    found_is_right(raw, stem(name), raw.len());
    let i = choose|i: int|
        0 <= i < raw.len() && note_within(#[trigger] raw[i], stem_matches(stem(name)));
    assert(note_within(raw[i], stem_matches(stem(name))));
}

/// Whether a note has exactly this stem.
pub open spec fn stem_is(s: Seq<char>) -> spec_fn(Seq<char>, Seq<char>) -> bool {
    |name: Seq<char>, path: Seq<char>| stem(name) == s
}

proof fn exact_is_a_match(e: RawEntry, s: Seq<char>)
    requires
        note_within(e, stem_is(s)),
    ensures
        note_within(e, stem_matches(s)),
    decreases e,
{
    if let RawEntry::Dir { children, .. } = e {
        let i = choose|i: int|
            0 <= i < children@.len() && note_within(#[trigger] children@[i], stem_is(s));
        exact_is_a_match(children@[i], s);
    }
}

/// A target that spells the stem of a note exactly, capitals and all, always
/// leads to a note of that stem.
pub proof fn exact_spelling_is_found(
    link: LinkView,
    direct: Seq<char>,
    name: Seq<char>,
    raw: Seq<RawEntry>,
)
    requires
        link.phase == LinkPhase::Direct,
        all_known(raw),
        note_among(raw, stem_is(stem(name))),
    ensures
        ({
            let (next, request) = link.advance(
                LinkInputView::Direct { is_file: false, path: direct, file_name: Some(name) },
            );
            &&& request matches LinkRequestView::SearchStem { stem: asked }
            &&& found_from(raw, asked, raw.len()) matches Some(p)
            &&& note_among(raw, stem_and_path_match(stem(name), p))
            &&& next.advance(LinkInputView::Found(Some(p))).1 == LinkRequestView::Finish(
                Ok(ResolvedView { path: p, created: false }),
            )
        }),
{
    let i = choose|i: int|
        0 <= i < raw.len() && note_within(#[trigger] raw[i], stem_is(stem(name)));
    exact_is_a_match(raw[i], stem(name));
    notes_are_found_in_any_case(link, direct, name, raw);
}

/// A note that the tree of the vault shows is found by its stem in any case.
pub proof fn shown_notes_are_found(
    link: LinkView,
    direct: Seq<char>,
    name: Seq<char>,
    raw: Seq<RawEntry>,
    note: Seq<char>,
)
    requires
        link.phase == LinkPhase::Direct,
        tree_of(raw) is Ok,
        list_holds(tree_of(raw)->Ok_0, lowercase(stem(name)), note),
    ensures
        ({
            let (next, request) = link.advance(
                LinkInputView::Direct { is_file: false, path: direct, file_name: Some(name) },
            );
            &&& request matches LinkRequestView::SearchStem { stem: asked }
            &&& found_from(raw, asked, raw.len()) matches Some(p)
            &&& list_holds(tree_of(raw)->Ok_0, lowercase(stem(name)), p)
            &&& next.advance(LinkInputView::Found(Some(p))).1 == LinkRequestView::Finish(
                Ok(ResolvedView { path: p, created: false }),
            )
        }),
{
    search_and_tree_agree(raw, lowercase(stem(name)), note);
}

/// A target without a last name is searched by as it stands, in any case.
pub proof fn nameless_targets_are_searched_as_they_stand(
    link: LinkView,
    direct: Seq<char>,
    raw: Seq<RawEntry>,
)
    requires
        link.phase == LinkPhase::Direct,
        all_known(raw),
    ensures
        ({
            let (next, request) = link.advance(
                LinkInputView::Direct { is_file: false, path: direct, file_name: None },
            );
            &&& request matches LinkRequestView::SearchStem { stem: asked }
            &&& match found_from(raw, asked, raw.len()) {
                Some(p) => note_among(raw, stem_and_path_match(link.target, p)),
                None => !note_among(raw, stem_matches(link.target)),
            }
        }),
{
    found_is_right(raw, link.target, raw.len());
}

/// What a search finds is a note with the stem that was asked for; where it
/// finds nothing and no entry is of unknown kind, there is no such note.
pub proof fn searches_are_right(raw: Vec<RawEntry>, asked: &str, s: Seq<char>, r: Option<String>)
    requires
        asked@ == lowercase(s),
        call_ensures(find_by_stem, (&raw, asked), r),
    ensures
        match r {
            Some(p) => note_among(raw@, stem_and_path_match(s, p@)),
            None => all_known(raw@) ==> !note_among(raw@, stem_matches(s)),
        },
{
    found_is_right(raw@, s, raw@.len());
}

proof fn nothing_before(raw: Seq<RawEntry>, s: Seq<char>, n: nat, at: int)
    requires
        n <= raw.len(),
        raw.len() - n <= at < raw.len(),
        forall|i: int|
            0 <= i < at ==> known(#[trigger] raw[i]) && !note_within(raw[i], stem_matches(s)),
        raw[at] matches RawEntry::File { name, .. } && !begins_with(name@, '.') && note_name(name@)
            && lowercase(stem(name@)) == lowercase(s),
    ensures
        found_from(raw, lowercase(s), n) == Some(raw[at]->File_path@),
    decreases n,
{
    let first = raw.len() - n;
    if first < at {
        finding_is_right(raw[first], s);
        if let Finding::Note(p) = finding(raw[first], lowercase(s)) {
            path_is_no_matter(raw[first], s, p);
        }
        nothing_before(raw, s, (n - 1) as nat, at);
    }
}

proof fn path_is_no_matter(e: RawEntry, s: Seq<char>, p: Seq<char>)
    requires
        note_within(e, stem_and_path_match(s, p)),
    ensures
        note_within(e, stem_matches(s)),
    decreases e,
{
    if let RawEntry::Dir { children, .. } = e {
        let i = choose|i: int|
            0 <= i < children@.len() && note_within(#[trigger] children@[i], stem_and_path_match(
                s,
                p,
            ));
        path_is_no_matter(children@[i], s, p);
    }
}

/// Of several notes with the stem, the first one is found.
pub proof fn first_note_is_found(raw: Seq<RawEntry>, s: Seq<char>, at: int)
    requires
        0 <= at < raw.len(),
        forall|i: int|
            0 <= i < at ==> known(#[trigger] raw[i]) && !note_within(raw[i], stem_matches(s)),
        raw[at] matches RawEntry::File { name, .. } && !begins_with(name@, '.') && note_name(name@)
            && lowercase(stem(name@)) == lowercase(s),
    ensures
        found_from(raw, lowercase(s), raw.len()) == Some(raw[at]->File_path@),
{
    nothing_before(raw, s, raw.len(), at);
}

proof fn dot_at(name: Seq<char>, at: int)
    requires
        -1 <= at < name.len(),
        at >= 0 ==> name[at] == '.',
        forall|i: int| at < i < name.len() ==> name[i] != '.',
    ensures
        last_dot(name) == at,
    decreases name.len(),
{
    if name.len() > 0 && at < name.len() - 1 {
        assert(name.last() != '.');
        dot_at(name.drop_last(), at);
    }
}

/// A name's stem is what stands before its last dot, when anything does.
pub proof fn stems_end_before_the_last_dot(base: Seq<char>, extension: Seq<char>)
    requires
        base.len() > 0,
        forall|i: int| 0 <= i < extension.len() ==> extension[i] != '.',
        base.len() + extension.len() > 1 || base[0] != '.',
    ensures
        stem(base + seq!['.'] + extension) == base,
{
    let name = base + seq!['.'] + extension;
    reveal_strlit("..");
    dot_at(name, base.len() as int);
    assert(name.take(base.len() as int) =~= base);
    if name == ".."@ {
        assert(name.len() == 2);
        assert(name[0] == '.');
    }
}

/// A name without a dot, or with none but in front, is its own stem.
pub proof fn names_without_extension_are_their_stems(name: Seq<char>)
    requires
        forall|i: int| 1 <= i < name.len() ==> name[i] != '.',
    ensures
        stem(name) == name,
{
    if name.len() > 0 {
        dot_at(
            name,
            if name[0] == '.' {
                0
            } else {
                -1
            },
        );
    }
}

/// Slashes are taken from the front of a target only, and all of them.
pub proof fn slashes_are_taken_from_the_front(s: Seq<char>) -> (n: int)
    ensures
        0 <= n <= s.len(),
        forall|i: int| 0 <= i < n ==> s[i] == '/',
        n < s.len() ==> s[n] != '/',
        without_slashes(s) == s.skip(n),
    decreases s.len(),
{
    if begins_with(s, '/') {
        let m = slashes_are_taken_from_the_front(s.skip(1));
        assert forall|i: int| 0 <= i < m + 1 implies s[i] == '/' by {
            if i > 0 {
                assert(s[i] == s.skip(1)[i - 1]);
            }
        }
        assert(s.skip(1).skip(m) =~= s.skip(m + 1));
        m + 1
    } else {
        assert(s.skip(0) =~= s);
        0
    }
}

/// A target is looked up as it is when it ends like a note, and with `.md`
/// behind it otherwise.
pub proof fn targets_get_one_extension(s: Seq<char>, before: Seq<char>)
    ensures
        lowercase(s) == before + seq!['.', 'm', 'd'] ==> with_extension(s) == s,
        with_extension(s) == s || with_extension(s) == s + seq!['.', 'm', 'd'],
        with_extension(s) == s ==> lowercase(s).len() >= 3 && lowercase(s).skip(
            lowercase(s).len() - 3,
        ) == seq!['.', 'm', 'd'],
{
    reveal_strlit(".md");
    assert(".md"@ =~= seq!['.', 'm', 'd']);
    if lowercase(s) == before + seq!['.', 'm', 'd'] {
        assert(lowercase(s).skip(lowercase(s).len() - 3) =~= seq!['.', 'm', 'd']);
    }
    if with_extension(s) == s {
        assert((s + ".md"@).len() != s.len());
    }
}

/// A search begins with the vault's root; without one, or without a target,
/// it ends there. Otherwise the target is looked up below the root, without
/// the space around it and the slashes before it.
pub proof fn searches_begin_at_the_root(link: LinkView, from: int, to: int)
    requires
        link.phase == LinkPhase::Root,
        0 <= from <= to <= link.target.len(),
        forall|i: int| 0 <= i < from ==> is_space(link.target[i]),
        forall|i: int| to <= i < link.target.len() ==> is_space(link.target[i]),
        from < to ==> !is_space(link.target[from]) && !is_space(link.target[to - 1]),
    ensures
        link.advance(LinkInputView::RootIsDir(false)).1 == LinkRequestView::Finish(
            Err("vault root is not a directory"@),
        ),
        ({
            let (next, request) = link.advance(LinkInputView::RootIsDir(true));
            if from == to {
                request == LinkRequestView::Finish(Err("empty target"@))
            } else {
                &&& request matches LinkRequestView::ProbeDirect { relative, target }
                &&& target == without_slashes(link.target.subrange(from, to))
                &&& relative == with_extension(target)
                &&& next.target == target
                &&& next.create_if_missing == link.create_if_missing
                &&& next.phase == LinkPhase::Direct
            }
        }),
{
    trimming_takes_space_from_the_ends_only(link.target, from, to);
}

/// A note that is found nowhere is created when that is wanted, at the path
/// that was looked up first, and only there; otherwise the target is named as
/// not found.
pub proof fn missing_notes_are_created_when_wanted(
    link: LinkView,
    direct: Seq<char>,
    file_name: Option<Seq<char>>,
    e: Seq<char>,
)
    requires
        link.phase == LinkPhase::Direct,
    ensures
        ({
            let searching = link.advance(
                LinkInputView::Direct { is_file: false, path: direct, file_name },
            ).0;
            let (missing, request) = searching.advance(LinkInputView::Found(None));
            &&& searching.accepts(LinkInputView::Found(None))
            &&& !link.create_if_missing ==> request == LinkRequestView::Finish(
                Err("not found: "@ + link.target),
            )
            &&& link.create_if_missing ==> {
                let (creating, then_asked) = missing.advance(LinkInputView::Contained(Ok(())));
                &&& request == LinkRequestView::CheckContained
                &&& missing.advance(LinkInputView::Contained(Err(e))).1
                    == LinkRequestView::Finish(Err(e))
                &&& then_asked == LinkRequestView::CreateNote
                &&& creating.advance(LinkInputView::Created(Ok(()))).1
                    == LinkRequestView::Finish(
                    Ok(ResolvedView { path: direct, created: true }),
                )
                &&& creating.advance(
                    LinkInputView::Created(Err(CreateFaultView::Mkdir(e))),
                ).1 == LinkRequestView::Finish(Err("mkdir: "@ + e))
                &&& creating.advance(
                    LinkInputView::Created(Err(CreateFaultView::Write(e))),
                ).1 == LinkRequestView::Finish(Err("create: "@ + e))
            }
        }),
{
}

/// While it waits, a search accepts the answer to its request and no other; a
/// search that is over accepts nothing.
pub proof fn searches_take_the_answer_they_asked_for(link: LinkView, input: LinkInputView)
    ensures
        link.phase == LinkPhase::Finished ==> !link.accepts(input),
        link.accepts(input) ==> ({
            let (next, request) = link.advance(input);
            &&& request is Finish <==> next.phase == LinkPhase::Finished
            &&& request is ProbeDirect <==> next.phase == LinkPhase::Direct
            &&& request is SearchStem <==> next.phase == LinkPhase::Search
            &&& request is CreateNote <==> next.phase == LinkPhase::Creating
            &&& request is CheckContained <==> (next.phase == LinkPhase::DirectCheck || next.phase
                == LinkPhase::NewCheck)
            &&& next.phase == LinkPhase::Direct ==> forall|answer: LinkInputView| #[trigger]
                next.accepts(answer) <==> answer is Direct
            &&& next.phase == LinkPhase::Search ==> forall|answer: LinkInputView| #[trigger]
                next.accepts(answer) <==> answer is Found
            &&& next.phase == LinkPhase::Creating ==> forall|answer: LinkInputView| #[trigger]
                next.accepts(answer) <==> answer is Created
            &&& request is CheckContained ==> forall|answer: LinkInputView| #[trigger]
                next.accepts(answer) <==> answer is Contained
        }),
{
}

/// A search answers an input as its rule says: the laws of the rule are laws
/// of the search.
pub proof fn searches_step_by_their_rule(
    target: &str,
    create: bool,
    begun: (LinkSearch, LinkRequest),
    search: &mut LinkSearch,
    input: LinkInput,
    r: LinkRequest,
)
    requires
        call_ensures(LinkSearch::start, (target, create), begun),
        old(search)@.accepts(input@),
        call_ensures(LinkSearch::resume, (search, input), r),
    ensures
        begun.0@.target == target@,
        begun.0@.create_if_missing == create,
        begun.0@.phase == LinkPhase::Root,
        begun.1 is CheckRoot,
        final(search)@ == old(search)@.advance(input@).0,
        r@ == old(search)@.advance(input@).1,
{
    assert(begun.1@ is CheckRoot);
}

proof fn found_in_the_rest(first: RawEntry, rest: Seq<RawEntry>, s: Seq<char>, n: nat)
    requires
        n <= rest.len(),
    ensures
        found_from(seq![first] + rest, s, n) == found_from(rest, s, n),
    decreases n,
{
    let all = seq![first] + rest;
    if n > 0 {
        assert(all[all.len() - n] == rest[rest.len() - n]);
        found_in_the_rest(first, rest, s, (n - 1) as nat);
    }
}

/// A search goes from entry to entry. A note with the stem ends it, and so does
/// a directory that holds one; an entry of unknown kind ends the search of its
/// directory without a result. Whatever else it meets, it goes on: a hidden
/// entry, a directory without such a note or that could not be read, any other
/// file.
pub proof fn searches_go_from_entry_to_entry(
    first: RawEntry,
    rest: Seq<RawEntry>,
    stem_lower: Seq<char>,
)
    ensures
        ({
            let all = seq![first] + rest;
            let found = found_from(all, stem_lower, all.len());
            let later = found_from(rest, stem_lower, rest.len());
            match first {
                RawEntry::File { name, path } => found == (if !begins_with(name@, '.')
                    && note_name(name@) && lowercase(stem(name@)) == stem_lower {
                    Some(path@)
                } else {
                    later
                }),
                RawEntry::Dir { name, children, .. } => {
                    let below = found_from(children@, stem_lower, children@.len());
                    found == (if !begins_with(name@, '.') && below is Some {
                        below
                    } else {
                        later
                    })
                },
                RawEntry::Unknown { name, .. } => found == (if begins_with(name@, '.') {
                    later
                } else {
                    None
                }),
                RawEntry::Unreadable { .. } => found == later,
                RawEntry::Other { .. } => found == later,
            }
        }),
{
    let all = seq![first] + rest;
    let later = found_from(rest, stem_lower, rest.len());
    assert(all[0] == first);
    found_in_the_rest(first, rest, stem_lower, rest.len());
    assert((all.len() - 1) as nat == rest.len());
    assert(found_from(all, stem_lower, all.len()) == (match finding(first, stem_lower) {
        Finding::Nothing => later,
        Finding::Note(path) => Some(path),
        Finding::GiveUp => None,
    }));
    reveal_with_fuel(finding, 2);
}

/// A stem is what stands before the last dot of a name; a search tells which
/// inputs it takes.
pub proof fn stems_are_taken_from_names(
    name: &str,
    base: Seq<char>,
    extension: Seq<char>,
    r: String,
    search: LinkSearch,
    input: LinkInput,
    takes: bool,
)
    requires
        call_ensures(file_stem, (name,), r),
        name@ == base + seq!['.'] + extension,
        base.len() > 0,
        forall|i: int| 0 <= i < extension.len() ==> extension[i] != '.',
        base.len() + extension.len() > 1 || base[0] != '.',
        call_ensures(LinkSearch::accepts, (&search, &input), takes),
    ensures
        r@ == base,
        takes <==> search@.accepts(input@),
{
    stems_end_before_the_last_dot(base, extension);
}

} // verus!
