//! The notes of a vault, as a tree.
//!
//! Reading directories gives raw entries in no particular order. Here they
//! become the tree that is shown, and here a note is found by its stem.
use vstd::prelude::*;

use crate::order::{precedes, relation, Relation};
use crate::text::{
    begins_with, chars_of, ends_with, has_suffix, lowercase, starts_with_char, text_eq,
    to_lowercase,
};

verus! {

/// An entry of the tree.
#[derive(Debug)]
pub enum VaultEntry {
    File { name: String, path: String },
    Dir { name: String, path: String, children: Vec<VaultEntry> },
}

/// Mathematical form of a [`VaultEntry`].
pub enum EntryView {
    File { name: Seq<char>, path: Seq<char> },
    Dir { name: Seq<char>, path: Seq<char>, children: Seq<EntryView> },
}

/// The mathematical form of an entry.
pub open spec fn entry_view(e: VaultEntry) -> EntryView
    decreases e,
{
    match e {
        VaultEntry::File { name, path } => EntryView::File { name: name@, path: path@ },
        VaultEntry::Dir { name, path, children } => EntryView::Dir {
            name: name@,
            path: path@,
            children: Seq::new(
                children@.len(),
                |i: int|
                    if 0 <= i < children@.len() {
                        entry_view(children@[i])
                    } else {
                        arbitrary()
                    },
            ),
        },
    }
}

/// The mathematical form of a list of entries.
pub open spec fn entries_view(s: Seq<VaultEntry>) -> Seq<EntryView> {
    s.map_values(|e: VaultEntry| entry_view(e))
}

/// What reading a directory found under one name.
#[derive(Debug)]
pub enum RawEntry {
    Dir { name: String, path: String, children: Vec<RawEntry> },
    /// A directory that could not be read, with the message of the failure.
    Unreadable { name: String, error: String },
    /// A regular file.
    File { name: String, path: String },
    /// Neither a directory nor a regular file.
    Other { name: String },
    /// An entry of unknown kind, with the reason.
    Unknown { name: String, error: String },
}

impl RawEntry {
    /// The entry's name.
    pub open spec fn name_view(self) -> Seq<char> {
        match self {
            RawEntry::Dir { name, .. } => name@,
            RawEntry::Unreadable { name, .. } => name@,
            RawEntry::File { name, .. } => name@,
            RawEntry::Other { name } => name@,
            RawEntry::Unknown { name, .. } => name@,
        }
    }

    fn name(&self) -> (r: &String)
        ensures
            r@ == self.name_view(),
    {
        match self {
            RawEntry::Dir { name, .. } => name,
            RawEntry::Unreadable { name, .. } => name,
            RawEntry::File { name, .. } => name,
            RawEntry::Other { name } => name,
            RawEntry::Unknown { name, .. } => name,
        }
    }
}

/// Whether a name is hidden.
pub fn is_hidden(name: &str) -> (r: bool)
    ensures
        r == begins_with(name@, '.'),
{
    starts_with_char(name, '.')
}

/// Whether a name is that of a note.
pub open spec fn note_name(name: Seq<char>) -> bool {
    has_suffix(lowercase(name), ".md"@) || has_suffix(lowercase(name), ".markdown"@)
}

/// Whether a name is that of a Markdown file, in any case.
pub fn is_note(name: &str) -> (r: bool)
    ensures
        r == note_name(name@),
{
    let lower = to_lowercase(name);
    ends_with(lower.as_str(), ".md") || ends_with(lower.as_str(), ".markdown")
}

/// What an entry contributes to the tree.
pub enum Contribution {
    Nothing,
    Entry(EntryView),
    Failure(Seq<char>),
}

/// What one raw entry contributes: nothing when hidden or no note, a directory
/// with its own tree, or the failure that stops the listing.
pub open spec fn contribution(e: RawEntry) -> Contribution
    decreases e, 0nat,
{
    if begins_with(e.name_view(), '.') {
        Contribution::Nothing
    } else {
        match e {
            RawEntry::Dir { name, path, children } => match collected(
                children@,
                children@.len(),
            ) {
                Ok(list) => Contribution::Entry(
                    EntryView::Dir { name: name@, path: path@, children: sorted_entries(list) },
                ),
                Err(error) => Contribution::Failure(error),
            },
            RawEntry::Unreadable { error, .. } => Contribution::Failure(error@),
            RawEntry::File { name, path } => if note_name(name@) {
                Contribution::Entry(EntryView::File { name: name@, path: path@ })
            } else {
                Contribution::Nothing
            },
            RawEntry::Other { .. } => Contribution::Nothing,
            RawEntry::Unknown { error, .. } => Contribution::Failure(error@),
        }
    }
}

/// What the first `n` raw entries contribute, in their order; or the first
/// failure among them.
pub open spec fn collected(raw: Seq<RawEntry>, n: nat) -> Result<Seq<EntryView>, Seq<char>>
    decreases raw, n,
{
    if n == 0 || n > raw.len() {
        Ok(Seq::empty())
    } else {
        match collected(raw, (n - 1) as nat) {
            Err(e) => Err(e),
            Ok(list) => match contribution(raw[n - 1]) {
                Contribution::Nothing => Ok(list),
                Contribution::Entry(e) => Ok(list.push(e)),
                Contribution::Failure(e) => Err(e),
            },
        }
    }
}

/// The tree of a directory.
pub open spec fn tree_of(raw: Seq<RawEntry>) -> Result<Seq<EntryView>, Seq<char>> {
    match collected(raw, raw.len()) {
        Ok(list) => Ok(sorted_entries(list)),
        Err(e) => Err(e),
    }
}

/// The name of an entry.
pub open spec fn name_of(e: EntryView) -> Seq<char> {
    match e {
        EntryView::File { name, .. } => name,
        EntryView::Dir { name, .. } => name,
    }
}

/// Whether `a` is shown before `b`: directories before files, then by name
/// without regard to case.
pub open spec fn shown_before(a: EntryView, b: EntryView) -> bool {
    if a is Dir != b is Dir {
        a is Dir
    } else {
        precedes(lowercase(name_of(a)), lowercase(name_of(b)))
    }
}

/// An ordered list with one more entry, behind all that are not shown after
/// it.
pub open spec fn placed(s: Seq<EntryView>, e: EntryView) -> Seq<EntryView>
    decreases s.len(),
{
    if s.len() > 0 && shown_before(e, s.last()) {
        placed(s.drop_last(), e).push(s.last())
    } else {
        s.push(e)
    }
}

/// The entries in the order in which they are shown; entries that neither is
/// shown before the other stay in their order.
pub open spec fn sorted_entries(s: Seq<EntryView>) -> Seq<EntryView>
    decreases s.len(),
{
    if s.len() == 0 {
        Seq::empty()
    } else {
        placed(sorted_entries(s.drop_last()), s.last())
    }
}

fn entry_name(e: &VaultEntry) -> (r: &String)
    ensures
        r@ == name_of(entry_view(*e)),
{
    match e {
        VaultEntry::File { name, .. } => name,
        VaultEntry::Dir { name, .. } => name,
    }
}

fn comes_before(a: &VaultEntry, b: &VaultEntry) -> (r: bool)
    ensures
        r == shown_before(entry_view(*a), entry_view(*b)),
{
    let a_dir: bool = matches!(a, VaultEntry::Dir { .. });
    let b_dir: bool = matches!(b, VaultEntry::Dir { .. });
    if a_dir != b_dir {
        return a_dir;
    }
    let x = to_lowercase(entry_name(a).as_str());
    let y = to_lowercase(entry_name(b).as_str());
    relation(x.as_str(), y.as_str()) == Relation::Before
}

proof fn placed_splits(s: Seq<EntryView>, e: EntryView, at: int)
    requires
        0 <= at <= s.len(),
        at > 0 ==> !shown_before(e, s[at - 1]),
        forall|i: int| at <= i < s.len() ==> shown_before(e, #[trigger] s[i]),
    ensures
        placed(s, e) == s.insert(at, e),
    decreases s.len(),
{
    if at == s.len() {
        assert(s.insert(at, e) =~= s.push(e));
    } else {
        assert(shown_before(e, s[s.len() - 1]));
        assert forall|i: int| at <= i < s.drop_last().len() implies shown_before(
            e,
            #[trigger] s.drop_last()[i],
        ) by {
            assert(s.drop_last()[i] == s[i]);
        }
        placed_splits(s.drop_last(), e, at);
        assert(s.insert(at, e) =~= s.drop_last().insert(at, e).push(s.last()));
    }
}

fn place(list: &mut Vec<VaultEntry>, e: VaultEntry)
    ensures
        entries_view(final(list)@) == placed(entries_view(old(list)@), entry_view(e)),
{
    let ghost before = entries_view(list@);
    let ghost v = entry_view(e);
    let mut at: usize = list.len();
    while at > 0 && comes_before(&e, &list[at - 1])
        invariant
            at <= list.len(),
            before == entries_view(list@),
            v == entry_view(e),
            forall|i: int| at <= i < before.len() ==> shown_before(v, #[trigger] before[i]),
        decreases at,
    {
        at = at - 1;
    }
    proof {
        placed_splits(before, v, at as int);
    }
    list.insert(at, e);
    assert(entries_view(list@) =~= before.insert(at as int, v));
}

/// Makes the tree of a directory from what reading it found.
pub fn read_tree(raw: &Vec<RawEntry>) -> (r: Result<Vec<VaultEntry>, String>)
    ensures
        match r {
            Ok(t) => tree_of(raw@) == Ok::<Seq<EntryView>, Seq<char>>(entries_view(t@)),
            Err(e) => tree_of(raw@) == Err::<Seq<EntryView>, Seq<char>>(e@),
        },
    decreases raw,
{
    let mut out: Vec<VaultEntry> = Vec::new();
    let ghost mut list: Seq<EntryView> = Seq::empty();
    let mut i: usize = 0;
    assert(entries_view(out@) =~= sorted_entries(list));
    while i < raw.len()
        invariant
            i <= raw.len(),
            collected(raw@, i as nat) == Ok::<Seq<EntryView>, Seq<char>>(list),
            entries_view(out@) == sorted_entries(list),
        decreases raw.len() - i,
    {
        let e = &raw[i];
        let ghost gives = contribution(*e);
        if !is_hidden(e.name().as_str()) {
            match e {
                RawEntry::Dir { name, path, children } => {
                    assert(decreases_to!(raw => raw@[i as int]));
                    match read_tree(children) {
                        Ok(tree) => {
                            let entry = VaultEntry::Dir {
                                name: name.clone(),
                                path: path.clone(),
                                children: tree,
                            };
                            proof {
                                assert(entry_view(entry)->children =~= entries_view(tree@));
                                assert(list.push(entry_view(entry)).drop_last() =~= list);
                                list = list.push(entry_view(entry));
                            }
                            place(&mut out, entry);
                        },
                        Err(error) => {
                            proof {
                                first_failure_stays(raw@, i + 1, error@);
                            }
                            return Err(error);
                        },
                    }
                },
                RawEntry::File { name, path } => {
                    if is_note(name.as_str()) {
                        let entry = VaultEntry::File { name: name.clone(), path: path.clone() };
                        proof {
                            assert(list.push(entry_view(entry)).drop_last() =~= list);
                            list = list.push(entry_view(entry));
                        }
                        place(&mut out, entry);
                    }
                },
                RawEntry::Unreadable { error, .. } | RawEntry::Unknown { error, .. } => {
                    proof {
                        first_failure_stays(raw@, i + 1, error@);
                    }
                    return Err(error.clone());
                },
                RawEntry::Other { .. } => {},
            }
        }
        i = i + 1;
    }
    Ok(out)
}

proof fn first_failure_stays(raw: Seq<RawEntry>, n: int, e: Seq<char>)
    requires
        0 <= n <= raw.len(),
        collected(raw, n as nat) == Err::<Seq<EntryView>, Seq<char>>(e),
    ensures
        collected(raw, raw.len()) == Err::<Seq<EntryView>, Seq<char>>(e),
    decreases raw.len() - n,
{
    if n < raw.len() {
        first_failure_stays(raw, n + 1, e);
    }
}

/// The tree of the vault, from whether its root is a directory and what
/// reading it found.
pub fn vault_list_tree(vault: &str, is_dir: bool, read: Result<Vec<RawEntry>, String>) -> (r:
    Result<Vec<VaultEntry>, String>)
    ensures
        match r {
            Ok(t) => is_dir && (read matches Ok(raw) && tree_of(raw@) == Ok::<
                Seq<EntryView>,
                Seq<char>,
            >(entries_view(t@))),
            Err(e) => if !is_dir {
                e@ == "vault root is not a directory: "@ + vault@
            } else {
                match read {
                    Ok(raw) => tree_of(raw@) == Err::<Seq<EntryView>, Seq<char>>(e@),
                    Err(error) => e@ == error@,
                }
            },
        },
{
    if !is_dir {
        let mut text = "vault root is not a directory: ".to_owned();
        text.append(vault);
        return Err(text);
    }
    match read {
        Ok(raw) => read_tree(&raw),
        Err(e) => Err(e),
    }
}

/// A file name without its extension: what stands before the last dot. A name
/// without a dot, or with its only dot in front, is its own stem.
pub open spec fn stem(name: Seq<char>) -> Seq<char> {
    if name == ".."@ || last_dot(name) <= 0 {
        name
    } else {
        name.take(last_dot(name))
    }
}

/// Where the last dot stands, or -1.
pub open spec fn last_dot(name: Seq<char>) -> int
    decreases name.len(),
{
    if name.len() == 0 {
        -1
    } else if name.last() == '.' {
        name.len() - 1
    } else {
        last_dot(name.drop_last())
    }
}

proof fn last_dot_is(name: Seq<char>, at: int)
    requires
        -1 <= at < name.len(),
        at >= 0 ==> name[at] == '.',
        forall|i: int| at < i < name.len() ==> name[i] != '.',
    ensures
        last_dot(name) == at,
    decreases name.len(),
{
    if name.len() > 0 && at < name.len() - 1 {
        assert(name.last() != '.');
        last_dot_is(name.drop_last(), at);
    }
}

/// A file name without its extension.
pub fn file_stem(name: &str) -> (r: String)
    ensures
        r@ == stem(name@),
{
    let chars = chars_of(name);
    let mut at: usize = chars.len();
    while at > 0 && chars[at - 1] != '.'
        invariant
            at <= chars.len(),
            chars@ == name@,
            forall|i: int| at <= i < chars.len() ==> chars@[i] != '.',
        decreases at,
    {
        at = at - 1;
    }
    proof {
        last_dot_is(name@, at - 1);
    }
    if at <= 1 || text_eq(name, "..") {
        name.to_owned()
    } else {
        name.substring_char(0, at - 1).to_owned()
    }
}

/// What a search found in one entry.
pub enum Finding {
    /// Nothing: go on.
    Nothing,
    /// The note with this path.
    Note(Seq<char>),
    /// The search of this directory ends without a result.
    GiveUp,
}

/// What a search for `stem_lower` finds in one raw entry. A directory that
/// cannot be read holds nothing; an entry of unknown kind ends the search of
/// its directory.
pub open spec fn finding(e: RawEntry, stem_lower: Seq<char>) -> Finding
    decreases e, 0nat,
{
    if begins_with(e.name_view(), '.') {
        Finding::Nothing
    } else {
        match e {
            RawEntry::Dir { children, .. } => match found_from(
                children@,
                stem_lower,
                children@.len(),
            ) {
                Some(path) => Finding::Note(path),
                None => Finding::Nothing,
            },
            RawEntry::Unreadable { .. } => Finding::Nothing,
            RawEntry::File { name, path } => if note_name(name@) && lowercase(stem(name@))
                == stem_lower {
                Finding::Note(path@)
            } else {
                Finding::Nothing
            },
            RawEntry::Other { .. } => Finding::Nothing,
            RawEntry::Unknown { .. } => Finding::GiveUp,
        }
    }
}

/// What a search finds in the last `n` raw entries of a directory: the first
/// note, unless the search was given up before.
pub open spec fn found_from(raw: Seq<RawEntry>, stem_lower: Seq<char>, n: nat) -> Option<Seq<char>>
    decreases raw, n,
{
    if n == 0 || n > raw.len() {
        None
    } else {
        match finding(raw[raw.len() - n], stem_lower) {
            Finding::Nothing => found_from(raw, stem_lower, (n - 1) as nat),
            Finding::Note(path) => Some(path),
            Finding::GiveUp => None,
        }
    }
}

/// The path of the first note whose stem is `stem_lower`, without regard to
/// case, directories being searched where they are met.
pub fn find_by_stem(raw: &Vec<RawEntry>, stem_lower: &str) -> (r: Option<String>)
    ensures
        match r {
            Some(p) => found_from(raw@, stem_lower@, raw@.len()) == Some(p@),
            None => found_from(raw@, stem_lower@, raw@.len()) is None,
        },
    decreases raw,
{
    let mut i: usize = 0;
    while i < raw.len()
        invariant
            i <= raw.len(),
            found_from(raw@, stem_lower@, raw@.len()) == found_from(
                raw@,
                stem_lower@,
                (raw@.len() - i) as nat,
            ),
        decreases raw.len() - i,
    {
        let e = &raw[i];
        let ghost gives = finding(*e, stem_lower@);
        if !is_hidden(e.name().as_str()) {
            match e {
                RawEntry::Dir { children, .. } => {
                    assert(decreases_to!(raw => raw@[i as int]));
                    if let Some(hit) = find_by_stem(children, stem_lower) {
                        return Some(hit);
                    }
                },
                RawEntry::File { name, path } => {
                    if is_note(name.as_str()) {
                        let s = file_stem(name.as_str());
                        if text_eq(to_lowercase(s.as_str()).as_str(), stem_lower) {
                            return Some(path.clone());
                        }
                    }
                },
                RawEntry::Unknown { .. } => {
                    return None;
                },
                RawEntry::Unreadable { .. } => {},
                RawEntry::Other { .. } => {},
            }
        }
        i = i + 1;
    }
    None
}

} // verus!
