//! Finding the note that a wikilink names.
//!
//! First the target is taken as a path below the vault's root, with or without
//! `.md`; then the first note anywhere whose stem is the target's, without
//! regard to case; then, if that is wanted, the note is created.
use vstd::prelude::*;

use crate::text::{
    begins_with, ends_with, has_suffix, lowercase, opt_view, prefixed, to_lowercase, trim, trimmed,
};
use crate::vault::tree::{file_stem, stem};

verus! {

/// The note that a wikilink leads to.
#[derive(Debug)]
pub struct ResolvedLink {
    pub path: String,
    pub created: bool,
}

/// Mathematical form of a [`ResolvedLink`].
pub struct ResolvedView {
    pub path: Seq<char>,
    pub created: bool,
}

impl View for ResolvedLink {
    type V = ResolvedView;

    open spec fn view(&self) -> ResolvedView {
        ResolvedView { path: self.path@, created: self.created }
    }
}

/// `s` without the slashes it begins with.
pub open spec fn without_slashes(s: Seq<char>) -> Seq<char>
    decreases s.len(),
{
    if begins_with(s, '/') {
        without_slashes(s.skip(1))
    } else {
        s
    }
}

/// `s` with the extension of a note.
pub open spec fn with_extension(s: Seq<char>) -> Seq<char> {
    if has_suffix(lowercase(s), ".md"@) {
        s
    } else {
        s + ".md"@
    }
}

/// The lower-case stem that a target is searched by. `file_name` is the last
/// name of the target's path, where it has one.
pub open spec fn search_stem(target: Seq<char>, file_name: Option<Seq<char>>) -> Seq<char> {
    lowercase(
        match file_name {
            Some(name) => stem(name),
            None => target,
        },
    )
}

/// What a search waits for.
#[derive(Debug, Clone, Copy, PartialEq, Eq, Structural)]
pub enum LinkPhase {
    Root,
    Direct,
    DirectCheck,
    Search,
    NewCheck,
    Creating,
    Finished,
}

/// Why a note could not be created.
#[derive(Debug)]
pub enum CreateFault {
    Mkdir(String),
    Write(String),
}

/// Mathematical form of a [`CreateFault`].
pub enum CreateFaultView {
    Mkdir(Seq<char>),
    Write(Seq<char>),
}

impl View for CreateFault {
    type V = CreateFaultView;

    open spec fn view(&self) -> CreateFaultView {
        match self {
            CreateFault::Mkdir(e) => CreateFaultView::Mkdir(e@),
            CreateFault::Write(e) => CreateFaultView::Write(e@),
        }
    }
}

/// The answer to a request.
#[derive(Debug)]
pub enum LinkInput {
    RootIsDir(bool),
    /// Whether the direct path is a file, its readable form, and the last name
    /// of the target's own path.
    Direct { is_file: bool, path: String, file_name: Option<String> },
    Contained(Result<(), String>),
    Found(Option<String>),
    Created(Result<(), CreateFault>),
}

/// Mathematical form of a [`LinkInput`].
pub enum LinkInputView {
    RootIsDir(bool),
    Direct { is_file: bool, path: Seq<char>, file_name: Option<Seq<char>> },
    Contained(Result<(), Seq<char>>),
    Found(Option<Seq<char>>),
    Created(Result<(), CreateFaultView>),
}

impl View for LinkInput {
    type V = LinkInputView;

    open spec fn view(&self) -> LinkInputView {
        match self {
            LinkInput::RootIsDir(b) => LinkInputView::RootIsDir(*b),
            LinkInput::Direct { is_file, path, file_name } => LinkInputView::Direct {
                is_file: *is_file,
                path: path@,
                file_name: opt_view(*file_name),
            },
            LinkInput::Contained(r) => LinkInputView::Contained(
                match r {
                    Ok(_) => Ok(()),
                    Err(e) => Err(e@),
                },
            ),
            LinkInput::Found(p) => LinkInputView::Found(opt_view(*p)),
            LinkInput::Created(r) => LinkInputView::Created(
                match r {
                    Ok(_) => Ok(()),
                    Err(e) => Err(e@),
                },
            ),
        }
    }
}

/// What a search asks for.
#[derive(Debug)]
pub enum LinkRequest {
    /// Is the vault's root a directory?
    CheckRoot,
    /// Is the path `relative` below the root a file? What is the last name of
    /// the path `target`?
    ProbeDirect { relative: String, target: String },
    /// Does the direct path lead into the vault?
    CheckContained,
    /// Look for a note with this lower-case stem.
    SearchStem { stem: String },
    /// Create the directories above the direct path and an empty file there.
    CreateNote,
    /// The search is over.
    Finish(Result<ResolvedLink, String>),
}

/// Mathematical form of a [`LinkRequest`].
pub enum LinkRequestView {
    CheckRoot,
    ProbeDirect { relative: Seq<char>, target: Seq<char> },
    CheckContained,
    SearchStem { stem: Seq<char> },
    CreateNote,
    Finish(Result<ResolvedView, Seq<char>>),
}

impl View for LinkRequest {
    type V = LinkRequestView;

    open spec fn view(&self) -> LinkRequestView {
        match self {
            LinkRequest::CheckRoot => LinkRequestView::CheckRoot,
            LinkRequest::ProbeDirect { relative, target } => LinkRequestView::ProbeDirect {
                relative: relative@,
                target: target@,
            },
            LinkRequest::CheckContained => LinkRequestView::CheckContained,
            LinkRequest::SearchStem { stem } => LinkRequestView::SearchStem { stem: stem@ },
            LinkRequest::CreateNote => LinkRequestView::CreateNote,
            LinkRequest::Finish(r) => LinkRequestView::Finish(
                match r {
                    Ok(l) => Ok(l@),
                    Err(e) => Err(e@),
                },
            ),
        }
    }
}

/// Mathematical form of a [`LinkSearch`].
#[verifier::ext_equal]
pub struct LinkView {
    pub target: Seq<char>,
    pub create_if_missing: bool,
    /// The readable form of the direct path, once it is known.
    pub direct: Seq<char>,
    pub phase: LinkPhase,
}

impl LinkView {
    /// Whether `input` answers the request that the search is waiting on.
    pub open spec fn accepts(self, input: LinkInputView) -> bool {
        match self.phase {
            LinkPhase::Root => input is RootIsDir,
            LinkPhase::Direct => input is Direct,
            LinkPhase::DirectCheck | LinkPhase::NewCheck => input is Contained,
            LinkPhase::Search => input is Found,
            LinkPhase::Creating => input is Created,
            LinkPhase::Finished => false,
        }
    }

    /// Ends the search.
    pub open spec fn finish(self, end: Result<ResolvedView, Seq<char>>) -> (
        LinkView,
        LinkRequestView,
    ) {
        (LinkView { phase: LinkPhase::Finished, ..self }, LinkRequestView::Finish(end))
    }

    /// Ends the search with the note at `path`.
    pub open spec fn found(self, path: Seq<char>, created: bool) -> (LinkView, LinkRequestView) {
        self.finish(Ok(ResolvedView { path, created }))
    }

    /// What `input` leads to.
    pub open spec fn advance(self, input: LinkInputView) -> (LinkView, LinkRequestView) {
        match input {
            LinkInputView::RootIsDir(false) => self.finish(
                Err("vault root is not a directory"@),
            ),
            LinkInputView::RootIsDir(true) => if trim(self.target).len() == 0 {
                self.finish(Err("empty target"@))
            } else {
                let target = without_slashes(trim(self.target));
                (
                    LinkView { target, phase: LinkPhase::Direct, ..self },
                    LinkRequestView::ProbeDirect { relative: with_extension(target), target },
                )
            },
            LinkInputView::Direct { is_file: true, path, .. } => (
                LinkView { direct: path, phase: LinkPhase::DirectCheck, ..self },
                LinkRequestView::CheckContained,
            ),
            LinkInputView::Direct { is_file: false, path, file_name } => (
                LinkView { direct: path, phase: LinkPhase::Search, ..self },
                LinkRequestView::SearchStem { stem: search_stem(self.target, file_name) },
            ),
            LinkInputView::Contained(Err(e)) => self.finish(Err(e)),
            LinkInputView::Contained(Ok(_)) => if self.phase == LinkPhase::DirectCheck {
                self.found(self.direct, false)
            } else {
                (
                    LinkView { phase: LinkPhase::Creating, ..self },
                    LinkRequestView::CreateNote,
                )
            },
            LinkInputView::Found(Some(path)) => self.found(path, false),
            LinkInputView::Found(None) => if self.create_if_missing {
                (
                    LinkView { phase: LinkPhase::NewCheck, ..self },
                    LinkRequestView::CheckContained,
                )
            } else {
                self.finish(Err("not found: "@ + self.target))
            },
            LinkInputView::Created(Ok(_)) => self.found(self.direct, true),
            LinkInputView::Created(Err(CreateFaultView::Mkdir(e))) => self.finish(
                Err("mkdir: "@ + e),
            ),
            LinkInputView::Created(Err(CreateFaultView::Write(e))) => self.finish(
                Err("create: "@ + e),
            ),
        }
    }
}

/// A search for the note that a wikilink names.
pub struct LinkSearch {
    target: String,
    create_if_missing: bool,
    direct: String,
    phase: LinkPhase,
}

impl View for LinkSearch {
    type V = LinkView;

    closed spec fn view(&self) -> LinkView {
        LinkView {
            target: self.target@,
            create_if_missing: self.create_if_missing,
            direct: self.direct@,
            phase: self.phase,
        }
    }
}

fn strip_slashes(s: &str) -> (r: String)
    ensures
        r@ == without_slashes(s@),
{
    let n: usize = s.unicode_len();
    let mut at: usize = 0;
    assert(s@.skip(0) =~= s@);
    while at < n && s.get_char(at) == '/'
        invariant
            at <= n,
            n == s@.len(),
            without_slashes(s@) == without_slashes(s@.skip(at as int)),
        decreases n - at,
    {
        assert(s@.skip(at as int).skip(1) =~= s@.skip(at + 1));
        at = at + 1;
    }
    assert(s@.subrange(at as int, n as int) =~= s@.skip(at as int));
    s.substring_char(at, n).to_owned()
}

fn add_extension(s: &str) -> (r: String)
    ensures
        r@ == with_extension(s@),
{
    let mut out = s.to_owned();
    if !ends_with(to_lowercase(s).as_str(), ".md") {
        out.append(".md");
    }
    out
}

impl LinkSearch {
    /// Begins a search.
    pub fn start(target: &str, create_if_missing: bool) -> (r: (LinkSearch, LinkRequest))
        ensures
            r.0@ == (LinkView {
                target: target@,
                create_if_missing,
                direct: Seq::empty(),
                phase: LinkPhase::Root,
            }),
            r.1@ == LinkRequestView::CheckRoot,
    {
        (
            LinkSearch {
                target: target.to_owned(),
                create_if_missing,
                direct: String::new(),
                phase: LinkPhase::Root,
            },
            LinkRequest::CheckRoot,
        )
    }

    /// Whether `input` answers the request that the search is waiting on.
    pub fn accepts(&self, input: &LinkInput) -> (r: bool)
        ensures
            r == self@.accepts(input@),
    {
        match self.phase {
            LinkPhase::Root => matches!(input, LinkInput::RootIsDir(_)),
            LinkPhase::Direct => matches!(input, LinkInput::Direct { .. }),
            LinkPhase::DirectCheck | LinkPhase::NewCheck => matches!(input, LinkInput::Contained(_)),
            LinkPhase::Search => matches!(input, LinkInput::Found(_)),
            LinkPhase::Creating => matches!(input, LinkInput::Created(_)),
            LinkPhase::Finished => false,
        }
    }

    fn finish(&mut self, end: Result<ResolvedLink, String>) -> (r: LinkRequest)
        ensures
            (final(self)@, r@) == old(self)@.finish(
                match end {
                    Ok(l) => Ok(l@),
                    Err(e) => Err(e@),
                },
            ),
    {
        self.phase = LinkPhase::Finished;
        LinkRequest::Finish(end)
    }

    /// Takes the answer to the last request and says what comes next.
    pub fn resume(&mut self, input: LinkInput) -> (r: LinkRequest)
        requires
            old(self)@.accepts(input@),
        ensures
            (final(self)@, r@) == old(self)@.advance(input@),
    {
        match input {
            LinkInput::RootIsDir(is_dir) => {
                if !is_dir {
                    return self.finish(Err("vault root is not a directory".to_owned()));
                }
                let t = trimmed(self.target.as_str());
                if t.is_empty() {
                    return self.finish(Err("empty target".to_owned()));
                }
                let target = strip_slashes(t);
                let relative = add_extension(target.as_str());
                self.target = target.clone();
                self.phase = LinkPhase::Direct;
                LinkRequest::ProbeDirect { relative, target }
            },
            LinkInput::Direct { is_file, path, file_name } => {
                self.direct = path;
                if is_file {
                    self.phase = LinkPhase::DirectCheck;
                    LinkRequest::CheckContained
                } else {
                    let base = match file_name {
                        Some(name) => file_stem(name.as_str()),
                        None => self.target.clone(),
                    };
                    self.phase = LinkPhase::Search;
                    LinkRequest::SearchStem { stem: to_lowercase(base.as_str()) }
                }
            },
            LinkInput::Contained(Err(e)) => self.finish(Err(e)),
            LinkInput::Contained(Ok(_)) => {
                if self.phase == LinkPhase::DirectCheck {
                    let path = self.direct.clone();
                    self.finish(Ok(ResolvedLink { path, created: false }))
                } else {
                    self.phase = LinkPhase::Creating;
                    LinkRequest::CreateNote
                }
            },
            LinkInput::Found(Some(path)) => self.finish(Ok(ResolvedLink { path, created: false })),
            LinkInput::Found(None) => {
                if self.create_if_missing {
                    self.phase = LinkPhase::NewCheck;
                    LinkRequest::CheckContained
                } else {
                    let text = prefixed("not found: ", self.target.as_str());
                    self.finish(Err(text))
                }
            },
            LinkInput::Created(Ok(_)) => {
                let path = self.direct.clone();
                self.finish(Ok(ResolvedLink { path, created: true }))
            },
            LinkInput::Created(Err(CreateFault::Mkdir(e))) => {
                self.finish(Err(prefixed("mkdir: ", e.as_str())))
            },
            LinkInput::Created(Err(CreateFault::Write(e))) => {
                self.finish(Err(prefixed("create: ", e.as_str())))
            },
        }
    }
}

/// The search after a sequence of inputs, and what it asked for last.
pub open spec fn link_after(start: LinkView, inputs: Seq<LinkInputView>) -> (
    LinkView,
    LinkRequestView,
)
    decreases inputs.len(),
{
    if inputs.len() == 0 {
        (start, LinkRequestView::CheckRoot)
    } else {
        link_after(start, inputs.drop_last()).0.advance(inputs.last())
    }
}

/// Whether each input answers the request before it.
pub open spec fn link_admissible(start: LinkView, inputs: Seq<LinkInputView>) -> bool
    decreases inputs.len(),
{
    inputs.len() > 0 ==> link_admissible(start, inputs.drop_last()) && link_after(
        start,
        inputs.drop_last(),
    ).0.accepts(inputs.last())
}

proof fn link_settings_are_kept(start: LinkView, inputs: Seq<LinkInputView>)
    requires
        start.phase == LinkPhase::Root,
        link_admissible(start, inputs),
    ensures
        link_after(start, inputs).0.create_if_missing == start.create_if_missing,
        link_after(start, inputs).0.phase == LinkPhase::NewCheck || link_after(start, inputs).0.phase
            == LinkPhase::Creating ==> start.create_if_missing,
        link_after(start, inputs).0.phase == LinkPhase::Creating ==> inputs.len() > 0
            && (inputs.last() matches LinkInputView::Contained(r) && r is Ok),
    decreases inputs.len(),
{
    if inputs.len() > 0 {
        link_settings_are_kept(start, inputs.drop_last());
    }
}

/// A note is created only when that was asked for, and only right after its
/// path was found to lead into the vault.
pub proof fn creation_is_asked_for_and_contained(start: LinkView, inputs: Seq<LinkInputView>)
    requires
        start.phase == LinkPhase::Root,
        link_admissible(start, inputs),
        link_after(start, inputs).1 is CreateNote,
    ensures
        start.create_if_missing,
        inputs.len() > 0,
        inputs.last() matches LinkInputView::Contained(r) && r is Ok,
{
    if inputs.len() > 0 {
        link_settings_are_kept(start, inputs);
        link_settings_are_kept(start, inputs.drop_last());
    }
}

/// A link is reported as created exactly when the note was just created.
pub proof fn created_means_created(link: LinkView, input: LinkInputView)
    requires
        link.accepts(input),
    ensures
        link.advance(input).1 matches LinkRequestView::Finish(Ok(l)) ==> (l.created <==> (input matches LinkInputView::Created(
            r,
        ) && r is Ok)),
{
}

/// A file at the direct path is taken before any search by stem, and only when
/// it lies in the vault.
pub proof fn direct_path_comes_first(link: LinkView, path: Seq<char>, file_name: Option<Seq<char>>)
    requires
        link.phase == LinkPhase::Direct,
    ensures
        ({
            let (next, request) = link.advance(
                LinkInputView::Direct { is_file: true, path, file_name },
            );
            &&& request == LinkRequestView::CheckContained
            &&& next.advance(LinkInputView::Contained(Ok(()))).1 == LinkRequestView::Finish(
                Ok(ResolvedView { path, created: false }),
            )
            &&& forall|e: Seq<char>| #[trigger]
                next.advance(LinkInputView::Contained(Err(e))).1 == LinkRequestView::Finish(Err(e))
        }),
{
}

/// What is looked up below the root never begins with a slash, so that it
/// cannot replace the root.
pub proof fn targets_stay_relative(s: Seq<char>)
    ensures
        !begins_with(without_slashes(s), '/'),
        without_slashes(s).len() > 0 ==> !begins_with(with_extension(without_slashes(s)), '/'),
    decreases s.len(),
{
    if begins_with(s, '/') {
        targets_stay_relative(s.skip(1));
    } else {
        let t = without_slashes(s);
        if t.len() > 0 {
            assert(with_extension(t)[0] == t[0]);
        }
    }
}

} // verus!
