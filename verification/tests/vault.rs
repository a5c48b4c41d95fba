use rezon::vault::ops::{
    plan, plan_rename, read_dir_failure, step_failure, FsStep, PathFacts, VaultOp,
};
use rezon::vault::path::{
    normalize_for_display, unresolvable_vault, within, PathPart, PathWalk, Probe, Shown,
    WalkRequest,
};
use rezon::vault::tree::{
    file_stem, find_by_stem, is_hidden, is_note, read_tree, vault_list_tree, RawEntry, VaultEntry,
};
use rezon::vault::wikilink::{CreateFault, LinkInput, LinkRequest, LinkSearch, ResolvedLink};

/// The components of a path written with slashes.
fn parts(path: &str) -> Vec<PathPart> {
    let mut out = Vec::new();
    if path.starts_with('/') {
        out.push(PathPart::Root);
    }
    for name in path.split('/').filter(|n| !n.is_empty()) {
        out.push(match name {
            "." => PathPart::Current,
            ".." => PathPart::Parent,
            n => PathPart::Normal(n.as_bytes().to_vec()),
        });
    }
    out
}

fn show(p: &[PathPart]) -> String {
    let mut out = String::new();
    for part in p {
        match part {
            PathPart::Prefix(b) => out.push_str(std::str::from_utf8(b).unwrap()),
            PathPart::Root => out.push('/'),
            PathPart::Current => out.push_str("./"),
            PathPart::Parent => out.push_str("../"),
            PathPart::Normal(b) => {
                if !out.is_empty() && !out.ends_with('/') {
                    out.push('/');
                }
                out.push_str(std::str::from_utf8(b).unwrap());
            }
        }
    }
    out
}

/// Follows a path through a file system with these links.
fn resolve(path: &str, links: &[(&str, Option<&str>)]) -> Result<Vec<PathPart>, String> {
    let mut walk = PathWalk::new(parts(path));
    loop {
        match walk.advance() {
            WalkRequest::Arrived => return walk.finish(&format!("{path:?}")),
            WalkRequest::Look => {
                let at = show(walk.place());
                let found = match links.iter().find(|(from, _)| *from == at) {
                    None => Probe::Plain,
                    Some((_, Some(to))) => Probe::To(parts(to)),
                    Some((_, None)) => Probe::Broken("gone".to_string()),
                };
                walk.follow(found, &format!("{at:?}"))?;
            }
        }
    }
}

fn contained(
    vault: &str,
    target: &str,
    links: &[(&str, Option<&str>)],
) -> Result<(), String> {
    let resolved = resolve(target, links)?;
    let shown = Shown {
        target: format!("{target:?}"),
        resolved: format!("{:?}", show(&resolved)),
        vault: format!("{vault:?}"),
    };
    within(&parts(vault), &resolved, &parts(target), &shown)
}

// ---- Containment ------------------------------------------------

#[test]
fn write_outside_vault_rejected() {
    let err = contained("/vault", "/elsewhere/evil.md", &[]).unwrap_err();
    assert!(err.contains("outside vault"), "got: {err}");
    assert_eq!(err, "path \"/elsewhere/evil.md\" is outside vault \"/vault\"");
}

#[test]
fn parentdir_traversal_normalized() {
    let err = contained("/tmp/vault", "/tmp/vault/sub/../../escape.md", &[]).unwrap_err();
    assert!(err.contains("outside vault"), "got: {err}");
}

#[test]
fn write_through_a_symlink_pointing_outside_is_rejected() {
    let links = [("/vault/innocent.md", Some("/outside/authorized_keys"))];
    let err = contained("/vault", "/vault/innocent.md", &links).unwrap_err();
    assert!(err.contains("outside vault"), "got: {err}");
    assert_eq!(
        err,
        "path \"/vault/innocent.md\" resolves to \"/outside/authorized_keys\", \
         which is outside vault \"/vault\""
    );
}

#[test]
fn read_through_a_symlink_pointing_outside_is_rejected() {
    let links = [("/vault/note.md", Some("/outside/secret.md"))];
    let err = contained("/vault", "/vault/note.md", &links).unwrap_err();
    assert!(err.contains("outside vault"), "got: {err}");
}

#[test]
fn write_into_a_symlinked_directory_pointing_outside_is_rejected() {
    let links = [("/vault/subdir", Some("/outside"))];
    let err = contained("/vault", "/vault/subdir/new.md", &links).unwrap_err();
    assert!(err.contains("outside vault"), "got: {err}");
}

#[test]
fn parentdir_after_a_symlink_resolves_against_the_link_target() {
    let links = [("/vault/link", Some("/outside/sub"))];
    let err = contained("/vault", "/vault/link/../escape.md", &links).unwrap_err();
    assert!(err.contains("outside vault"), "got: {err}");
    assert_eq!(
        show(&resolve("/vault/link/../escape.md", &links).unwrap()),
        "/outside/escape.md"
    );
    assert_eq!(
        show(&normalize_for_display(&parts("/vault/link/../escape.md"))),
        "/vault/escape.md"
    );
}

#[test]
fn a_symlink_staying_inside_the_vault_is_allowed() {
    let links = [("/vault/alias.md", Some("/vault/real.md"))];
    assert!(contained("/vault", "/vault/alias.md", &links).is_ok());
    assert!(contained("/vault", "/vault/./a/../b.md", &links).is_ok());
    assert!(contained("/vault", "/vault", &links).is_ok());
}

#[test]
fn a_name_that_only_begins_like_the_vault_is_outside() {
    assert!(contained("/vault", "/vault2/x.md", &[]).is_err());
    assert!(contained("/vault", "/", &[]).is_err());
}

#[test]
fn paths_that_lead_nowhere_are_refused() {
    assert_eq!(resolve("a/..", &[]).unwrap_err(), "cannot resolve path \"a/..\"");
    assert_eq!(resolve("", &[]).unwrap_err(), "cannot resolve path \"\"");
    assert_eq!(
        resolve("/v/dead", &[("/v/dead", None)]).unwrap_err(),
        "cannot resolve symlink \"/v/dead\": gone"
    );
    assert_eq!(
        unresolvable_vault("\"/v\"", "no such file"),
        "vault root \"/v\" is not resolvable: no such file"
    );
    // The root has no parent.
    assert_eq!(show(&resolve("/../../x", &[]).unwrap()), "/x");
}

#[test]
fn prefixes_and_roots_begin_a_path_anew() {
    let p = vec![
        PathPart::Normal(b"a".to_vec()),
        PathPart::Prefix(b"C:".to_vec()),
        PathPart::Root,
        PathPart::Normal(b"b".to_vec()),
        PathPart::Root,
        PathPart::Parent,
        PathPart::Normal(b"c".to_vec()),
    ];
    assert_eq!(show(&normalize_for_display(&p)), "C:/c");
}

// ---- Operations -------------------------------------------------

const FACTS: PathFacts = PathFacts { exists: false, is_dir: false, has_parent: true };

#[test]
fn rename_validates_both_endpoints() {
    let inside = contained("/vault", "/vault/a.md", &[]);
    let outside = contained("/vault", "/outside/b.md", &[]);
    let err = plan_rename(inside, outside.clone()).unwrap_err();
    assert!(err.contains("outside vault"), "got: {err}");
    assert!(plan_rename(outside, Ok(())).is_err());
    assert_eq!(plan_rename(Ok(()), Ok(())), Ok(FsStep::Rename));
}

#[test]
fn nothing_is_planned_outside_the_vault() {
    for op in [
        VaultOp::Read,
        VaultOp::Write,
        VaultOp::Create,
        VaultOp::Mkdir,
        VaultOp::Delete,
    ] {
        assert_eq!(plan(op, "p", Err("no".to_string()), FACTS), Err("no".to_string()));
    }
}

#[test]
fn operations_take_their_steps_in_order() {
    assert_eq!(plan(VaultOp::Read, "p", Ok(()), FACTS).unwrap(), vec![FsStep::ReadText]);
    assert_eq!(
        plan(VaultOp::Write, "p", Ok(()), FACTS).unwrap(),
        vec![FsStep::CreateParents, FsStep::WriteContent]
    );
    assert_eq!(
        plan(VaultOp::Create, "p", Ok(()), FACTS).unwrap(),
        vec![FsStep::CreateParents, FsStep::WriteEmpty]
    );
    assert_eq!(plan(VaultOp::Mkdir, "p", Ok(()), FACTS).unwrap(), vec![FsStep::CreateDir]);
    assert_eq!(plan(VaultOp::Delete, "p", Ok(()), FACTS).unwrap(), vec![FsStep::RemoveFile]);
    let dir = PathFacts { exists: true, is_dir: true, has_parent: false };
    assert_eq!(plan(VaultOp::Delete, "p", Ok(()), dir).unwrap(), vec![FsStep::RemoveDir]);
    assert_eq!(plan(VaultOp::Write, "p", Ok(()), dir).unwrap(), vec![FsStep::WriteContent]);
    for op in [VaultOp::Create, VaultOp::Mkdir] {
        assert_eq!(plan(op, "/v/p", Ok(()), dir).unwrap_err(), "already exists: /v/p");
    }
}

#[test]
fn failures_name_the_step() {
    assert_eq!(step_failure(FsStep::ReadText, "p", "e"), "read p: e");
    assert_eq!(step_failure(FsStep::CreateParents, "\"d\"", "e"), "mkdir \"d\": e");
    assert_eq!(step_failure(FsStep::WriteContent, "p", "e"), "write p: e");
    assert_eq!(step_failure(FsStep::WriteEmpty, "p", "e"), "create p: e");
    assert_eq!(step_failure(FsStep::CreateDir, "p", "e"), "mkdir p: e");
    assert_eq!(step_failure(FsStep::RemoveDir, "p", "e"), "rmdir p: e");
    assert_eq!(step_failure(FsStep::RemoveFile, "p", "e"), "rm p: e");
    assert_eq!(step_failure(FsStep::Rename, "p", "e"), "rename: e");
    assert_eq!(read_dir_failure("\"d\"", "e"), "read_dir \"d\": e");
}

// ---- Trees ------------------------------------------------------

fn file(path: &str) -> RawEntry {
    RawEntry::File {
        name: path.rsplit('/').next().unwrap().to_string(),
        path: path.to_string(),
    }
}

fn dir(path: &str, children: Vec<RawEntry>) -> RawEntry {
    RawEntry::Dir {
        name: path.rsplit('/').next().unwrap().to_string(),
        path: path.to_string(),
        children,
    }
}

fn name(e: &VaultEntry) -> &str {
    match e {
        VaultEntry::Dir { name, .. } => name.as_str(),
        VaultEntry::File { name, .. } => name.as_str(),
    }
}

fn names(entries: &[VaultEntry]) -> Vec<&str> {
    entries.iter().map(name).collect()
}

#[test]
fn list_tree_filters_and_sorts() {
    let raw = vec![
        file("/v/Beta.md"),
        file("/v/notes.txt"),
        dir("/v/sub", vec![file("/v/sub/zeta.md"), file("/v/sub/a-readme.markdown")]),
        file("/v/.hidden.md"),
        file("/v/alpha.md"),
    ];
    let entries = vault_list_tree("/v", true, Ok(raw)).unwrap();
    let names_seen = names(&entries);
    assert_eq!(names_seen, vec!["sub", "alpha.md", "Beta.md"]);
    assert!(!names_seen.iter().any(|n| n.starts_with('.')));
    assert!(!names_seen.iter().any(|n| n.ends_with(".txt")));
    match &entries[0] {
        VaultEntry::Dir { children, path, .. } => {
            assert_eq!(path, "/v/sub");
            assert_eq!(names(children), vec!["a-readme.markdown", "zeta.md"]);
        }
        other => panic!("expected a directory, got {other:?}"),
    }
}

#[test]
fn entries_that_differ_in_case_alone_stay_in_their_order() {
    let raw = vec![file("/v/B.md"), file("/v/a.md"), file("/v/b.md"), file("/v/A.md")];
    assert_eq!(names(&read_tree(&raw).unwrap()), vec!["a.md", "A.md", "B.md", "b.md"]);
}

#[test]
fn a_listing_fails_with_its_first_failure() {
    let bad_dir = RawEntry::Unreadable {
        name: "d".to_string(),
        error: "read_dir \"/v/d\": denied".to_string(),
    };
    let unknown = RawEntry::Unknown { name: "u".to_string(), error: "odd".to_string() };
    assert_eq!(
        read_tree(&vec![file("/v/a.md"), dir("/v/x", vec![bad_dir]), unknown]).unwrap_err(),
        "read_dir \"/v/d\": denied"
    );
    let hidden = RawEntry::Unknown { name: ".u".to_string(), error: "odd".to_string() };
    let other = RawEntry::Other { name: "pipe.md".to_string() };
    assert!(read_tree(&vec![hidden, other]).unwrap().is_empty());
    assert_eq!(
        vault_list_tree("/v", false, Ok(Vec::new())).unwrap_err(),
        "vault root is not a directory: /v"
    );
    assert_eq!(vault_list_tree("/v", true, Err("e".to_string())).unwrap_err(), "e");
}

#[test]
fn names_are_judged_without_case() {
    assert!(is_note("A.MD") && is_note("x.Markdown") && is_note(".md"));
    assert!(!is_note("md") && !is_note("a.mdx"));
    assert!(is_hidden(".x") && !is_hidden("x.") && !is_hidden(""));
}

#[test]
fn stems_lose_their_last_extension() {
    assert_eq!(file_stem("Project Notes.md"), "Project Notes");
    assert_eq!(file_stem("a.b.c"), "a.b");
    assert_eq!(file_stem("plain"), "plain");
    assert_eq!(file_stem(".profile"), ".profile");
    assert_eq!(file_stem(".."), "..");
    assert_eq!(file_stem("a."), "a");
    assert_eq!(file_stem("..md"), ".");
    assert_eq!(file_stem(""), "");
}

#[test]
fn a_search_takes_the_first_note_with_the_stem() {
    let raw = vec![
        file("/v/.Note.md"),
        file("/v/note.txt"),
        dir("/v/d", vec![file("/v/d/other.md"), file("/v/d/NOTE.markdown")]),
        file("/v/note.md"),
    ];
    assert_eq!(find_by_stem(&raw, "note").as_deref(), Some("/v/d/NOTE.markdown"));
    assert_eq!(find_by_stem(&raw, "nothing"), None);
    let unreadable = RawEntry::Unreadable { name: "x".to_string(), error: "e".to_string() };
    let unknown = RawEntry::Unknown { name: "y".to_string(), error: "e".to_string() };
    let raw = vec![unreadable, dir("/v/e", vec![unknown, file("/v/e/n.md")]), file("/v/n.md")];
    assert_eq!(find_by_stem(&raw, "n").as_deref(), Some("/v/n.md"));
}

// ---- Wikilinks --------------------------------------------------

/// Resolves a wikilink in a vault at `/v` with these notes.
fn link(
    target: &str,
    create: bool,
    notes: &[&str],
    raw: &Vec<RawEntry>,
) -> (Result<ResolvedLink, String>, bool) {
    let (mut search, mut request) = LinkSearch::start(target, create);
    let mut direct = String::new();
    let mut created = false;
    loop {
        let input = match request {
            LinkRequest::CheckRoot => LinkInput::RootIsDir(true),
            LinkRequest::ProbeDirect { relative, target } => {
                direct = format!("/v/{relative}");
                let last = target.rsplit('/').find(|n| !n.is_empty() && *n != ".");
                LinkInput::Direct {
                    is_file: notes.contains(&direct.as_str()),
                    path: direct.clone(),
                    file_name: last.filter(|n| *n != "..").map(str::to_string),
                }
            }
            LinkRequest::CheckContained => LinkInput::Contained(contained("/v", &direct, &[])),
            LinkRequest::SearchStem { stem } => LinkInput::Found(find_by_stem(raw, &stem)),
            LinkRequest::CreateNote => {
                created = true;
                LinkInput::Created(Ok(()))
            }
            LinkRequest::Finish(end) => return (end, created),
        };
        assert!(search.accepts(&input));
        request = search.resume(input);
    }
}

#[test]
fn resolve_wikilink_exact_then_stem() {
    let notes = ["/v/sub/Project Notes.md"];
    let raw = vec![dir("/v/sub", vec![file("/v/sub/Project Notes.md")])];

    let (r, _) = link("sub/Project Notes.md", false, &notes, &raw);
    let r = r.unwrap();
    assert!(r.path.ends_with("Project Notes.md"));
    assert!(!r.created);

    let (r, _) = link("project notes", false, &notes, &raw);
    let r = r.unwrap();
    assert!(r.path.ends_with("Project Notes.md"));
    assert!(!r.created);

    let (r, _) = link("missing", false, &notes, &raw);
    let err = r.unwrap_err();
    assert!(err.contains("not found"), "got: {err}");
    assert_eq!(err, "not found: missing");

    let (r, created) = link("fresh", true, &notes, &raw);
    let r = r.unwrap();
    assert!(r.created && created);
    assert!(r.path.ends_with("fresh.md"));
}

#[test]
fn wikilink_targets_are_tidied() {
    let raw = Vec::new();
    let (r, _) = link("  //a/b.MD ", false, &["/v/a/b.MD"], &raw);
    assert_eq!(r.unwrap().path, "/v/a/b.MD");
    assert_eq!(link("   ", true, &[], &raw).0.unwrap_err(), "empty target");
    let (r, created) = link("../x", true, &[], &raw);
    assert!(r.unwrap_err().contains("outside vault"));
    assert!(!created, "nothing is created outside the vault");
}

#[test]
fn wikilink_failures_are_reported() {
    let (mut s, request) = LinkSearch::start("x", true);
    assert!(matches!(request, LinkRequest::CheckRoot));
    match s.resume(LinkInput::RootIsDir(false)) {
        LinkRequest::Finish(Err(e)) => assert_eq!(e, "vault root is not a directory"),
        other => panic!("unexpected {other:?}"),
    }
    assert!(!s.accepts(&LinkInput::RootIsDir(true)));
    for (fault, want) in [
        (CreateFault::Mkdir("m".to_string()), "mkdir: m"),
        (CreateFault::Write("w".to_string()), "create: w"),
    ] {
        let (mut s, _) = LinkSearch::start("x", true);
        s.resume(LinkInput::RootIsDir(true));
        s.resume(LinkInput::Direct {
            is_file: false,
            path: "/v/x.md".to_string(),
            file_name: None,
        });
        s.resume(LinkInput::Found(None));
        s.resume(LinkInput::Contained(Ok(())));
        match s.resume(LinkInput::Created(Err(fault))) {
            LinkRequest::Finish(Err(e)) => assert_eq!(e, want),
            other => panic!("unexpected {other:?}"),
        }
    }
}
