//! What each vault operation does to the file system, once it is known that
//! its path leads into the vault.
use vstd::prelude::*;

verus! {

/// An operation on one path.
#[derive(Debug, Clone, Copy, PartialEq, Eq, Structural)]
pub enum VaultOp {
    Read,
    Write,
    Create,
    Mkdir,
    Delete,
}

/// One step on the file system.
#[derive(Debug, Clone, Copy, PartialEq, Eq, Structural)]
pub enum FsStep {
    /// Read the file as text.
    ReadText,
    /// Create the directories above the path.
    CreateParents,
    /// Write the given content.
    WriteContent,
    /// Write an empty file.
    WriteEmpty,
    /// Create the directory, with those above it.
    CreateDir,
    /// Remove the directory and all it holds.
    RemoveDir,
    /// Remove the file.
    RemoveFile,
    /// Rename the path.
    Rename,
}

/// What is known about the path of an operation.
#[derive(Debug, Clone, Copy)]
pub struct PathFacts {
    pub exists: bool,
    pub is_dir: bool,
    pub has_parent: bool,
}

/// The steps of an operation, in order; `None` when it would have to replace
/// something that exists.
pub open spec fn steps_of(op: VaultOp, facts: PathFacts) -> Option<Seq<FsStep>> {
    let parents = if facts.has_parent {
        seq![FsStep::CreateParents]
    } else {
        Seq::empty()
    };
    match op {
        VaultOp::Read => Some(seq![FsStep::ReadText]),
        VaultOp::Write => Some(parents.push(FsStep::WriteContent)),
        VaultOp::Create => if facts.exists {
            None
        } else {
            Some(parents.push(FsStep::WriteEmpty))
        },
        VaultOp::Mkdir => if facts.exists {
            None
        } else {
            Some(seq![FsStep::CreateDir])
        },
        VaultOp::Delete => Some(
            seq![
                if facts.is_dir {
                    FsStep::RemoveDir
                } else {
                    FsStep::RemoveFile
                },
            ],
        ),
    }
}

/// Plans an operation. A path that does not lead into the vault is refused
/// before anything is done, and so is creating what exists.
pub fn plan(op: VaultOp, path: &str, contained: Result<(), String>, facts: PathFacts) -> (r: Result<
    Vec<FsStep>,
    String,
>)
    ensures
        match (contained, steps_of(op, facts)) {
            (Err(e), _) => r == Err::<Vec<FsStep>, String>(e),
            (Ok(_), None) => r matches Err(e) && e@ == "already exists: "@ + path@,
            (Ok(_), Some(steps)) => r matches Ok(v) && v@ == steps,
        },
{
    if let Err(e) = contained {
        return Err(e);
    }
    let mut steps: Vec<FsStep> = Vec::new();
    match op {
        VaultOp::Read => steps.push(FsStep::ReadText),
        VaultOp::Write => {
            if facts.has_parent {
                steps.push(FsStep::CreateParents);
            }
            steps.push(FsStep::WriteContent);
        },
        VaultOp::Create | VaultOp::Mkdir => {
            if facts.exists {
                let mut text = "already exists: ".to_owned();
                text.append(path);
                return Err(text);
            }
            if op == VaultOp::Mkdir {
                steps.push(FsStep::CreateDir);
            } else {
                if facts.has_parent {
                    steps.push(FsStep::CreateParents);
                }
                steps.push(FsStep::WriteEmpty);
            }
        },
        VaultOp::Delete => {
            if facts.is_dir {
                steps.push(FsStep::RemoveDir);
            } else {
                steps.push(FsStep::RemoveFile);
            }
        },
    }
    assert(steps@ =~= steps_of(op, facts)->0);
    Ok(steps)
}

/// Plans a rename: both ends must lead into the vault, and the first that does
/// not is reported.
pub fn plan_rename(from: Result<(), String>, to: Result<(), String>) -> (r: Result<FsStep, String>)
    ensures
        match (from, to) {
            (Err(e), _) => r == Err::<FsStep, String>(e),
            (Ok(_), Err(e)) => r == Err::<FsStep, String>(e),
            (Ok(_), Ok(_)) => r == Ok::<FsStep, String>(FsStep::Rename),
        },
{
    match (from, to) {
        (Err(e), _) => Err(e),
        (Ok(_), Err(e)) => Err(e),
        (Ok(_), Ok(_)) => Ok(FsStep::Rename),
    }
}

/// The word for a step in messages.
pub open spec fn step_word(step: FsStep) -> Seq<char> {
    match step {
        FsStep::ReadText => "read"@,
        FsStep::CreateParents => "mkdir"@,
        FsStep::WriteContent => "write"@,
        FsStep::WriteEmpty => "create"@,
        FsStep::CreateDir => "mkdir"@,
        FsStep::RemoveDir => "rmdir"@,
        FsStep::RemoveFile => "rm"@,
        FsStep::Rename => "rename"@,
    }
}

fn word(step: FsStep) -> (r: &'static str)
    ensures
        r@ == step_word(step),
{
    match step {
        FsStep::ReadText => "read",
        FsStep::CreateParents => "mkdir",
        FsStep::WriteContent => "write",
        FsStep::WriteEmpty => "create",
        FsStep::CreateDir => "mkdir",
        FsStep::RemoveDir => "rmdir",
        FsStep::RemoveFile => "rm",
        FsStep::Rename => "rename",
    }
}

/// The message of a step that failed on `subject`; a rename names none.
pub fn step_failure(step: FsStep, subject: &str, error: &str) -> (r: String)
    ensures
        r@ == (if step == FsStep::Rename {
            "rename: "@ + error@
        } else {
            step_word(step) + " "@ + subject@ + ": "@ + error@
        }),
{
    if step == FsStep::Rename {
        let mut text = "rename: ".to_owned();
        text.append(error);
        return text;
    }
    let mut text = word(step).to_owned();
    text.append(" ");
    text.append(subject);
    text.append(": ");
    text.append(error);
    text
}

/// The message of a directory that could not be read.
pub fn read_dir_failure(shown_dir: &str, error: &str) -> (r: String)
    ensures
        r@ == "read_dir "@ + shown_dir@ + ": "@ + error@,
{
    let mut text = "read_dir ".to_owned();
    text.append(shown_dir);
    text.append(": ");
    text.append(error);
    text
}

/// Creating never replaces: neither a new file nor a new directory is planned
/// where something exists.
pub proof fn creating_never_replaces(op: VaultOp, facts: PathFacts)
    requires
        op == VaultOp::Create || op == VaultOp::Mkdir,
        facts.exists,
    ensures
        steps_of(op, facts) is None,
{
}

/// A file is written once the directories above it were created, and then
/// nothing follows.
pub proof fn parents_come_first(op: VaultOp, facts: PathFacts)
    requires
        op == VaultOp::Write || op == VaultOp::Create,
        facts.has_parent,
    ensures
        steps_of(op, facts) matches Some(s) ==> s == seq![
            FsStep::CreateParents,
            if op == VaultOp::Write {
                FsStep::WriteContent
            } else {
                FsStep::WriteEmpty
            },
        ],
{
    if let Some(s) = steps_of(op, facts) {
        assert(s =~= seq![FsStep::CreateParents, s[1]]);
    }
}

/// Writing is never refused for a path inside the vault: whatever lies there,
/// the content is written, last, and whether something exists makes no
/// difference.
pub proof fn writing_is_never_refused(facts: PathFacts, other: PathFacts)
    requires
        facts.has_parent == other.has_parent,
    ensures
        steps_of(VaultOp::Write, facts) matches Some(s) && s.len() > 0 && s.last()
            == FsStep::WriteContent,
        steps_of(VaultOp::Write, facts) == steps_of(VaultOp::Write, other),
{
}

/// Only creating is ever refused inside the vault, and only where something
/// exists.
pub proof fn only_creating_is_refused(op: VaultOp, facts: PathFacts)
    ensures
        steps_of(op, facts) is None <==> facts.exists && (op == VaultOp::Create || op
            == VaultOp::Mkdir),
{
}

/// Each operation does its own work: only deleting removes, only writing and
/// creating write, reading reads and does nothing else, and what is removed is
/// removed as what it is.
pub proof fn operations_do_their_own_work(op: VaultOp, facts: PathFacts, step: FsStep)
    requires
        steps_of(op, facts) matches Some(s) && s.contains(step),
    ensures
        step != FsStep::Rename,
        step == FsStep::ReadText <==> op == VaultOp::Read,
        step == FsStep::WriteContent ==> op == VaultOp::Write,
        step == FsStep::WriteEmpty ==> op == VaultOp::Create,
        step == FsStep::CreateDir <==> op == VaultOp::Mkdir,
        step == FsStep::RemoveDir ==> op == VaultOp::Delete && facts.is_dir,
        step == FsStep::RemoveFile ==> op == VaultOp::Delete && !facts.is_dir,
        op == VaultOp::Delete ==> step == FsStep::RemoveDir || step == FsStep::RemoveFile,
        step == FsStep::CreateParents ==> facts.has_parent && (op == VaultOp::Write || op
            == VaultOp::Create),
{
    let s = steps_of(op, facts)->0;
    let i = choose|i: int| 0 <= i < s.len() && s[i] == step;
    assert(s.len() <= 2);
}

/// Each operation that is not refused does something, and its last step is what
/// it is asked for.
pub proof fn operations_end_with_their_purpose(op: VaultOp, facts: PathFacts)
    ensures
        steps_of(op, facts) matches Some(s) ==> s.len() > 0 && s.last() == (match op {
            VaultOp::Read => FsStep::ReadText,
            VaultOp::Write => FsStep::WriteContent,
            VaultOp::Create => FsStep::WriteEmpty,
            VaultOp::Mkdir => FsStep::CreateDir,
            VaultOp::Delete => if facts.is_dir {
                FsStep::RemoveDir
            } else {
                FsStep::RemoveFile
            },
        }),
        steps_of(op, facts) matches Some(s) ==> s.len() == (if facts.has_parent && (op
            == VaultOp::Write || op == VaultOp::Create) {
            2int
        } else {
            1
        }),
{
}

/// What [`plan`] answers, from its arguments: outside the vault the refusal and
/// no step at all, inside it steps for every operation but creating what
/// exists.
pub proof fn plans_are_owed_inside_the_vault(
    op: VaultOp,
    path: &str,
    contained: Result<(), String>,
    facts: PathFacts,
    r: Result<Vec<FsStep>, String>,
)
    requires
        call_ensures(plan, (op, path, contained, facts), r),
    ensures
        contained matches Err(e) ==> r == Err::<Vec<FsStep>, String>(e),
        r is Ok <==> contained is Ok && !(facts.exists && (op == VaultOp::Create || op
            == VaultOp::Mkdir)),
        contained is Ok ==> (r matches Err(e) ==> e@ == "already exists: "@ + path@),
        op == VaultOp::Write && contained is Ok ==> (r matches Ok(v) && v@.len() > 0 && v@.last()
            == FsStep::WriteContent),
        op == VaultOp::Read && contained is Ok ==> (r matches Ok(v) && v@ == seq![FsStep::ReadText]),
{
    only_creating_is_refused(op, facts);
}

/// A rename is planned exactly when both ends lead into the vault.
pub proof fn renames_stay_in_the_vault(
    from: Result<(), String>,
    to: Result<(), String>,
    r: Result<FsStep, String>,
)
    requires
        call_ensures(plan_rename, (from, to), r),
    ensures
        r is Ok <==> from is Ok && to is Ok,
        r matches Ok(step) ==> step == FsStep::Rename,
        r matches Err(e) ==> (from matches Err(x) && e == x) || (from is Ok && (to matches Err(x)
            && e == x)),
{
}

/// A step that failed is told by what was tried, on what, and why; a rename
/// names no path.
pub proof fn failed_steps_are_told(
    step: FsStep,
    subject: &str,
    error: &str,
    r: String,
    listing: String,
)
    requires
        call_ensures(step_failure, (step, subject, error), r),
        call_ensures(read_dir_failure, (subject, error), listing),
    ensures
        listing@ == "read_dir "@ + subject@ + ": "@ + error@,
        step == FsStep::Rename ==> r@ == "rename: "@ + error@,
        step == FsStep::ReadText ==> r@ == "read"@ + " "@ + subject@ + ": "@ + error@,
        step == FsStep::WriteContent ==> r@ == "write"@ + " "@ + subject@ + ": "@ + error@,
        step == FsStep::WriteEmpty ==> r@ == "create"@ + " "@ + subject@ + ": "@ + error@,
        step == FsStep::CreateParents || step == FsStep::CreateDir ==> r@ == "mkdir"@ + " "@
            + subject@ + ": "@ + error@,
        step == FsStep::RemoveDir ==> r@ == "rmdir"@ + " "@ + subject@ + ": "@ + error@,
        step == FsStep::RemoveFile ==> r@ == "rm"@ + " "@ + subject@ + ": "@ + error@,
{
}

} // verus!
