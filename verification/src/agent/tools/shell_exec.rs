//! Running a shell command.
//!
//! The command runs under the user's shell with a limit on its time. Of each
//! output stream at most 256 KiB are returned.
use vstd::prelude::*;

use crate::agent::tool::{ToolError, ToolErrorView};
use crate::agent::tools::capped::{lossy_text, utf8_lossy, CappedBuffer, CappedView};
use crate::json::{
    bool_field, is_last_of_key, json_error, json_object, object_text, string_member, text_field,
    uint_field, Field, FieldView, Scalar, ScalarView,
};
use crate::text::views;

verus! {

/// The time limit, in seconds.
pub const TIMEOUT_SECS: u64 = 60;

/// How many bytes of each stream are returned.
pub const MAX_OUTPUT_BYTES: usize = 256 * 1024;

/// The JSON schema of the arguments.
pub const PARAMETERS: &'static str = "{\"type\":\"object\",\"properties\":{\"command\":{\"type\":\"string\",\"description\":\"Shell command line (e.g. \\\"ls -la ~/projects | head\\\").\"},\"cwd\":{\"type\":\"string\",\"description\":\"Optional absolute working directory. Defaults to the rezon process cwd.\"}},\"required\":[\"command\"]}";

/// A span of time: whole seconds and the nanoseconds beyond them.
#[derive(Debug, Clone, Copy, PartialEq, Eq, Structural)]
pub struct Timeout {
    pub secs: u64,
    pub nanos: u32,
}

/// Runs a shell command.
#[derive(Debug)]
pub struct ShellExec {
    timeout: Timeout,
}

/// A command ready to be started.
#[derive(Debug)]
pub struct ShellPlan {
    pub shell: String,
    /// The arguments of the shell.
    pub args: Vec<String>,
    pub cwd: Option<String>,
}

/// How a command ended.
#[derive(Debug, Clone, Copy, PartialEq, Eq, Structural)]
pub enum ShellEnd {
    /// It overran its time and was killed.
    TimedOut,
    /// It ended by itself. A command that a signal ended has no code.
    Exited { code: Option<i32>, success: bool },
}

/// What to kill when a command overruns.
#[derive(Debug, Clone, Copy, PartialEq, Eq, Structural)]
pub enum KillTarget {
    /// The whole process group, addressed by a negative number.
    Group(i32),
    /// The child alone.
    Child,
}

/// What both kinds of result say about the output.
pub open spec fn output_fields(out: CappedView, err: CappedView) -> Seq<FieldView> {
    seq![
        FieldView { key: "stdout"@, value: ScalarView::Text(utf8_lossy(out.bytes)) },
        FieldView { key: "stderr"@, value: ScalarView::Text(utf8_lossy(err.bytes)) },
        FieldView { key: "stdoutTruncated"@, value: ScalarView::Bool(out.truncated) },
        FieldView { key: "stderrTruncated"@, value: ScalarView::Bool(err.truncated) },
    ]
}

/// The members of the result.
pub open spec fn result_fields(
    command: Seq<char>,
    timeout_secs: u64,
    end: ShellEnd,
    out: CappedView,
    err: CappedView,
) -> Seq<FieldView> {
    (match end {
        ShellEnd::TimedOut => seq![
            FieldView { key: "command"@, value: ScalarView::Text(command) },
            FieldView { key: "timedOut"@, value: ScalarView::Bool(true) },
            FieldView { key: "timeoutSecs"@, value: ScalarView::Int(timeout_secs as int) },
        ],
        ShellEnd::Exited { code, success } => seq![
            FieldView { key: "command"@, value: ScalarView::Text(command) },
            FieldView {
                key: "exitCode"@,
                value: match code {
                    Some(c) => ScalarView::Int(c as int),
                    None => ScalarView::Null,
                },
            },
            FieldView { key: "success"@, value: ScalarView::Bool(success) },
        ],
    }) + output_fields(out, err)
}

impl Default for ShellExec {
    fn default() -> (r: ShellExec)
        ensures
            r.limit() == (Timeout { secs: TIMEOUT_SECS, nanos: 0 }),
    {
        ShellExec { timeout: Timeout { secs: TIMEOUT_SECS, nanos: 0 } }
    }
}

impl ShellExec {
    /// The time limit of a command.
    pub closed spec fn limit(&self) -> Timeout {
        self.timeout
    }

    /// A tool with another time limit.
    pub fn with_timeout(timeout: Timeout) -> (r: ShellExec)
        ensures
            r.limit() == timeout,
    {
        ShellExec { timeout }
    }

    /// The time limit of a command.
    pub fn timeout(&self) -> (r: Timeout)
        ensures
            r == self.limit(),
    {
        self.timeout
    }

    pub fn name(&self) -> (r: &'static str)
        ensures
            r@ == "shell_exec"@,
    {
        "shell_exec"
    }

    pub fn description(&self) -> (r: &'static str)
        ensures
            r@
                == "Run a shell command (via $SHELL or /bin/sh) and return its stdout, stderr, and exit status. 60s timeout; output capped at 256KB per stream."@,
    {
        "Run a shell command (via $SHELL or /bin/sh) and return its stdout, stderr, and exit status. 60s timeout; output capped at 256KB per stream."
    }

    /// The JSON schema of the arguments.
    pub fn parameters(&self) -> (r: &'static str)
        ensures
            r@ == PARAMETERS@,
    {
        PARAMETERS
    }

    /// The user approves every command.
    pub fn requires_confirmation(&self) -> (r: bool)
        ensures
            r,
    {
        true
    }

    /// Plans a command: `shell_var` is `$SHELL` where it is set. A relative
    /// working directory is refused.
    pub fn plan(
        &self,
        command: &str,
        cwd: Option<String>,
        cwd_is_absolute: bool,
        shell_var: Option<String>,
    ) -> (r: Result<ShellPlan, ToolError>)
        ensures
            match r {
                Ok(p) => {
                    &&& cwd is None || cwd_is_absolute
                    &&& p.shell@ == (match shell_var {
                        Some(s) => s@,
                        None => "/bin/sh"@,
                    })
                    &&& views(p.args@) == seq!["-c"@, command@]
                    &&& p.cwd == cwd
                },
                Err(e) => cwd matches Some(dir) && !cwd_is_absolute && e@
                    == ToolErrorView::Argument("cwd must be absolute: "@ + dir@),
            },
    {
        if let Some(dir) = &cwd {
            if !cwd_is_absolute {
                let mut text = "cwd must be absolute: ".to_owned();
                text.append(dir.as_str());
                return Err(ToolError::Argument(text));
            }
        }
        let shell = match shell_var {
            Some(s) => s,
            None => "/bin/sh".to_owned(),
        };
        let mut args: Vec<String> = Vec::new();
        args.push("-c".to_owned());
        args.push(command.to_owned());
        assert(views(args@) =~= seq!["-c"@, command@]);
        Ok(ShellPlan { shell, args, cwd })
    }

    /// The error of a shell that did not start.
    pub fn spawn_error(&self, shell: &str, error: &str) -> (r: ToolError)
        ensures
            r@ == ToolErrorView::Runtime("spawn "@ + shell@ + ": "@ + error@),
    {
        let mut text = "spawn ".to_owned();
        text.append(shell);
        text.append(": ");
        text.append(error);
        ToolError::Runtime(text)
    }

    /// The error of a command whose end could not be learned.
    pub fn wait_error(&self, error: &str) -> (r: ToolError)
        ensures
            r@ == ToolErrorView::Runtime("wait: "@ + error@),
    {
        let mut text = "wait: ".to_owned();
        text.append(error);
        ToolError::Runtime(text)
    }

    /// Makes the JSON result of a command that ended or was killed. Output
    /// that came before the kill is part of it.
    pub fn finish(
        &self,
        command: &str,
        end: ShellEnd,
        stdout: &CappedBuffer,
        stderr: &CappedBuffer,
    ) -> (r: String)
        ensures
            r@ == json_object(
                result_fields(command@, self.limit().secs, end, stdout@, stderr@),
            ),
            json_error(r@) is None,
            string_member(r@, "command"@) == Some(command@),
            string_member(r@, "stdout"@) == Some(utf8_lossy(stdout@.bytes)),
            string_member(r@, "stderr"@) == Some(utf8_lossy(stderr@.bytes)),
    {
        let mut fields: Vec<Field> = Vec::new();
        fields.push(text_field("command", command));
        match end {
            ShellEnd::TimedOut => {
                fields.push(bool_field("timedOut", true));
                fields.push(uint_field("timeoutSecs", self.timeout.secs));
            },
            ShellEnd::Exited { code, success } => {
                fields.push(
                    Field {
                        key: "exitCode".to_owned(),
                        value: match code {
                            Some(c) => Scalar::Int(c as i64),
                            None => Scalar::Null,
                        },
                    },
                );
                fields.push(bool_field("success", success));
            },
        }
        let out = lossy_text(stdout.bytes());
        let err = lossy_text(stderr.bytes());
        fields.push(text_field("stdout", out.as_str()));
        fields.push(text_field("stderr", err.as_str()));
        fields.push(bool_field("stdoutTruncated", stdout.truncated()));
        fields.push(bool_field("stderrTruncated", stderr.truncated()));
        assert(views(fields@) =~= result_fields(
            command@,
            self.limit().secs,
            end,
            stdout@,
            stderr@,
        ));
        proof {
            reveal_strlit("command");
            reveal_strlit("timedOut");
            reveal_strlit("timeoutSecs");
            reveal_strlit("exitCode");
            reveal_strlit("success");
            reveal_strlit("stdout");
            reveal_strlit("stderr");
            reveal_strlit("stdoutTruncated");
            reveal_strlit("stderrTruncated");
            assert("stdout"@.len() == 6 && "stderr"@.len() == 6 && "stdout"@[3] != "stderr"@[3]);
            assert("command"@.len() == 7 && "success"@.len() == 7 && "command"@[0]
                != "success"@[0]);
            assert("timedOut"@.len() == 8 && "exitCode"@.len() == 8 && "timeoutSecs"@.len() == 11);
            assert("stdoutTruncated"@.len() == 15 && "stderrTruncated"@.len() == 15);
            let all = views(fields@);
            assert(all[0].key == "command"@ && all[3].key == "stdout"@ && all[4].key == "stderr"@);
            assert(all[5].key == "stdoutTruncated"@ && all[6].key == "stderrTruncated"@);
            assert(is_last_of_key(all, 0));
            assert(is_last_of_key(all, 3));
            assert(is_last_of_key(all, 4));
        }
        let r = object_text(&fields);
        assert(fields@[0].value is Text);
        assert(fields@[3].value is Text);
        assert(fields@[4].value is Text);
        r
    }
}

/// What to kill: the process group of the child where there are process groups
/// and the child is still known, else the child. Process identifiers are
/// signed 32-bit numbers there.
pub fn kill_target(pid: Option<u32>, has_process_groups: bool) -> (r: KillTarget)
    requires
        pid matches Some(p) ==> p <= 0x7fff_ffff,
    ensures
        match pid {
            Some(p) => if has_process_groups {
                r == KillTarget::Group((-(p as int)) as i32) && r->0 == -(p as int)
            } else {
                r == KillTarget::Child
            },
            None => r == KillTarget::Child,
        },
{
    match pid {
        Some(p) => if has_process_groups {
            KillTarget::Group(-(p as i32))
        } else {
            KillTarget::Child
        },
        None => KillTarget::Child,
    }
}

} // verus!
