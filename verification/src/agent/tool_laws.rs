//! What the tools check and what they answer.
use vstd::prelude::*;

use crate::agent::message::{ChatMessage, MessageView};
use crate::agent::tool::{CallView, ToolCall, ToolError};
use crate::agent::tools::capped::{
    clip, first, utf8_lossy, CappedBuffer, CappedReader, CappedView, Clipped, ReaderView,
};
use crate::agent::tools::file_read::{FileRead, FileStat};
use crate::agent::tools::shell_exec::{
    kill_target, KillTarget, ShellEnd, ShellExec, ShellPlan, Timeout,
};
use crate::agent::tools::web_fetch::{
    ascii_lower, judge_scheme, redirect_verdict, report_redirect, same_host, url_join, url_scheme,
    RedirectVerdict, WebFetch,
};
use crate::agent::delta::{AgentDelta, DeltaView};
use crate::agent::turn::{calls_in_order, CallTable, TurnAccumulator, TurnView};
use crate::json::{
    error_body, json_error, json_object, string_member, FieldView, Json, ScalarView,
};
use crate::text::views;

verus! {

/// The first bytes are a prefix, as long as the limit allows.
pub proof fn first_bytes_are_a_prefix(s: Seq<u8>, limit: nat)
    ensures
        s.len() <= limit ==> first(s, limit) == s,
        s.len() > limit ==> first(s, limit) == s.take(limit as int) && first(s, limit).len()
            == limit,
{
}

/// Clipping keeps the first bytes up to the cap, and tells whether there were
/// more.
pub proof fn clipping_keeps_the_first_bytes(bytes: Vec<u8>, limit: usize, r: Clipped)
    requires
        call_ensures(clip, (bytes, limit), r),
    ensures
        r.truncated <==> bytes@.len() > limit,
        !r.truncated ==> r.bytes@ == bytes@,
        r.truncated ==> r.bytes@ == bytes@.take(limit as int),
{
}

/// A chunk goes behind what was kept, as far as the cap allows; once bytes
/// were dropped, that stays known.
pub proof fn buffers_keep_the_first_bytes(b: CappedView, chunk: Seq<u8>)
    requires
        b.bytes.len() <= b.limit,
    ensures
        ({
            let n = b.feed(chunk);
            &&& n.limit == b.limit
            &&& b.bytes.len() + chunk.len() <= b.limit ==> n.bytes == b.bytes + chunk
                && n.truncated == b.truncated
            &&& b.bytes.len() + chunk.len() > b.limit ==> n.bytes == (b.bytes + chunk).take(
                b.limit as int,
            ) && n.truncated
        }),
{
}

/// A reader is full once it holds more than the cap, and holds at most one
/// byte more.
pub proof fn readers_stop_one_past_the_cap(r: ReaderView, chunk: Seq<u8>)
    requires
        r.bytes.len() <= r.limit + 1,
    ensures
        ({
            let n = r.feed(chunk);
            &&& n.limit == r.limit
            &&& n.full() <==> r.bytes.len() + chunk.len() > r.limit
            &&& n.bytes == (if r.bytes.len() + chunk.len() <= r.limit + 1 {
                r.bytes + chunk
            } else {
                (r.bytes + chunk).take((r.limit + 1) as int)
            })
        }),
{
}

/// New buffers and readers hold nothing; a finished reader gives what it holds
/// up to the cap.
pub proof fn buffers_begin_empty(
    limit: usize,
    b: CappedBuffer,
    r: CappedReader,
    ended: CappedReader,
    c: Clipped,
)
    requires
        limit < usize::MAX,
        call_ensures(CappedBuffer::new, (limit,), b),
        call_ensures(CappedReader::new, (limit,), r),
        call_ensures(CappedReader::finish, (ended,), c),
    ensures
        b@.limit == limit && b@.bytes.len() == 0 && !b@.truncated,
        r@.limit == limit && r@.bytes.len() == 0,
        c.truncated <==> ended@.bytes.len() > ended@.limit,
        c.bytes@ == (if c.truncated {
            ended@.bytes.take(ended@.limit as int)
        } else {
            ended@.bytes
        }),
{
}

/// A path is refused exactly when it is not absolute.
pub proof fn relative_paths_are_refused(path: &str, absolute: bool, r: Result<(), ToolError>)
    requires
        call_ensures(FileRead::check_path, (&FileRead, path, absolute), r),
    ensures
        absolute ==> r is Ok,
        !absolute ==> r is Err && r->Err_0 is Argument && r->Err_0->Argument_0@
            == "path must be absolute: "@ + path@,
{
}

/// Only a regular file is read; anything else is refused by its kind.
pub proof fn only_regular_files_are_read(
    path: &str,
    stat: Result<FileStat, String>,
    r: Result<u64, ToolError>,
)
    requires
        call_ensures(FileRead::check_stat, (&FileRead, path, stat), r),
    ensures
        r is Ok <==> stat is Ok && !stat->Ok_0.is_dir && stat->Ok_0.is_file,
        r is Ok ==> r->Ok_0 == stat->Ok_0.len,
        stat is Err ==> r->Err_0 is Runtime && r->Err_0->Runtime_0@ == "stat "@ + path@ + ": "@
            + stat->Err_0@,
        stat is Ok && stat->Ok_0.is_dir ==> r->Err_0 is Argument && r->Err_0->Argument_0@
            == "path is a directory: "@ + path@,
        stat is Ok && !stat->Ok_0.is_dir && !stat->Ok_0.is_file ==> r->Err_0 is Argument
            && r->Err_0->Argument_0@ == "not a regular file: "@ + path@,
{
}

/// The result of reading a file holds its path, its size, and its first 256
/// KiB as text, and says whether there was more; enough is read to know that.
pub proof fn files_are_returned_up_to_the_cap(
    path: &str,
    size: u64,
    bytes: Vec<u8>,
    limit: u64,
    r: Result<String, ToolError>,
)
    requires
        call_ensures(FileRead::read_limit, (&FileRead,), limit),
        call_ensures(
            FileRead::finish,
            (&FileRead, path, size, Ok::<Vec<u8>, String>(bytes)),
            r,
        ),
    ensures
        limit == 262_145,
        r is Ok,
        ({
            let cut = bytes@.len() > 262_144;
            let kept = if cut {
                bytes@.take(262_144)
            } else {
                bytes@
            };
            &&& json_error(r->Ok_0@) is None
            &&& string_member(r->Ok_0@, "content"@) == Some(utf8_lossy(kept))
            &&& r->Ok_0@ == json_object(
                seq![
                    FieldView { key: "path"@, value: ScalarView::Text(path@) },
                    FieldView { key: "size"@, value: ScalarView::Int(kept.len() as int) },
                    FieldView { key: "fileSize"@, value: ScalarView::Int(size as int) },
                    FieldView { key: "truncated"@, value: ScalarView::Bool(cut) },
                    FieldView { key: "content"@, value: ScalarView::Text(utf8_lossy(kept)) },
                ],
            )
        }),
{
}

/// A file that could not be read is named, with the reason.
pub proof fn unreadable_files_are_named(
    path: &str,
    size: u64,
    error: String,
    r: Result<String, ToolError>,
)
    requires
        call_ensures(
            FileRead::finish,
            (&FileRead, path, size, Err::<Vec<u8>, String>(error)),
            r,
        ),
    ensures
        r is Err && r->Err_0 is Runtime && r->Err_0->Runtime_0@ == "read "@ + path@ + ": "@
            + error@,
{
}

/// A command is run by the user's shell, or by the standard one, as one
/// argument behind `-c`, in its directory; only a relative directory is
/// refused.
pub proof fn commands_are_run_by_the_shell(
    tool: ShellExec,
    command: &str,
    cwd: Option<String>,
    absolute: bool,
    shell: Option<String>,
    r: Result<ShellPlan, ToolError>,
)
    requires
        call_ensures(ShellExec::plan, (&tool, command, cwd, absolute, shell), r),
    ensures
        r is Ok <==> cwd is None || absolute,
        r is Ok ==> {
            &&& r->Ok_0.args@.len() == 2
            &&& r->Ok_0.args@[0]@ == "-c"@
            &&& r->Ok_0.args@[1]@ == command@
            &&& r->Ok_0.cwd == cwd
            &&& shell is Some ==> r->Ok_0.shell@ == shell->0@
            &&& shell is None ==> r->Ok_0.shell@ == "/bin/sh"@
        },
        r is Err ==> r->Err_0 is Argument && r->Err_0->Argument_0@ == "cwd must be absolute: "@
            + cwd->0@,
{
    if let Ok(p) = r {
        let v = views(p.args@);
        assert(v.len() == 2 && v[0] == "-c"@ && v[1] == command@);
        assert(p.args@[0]@ == v[0] && p.args@[1]@ == v[1]);
    }
}

/// The result of a command holds the command, how it ended, and the output
/// that was kept of each stream, with whether there was more.
pub proof fn commands_are_reported(
    tool: ShellExec,
    command: &str,
    end: ShellEnd,
    out: CappedBuffer,
    err: CappedBuffer,
    r: String,
)
    requires
        call_ensures(ShellExec::finish, (&tool, command, end, &out, &err), r),
    ensures
        json_error(r@) is None,
        string_member(r@, "command"@) == Some(command@),
        string_member(r@, "stdout"@) == Some(utf8_lossy(out@.bytes)),
        string_member(r@, "stderr"@) == Some(utf8_lossy(err@.bytes)),
        ({
            let output = seq![
                FieldView { key: "stdout"@, value: ScalarView::Text(utf8_lossy(out@.bytes)) },
                FieldView { key: "stderr"@, value: ScalarView::Text(utf8_lossy(err@.bytes)) },
                FieldView { key: "stdoutTruncated"@, value: ScalarView::Bool(out@.truncated) },
                FieldView { key: "stderrTruncated"@, value: ScalarView::Bool(err@.truncated) },
            ];
            match end {
                ShellEnd::TimedOut => r@ == json_object(
                    seq![
                        FieldView { key: "command"@, value: ScalarView::Text(command@) },
                        FieldView { key: "timedOut"@, value: ScalarView::Bool(true) },
                        FieldView {
                            key: "timeoutSecs"@,
                            value: ScalarView::Int(tool.limit().secs as int),
                        },
                    ] + output,
                ),
                ShellEnd::Exited { code, success } => r@ == json_object(
                    seq![
                        FieldView { key: "command"@, value: ScalarView::Text(command@) },
                        FieldView {
                            key: "exitCode"@,
                            value: if code is Some {
                                ScalarView::Int(code->0 as int)
                            } else {
                                ScalarView::Null
                            },
                        },
                        FieldView { key: "success"@, value: ScalarView::Bool(success) },
                    ] + output,
                ),
            }
        }),
{
    let output = seq![
        FieldView { key: "stdout"@, value: ScalarView::Text(utf8_lossy(out@.bytes)) },
        FieldView { key: "stderr"@, value: ScalarView::Text(utf8_lossy(err@.bytes)) },
        FieldView { key: "stdoutTruncated"@, value: ScalarView::Bool(out@.truncated) },
        FieldView { key: "stderrTruncated"@, value: ScalarView::Bool(err@.truncated) },
    ];
    let members = crate::agent::tools::shell_exec::result_fields(
        command@,
        tool.limit().secs,
        end,
        out@,
        err@,
    );
    match end {
        ShellEnd::TimedOut => {
            assert(members =~= seq![
                FieldView { key: "command"@, value: ScalarView::Text(command@) },
                FieldView { key: "timedOut"@, value: ScalarView::Bool(true) },
                FieldView {
                    key: "timeoutSecs"@,
                    value: ScalarView::Int(tool.limit().secs as int),
                },
            ] + output);
        },
        ShellEnd::Exited { code, success } => {
            assert(members =~= seq![
                FieldView { key: "command"@, value: ScalarView::Text(command@) },
                FieldView {
                    key: "exitCode"@,
                    value: if code is Some {
                        ScalarView::Int(code->0 as int)
                    } else {
                        ScalarView::Null
                    },
                },
                FieldView { key: "success"@, value: ScalarView::Bool(success) },
            ] + output);
        },
    }
}

/// A command that overruns is killed with its whole process group where that
/// can be addressed.
pub proof fn overrunning_commands_are_killed(pid: Option<u32>, groups: bool, r: KillTarget)
    requires
        pid matches Some(p) ==> p <= 0x7fff_ffff,
        call_ensures(kill_target, (pid, groups), r),
    ensures
        r is Group <==> pid is Some && groups,
        r is Group ==> r->0 + pid->0 == 0,
{
}

/// A shell tool keeps the time limit that it was made with.
pub proof fn time_limits_are_kept(timeout: Timeout, tool: ShellExec, read: Timeout)
    requires
        call_ensures(ShellExec::with_timeout, (timeout,), tool),
        call_ensures(ShellExec::timeout, (&tool,), read),
    ensures
        read == timeout,
        tool.limit() == timeout,
{
}

/// A shell that did not start and a command whose end is not known are told
/// with the reason.
pub proof fn shell_failures_are_told(
    tool: ShellExec,
    shell: &str,
    error: &str,
    spawn: ToolError,
    wait: ToolError,
)
    requires
        call_ensures(ShellExec::spawn_error, (&tool, shell, error), spawn),
        call_ensures(ShellExec::wait_error, (&tool, error), wait),
    ensures
        spawn is Runtime && spawn->Runtime_0@ == "spawn "@ + shell@ + ": "@ + error@,
        wait is Runtime && wait->Runtime_0@ == "wait: "@ + error@,
{
}

/// Whether two characters are the same but for the case of an ASCII letter.
pub open spec fn same_but_for_case(a: char, b: char) -> bool {
    ||| a == b
    ||| 'A' <= a <= 'Z' && b as int == a as int + 32
    ||| 'A' <= b <= 'Z' && a as int == b as int + 32
}

/// Two hosts are the same exactly when they are, character by character, but
/// for the case of ASCII letters.
pub proof fn hosts_are_compared_without_case(a: Seq<char>, b: Seq<char>)
    ensures
        same_host(a, b) <==> a.len() == b.len() && forall|i: int|
            0 <= i < a.len() ==> same_but_for_case(#[trigger] a[i], b[i]),
{
    let lower = |c: char| ascii_lower(c);
    let x = a.map_values(lower);
    let y = b.map_values(lower);
    assert forall|c: char, d: char| #[trigger] same_but_for_case(c, d) <==> ascii_lower(c)
        == ascii_lower(d) by {
        if 'A' <= c <= 'Z' {
            assert(ascii_lower(c) as int == c as int + 32);
        }
        if 'A' <= d <= 'Z' {
            assert(ascii_lower(d) as int == d as int + 32);
        }
    }
    if same_host(a, b) {
        assert(x.len() == y.len());
        assert forall|i: int| 0 <= i < a.len() implies same_but_for_case(
            #[trigger] a[i],
            b[i],
        ) by {
            assert(x[i] == ascii_lower(a[i]) && y[i] == ascii_lower(b[i]));
        }
    }
    if a.len() == b.len() && forall|i: int|
        0 <= i < a.len() ==> same_but_for_case(#[trigger] a[i], b[i]) {
        assert forall|i: int| 0 <= i < x.len() implies x[i] == y[i] by {
            assert(same_but_for_case(a[i], b[i]));
        }
        assert(x =~= y);
    }
}

/// A redirect is followed exactly when fewer than ten requests were made and
/// it stays on the host of the last one; the eleventh request is never made.
pub proof fn redirects_are_followed_on_the_host(
    previous: usize,
    last: Option<&str>,
    next: Option<&str>,
    r: RedirectVerdict,
)
    requires
        call_ensures(redirect_verdict, (previous, last, next), r),
    ensures
        r == RedirectVerdict::TooMany <==> previous >= 10,
        r == RedirectVerdict::Follow <==> previous < 10 && last is Some && next is Some
            && same_host(last->0@, next->0@),
{
}

/// A URL passes exactly when its scheme is `http` or `https`; the refusal says
/// what is at fault.
pub proof fn only_web_schemes_pass(url: &str, scheme: Result<String, String>, r: Result<(), ToolError>)
    requires
        call_ensures(judge_scheme, (url, scheme), r),
    ensures
        r is Ok <==> scheme is Ok && (scheme->Ok_0@ == "http"@ || scheme->Ok_0@ == "https"@),
        scheme is Err ==> r->Err_0 is Argument && r->Err_0->Argument_0@ == "invalid url "@ + url@
            + ": "@ + scheme->Err_0@,
        scheme is Ok && r is Err ==> r->Err_0 is Argument && r->Err_0->Argument_0@
            == "url scheme must be http or https, got `"@ + scheme->Ok_0@ + "`: "@ + url@,
{
}

/// A URL is judged by the scheme that it has.
pub proof fn urls_are_judged_by_their_scheme(url: &str, r: Result<(), ToolError>)
    requires
        call_ensures(WebFetch::check_url, (&WebFetch, url), r),
    ensures
        r is Ok <==> (url_scheme(url@) == Ok::<Seq<char>, Seq<char>>("http"@) || url_scheme(url@)
            == Ok::<Seq<char>, Seq<char>>("https"@)),
{
}

/// A redirect that was not followed is reported exactly when the status says
/// so and a location was given: resolved where it can be, else as it was.
pub proof fn redirects_are_reported(
    status: u16,
    location: Option<&str>,
    resolved: Option<String>,
    r: Option<String>,
)
    requires
        call_ensures(report_redirect, (status, location, resolved), r),
    ensures
        r is Some <==> 300 <= status <= 399 && location is Some,
        r is Some && resolved is Some ==> r->0@ == resolved->0@,
        r is Some && resolved is None ==> r->0@ == location->0@,
{
}

/// A location is resolved against the request that it answers.
pub proof fn locations_are_resolved_against_the_request(
    status: u16,
    url: &str,
    location: &str,
    r: Option<String>,
)
    requires
        call_ensures(WebFetch::redirected_to, (&WebFetch, status, url, Some(location)), r),
    ensures
        r is Some <==> 300 <= status <= 399,
        r is Some ==> r->0@ == (match url_join(url@, location@) {
            Some(j) => j,
            None => location@,
        }),
{
}

/// The preview names the destination that the arguments name.
pub proof fn previews_name_the_destination(args: Json, r: Option<String>)
    requires
        call_ensures(WebFetch::preview, (&WebFetch, &args), r),
    ensures
        r is Some <==> args.text_member("url"@) is Some,
        r is Some ==> r->0@ == "web_fetch  GET\n  "@ + args.text_member("url"@)->0,
{
}

/// A request that failed and a body that could not be read are told with the
/// reason.
pub proof fn fetch_failures_are_told(url: &str, error: &str, request: ToolError, body: ToolError)
    requires
        call_ensures(WebFetch::request_error, (&WebFetch, url, error), request),
        call_ensures(WebFetch::body_error, (&WebFetch, error), body),
    ensures
        request is Runtime && request->Runtime_0@ == "get "@ + url@ + ": "@ + error@,
        body is Runtime && body->Runtime_0@ == "read body: "@ + error@,
{
}

/// The result of a fetch holds the final URL, the status, the kind of the
/// content, the body as text, and what a redirect points to.
pub proof fn fetches_are_reported(
    url: &str,
    status: u16,
    kind: Option<&str>,
    to: Option<String>,
    body: Clipped,
    r: String,
)
    requires
        call_ensures(WebFetch::finish, (&WebFetch, url, status, kind, to, &body), r),
    ensures
        json_error(r@) is None,
        string_member(r@, "body"@) == Some(utf8_lossy(body.bytes@)),
        r@ == json_object(
            seq![
                FieldView { key: "url"@, value: ScalarView::Text(url@) },
                FieldView { key: "status"@, value: ScalarView::Int(status as int) },
                FieldView {
                    key: "contentType"@,
                    value: ScalarView::Text(
                        if kind is Some {
                            kind->0@
                        } else {
                            Seq::empty()
                        },
                    ),
                },
                FieldView { key: "size"@, value: ScalarView::Int(body.bytes@.len() as int) },
                FieldView { key: "truncated"@, value: ScalarView::Bool(body.truncated) },
                FieldView {
                    key: "redirectedTo"@,
                    value: if to is Some {
                        ScalarView::Text(to->0@)
                    } else {
                        ScalarView::Null
                    },
                },
                FieldView { key: "body"@, value: ScalarView::Text(utf8_lossy(body.bytes@)) },
            ],
        ),
{
    let members = crate::agent::tools::web_fetch::result_fields(
        url@,
        status,
        match kind {
            Some(t) => t@,
            None => Seq::empty(),
        },
        body.bytes@,
        body.truncated,
        crate::text::opt_view(to),
    );
    assert(members =~= seq![
        FieldView { key: "url"@, value: ScalarView::Text(url@) },
        FieldView { key: "status"@, value: ScalarView::Int(status as int) },
        FieldView {
            key: "contentType"@,
            value: ScalarView::Text(
                if kind is Some {
                    kind->0@
                } else {
                    Seq::empty()
                },
            ),
        },
        FieldView { key: "size"@, value: ScalarView::Int(body.bytes@.len() as int) },
        FieldView { key: "truncated"@, value: ScalarView::Bool(body.truncated) },
        FieldView {
            key: "redirectedTo"@,
            value: if to is Some {
                ScalarView::Text(to->0@)
            } else {
                ScalarView::Null
            },
        },
        FieldView { key: "body"@, value: ScalarView::Text(utf8_lossy(body.bytes@)) },
    ]);
}

/// The tools have their names, and each asks before it runs.
pub proof fn tools_ask_before_they_run(
    shell: ShellExec,
    names: (&'static str, &'static str, &'static str),
    asks: (bool, bool, bool),
)
    requires
        call_ensures(FileRead::name, (&FileRead,), names.0),
        call_ensures(ShellExec::name, (&shell,), names.1),
        call_ensures(WebFetch::name, (&WebFetch,), names.2),
        call_ensures(FileRead::requires_confirmation, (&FileRead,), asks.0),
        call_ensures(ShellExec::requires_confirmation, (&shell,), asks.1),
        call_ensures(WebFetch::requires_confirmation, (&WebFetch,), asks.2),
    ensures
        names.0@ == "file_read"@,
        names.1@ == "shell_exec"@,
        names.2@ == "web_fetch"@,
        asks.0 && asks.1 && asks.2,
{
}

/// An error is shown by its own text; arguments of the wrong form are told
/// with the reason; a failure's body holds its message.
pub proof fn errors_are_shown_by_their_text(
    e: ToolError,
    message: String,
    error: &str,
    invalid: ToolError,
    body: String,
)
    requires
        call_ensures(ToolError::message, (&e,), message),
        call_ensures(ToolError::invalid_args, (error,), invalid),
        call_ensures(error_body, (error,), body),
    ensures
        e matches ToolError::Argument(s) ==> message@ == s@,
        e matches ToolError::Runtime(s) ==> message@ == s@,
        invalid is Argument && invalid->Argument_0@ == "invalid args: "@ + error@,
        json_error(body@) is None,
        string_member(body@, "error"@) == Some(error@),
{
}

/// System and user messages hold their text.
pub proof fn messages_hold_their_text(content: &str, system: ChatMessage, user: ChatMessage)
    requires
        call_ensures(ChatMessage::system, (content,), system),
        call_ensures(ChatMessage::user, (content,), user),
    ensures
        system@ == (MessageView::System { content: content@ }),
        user@ == (MessageView::User { content: content@ }),
        system is System && system->System_content@ == content@,
        user is User && user->User_content@ == content@,
{
}

/// A delta adds to its own part of a turn and leaves the others: text to the
/// text, reasoning to the reasoning, a fragment to the arguments of its own
/// call when that has begun, a reason to the end.
pub proof fn deltas_add_to_their_part(t: TurnView, d: DeltaView, k: u32)
    ensures
        ({
            let n = t.absorb(d);
            &&& n.content == (match d {
                DeltaView::Content(s) => t.content + s,
                _ => t.content,
            })
            &&& n.thinking == (match d {
                DeltaView::Thinking(s) => t.thinking + s,
                _ => t.thinking,
            })
            &&& n.finish_reason == (match d {
                DeltaView::Done { finish_reason } => finish_reason,
                _ => t.finish_reason,
            })
            &&& n.calls.contains_key(k) <==> t.calls.contains_key(k) || (d is ToolCallStart
                && d->ToolCallStart_index == k)
            &&& d matches DeltaView::ToolCallStart { index, id, name } ==> n.calls[index] == (
            CallView { id, name, arguments: Seq::empty() })
            &&& d matches DeltaView::ToolCallArgs { index, fragment } ==> (t.calls.contains_key(
                index,
            ) ==> n.calls[index].id == t.calls[index].id && n.calls[index].name
                == t.calls[index].name && n.calls[index].arguments == t.calls[index].arguments
                + fragment)
            &&& t.calls.contains_key(k) && !(d is ToolCallStart && d->ToolCallStart_index == k)
                && !(d is ToolCallArgs && d->ToolCallArgs_index == k) ==> n.calls[k] == t.calls[k]
        }),
{
}

/// A turn begins with nothing, and counts as stopped until it is told
/// otherwise.
pub proof fn turns_begin_with_nothing()
    ensures
        TurnView::empty().content.len() == 0,
        TurnView::empty().thinking.len() == 0,
        TurnView::empty().calls == Map::<u32, CallView>::empty(),
        TurnView::empty().finish_reason is Stop,
{
}

/// Buffers and readers take in a chunk as their rules say.
pub proof fn chunks_are_taken_in(
    b: &mut CappedBuffer,
    r: &mut CappedReader,
    chunk: &[u8],
    stop: bool,
)
    requires
        old(b).wf(),
        old(r).wf(),
        call_ensures(CappedBuffer::feed, (b, chunk), ()),
        call_ensures(CappedReader::feed, (r, chunk), stop),
    ensures
        final(b).wf(),
        final(b)@ == old(b)@.feed(chunk@),
        final(r).wf(),
        final(r)@ == old(r)@.feed(chunk@),
        stop <==> final(r)@.bytes.len() > final(r)@.limit,
{
}

/// A turn takes in a delta as its rule says; its calls come out in ascending
/// order of their indexes, all of them.
pub proof fn turns_take_in_deltas(
    turn: &mut TurnAccumulator,
    d: AgentDelta,
    fresh: TurnAccumulator,
    table: CallTable,
    calls: Vec<ToolCall>,
)
    requires
        old(turn).wf(),
        call_ensures(TurnAccumulator::absorb, (turn, &d), ()),
        call_ensures(TurnAccumulator::new, (), fresh),
        table.wf(),
        call_ensures(CallTable::into_calls, (table,), calls),
    ensures
        final(turn).wf(),
        final(turn)@ == old(turn)@.absorb(d@),
        fresh@ == TurnView::empty(),
        views(calls@) == calls_in_order(table@),
{
}

/// The limits of the tools.
pub proof fn limits_are_these()
    ensures
        crate::agent::tools::file_read::MAX_BYTES == 262_144,
        crate::agent::tools::shell_exec::MAX_OUTPUT_BYTES == 262_144,
        crate::agent::tools::shell_exec::TIMEOUT_SECS == 60,
        crate::agent::tools::web_fetch::MAX_BYTES == 1_048_576,
        crate::agent::tools::web_fetch::TIMEOUT_SECS == 15,
        crate::agent::tools::web_fetch::MAX_REDIRECTS == 10,
        crate::agent::tools::web_fetch::USER_AGENT@ == "rezon/0.1"@,
        crate::secrets::SERVICE@ == crate::paths::APP_ID@,
        crate::paths::APP_ID@ == "rezon-tui"@,
{
}

/// What a buffer tells is what it holds.
pub proof fn buffers_tell_what_they_hold(b: CappedBuffer, bytes: &Vec<u8>, truncated: bool)
    requires
        call_ensures(CappedBuffer::bytes, (&b,), bytes),
        call_ensures(CappedBuffer::truncated, (&b,), truncated),
    ensures
        bytes@ == b@.bytes,
        truncated == b@.truncated,
{
}

/// A call is begun afresh under its index; a fragment is added to the
/// arguments of its own call, and to nothing when that was never begun.
pub proof fn tables_keep_calls_by_index(
    begun: &mut CallTable,
    extended: &mut CallTable,
    index: u32,
    id: String,
    name: String,
    fragment: &str,
    other: u32,
)
    requires
        old(begun).wf(),
        old(extended).wf(),
        call_ensures(CallTable::start, (begun, index, id, name), ()),
        call_ensures(CallTable::extend, (extended, index, fragment), ()),
        other != index,
    ensures
        final(begun)@.contains_key(index),
        final(begun)@[index] == (CallView { id: id@, name: name@, arguments: Seq::empty() }),
        final(begun)@.contains_key(other) == old(begun)@.contains_key(other),
        old(begun)@.contains_key(other) ==> final(begun)@[other] == old(begun)@[other],
        final(extended)@.contains_key(index) == old(extended)@.contains_key(index),
        old(extended)@.contains_key(index) ==> final(extended)@[index].arguments == old(
            extended,
        )@[index].arguments + fragment@ && final(extended)@[index].id == old(extended)@[index].id
            && final(extended)@[index].name == old(extended)@[index].name,
        final(extended)@.contains_key(other) == old(extended)@.contains_key(other),
        old(extended)@.contains_key(other) ==> final(extended)@[other] == old(extended)@[other],
{
}

/// Unless it is told otherwise, a shell tool gives a command a minute.
pub proof fn commands_have_a_minute(tool: ShellExec)
    requires
        call_ensures(ShellExec::default, (), tool),
    ensures
        tool.limit().secs == 60,
        tool.limit().nanos == 0,
{
}

/// The model is told what each tool does and where it stops.
pub proof fn tools_describe_themselves(
    shell: ShellExec,
    texts: (&'static str, &'static str, &'static str),
)
    requires
        call_ensures(FileRead::description, (&FileRead,), texts.0),
        call_ensures(ShellExec::description, (&shell,), texts.1),
        call_ensures(WebFetch::description, (&WebFetch,), texts.2),
    ensures
        texts.0@
            == "Read a UTF-8 text file from an absolute path. Returns up to 256KB; larger files are truncated and a `truncated: true` flag is set."@,
        texts.1@
            == "Run a shell command (via $SHELL or /bin/sh) and return its stdout, stderr, and exit status. 60s timeout; output capped at 256KB per stream."@,
        texts.2@
            == "HTTP(S) GET a URL and return status, content-type, and body. Body is decoded as UTF-8 (lossy) and capped at 1MB. Redirects are followed only within the same host; a cross-host redirect returns the 3xx with `redirectedTo` so you can request the new URL explicitly."@,
{
}

} // verus!
