use rezon::agent::tool::ToolError;
use rezon::agent::tools::capped::{clip, CappedBuffer, CappedReader};
use rezon::agent::tools::file_read::{self, FileRead, FileStat};
use rezon::agent::tools::shell_exec::{
    kill_target, KillTarget, ShellEnd, ShellExec, Timeout, MAX_OUTPUT_BYTES,
};
use rezon::agent::tools::web_fetch::{
    self, judge_scheme, redirect_verdict, report_redirect, RedirectVerdict, WebFetch,
};
use rezon::json::{Json, Member};
use serde_json::Value;

fn json(text: &str) -> Value {
    serde_json::from_str(text).unwrap()
}

// ---- file_read --------------------------------------------------

/// Reads a file as a caller would, from prepared answers of the file system.
fn read(path: &str, stat: Result<FileStat, String>, bytes: Vec<u8>) -> Result<Value, ToolError> {
    let tool = FileRead;
    tool.check_path(path, path.starts_with('/'))?;
    let len = tool.check_stat(path, stat)?;
    let mut got = bytes;
    got.truncate(tool.read_limit() as usize);
    let text = tool.finish(path, len, Ok(got))?;
    Ok(json(&text))
}

fn regular(len: usize) -> Result<FileStat, String> {
    Ok(FileStat { is_dir: false, is_file: true, len: len as u64 })
}

#[test]
fn rejects_relative_paths() {
    let err = read("notes.txt", regular(0), Vec::new()).unwrap_err();
    assert!(err.message().contains("must be absolute"), "{err:?}");
    assert!(matches!(err, ToolError::Argument(s) if s == "path must be absolute: notes.txt"));
}

#[test]
fn reads_a_small_file_whole() {
    let v = read("/d/a.txt", regular(5), b"hello".to_vec()).unwrap();
    assert_eq!(v["content"], "hello");
    assert_eq!(v["size"], 5);
    assert_eq!(v["fileSize"], 5);
    assert_eq!(v["truncated"], false);
    assert_eq!(v["path"], "/d/a.txt");
}

#[test]
fn oversized_file_is_capped_and_flagged() {
    let max = file_read::MAX_BYTES;
    let v = read("/d/big.txt", regular(max * 2), vec![b'x'; max * 2]).unwrap();
    assert_eq!(v["truncated"], true);
    assert_eq!(v["size"], max);
    assert_eq!(v["content"].as_str().unwrap().len(), max);
    assert_eq!(v["fileSize"], (max * 2) as u64);
}

#[test]
fn file_exactly_at_the_cap_is_not_flagged_truncated() {
    let max = file_read::MAX_BYTES;
    let v = read("/d/exact.txt", regular(max), vec![b'x'; max]).unwrap();
    assert_eq!(v["size"], max);
    assert_eq!(v["truncated"], false);
}

#[test]
fn rejects_a_directory() {
    let stat = Ok(FileStat { is_dir: true, is_file: false, len: 0 });
    let err = read("/d", stat, Vec::new()).unwrap_err();
    assert!(err.message().contains("is a directory"), "{err:?}");
}

#[test]
fn missing_file_is_a_stat_error() {
    let err = read("/d/nope.txt", Err("not found".to_string()), Vec::new()).unwrap_err();
    assert!(err.message().contains("stat"), "{err:?}");
    assert!(matches!(err, ToolError::Runtime(s) if s == "stat /d/nope.txt: not found"));
}

#[test]
fn rejects_a_fifo_instead_of_hanging_on_it() {
    let stat = Ok(FileStat { is_dir: false, is_file: false, len: 0 });
    let err = read("/d/pipe", stat, Vec::new()).unwrap_err();
    assert!(err.message().contains("not a regular file"), "{err:?}");
}

#[test]
fn rejects_a_character_device_instead_of_reading_it_forever() {
    let stat = Ok(FileStat { is_dir: false, is_file: false, len: 0 });
    let err = read("/dev/zero", stat, Vec::new()).unwrap_err();
    assert!(err.message().contains("not a regular file"), "{err:?}");
}

#[test]
fn a_failed_read_is_a_runtime_error() {
    let err = FileRead.finish("/x", 1, Err("io".to_string())).unwrap_err();
    assert!(matches!(err, ToolError::Runtime(s) if s == "read /x: io"));
}

#[test]
fn bytes_that_are_no_text_are_replaced() {
    let v = read("/d/bin", regular(3), vec![b'a', 0xff, b'b']).unwrap();
    assert_eq!(v["content"], "a\u{fffd}b");
    assert_eq!(v["size"], 3);
    let v = read("/d/uml", regular(3), "ü\"".as_bytes().to_vec()).unwrap();
    assert_eq!(v["content"], "ü\"");
}

#[test]
fn tools_describe_themselves() {
    assert_eq!(FileRead.name(), "file_read");
    assert!(FileRead.requires_confirmation());
    assert!(FileRead.description().starts_with("Read a UTF-8 text file"));
    assert_eq!(json(FileRead.parameters())["required"][0], "path");
    assert_eq!(json(FileRead.parameters())["properties"]["path"]["type"], "string");
    let shell = ShellExec::default();
    assert_eq!(shell.name(), "shell_exec");
    assert!(shell.description().contains("60s timeout"));
    assert_eq!(json(shell.parameters())["required"][0], "command");
    assert_eq!(
        json(shell.parameters())["properties"]["command"]["description"],
        "Shell command line (e.g. \"ls -la ~/projects | head\")."
    );
    assert_eq!(json(shell.parameters())["properties"]["cwd"]["type"], "string");
    assert_eq!(WebFetch.name(), "web_fetch");
    assert!(WebFetch.description().contains("redirectedTo"));
    assert_eq!(json(WebFetch.parameters())["required"][0], "url");
    assert_eq!(web_fetch::USER_AGENT, "rezon/0.1");
    assert_eq!(web_fetch::TIMEOUT_SECS, 15);
}

// ---- shell_exec -------------------------------------------------

fn output(bytes: &[u8]) -> CappedBuffer {
    let mut b = CappedBuffer::new(MAX_OUTPUT_BYTES);
    for chunk in bytes.chunks(8192) {
        b.feed(chunk);
    }
    b
}

fn ended(code: Option<i32>, success: bool, out: &[u8], err: &[u8]) -> Value {
    let text = ShellExec::default().finish(
        "cmd",
        ShellEnd::Exited { code, success },
        &output(out),
        &output(err),
    );
    json(&text)
}

#[test]
fn captures_stdout_and_exit_status() {
    let v = ended(Some(0), true, b"hello\n", b"");
    assert_eq!(v["stdout"], "hello\n");
    assert_eq!(v["exitCode"], 0);
    assert_eq!(v["success"], true);
    assert_eq!(v["timedOut"], Value::Null);
    assert_eq!(v["command"], "cmd");
}

#[test]
fn captures_stderr_separately_from_stdout() {
    let v = ended(Some(0), true, b"out\n", b"err\n");
    assert_eq!(v["stdout"], "out\n");
    assert_eq!(v["stderr"], "err\n");
}

#[test]
fn nonzero_exit_is_reported_not_errored() {
    let v = ended(Some(3), false, b"", b"");
    assert_eq!(v["exitCode"], 3);
    assert_eq!(v["success"], false);
    let v = ended(None, false, b"", b"");
    assert!(v.as_object().unwrap().contains_key("exitCode"));
    assert_eq!(v["exitCode"], Value::Null);
    let v = ended(Some(-1), false, b"", b"");
    assert_eq!(v["exitCode"], -1);
}

#[test]
fn relative_cwd_is_rejected() {
    let err = ShellExec::default()
        .plan("pwd", Some("relative/dir".to_string()), false, None)
        .unwrap_err();
    assert!(err.message().contains("must be absolute"), "{err:?}");
    assert!(matches!(err, ToolError::Argument(s) if s == "cwd must be absolute: relative/dir"));
}

#[test]
fn absolute_cwd_is_honored() {
    let plan = ShellExec::default()
        .plan("pwd", Some("/tmp".to_string()), true, Some("/bin/zsh".to_string()))
        .unwrap();
    assert_eq!(plan.cwd.as_deref(), Some("/tmp"));
    assert_eq!(plan.shell, "/bin/zsh");
    assert_eq!(plan.args, vec!["-c", "pwd"]);
}

#[test]
fn without_a_shell_variable_the_plain_shell_runs() {
    let plan = ShellExec::default().plan("ls | wc", None, false, None).unwrap();
    assert_eq!(plan.shell, "/bin/sh");
    assert_eq!(plan.args, vec!["-c", "ls | wc"]);
    assert!(plan.cwd.is_none());
}

#[test]
fn overrun_is_killed_and_flagged() {
    let tool = ShellExec::with_timeout(Timeout { secs: 0, nanos: 200_000_000 });
    let v = json(&tool.finish("sleep 30", ShellEnd::TimedOut, &output(b""), &output(b"")));
    assert_eq!(v["timedOut"], true);
    assert_eq!(v["exitCode"], Value::Null);
    assert_eq!(v["timeoutSecs"], 0);
    assert_eq!(ShellExec::default().timeout(), Timeout { secs: 60, nanos: 0 });
}

#[test]
fn partial_output_before_a_timeout_is_still_returned() {
    let tool = ShellExec::default();
    let v = json(&tool.finish("c", ShellEnd::TimedOut, &output(b"early\n"), &output(b"")));
    assert_eq!(v["timedOut"], true);
    assert_eq!(v["stdout"], "early\n");
    assert_eq!(v["timeoutSecs"], 60);
}

#[test]
fn timeout_kills_the_whole_process_group_not_just_the_shell() {
    assert_eq!(kill_target(Some(4242), true), KillTarget::Group(-4242));
    assert_eq!(kill_target(None, true), KillTarget::Child);
    assert_eq!(kill_target(Some(4242), false), KillTarget::Child);
}

#[test]
fn oversized_stdout_is_capped_and_flagged() {
    let v = ended(Some(0), true, &vec![b'x'; MAX_OUTPUT_BYTES * 2], b"");
    assert_eq!(v["stdoutTruncated"], true);
    assert_eq!(v["stdout"].as_str().unwrap().len(), MAX_OUTPUT_BYTES);
    assert_eq!(v["stderrTruncated"], false);
}

#[test]
fn stderr_is_capped_independently_of_stdout() {
    let v = ended(Some(0), true, b"", &vec![b'y'; MAX_OUTPUT_BYTES * 2]);
    assert_eq!(v["stderrTruncated"], true);
    assert_eq!(v["stderr"].as_str().unwrap().len(), MAX_OUTPUT_BYTES);
    assert_eq!(v["stdoutTruncated"], false);
}

#[test]
fn output_exactly_at_the_cap_is_whole() {
    let b = output(&vec![b'x'; MAX_OUTPUT_BYTES]);
    assert!(!b.truncated());
    assert_eq!(b.bytes().len(), MAX_OUTPUT_BYTES);
    let b = output(&vec![b'x'; MAX_OUTPUT_BYTES + 1]);
    assert!(b.truncated());
    assert_eq!(b.bytes().len(), MAX_OUTPUT_BYTES);
}

#[test]
fn the_cut_into_chunks_does_not_matter() {
    let data: Vec<u8> = (0..100u8).collect();
    for size in [1, 3, 7, 50, 100, 200] {
        let mut b = CappedBuffer::new(60);
        let mut r = CappedReader::new(60);
        let mut stopped = false;
        for chunk in data.chunks(size) {
            b.feed(chunk);
            if !stopped {
                stopped = r.feed(chunk);
            }
        }
        assert_eq!(b.bytes(), &data[..60].to_vec());
        assert!(b.truncated());
        let c = r.finish();
        assert!(stopped);
        assert_eq!(c.bytes, data[..60].to_vec());
        assert!(c.truncated);
    }
    let c = clip(data.clone(), 100);
    assert!(!c.truncated && c.bytes.len() == 100);
}

#[test]
fn shell_errors_name_their_step() {
    let tool = ShellExec::default();
    assert!(matches!(
        tool.spawn_error("/bin/x", "gone"),
        ToolError::Runtime(s) if s == "spawn /bin/x: gone"
    ));
    assert!(matches!(tool.wait_error("lost"), ToolError::Runtime(s) if s == "wait: lost"));
}

#[test]
fn shell_exec_requires_confirmation() {
    assert!(ShellExec::default().requires_confirmation());
}

// ---- web_fetch --------------------------------------------------

#[test]
fn rejects_non_http_schemes() {
    for url in [
        "file:///etc/passwd",
        "ftp://example.com/x",
        "data:text/plain,hi",
        "javascript:alert(1)",
    ] {
        let err = WebFetch.check_url(url).unwrap_err();
        let msg = err.message();
        assert!(
            msg.contains("scheme must be http or https"),
            "{url} gave: {msg}"
        );
    }
    let err = WebFetch.check_url("ftp://example.com/x").unwrap_err();
    assert_eq!(
        err.message(),
        "url scheme must be http or https, got `ftp`: ftp://example.com/x"
    );
}

#[test]
fn rejects_unparseable_urls() {
    for url in ["not a url", "http", "://missing-scheme"] {
        let err = WebFetch.check_url(url).unwrap_err();
        assert!(err.message().contains("invalid url"), "{url} gave: {err:?}");
    }
}

#[test]
fn accepts_web_urls() {
    for url in ["http://127.0.0.1:11434/v1", "https://example.com", "HTTPS://EXAMPLE.com/a"] {
        assert!(WebFetch.check_url(url).is_ok(), "{url}");
    }
    assert!(judge_scheme("u", Ok("http".to_string())).is_ok());
    assert!(judge_scheme("u", Ok("HTTP".to_string())).is_err());
    let err = judge_scheme("u", Err("bad".to_string())).unwrap_err();
    assert_eq!(err.message(), "invalid url u: bad");
}

fn url_args(url: Json) -> Json {
    Json::Object(vec![Member { key: "url".to_string(), value: url }])
}

#[test]
fn preview_puts_the_destination_on_its_own_line() {
    let p = WebFetch.preview(&url_args(Json::Text("https://example.com/a".to_string()))).unwrap();
    assert!(p.starts_with("web_fetch  GET\n"));
    assert!(p.contains("https://example.com/a"));
    assert_eq!(p, "web_fetch  GET\n  https://example.com/a");
}

#[test]
fn preview_is_none_without_a_url() {
    assert!(WebFetch.preview(&Json::Object(Vec::new())).is_none());
    assert!(WebFetch.preview(&url_args(Json::Other(Value::from(3)))).is_none());
    assert!(WebFetch.preview(&Json::Other(Value::Array(Vec::new()))).is_none());
    assert!(WebFetch.preview(&Json::Text("url".to_string())).is_none());
}

fn fetched(body_len: usize) -> Value {
    let mut r = CappedReader::new(web_fetch::MAX_BYTES);
    let chunk = vec![b'x'; 64 * 1024];
    let mut sent = 0;
    while sent < body_len {
        let n = chunk.len().min(body_len - sent);
        sent += n;
        if r.feed(&chunk[..n]) {
            break;
        }
    }
    let body = r.finish();
    json(&WebFetch.finish("http://h/", 200, Some("text/plain"), None, &body))
}

#[test]
fn small_body_is_returned_whole_and_not_flagged() {
    let v = fetched(1024);
    assert_eq!(v["status"], 200);
    assert_eq!(v["size"], 1024);
    assert_eq!(v["truncated"], false);
    assert_eq!(v["body"].as_str().unwrap().len(), 1024);
    assert_eq!(v["contentType"], "text/plain");
    assert_eq!(v["redirectedTo"], Value::Null);
}

#[test]
fn oversized_body_stops_at_the_cap_instead_of_buffering_it_all() {
    let max = web_fetch::MAX_BYTES;
    let v = fetched(max * 4);
    assert_eq!(v["truncated"], true);
    let size = v["size"].as_u64().unwrap() as usize;
    assert_eq!(size, max, "read must stop exactly at the cap");
    assert_eq!(v["body"].as_str().unwrap().len(), max);
}

#[test]
fn body_exactly_at_the_cap_is_not_flagged_truncated() {
    let max = web_fetch::MAX_BYTES;
    let v = fetched(max);
    assert_eq!(v["size"], max);
    assert_eq!(
        v["truncated"], false,
        "a body that exactly fills the cap was not truncated"
    );
}

#[test]
fn cross_host_redirect_is_reported_not_followed() {
    assert_eq!(
        redirect_verdict(1, Some("127.0.0.1"), Some("169.254.169.254")),
        RedirectVerdict::Stop
    );
    let to = WebFetch.redirected_to(
        302,
        "http://127.0.0.1:1/",
        Some("http://169.254.169.254/latest/meta-data/"),
    );
    let body = CappedReader::new(web_fetch::MAX_BYTES).finish();
    let v = json(&WebFetch.finish("http://127.0.0.1:1/", 302, None, to, &body));
    assert_eq!(v["status"], 302);
    assert_eq!(
        v["redirectedTo"], "http://169.254.169.254/latest/meta-data/",
        "the blocked destination must be reported so the model can re-ask"
    );
    assert_eq!(v["body"], "");
    assert_eq!(v["contentType"], "");
}

#[test]
fn relative_redirect_location_is_resolved_to_an_absolute_url() {
    let to = WebFetch.redirected_to(302, "http://127.0.0.1:8/a/b", Some("/elsewhere")).unwrap();
    assert!(to.starts_with("http://"), "not absolute: {to}");
    assert_eq!(to, "http://127.0.0.1:8/elsewhere");
    // What cannot be resolved is reported as it was given.
    assert_eq!(
        WebFetch.redirected_to(301, "http://h/", Some("http://[")).as_deref(),
        Some("http://[")
    );
}

#[test]
fn only_redirects_have_a_target() {
    for status in [200, 299, 400, 404] {
        assert_eq!(WebFetch.redirected_to(status, "http://h/", Some("/x")), None);
    }
    assert_eq!(WebFetch.redirected_to(302, "http://h/", None), None);
    assert_eq!(
        report_redirect(399, Some("/x"), Some("http://h/x".to_string())).as_deref(),
        Some("http://h/x")
    );
    assert_eq!(report_redirect(300, Some("/x"), None).as_deref(), Some("/x"));
}

#[test]
fn redirects_follow_within_the_host() {
    assert_eq!(
        redirect_verdict(1, Some("Example.COM"), Some("example.com")),
        RedirectVerdict::Follow
    );
    assert_eq!(
        redirect_verdict(9, Some("h"), Some("h")),
        RedirectVerdict::Follow
    );
    assert_eq!(
        redirect_verdict(10, Some("h"), Some("h")),
        RedirectVerdict::TooMany
    );
    assert_eq!(redirect_verdict(1, Some("h"), None), RedirectVerdict::Stop);
    assert_eq!(redirect_verdict(0, None, Some("h")), RedirectVerdict::Stop);
    // Only ASCII letters lose their case.
    assert_eq!(redirect_verdict(1, Some("É"), Some("é")), RedirectVerdict::Stop);
    assert_eq!(redirect_verdict(1, Some("ab"), Some("abc")), RedirectVerdict::Stop);
}

#[test]
fn web_errors_name_their_step() {
    assert!(matches!(
        WebFetch.request_error("http://h/", "refused"),
        ToolError::Runtime(s) if s == "get http://h/: refused"
    ));
    assert!(matches!(
        WebFetch.body_error("cut"),
        ToolError::Runtime(s) if s == "read body: cut"
    ));
}

#[test]
fn web_fetch_requires_confirmation() {
    assert!(WebFetch.requires_confirmation());
}
