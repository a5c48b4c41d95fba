//! Fetching a URL.
//!
//! The user approves one destination. A redirect is followed only while it
//! stays on the same host; one that leaves it is reported instead, so that the
//! new destination is asked for and approved in its turn. At most 1 MiB of the
//! body is read.
use vstd::prelude::*;

use crate::agent::tool::{ToolError, ToolErrorView};
use crate::agent::tools::capped::{lossy_text, utf8_lossy, Clipped};
use crate::json::{
    bool_field, json_error, json_object, object_text, string_member, text_field, uint_field, Field,
    FieldView, Json, Scalar, ScalarView,
};
use crate::text::{chars_of, opt_view, text_eq, views};

verus! {

/// How many bytes of a body are returned.
pub const MAX_BYTES: usize = 1024 * 1024;

/// The time limit of a request, in seconds.
pub const TIMEOUT_SECS: u64 = 15;

/// How many requests a chain of redirects makes at most, the first included.
pub const MAX_REDIRECTS: usize = 10;

/// The name that requests carry.
pub const USER_AGENT: &'static str = "rezon/0.1";

/// The JSON schema of the arguments.
pub const PARAMETERS: &'static str = "{\"type\":\"object\",\"properties\":{\"url\":{\"type\":\"string\",\"description\":\"Absolute http(s) URL.\"}},\"required\":[\"url\"]}";

/// The scheme of a URL, or the parser's message.
pub uninterp spec fn url_scheme(url: Seq<char>) -> Result<Seq<char>, Seq<char>>;

/// A reference resolved against a URL, where both can be parsed.
pub uninterp spec fn url_join(base: Seq<char>, reference: Seq<char>) -> Option<Seq<char>>;

/// The view of a parsed scheme.
pub open spec fn scheme_view(r: Result<String, String>) -> Result<Seq<char>, Seq<char>> {
    match r {
        Ok(s) => Ok(s@),
        Err(e) => Err(e@),
    }
}

/// Calls `reqwest::Url::parse` and, on its result, `Url::scheme`. Claims that
/// the outcome is a function of the text; the message is the error's
/// `Display`.
#[verifier::external_body]
fn parse_scheme(url: &str) -> (r: Result<String, String>)
    ensures
        scheme_view(r) == url_scheme(url@),
{
    match reqwest::Url::parse(url) {
        Ok(u) => Ok(u.scheme().to_string()),
        Err(e) => Err(e.to_string()),
    }
}

/// Calls `reqwest::Url::parse` on the base and `Url::join` on its result.
/// Claims that the outcome is a function of both texts.
#[verifier::external_body]
fn join_urls(base: &str, reference: &str) -> (r: Option<String>)
    ensures
        opt_view(r) == url_join(base@, reference@),
{
    reqwest::Url::parse(base).ok()?.join(reference).ok().map(String::from)
}

/// Fetches a URL.
pub struct WebFetch;

/// What happens to a redirect.
#[derive(Debug, Clone, Copy, PartialEq, Eq, Structural)]
pub enum RedirectVerdict {
    /// Too many redirects: the request fails.
    TooMany,
    /// Follow it.
    Follow,
    /// Hand the redirect itself back.
    Stop,
}

/// An ASCII letter in lower case, any other character as it is.
pub open spec fn ascii_lower(c: char) -> char {
    if 'A' <= c <= 'Z' {
        (c as u32 + 32) as char
    } else {
        c
    }
}

/// Whether two host names are the same but for the case of ASCII letters.
pub open spec fn same_host(a: Seq<char>, b: Seq<char>) -> bool {
    a.map_values(|c: char| ascii_lower(c)) == b.map_values(|c: char| ascii_lower(c))
}

/// The verdict on a redirect after `previous` requests, from the host of the
/// last one to `next_host`.
pub open spec fn redirect_rule(
    previous: nat,
    last_host: Option<Seq<char>>,
    next_host: Option<Seq<char>>,
) -> RedirectVerdict {
    if previous >= MAX_REDIRECTS {
        RedirectVerdict::TooMany
    } else {
        match (last_host, next_host) {
            (Some(a), Some(b)) if same_host(a, b) => RedirectVerdict::Follow,
            _ => RedirectVerdict::Stop,
        }
    }
}

fn same_letter(a: char, b: char) -> (r: bool)
    ensures
        r == (ascii_lower(a) == ascii_lower(b)),
{
    let x: u32 = if 'A' <= a && a <= 'Z' {
        a as u32 + 32
    } else {
        a as u32
    };
    let y: u32 = if 'A' <= b && b <= 'Z' {
        b as u32 + 32
    } else {
        b as u32
    };
    x == y
}

fn hosts_match(a: &str, b: &str) -> (r: bool)
    ensures
        r == same_host(a@, b@),
{
    let x = chars_of(a);
    let y = chars_of(b);
    let ghost lower = |c: char| ascii_lower(c);
    if x.len() != y.len() {
        assert(a@.map_values(lower).len() != b@.map_values(lower).len());
        return false;
    }
    let mut i: usize = 0;
    while i < x.len()
        invariant
            i <= x.len(),
            x.len() == y.len(),
            x@ == a@,
            y@ == b@,
            lower == (|c: char| ascii_lower(c)),
            forall|j: int| 0 <= j < i ==> ascii_lower(#[trigger] a@[j]) == ascii_lower(b@[j]),
        decreases x.len() - i,
    {
        if !same_letter(x[i], y[i]) {
            assert(a@.map_values(lower)[i as int] != b@.map_values(lower)[i as int]);
            return false;
        }
        i = i + 1;
    }
    assert(a@.map_values(lower) =~= b@.map_values(lower));
    true
}

/// Decides what happens to a redirect.
pub fn redirect_verdict(previous: usize, last_host: Option<&str>, next_host: Option<&str>) -> (r:
    RedirectVerdict)
    ensures
        r == redirect_rule(previous as nat, opt_view(last_host), opt_view(next_host)),
{
    if previous >= MAX_REDIRECTS {
        return RedirectVerdict::TooMany;
    }
    match (last_host, next_host) {
        (Some(a), Some(b)) => {
            if hosts_match(a, b) {
                RedirectVerdict::Follow
            } else {
                RedirectVerdict::Stop
            }
        },
        _ => RedirectVerdict::Stop,
    }
}

/// Whether the redirect from the `i`-th host of a chain to the next one is
/// followed. It comes after `i + 1` requests.
pub open spec fn follows(hosts: Seq<Seq<char>>, i: int) -> bool {
    redirect_rule((i + 1) as nat, Some(hosts[i]), Some(hosts[i + 1])) == RedirectVerdict::Follow
}

/// A chain of followed redirects never leaves the host that was approved, and
/// talks to it a bounded number of times.
pub proof fn followed_redirects_stay_on_the_host(hosts: Seq<Seq<char>>)
    requires
        hosts.len() > 0,
        forall|i: int| 0 <= i < hosts.len() - 1 ==> #[trigger] follows(hosts, i),
    ensures
        forall|k: int| 0 <= k < hosts.len() ==> same_host(hosts[0], #[trigger] hosts[k]),
        hosts.len() <= MAX_REDIRECTS,
    decreases hosts.len(),
{
    if hosts.len() > 1 {
        let front = hosts.drop_last();
        let last = hosts.len() - 1;
        assert forall|i: int| 0 <= i < front.len() - 1 implies #[trigger] follows(front, i) by {
            assert(follows(hosts, i));
        }
        followed_redirects_stay_on_the_host(front);
        assert(follows(hosts, last - 1));
        assert(same_host(front[0], front[last - 1]));
        assert forall|k: int| 0 <= k < hosts.len() implies same_host(
            hosts[0],
            #[trigger] hosts[k],
        ) by {
            if k < last {
                assert(same_host(front[0], front[k]));
            }
        }
    }
}

/// The verdict on a URL whose scheme was read.
pub open spec fn scheme_rule(url: Seq<char>, scheme: Result<Seq<char>, Seq<char>>) -> Option<
    ToolErrorView,
> {
    match scheme {
        Err(e) => Some(ToolErrorView::Argument("invalid url "@ + url + ": "@ + e)),
        Ok(s) => if s == "http"@ || s == "https"@ {
            None
        } else {
            Some(
                ToolErrorView::Argument(
                    "url scheme must be http or https, got `"@ + s + "`: "@ + url,
                ),
            )
        },
    }
}

/// Judges a URL by its scheme, or by the failure to find one.
pub fn judge_scheme(url: &str, scheme: Result<String, String>) -> (r: Result<(), ToolError>)
    ensures
        match r {
            Ok(_) => scheme_rule(url@, scheme_view(scheme)) is None,
            Err(e) => scheme_rule(url@, scheme_view(scheme)) == Some(e@),
        },
{
    match scheme {
        Err(e) => {
            let mut text = "invalid url ".to_owned();
            text.append(url);
            text.append(": ");
            text.append(e.as_str());
            Err(ToolError::Argument(text))
        },
        Ok(s) => {
            if text_eq(s.as_str(), "http") || text_eq(s.as_str(), "https") {
                return Ok(());
            }
            let mut text = "url scheme must be http or https, got `".to_owned();
            text.append(s.as_str());
            text.append("`: ");
            text.append(url);
            Err(ToolError::Argument(text))
        },
    }
}

/// What a redirect status points to: the resolved location where it can be
/// resolved, else the location as it was given.
pub open spec fn redirect_target(
    status: u16,
    location: Option<Seq<char>>,
    joined: Option<Seq<char>>,
) -> Option<Seq<char>> {
    if 300 <= status < 400 {
        match location {
            Some(loc) => match joined {
                Some(j) => Some(j),
                None => Some(loc),
            },
            None => None,
        }
    } else {
        None
    }
}

/// Reports what a redirect points to, from the location and what resolving it
/// against the request came to.
pub fn report_redirect(status: u16, location: Option<&str>, joined: Option<String>) -> (r: Option<
    String,
>)
    ensures
        opt_view(r) == redirect_target(status, opt_view(location), opt_view(joined)),
{
    if status < 300 || status >= 400 {
        return None;
    }
    match location {
        Some(loc) => match joined {
            Some(j) => Some(j),
            None => Some(loc.to_owned()),
        },
        None => None,
    }
}

/// The members of the result.
pub open spec fn result_fields(
    url: Seq<char>,
    status: u16,
    content_type: Seq<char>,
    bytes: Seq<u8>,
    truncated: bool,
    redirected_to: Option<Seq<char>>,
) -> Seq<FieldView> {
    seq![
        FieldView { key: "url"@, value: ScalarView::Text(url) },
        FieldView { key: "status"@, value: ScalarView::Int(status as int) },
        FieldView { key: "contentType"@, value: ScalarView::Text(content_type) },
        FieldView { key: "size"@, value: ScalarView::Int(bytes.len() as int) },
        FieldView { key: "truncated"@, value: ScalarView::Bool(truncated) },
        FieldView {
            key: "redirectedTo"@,
            value: match redirected_to {
                Some(to) => ScalarView::Text(to),
                None => ScalarView::Null,
            },
        },
        FieldView { key: "body"@, value: ScalarView::Text(utf8_lossy(bytes)) },
    ]
}

/// The preview of a fetch.
pub open spec fn preview_text(url: Seq<char>) -> Seq<char> {
    "web_fetch  GET\n  "@ + url
}

impl WebFetch {
    pub fn name(&self) -> (r: &'static str)
        ensures
            r@ == "web_fetch"@,
    {
        "web_fetch"
    }

    pub fn description(&self) -> (r: &'static str)
        ensures
            r@
                == "HTTP(S) GET a URL and return status, content-type, and body. Body is decoded as UTF-8 (lossy) and capped at 1MB. Redirects are followed only within the same host; a cross-host redirect returns the 3xx with `redirectedTo` so you can request the new URL explicitly."@,
    {
        "HTTP(S) GET a URL and return status, content-type, and body. Body is decoded as UTF-8 (lossy) and capped at 1MB. Redirects are followed only within the same host; a cross-host redirect returns the 3xx with `redirectedTo` so you can request the new URL explicitly."
    }

    /// The JSON schema of the arguments.
    pub fn parameters(&self) -> (r: &'static str)
        ensures
            r@ == PARAMETERS@,
    {
        PARAMETERS
    }

    /// The model picks the destination, so the user is asked.
    pub fn requires_confirmation(&self) -> (r: bool)
        ensures
            r,
    {
        true
    }

    /// The destination on a line of its own, from the arguments; nothing when
    /// they name none.
    pub fn preview(&self, args: &Json) -> (r: Option<String>)
        ensures
            opt_view(r) == (match args.text_member("url"@) {
                Some(url) => Some(preview_text(url)),
                None => None,
            }),
    {
        match args.get_text("url") {
            Some(url) => {
                let mut text = "web_fetch  GET\n  ".to_owned();
                text.append(url);
                Some(text)
            },
            None => None,
        }
    }

    /// Refuses what is no URL and what is no `http` or `https` URL.
    pub fn check_url(&self, url: &str) -> (r: Result<(), ToolError>)
        ensures
            match r {
                Ok(_) => scheme_rule(url@, url_scheme(url@)) is None,
                Err(e) => scheme_rule(url@, url_scheme(url@)) == Some(e@),
            },
    {
        judge_scheme(url, parse_scheme(url))
    }

    /// The error of a request that failed.
    pub fn request_error(&self, url: &str, error: &str) -> (r: ToolError)
        ensures
            r@ == ToolErrorView::Runtime("get "@ + url@ + ": "@ + error@),
    {
        let mut text = "get ".to_owned();
        text.append(url);
        text.append(": ");
        text.append(error);
        ToolError::Runtime(text)
    }

    /// The error of a body that could not be read.
    pub fn body_error(&self, error: &str) -> (r: ToolError)
        ensures
            r@ == ToolErrorView::Runtime("read body: "@ + error@),
    {
        let mut text = "read body: ".to_owned();
        text.append(error);
        ToolError::Runtime(text)
    }

    /// Where a redirect that was handed back points to: `url` is the request,
    /// `location` the header, where there is one that is text.
    pub fn redirected_to(&self, status: u16, url: &str, location: Option<&str>) -> (r: Option<
        String,
    >)
        ensures
            opt_view(r) == redirect_target(
                status,
                opt_view(location),
                match location {
                    Some(loc) => url_join(url@, loc@),
                    None => None,
                },
            ),
    {
        let joined = match location {
            Some(loc) => join_urls(url, loc),
            None => None,
        };
        report_redirect(status, location, joined)
    }

    /// Makes the JSON result of a response. `body` was read through a reader
    /// with the cap [`MAX_BYTES`].
    pub fn finish(
        &self,
        final_url: &str,
        status: u16,
        content_type: Option<&str>,
        redirected_to: Option<String>,
        body: &Clipped,
    ) -> (r: String)
        ensures
            r@ == json_object(
                result_fields(
                    final_url@,
                    status,
                    match content_type {
                        Some(t) => t@,
                        None => Seq::empty(),
                    },
                    body.bytes@,
                    body.truncated,
                    opt_view(redirected_to),
                ),
            ),
            json_error(r@) is None,
            string_member(r@, "body"@) == Some(utf8_lossy(body.bytes@)),
    {
        proof {
            reveal_strlit("");
        }
        let kind = match content_type {
            Some(t) => t,
            None => "",
        };
        assert(""@ =~= Seq::empty());
        let text = lossy_text(&body.bytes);
        let mut fields: Vec<Field> = Vec::new();
        let ghost to = opt_view(redirected_to);
        fields.push(text_field("url", final_url));
        fields.push(uint_field("status", status as u64));
        fields.push(text_field("contentType", kind));
        fields.push(uint_field("size", body.bytes.len() as u64));
        fields.push(bool_field("truncated", body.truncated));
        fields.push(
            Field {
                key: "redirectedTo".to_owned(),
                value: match redirected_to {
                    Some(target) => Scalar::Text(target),
                    None => Scalar::Null,
                },
            },
        );
        fields.push(text_field("body", text.as_str()));
        assert(views(fields@) =~= result_fields(
            final_url@,
            status,
            kind@,
            body.bytes@,
            body.truncated,
            to,
        ));
        let r = object_text(&fields);
        assert(fields@[6].value is Text);
        r
    }
}

} // verus!
