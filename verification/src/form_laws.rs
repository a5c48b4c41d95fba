//! The mathematical forms lose nothing: two values of the same form hold the
//! same.
use vstd::prelude::*;

use crate::agent::cloud::{
    RequestMessage, StreamInput, StreamOutput, ToolSpec, WireChoice, WireChunk, WireToolChunk,
};
use crate::agent::delta::{AgentDelta, FinishReason, StreamStats};
use crate::agent::event::AgentEvent;
use crate::agent::loop_::{AgentOutcome, RunInput, RunRequest, RunStep};
use crate::agent::message::ChatMessage;
use crate::agent::tool::{ToolCall, ToolError, ToolInfo};
use crate::model_catalog::{Catalog, CatalogPlan, ProviderCache};
use crate::text::{opt_view, views};
use crate::tui::sink::UiEvent;
use crate::vault::path::PathPart;
use crate::vault::tree::{entries_view, entry_view, VaultEntry};
use crate::vault::wikilink::{CreateFault, LinkInput, LinkRequest};

verus! {

/// Whether two texts that may be missing are the same.
pub open spec fn same_text(a: Option<String>, b: Option<String>) -> bool {
    match (a, b) {
        (Some(x), Some(y)) => x@ == y@,
        (None, None) => true,
        _ => false,
    }
}

proof fn same_views<T: View>(a: Seq<T>, b: Seq<T>)
    requires
        views(a) == views(b),
    ensures
        a.len() == b.len(),
        forall|i: int| 0 <= i < a.len() ==> (#[trigger] a[i])@ == b[i]@,
{
    assert(views(a).len() == a.len() && views(b).len() == b.len());
    assert forall|i: int| 0 <= i < a.len() implies (#[trigger] a[i])@ == b[i]@ by {
        assert(views(a)[i] == a[i]@);
        assert(views(b)[i] == b[i]@);
    }
}

/// Whether two fragments hold the same.
pub open spec fn same_fragment(a: WireToolChunk, b: WireToolChunk) -> bool {
    &&& a.index == b.index
    &&& same_text(a.id, b.id)
    &&& match (a.function, b.function) {
        (Some(f), Some(g)) => same_text(f.name, g.name) && same_text(f.arguments, g.arguments),
        (None, None) => true,
        _ => false,
    }
}

/// The fragments of a choice.
pub open spec fn fragments(c: WireChoice) -> Seq<WireToolChunk> {
    match c.tool_calls {
        Some(t) => t@,
        None => Seq::empty(),
    }
}

/// Chunks of the same form hold the same text, fragments, reasons and counts.
pub proof fn chunks_are_told_apart(a: WireChunk, b: WireChunk, i: int, k: int)
    requires
        a@ == b@,
    ensures
        a.usage == b.usage,
        a.choices@.len() == b.choices@.len(),
        0 <= i < a.choices@.len() ==> {
            &&& same_text(a.choices@[i].content, b.choices@[i].content)
            &&& a.choices@[i].finish_reason == b.choices@[i].finish_reason
            &&& fragments(a.choices@[i]).len() == fragments(b.choices@[i]).len()
            &&& 0 <= k < fragments(a.choices@[i]).len() ==> same_fragment(
                fragments(a.choices@[i])[k],
                fragments(b.choices@[i])[k],
            )
        },
{
    same_views(a.choices@, b.choices@);
    if 0 <= i < a.choices@.len() {
        let (x, y) = (a.choices@[i], b.choices@[i]);
        assert(x@ == y@);
        assert(views(fragments(x)) =~= x@.tool_calls);
        assert(views(fragments(y)) =~= y@.tool_calls);
        same_views(fragments(x), fragments(y));
        if 0 <= k < fragments(x).len() {
            assert(fragments(x)[k]@ == fragments(y)[k]@);
            let (f, g) = (fragments(x)[k], fragments(y)[k]);
            if let (Some(p), Some(q)) = (f.function, g.function) {
                assert(f@.function == Some(p@) && g@.function == Some(q@));
            }
        }
    }
}

/// What goes into a stream and what comes out of it are told apart by their
/// forms.
pub proof fn stream_steps_are_told_apart(
    a: StreamInput,
    b: StreamInput,
    x: StreamOutput,
    y: StreamOutput,
)
    requires
        a@ == b@,
        x@ == y@,
    ensures
        match (a, b) {
            (StreamInput::Poll { cancelled: p }, StreamInput::Poll { cancelled: q }) => p == q,
            (
                StreamInput::Chunk { chunk: c, elapsed_ms: m },
                StreamInput::Chunk { chunk: d, elapsed_ms: n },
            ) => c@ == d@ && m == n,
            (StreamInput::Ended, StreamInput::Ended) => true,
            (StreamInput::Failed(e), StreamInput::Failed(f)) => e@ == f@,
            _ => false,
        },
        match (x, y) {
            (StreamOutput::Emit(d), StreamOutput::Emit(e)) => d@ == e@,
            (StreamOutput::Fail(e), StreamOutput::Fail(f)) => e@ == f@,
            (StreamOutput::Pull, StreamOutput::Pull) => true,
            (StreamOutput::Again, StreamOutput::Again) => true,
            (StreamOutput::End, StreamOutput::End) => true,
            _ => false,
        },
{
}

/// Whether two statistics are the same.
pub open spec fn same_stats(a: StreamStats, b: StreamStats) -> bool {
    &&& a.provider@ == b.provider@
    &&& a.prompt_tokens == b.prompt_tokens
    &&& a.cached_tokens == b.cached_tokens
    &&& a.gen_tokens == b.gen_tokens
    &&& a.duration_ms == b.duration_ms
}

/// Whether two reasons are the same.
pub open spec fn same_reason(a: FinishReason, b: FinishReason) -> bool {
    match (a, b) {
        (FinishReason::Stop, FinishReason::Stop) => true,
        (FinishReason::Length, FinishReason::Length) => true,
        (FinishReason::ToolCalls, FinishReason::ToolCalls) => true,
        (FinishReason::Cancelled, FinishReason::Cancelled) => true,
        (FinishReason::Other(s), FinishReason::Other(t)) => s@ == t@,
        _ => false,
    }
}

/// Deltas of the same form hold the same.
pub proof fn deltas_are_told_apart(a: AgentDelta, b: AgentDelta)
    requires
        a@ == b@,
    ensures
        match (a, b) {
            (AgentDelta::Content(s), AgentDelta::Content(t)) => s@ == t@,
            (AgentDelta::Thinking(s), AgentDelta::Thinking(t)) => s@ == t@,
            (
                AgentDelta::ToolCallStart { index: i, id: p, name: n },
                AgentDelta::ToolCallStart { index: j, id: q, name: m },
            ) => i == j && p@ == q@ && n@ == m@,
            (
                AgentDelta::ToolCallArgs { index: i, fragment: s },
                AgentDelta::ToolCallArgs { index: j, fragment: t },
            ) => i == j && s@ == t@,
            (
                AgentDelta::ToolCallEnd { index: i },
                AgentDelta::ToolCallEnd { index: j },
            ) => i == j,
            (AgentDelta::Stats(s), AgentDelta::Stats(t)) => same_stats(s, t),
            (
                AgentDelta::Done { finish_reason: r },
                AgentDelta::Done { finish_reason: q },
            ) => same_reason(r, q),
            _ => false,
        },
{
}

/// Events of the same form hold the same.
pub proof fn events_are_told_apart(a: AgentEvent, b: AgentEvent)
    requires
        a@ == b@,
    ensures
        match (a, b) {
            (AgentEvent::Token(s), AgentEvent::Token(t)) => s@ == t@,
            (AgentEvent::Thinking(s), AgentEvent::Thinking(t)) => s@ == t@,
            (
                AgentEvent::ToolStart { id: p, name: n },
                AgentEvent::ToolStart { id: q, name: m },
            ) => p@ == q@ && n@ == m@,
            (
                AgentEvent::ToolEnd { id: p, ok: o, result: r, error: e },
                AgentEvent::ToolEnd { id: q, ok: k, result: s, error: f },
            ) => p@ == q@ && o == k && same_text(r, s) && same_text(e, f),
            (AgentEvent::Stats(s), AgentEvent::Stats(t)) => same_stats(s, t),
            (AgentEvent::Done { content: c }, AgentEvent::Done { content: d }) => c@ == d@,
            (AgentEvent::Cancelled, AgentEvent::Cancelled) => true,
            (AgentEvent::Error(e), AgentEvent::Error(f)) => e@ == f@,
            _ => false,
        },
{
}

/// Whether two calls hold the same.
pub open spec fn same_call(a: ToolCall, b: ToolCall) -> bool {
    a.id@ == b.id@ && a.name@ == b.name@ && a.arguments@ == b.arguments@
}

/// Whether two lists of calls hold the same calls.
pub open spec fn same_calls(a: Seq<ToolCall>, b: Seq<ToolCall>) -> bool {
    &&& a.len() == b.len()
    &&& forall|i: int| 0 <= i < a.len() ==> same_call(#[trigger] a[i], b[i])
}

proof fn call_lists_are_told_apart(a: Seq<ToolCall>, b: Seq<ToolCall>)
    requires
        views(a) == views(b),
    ensures
        same_calls(a, b),
{
    same_views(a, b);
    assert forall|i: int| 0 <= i < a.len() implies same_call(#[trigger] a[i], b[i]) by {
        assert(a[i]@ == b[i]@);
    }
}

/// Messages of the same form hold the same, in the history and in a request.
pub proof fn messages_are_told_apart(
    a: ChatMessage,
    b: ChatMessage,
    x: RequestMessage,
    y: RequestMessage,
)
    requires
        a@ == b@,
        x@ == y@,
    ensures
        match (a, b) {
            (ChatMessage::System { content: c }, ChatMessage::System { content: d }) => c@ == d@,
            (ChatMessage::User { content: c }, ChatMessage::User { content: d }) => c@ == d@,
            (
                ChatMessage::Assistant { content: c, tool_calls: t },
                ChatMessage::Assistant { content: d, tool_calls: u },
            ) => c@ == d@ && same_calls(t@, u@),
            (
                ChatMessage::Tool { tool_call_id: i, content: c },
                ChatMessage::Tool { tool_call_id: j, content: d },
            ) => i@ == j@ && c@ == d@,
            _ => false,
        },
        match (x, y) {
            (
                RequestMessage::System { content: c },
                RequestMessage::System { content: d },
            ) => c@ == d@,
            (RequestMessage::User { content: c }, RequestMessage::User { content: d }) => c@
                == d@,
            (
                RequestMessage::Assistant { content: c, tool_calls: t },
                RequestMessage::Assistant { content: d, tool_calls: u },
            ) => c@ == d@ && (match (t, u) {
                (Some(v), Some(w)) => same_calls(v@, w@),
                (None, None) => true,
                _ => false,
            }),
            (
                RequestMessage::Tool { tool_call_id: i, content: c },
                RequestMessage::Tool { tool_call_id: j, content: d },
            ) => i@ == j@ && c@ == d@,
            _ => false,
        },
{
    if let (
        ChatMessage::Assistant { tool_calls: t, .. },
        ChatMessage::Assistant { tool_calls: u, .. },
    ) = (a, b) {
        call_lists_are_told_apart(t@, u@);
    }
    if let (
        RequestMessage::Assistant { tool_calls: Some(t), .. },
        RequestMessage::Assistant { tool_calls: Some(u), .. },
    ) = (x, y) {
        call_lists_are_told_apart(t@, u@);
    }
}

/// Whether two errors of a tool are the same.
pub open spec fn same_error(a: ToolError, b: ToolError) -> bool {
    match (a, b) {
        (ToolError::Argument(s), ToolError::Argument(t)) => s@ == t@,
        (ToolError::Runtime(s), ToolError::Runtime(t)) => s@ == t@,
        _ => false,
    }
}

/// What goes into a run is told apart by its form.
pub proof fn run_inputs_are_told_apart(a: RunInput, b: RunInput)
    requires
        a@ == b@,
    ensures
        match (a, b) {
            (RunInput::CancelFlag(p), RunInput::CancelFlag(q)) => p == q,
            (RunInput::StreamOpened, RunInput::StreamOpened) => true,
            (RunInput::StreamRefused(e), RunInput::StreamRefused(f)) => e@ == f@,
            (RunInput::Delta(d), RunInput::Delta(e)) => d@ == e@,
            (RunInput::StreamFailed(e), RunInput::StreamFailed(f)) => e@ == f@,
            (RunInput::StreamEnded, RunInput::StreamEnded) => true,
            (RunInput::GateAnswer(o), RunInput::GateAnswer(p)) => o == p,
            (RunInput::ToolFinished(Ok(s)), RunInput::ToolFinished(Ok(t))) => s@ == t@,
            (RunInput::ToolFinished(Err(e)), RunInput::ToolFinished(Err(f))) => same_error(e, f),
            _ => false,
        },
{
}

/// What comes out of a run is told apart by its form.
pub proof fn run_steps_are_told_apart(a: RunStep, b: RunStep, i: int)
    requires
        a@ == b@,
    ensures
        a.events@.len() == b.events@.len(),
        0 <= i < a.events@.len() ==> a.events@[i]@ == b.events@[i]@,
        match (a.request, b.request) {
            (RunRequest::ReadCancelFlag, RunRequest::ReadCancelFlag) => true,
            (RunRequest::OpenStream, RunRequest::OpenStream) => true,
            (RunRequest::NextDelta, RunRequest::NextDelta) => true,
            (
                RunRequest::AskGate { call: c, preview_args: p },
                RunRequest::AskGate { call: d, preview_args: q },
            ) => same_call(c, d) && same_text(p, q),
            (
                RunRequest::Dispatch { name: n, arguments: s },
                RunRequest::Dispatch { name: m, arguments: t },
            ) => n@ == m@ && s@ == t@,
            (
                RunRequest::Finish(Ok(AgentOutcome::Final(s))),
                RunRequest::Finish(Ok(AgentOutcome::Final(t))),
            ) => s@ == t@,
            (
                RunRequest::Finish(Ok(AgentOutcome::Cancelled)),
                RunRequest::Finish(Ok(AgentOutcome::Cancelled)),
            ) => true,
            (RunRequest::Finish(Err(e)), RunRequest::Finish(Err(f))) => e@ == f@,
            _ => false,
        },
{
    same_views(a.events@, b.events@);
    assert(a.request@ == b.request@);
}

/// What goes into a search for a link is told apart by its form.
pub proof fn link_inputs_are_told_apart(a: LinkInput, b: LinkInput)
    requires
        a@ == b@,
    ensures
        match (a, b) {
            (LinkInput::RootIsDir(p), LinkInput::RootIsDir(q)) => p == q,
            (
                LinkInput::Direct { is_file: f, path: p, file_name: n },
                LinkInput::Direct { is_file: g, path: q, file_name: m },
            ) => f == g && p@ == q@ && same_text(n, m),
            (LinkInput::Contained(Ok(_)), LinkInput::Contained(Ok(_))) => true,
            (LinkInput::Contained(Err(e)), LinkInput::Contained(Err(f))) => e@ == f@,
            (LinkInput::Found(p), LinkInput::Found(q)) => same_text(p, q),
            (LinkInput::Created(Ok(_)), LinkInput::Created(Ok(_))) => true,
            (
                LinkInput::Created(Err(CreateFault::Mkdir(e))),
                LinkInput::Created(Err(CreateFault::Mkdir(f))),
            ) => e@ == f@,
            (
                LinkInput::Created(Err(CreateFault::Write(e))),
                LinkInput::Created(Err(CreateFault::Write(f))),
            ) => e@ == f@,
            _ => false,
        },
{
}

/// What comes out of a search for a link is told apart by its form.
pub proof fn link_requests_are_told_apart(a: LinkRequest, b: LinkRequest)
    requires
        a@ == b@,
    ensures
        match (a, b) {
            (LinkRequest::CheckRoot, LinkRequest::CheckRoot) => true,
            (
                LinkRequest::ProbeDirect { relative: r, target: t },
                LinkRequest::ProbeDirect { relative: s, target: u },
            ) => r@ == s@ && t@ == u@,
            (LinkRequest::CheckContained, LinkRequest::CheckContained) => true,
            (LinkRequest::SearchStem { stem: s }, LinkRequest::SearchStem { stem: t }) => s@
                == t@,
            (LinkRequest::CreateNote, LinkRequest::CreateNote) => true,
            (LinkRequest::Finish(Ok(l)), LinkRequest::Finish(Ok(m))) => l.path@ == m.path@
                && l.created == m.created,
            (LinkRequest::Finish(Err(e)), LinkRequest::Finish(Err(f))) => e@ == f@,
            _ => false,
        },
{
}

/// Catalogs, plans and cached lists of the same form hold the same.
pub proof fn catalogs_are_told_apart(
    a: Catalog,
    b: Catalog,
    p: ProviderCache,
    q: ProviderCache,
    x: CatalogPlan,
    y: CatalogPlan,
)
    requires
        a@ == b@,
        p@ == q@,
        x@ == y@,
    ensures
        views(a.recommended@) == views(b.recommended@),
        views(a.fetched@) == views(b.fetched@),
        a.source == b.source,
        a.fetched_at == b.fetched_at,
        same_text(a.error, b.error),
        p.fetched_at == q.fetched_at,
        p.key_fingerprint@ == q.key_fingerprint@,
        views(p.models@) == views(q.models@),
        match (x, y) {
            (CatalogPlan::Answer(c), CatalogPlan::Answer(d)) => c@ == d@,
            (
                CatalogPlan::Fetch { api_key: k, key_fingerprint: f },
                CatalogPlan::Fetch { api_key: l, key_fingerprint: g },
            ) => k@ == l@ && f@ == g@,
            _ => false,
        },
{
    assert(opt_view(a.error) == opt_view(b.error));
}

/// Events for the terminal of the same form hold the same.
pub proof fn terminal_events_are_told_apart<T, M>(a: UiEvent<T, M>, b: UiEvent<T, M>)
    requires
        a@ == b@,
    ensures
        match (a, b) {
            (UiEvent::Token(s), UiEvent::Token(t)) => s@ == t@,
            (UiEvent::Thinking(s), UiEvent::Thinking(t)) => s@ == t@,
            (UiEvent::Stats(s), UiEvent::Stats(t)) => s == t,
            (UiEvent::Done, UiEvent::Done) => true,
            (UiEvent::Error(e), UiEvent::Error(f)) => e@ == f@,
            (UiEvent::ToolStart { name: n }, UiEvent::ToolStart { name: m }) => n@ == m@,
            (
                UiEvent::ToolEnd { ok: o, summary: s },
                UiEvent::ToolEnd { ok: p, summary: t },
            ) => o == p && s@ == t@,
            (
                UiEvent::Confirm { name: n, arguments: s, preview: p, tx: x },
                UiEvent::Confirm { name: m, arguments: t, preview: q, tx: y },
            ) => n@ == m@ && s@ == t@ && same_text(p, q) && x == y,
            (UiEvent::AgentHistory(h), UiEvent::AgentHistory(k)) => h@ == k@,
            _ => false,
        },
{
}

/// Tools and parts of paths of the same form hold the same.
pub proof fn tools_and_parts_are_told_apart<'a>(
    a: ToolInfo,
    b: ToolInfo,
    s: ToolSpec<'a>,
    t: ToolSpec<'a>,
    p: PathPart,
    q: PathPart,
)
    requires
        a@ == b@,
        s@ == t@,
        p@ == q@,
    ensures
        a.name@ == b.name@,
        a.description@ == b.description@,
        a.requires_confirmation == b.requires_confirmation,
        s.name@ == t.name@,
        same_text(s.description, t.description),
        s.parameters is Some <==> t.parameters is Some,
        s.parameters is Some ==> *s.parameters->0 == *t.parameters->0,
        match (p, q) {
            (PathPart::Prefix(x), PathPart::Prefix(y)) => x@ == y@,
            (PathPart::Root, PathPart::Root) => true,
            (PathPart::Current, PathPart::Current) => true,
            (PathPart::Parent, PathPart::Parent) => true,
            (PathPart::Normal(x), PathPart::Normal(y)) => x@ == y@,
            _ => false,
        },
{
    assert(opt_view(s.description) == opt_view(t.description));
}

/// Entries of the tree of the same form hold the same, down to the last.
pub proof fn entries_are_told_apart(a: VaultEntry, b: VaultEntry)
    requires
        entry_view(a) == entry_view(b),
    ensures
        match (a, b) {
            (
                VaultEntry::File { name: n, path: p },
                VaultEntry::File { name: m, path: q },
            ) => n@ == m@ && p@ == q@,
            (
                VaultEntry::Dir { name: n, path: p, children: c },
                VaultEntry::Dir { name: m, path: q, children: d },
            ) => n@ == m@ && p@ == q@ && entries_view(c@) == entries_view(d@),
            _ => false,
        },
{
    if let (
        VaultEntry::Dir { children: c, .. },
        VaultEntry::Dir { children: d, .. },
    ) = (a, b) {
        let (v, w) = (entry_view(a)->children, entry_view(b)->children);
        assert(v.len() == c@.len() && w.len() == d@.len());
        assert forall|i: int| 0 <= i < c@.len() implies entry_view(#[trigger] c@[i])
            == entry_view(d@[i]) by {
            assert(v[i] == entry_view(c@[i]));
            assert(w[i] == entry_view(d@[i]));
        }
        assert(entries_view(c@) =~= entries_view(d@));
    }
}

/// A copy has the form of what it was made of.
pub proof fn copies_have_the_same_form(
    call: ToolCall,
    message: ChatMessage,
    delta: AgentDelta,
    event: AgentEvent,
    info: ToolInfo,
    part: PathPart,
    copies: (ToolCall, ChatMessage, AgentDelta, AgentEvent, ToolInfo, PathPart),
)
    requires
        call_ensures(ToolCall::clone, (&call,), copies.0),
        call_ensures(ChatMessage::clone, (&message,), copies.1),
        call_ensures(AgentDelta::clone, (&delta,), copies.2),
        call_ensures(AgentEvent::clone, (&event,), copies.3),
        call_ensures(ToolInfo::clone, (&info,), copies.4),
        call_ensures(PathPart::clone, (&part,), copies.5),
    ensures
        copies.0@ == call@,
        copies.1@ == message@,
        copies.2@ == delta@,
        copies.3@ == event@,
        copies.4@ == info@,
        copies.5@ == part@,
{
}

} // verus!
