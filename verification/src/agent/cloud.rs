//! The cloud provider: what goes into a chat-completions request, and how the
//! chunks that come back map onto the normalized deltas.
//!
//! [`ChunkState`] is the deciding half of the delta stream. Whoever holds the
//! connection polls it, pulls from upstream when it says so, and hands it what
//! came.
use std::collections::VecDeque;
use vstd::prelude::*;

use crate::agent::delta::{AgentDelta, DeltaView, FinishReason, FinishView, StatsView, StreamStats};
use crate::agent::message::{ChatMessage, MessageView};
use crate::agent::tool::{copy_calls, CallView, ToolCall};
use crate::json::Json;
use crate::text::{opt_view, views, views_push};

verus! {

/// Why the upstream says that a choice ended.
#[derive(Debug, Clone, Copy, PartialEq, Eq, Structural)]
pub enum WireFinish {
    Stop,
    Length,
    ToolCalls,
    ContentFilter,
    FunctionCall,
}

/// The normalized form of an upstream finish reason.
pub open spec fn finish_of(r: WireFinish) -> FinishView {
    match r {
        WireFinish::Stop => FinishView::Stop,
        WireFinish::Length => FinishView::Length,
        WireFinish::ToolCalls => FinishView::ToolCalls,
        WireFinish::ContentFilter => FinishView::Other("content_filter"@),
        WireFinish::FunctionCall => FinishView::Other("function_call"@),
    }
}

/// Normalizes an upstream finish reason.
pub fn map_finish_reason(r: WireFinish) -> (out: FinishReason)
    ensures
        out@ == finish_of(r),
{
    match r {
        WireFinish::Stop => FinishReason::Stop,
        WireFinish::Length => FinishReason::Length,
        WireFinish::ToolCalls => FinishReason::ToolCalls,
        WireFinish::ContentFilter => FinishReason::Other("content_filter".to_owned()),
        WireFinish::FunctionCall => FinishReason::Other("function_call".to_owned()),
    }
}

/// The function part of a tool-call fragment.
#[derive(Debug)]
pub struct WireFunction {
    pub name: Option<String>,
    pub arguments: Option<String>,
}

/// Mathematical form of a [`WireFunction`].
pub struct FunctionView {
    pub name: Option<Seq<char>>,
    pub arguments: Option<Seq<char>>,
}

impl View for WireFunction {
    type V = FunctionView;

    open spec fn view(&self) -> FunctionView {
        FunctionView { name: opt_view(self.name), arguments: opt_view(self.arguments) }
    }
}

/// A fragment of a tool call. The first one for an index carries the call's
/// identifier and the tool's name, later ones argument text only.
#[derive(Debug)]
pub struct WireToolChunk {
    pub index: u32,
    pub id: Option<String>,
    pub function: Option<WireFunction>,
}

/// Mathematical form of a [`WireToolChunk`].
pub struct ToolChunkView {
    pub index: u32,
    pub id: Option<Seq<char>>,
    pub function: Option<FunctionView>,
}

impl View for WireToolChunk {
    type V = ToolChunkView;

    open spec fn view(&self) -> ToolChunkView {
        ToolChunkView {
            index: self.index,
            id: opt_view(self.id),
            function: opt_view(self.function),
        }
    }
}

/// One choice of a chunk.
#[derive(Debug)]
pub struct WireChoice {
    pub content: Option<String>,
    pub tool_calls: Option<Vec<WireToolChunk>>,
    pub finish_reason: Option<WireFinish>,
}

/// Mathematical form of a [`WireChoice`]. A choice without tool calls has the
/// same form as one with an empty list of them.
pub struct ChoiceView {
    pub content: Option<Seq<char>>,
    pub tool_calls: Seq<ToolChunkView>,
    pub finish_reason: Option<WireFinish>,
}

impl View for WireChoice {
    type V = ChoiceView;

    open spec fn view(&self) -> ChoiceView {
        ChoiceView {
            content: opt_view(self.content),
            tool_calls: match self.tool_calls {
                Some(t) => views(t@),
                None => Seq::empty(),
            },
            finish_reason: self.finish_reason,
        }
    }
}

/// The token counts that the upstream reports.
#[derive(Debug, Clone, Copy)]
pub struct WireUsage {
    pub prompt_tokens: u32,
    pub completion_tokens: u32,
    pub cached_tokens: Option<u32>,
}

/// One chunk of the upstream's stream.
#[derive(Debug)]
pub struct WireChunk {
    pub choices: Vec<WireChoice>,
    pub usage: Option<WireUsage>,
}

/// Mathematical form of a [`WireChunk`].
pub struct ChunkView {
    pub choices: Seq<ChoiceView>,
    pub usage: Option<WireUsage>,
}

impl View for WireChunk {
    type V = ChunkView;

    open spec fn view(&self) -> ChunkView {
        ChunkView { choices: views(self.choices@), usage: self.usage }
    }
}

/// One piece of information in a chunk.
pub enum Atom {
    Content(Seq<char>),
    Tool(ToolChunkView),
    /// The token counts, with the milliseconds since the request.
    Usage(WireUsage, u64),
}

/// The pieces of a choice, in order.
pub open spec fn choice_atoms(c: ChoiceView) -> Seq<Atom> {
    (match c.content {
        Some(s) => seq![Atom::Content(s)],
        None => Seq::empty(),
    }) + tool_atoms(c.tool_calls)
}

/// The tool-call fragments as pieces.
pub open spec fn tool_atoms(t: Seq<ToolChunkView>) -> Seq<Atom> {
    t.map_values(|c: ToolChunkView| Atom::Tool(c))
}

/// The pieces of several choices, in order.
pub open spec fn choices_atoms(c: Seq<ChoiceView>) -> Seq<Atom>
    decreases c.len(),
{
    if c.len() == 0 {
        Seq::empty()
    } else {
        choices_atoms(c.drop_last()) + choice_atoms(c.last())
    }
}

/// The pieces of a chunk, in order: its choices, then the token counts.
pub open spec fn chunk_atoms(c: ChunkView, elapsed_ms: u64) -> Seq<Atom> {
    choices_atoms(c.choices) + (match c.usage {
        Some(u) => seq![Atom::Usage(u, elapsed_ms)],
        None => Seq::empty(),
    })
}

/// The call indexes that have been met once these pieces have passed.
pub open spec fn seen_after(seen: Set<u32>, atoms: Seq<Atom>) -> Set<u32>
    decreases atoms.len(),
{
    if atoms.len() == 0 {
        seen
    } else {
        match atoms.last() {
            Atom::Tool(t) => seen_after(seen, atoms.drop_last()).insert(t.index),
            _ => seen_after(seen, atoms.drop_last()),
        }
    }
}

/// An optional text, empty when absent.
pub open spec fn or_empty(s: Option<Seq<char>>) -> Seq<char> {
    match s {
        Some(t) => t,
        None => Seq::empty(),
    }
}

/// The argument text that a fragment carries.
pub open spec fn fragment_of(t: ToolChunkView) -> Seq<char> {
    match t.function {
        Some(f) => or_empty(f.arguments),
        None => Seq::empty(),
    }
}

/// The tool name that a fragment carries.
pub open spec fn name_of(t: ToolChunkView) -> Seq<char> {
    match t.function {
        Some(f) => or_empty(f.name),
        None => Seq::empty(),
    }
}

/// The deltas of one piece. Empty text gives none. The first fragment for an
/// index begins the call; every fragment may carry arguments.
pub open spec fn atom_deltas(label: Seq<char>, seen: Set<u32>, a: Atom) -> Seq<DeltaView> {
    match a {
        Atom::Content(s) => if s.len() > 0 {
            seq![DeltaView::Content(s)]
        } else {
            Seq::empty()
        },
        Atom::Tool(t) => (if seen.contains(t.index) {
            Seq::empty()
        } else {
            seq![DeltaView::ToolCallStart { index: t.index, id: or_empty(t.id), name: name_of(t) }]
        }) + (if fragment_of(t).len() > 0 {
            seq![DeltaView::ToolCallArgs { index: t.index, fragment: fragment_of(t) }]
        } else {
            Seq::empty()
        }),
        Atom::Usage(u, elapsed_ms) => seq![
            DeltaView::Stats(
                StatsView {
                    provider: label,
                    prompt_tokens: Some(u.prompt_tokens),
                    cached_tokens: u.cached_tokens,
                    gen_tokens: u.completion_tokens,
                    duration_ms: elapsed_ms,
                },
            ),
        ],
    }
}

/// The deltas of several pieces, in order.
pub open spec fn deltas_of(label: Seq<char>, seen: Set<u32>, atoms: Seq<Atom>) -> Seq<DeltaView>
    decreases atoms.len(),
{
    if atoms.len() == 0 {
        Seq::empty()
    } else {
        deltas_of(label, seen, atoms.drop_last()) + atom_deltas(
            label,
            seen_after(seen, atoms.drop_last()),
            atoms.last(),
        )
    }
}

/// The finish reason in force after these choices: the last one given.
pub open spec fn last_finish(before: Option<WireFinish>, c: Seq<ChoiceView>) -> Option<WireFinish>
    decreases c.len(),
{
    if c.len() == 0 {
        before
    } else {
        match c.last().finish_reason {
            Some(r) => Some(r),
            None => last_finish(before, c.drop_last()),
        }
    }
}

/// Mathematical form of a [`ChunkState`].
#[verifier::ext_equal]
pub struct StreamView {
    pub label: Seq<char>,
    /// Deltas that wait to be emitted, the next one first.
    pub queue: Seq<DeltaView>,
    /// The call indexes that have been met.
    pub seen: Set<u32>,
    pub finish: Option<WireFinish>,
    pub done_emitted: bool,
}

/// What is handed to a [`ChunkState`].
#[derive(Debug)]
pub enum StreamInput {
    /// The consumer asks for the next delta.
    Poll { cancelled: bool },
    /// The upstream sent a chunk.
    Chunk { chunk: WireChunk, elapsed_ms: u64 },
    /// The upstream ended.
    Ended,
    /// The upstream failed.
    Failed(String),
}

/// Mathematical form of a [`StreamInput`].
pub enum StreamInputView {
    Poll { cancelled: bool },
    Chunk { chunk: ChunkView, elapsed_ms: u64 },
    Ended,
    Failed(Seq<char>),
}

impl View for StreamInput {
    type V = StreamInputView;

    open spec fn view(&self) -> StreamInputView {
        match self {
            StreamInput::Poll { cancelled } => StreamInputView::Poll { cancelled: *cancelled },
            StreamInput::Chunk { chunk, elapsed_ms } => StreamInputView::Chunk {
                chunk: chunk@,
                elapsed_ms: *elapsed_ms,
            },
            StreamInput::Ended => StreamInputView::Ended,
            StreamInput::Failed(e) => StreamInputView::Failed(e@),
        }
    }
}

/// What a [`ChunkState`] wants done.
#[derive(Debug)]
pub enum StreamOutput {
    /// Give the consumer this delta.
    Emit(AgentDelta),
    /// Give the consumer this failure.
    Fail(String),
    /// Pull from upstream and hand over what came.
    Pull,
    /// Poll again: the chunk was taken in.
    Again,
    /// The stream is over.
    End,
}

/// Mathematical form of a [`StreamOutput`].
pub enum StreamOutputView {
    Emit(DeltaView),
    Fail(Seq<char>),
    Pull,
    Again,
    End,
}

impl View for StreamOutput {
    type V = StreamOutputView;

    open spec fn view(&self) -> StreamOutputView {
        match self {
            StreamOutput::Emit(d) => StreamOutputView::Emit(d@),
            StreamOutput::Fail(e) => StreamOutputView::Fail(e@),
            StreamOutput::Pull => StreamOutputView::Pull,
            StreamOutput::Again => StreamOutputView::Again,
            StreamOutput::End => StreamOutputView::End,
        }
    }
}

impl StreamView {
    /// Whether `input` can come now: the upstream is pulled only when nothing
    /// waits to be emitted.
    pub open spec fn accepts(self, input: StreamInputView) -> bool {
        input is Poll || self.queue.len() == 0
    }

    /// Ends with `reason`, once.
    pub open spec fn close(self, reason: FinishView) -> (StreamView, StreamOutputView) {
        if self.done_emitted {
            (self, StreamOutputView::End)
        } else {
            (
                StreamView { done_emitted: true, ..self },
                StreamOutputView::Emit(DeltaView::Done { finish_reason: reason }),
            )
        }
    }

    /// What `input` leads to.
    pub open spec fn react(self, input: StreamInputView) -> (StreamView, StreamOutputView) {
        match input {
            StreamInputView::Poll { cancelled } => if self.queue.len() > 0 {
                (
                    StreamView { queue: self.queue.skip(1), ..self },
                    StreamOutputView::Emit(self.queue[0]),
                )
            } else if cancelled {
                self.close(FinishView::Cancelled)
            } else {
                (self, StreamOutputView::Pull)
            },
            StreamInputView::Chunk { chunk, elapsed_ms } => {
                let atoms = chunk_atoms(chunk, elapsed_ms);
                (
                    StreamView {
                        queue: self.queue + deltas_of(self.label, self.seen, atoms),
                        seen: seen_after(self.seen, atoms),
                        finish: last_finish(self.finish, chunk.choices),
                        ..self
                    },
                    StreamOutputView::Again,
                )
            },
            StreamInputView::Ended => {
                let (next, out) = self.close(
                    match self.finish {
                        Some(r) => finish_of(r),
                        None => FinishView::Stop,
                    },
                );
                if self.done_emitted {
                    (next, out)
                } else {
                    (StreamView { finish: None, ..next }, out)
                }
            },
            StreamInputView::Failed(e) => (
                self,
                StreamOutputView::Fail("upstream stream error: "@ + e),
            ),
        }
    }
}

/// The state of one delta stream between two chunks.
pub struct ChunkState {
    provider_label: String,
    queue: VecDeque<AgentDelta>,
    seen_indexes: Vec<u32>,
    saw_finish: Option<WireFinish>,
    done_emitted: bool,
}

impl View for ChunkState {
    type V = StreamView;

    closed spec fn view(&self) -> StreamView {
        StreamView {
            label: self.provider_label@,
            queue: views(self.queue@),
            seen: self.seen_indexes@.to_set(),
            finish: self.saw_finish,
            done_emitted: self.done_emitted,
        }
    }
}

fn has_index(seen: &Vec<u32>, index: u32) -> (r: bool)
    ensures
        r == seen@.to_set().contains(index),
{
    let mut i: usize = 0;
    while i < seen.len()
        invariant
            i <= seen.len(),
            forall|j: int| 0 <= j < i ==> seen@[j] != index,
        decreases seen.len() - i,
    {
        if seen[i] == index {
            assert(seen@.contains(index));
            return true;
        }
        i = i + 1;
    }
    false
}

fn text_or_empty(s: &Option<String>) -> (r: String)
    ensures
        r@ == or_empty(opt_view(*s)),
{
    match s {
        Some(t) => t.clone(),
        None => String::new(),
    }
}

proof fn deltas_push(label: Seq<char>, seen: Set<u32>, atoms: Seq<Atom>, a: Atom)
    ensures
        deltas_of(label, seen, atoms.push(a)) == deltas_of(label, seen, atoms) + atom_deltas(
            label,
            seen_after(seen, atoms),
            a,
        ),
        seen_after(seen, atoms.push(a)) == (match a {
            Atom::Tool(t) => seen_after(seen, atoms).insert(t.index),
            _ => seen_after(seen, atoms),
        }),
{
    assert(atoms.push(a).drop_last() =~= atoms);
}

impl ChunkState {
    /// A stream that has not received anything.
    pub fn new(provider_label: &str) -> (r: ChunkState)
        ensures
            r@ == (StreamView {
                label: provider_label@,
                queue: Seq::empty(),
                seen: Set::empty(),
                finish: None,
                done_emitted: false,
            }),
    {
        let r = ChunkState {
            provider_label: provider_label.to_owned(),
            queue: VecDeque::new(),
            seen_indexes: Vec::new(),
            saw_finish: None,
            done_emitted: false,
        };
        assert(views(r.queue@) =~= Seq::empty());
        assert(r.seen_indexes@.to_set() =~= Set::empty());
        r
    }

    /// Queues the deltas of a tool-call fragment.
    fn take_tool_chunk(&mut self, chunk: &WireToolChunk)
        ensures
            final(self)@ == (StreamView {
                queue: old(self)@.queue + atom_deltas(
                    old(self)@.label,
                    old(self)@.seen,
                    Atom::Tool(chunk@),
                ),
                seen: old(self)@.seen.insert(chunk.index),
                ..old(self)@
            }),
    {
        broadcast use views_push;

        let ghost before = self.seen_indexes@;
        let (name, arguments) = match &chunk.function {
            Some(f) => (text_or_empty(&f.name), text_or_empty(&f.arguments)),
            None => (String::new(), String::new()),
        };
        if !has_index(&self.seen_indexes, chunk.index) {
            self.seen_indexes.push(chunk.index);
            self.queue.push_back(
                AgentDelta::ToolCallStart {
                    index: chunk.index,
                    id: text_or_empty(&chunk.id),
                    name,
                },
            );
            assert(self.seen_indexes@.to_set() =~= before.to_set().insert(chunk.index)) by {
                assert(self.seen_indexes@[before.len() as int] == chunk.index);
                assert forall|x: u32| before.to_set().contains(x) implies
                    self.seen_indexes@.to_set().contains(x) by {
                    let i = choose|i: int| 0 <= i < before.len() && before[i] == x;
                    assert(self.seen_indexes@[i] == x);
                }
            }
        } else {
            assert(before.to_set() =~= before.to_set().insert(chunk.index));
        }
        if !arguments.as_str().is_empty() {
            self.queue.push_back(
                AgentDelta::ToolCallArgs { index: chunk.index, fragment: arguments },
            );
        }
        assert(self@.queue =~= old(self)@.queue + atom_deltas(
            old(self)@.label,
            old(self)@.seen,
            Atom::Tool(chunk@),
        ));
    }

    /// Queues the deltas of a choice.
    fn take_choice(&mut self, choice: &WireChoice)
        ensures
            final(self)@ == (StreamView {
                queue: old(self)@.queue + deltas_of(
                    old(self)@.label,
                    old(self)@.seen,
                    choice_atoms(choice@),
                ),
                seen: seen_after(old(self)@.seen, choice_atoms(choice@)),
                finish: if choice.finish_reason is Some {
                    choice.finish_reason
                } else {
                    old(self)@.finish
                },
                ..old(self)@
            }),
    {
        broadcast use views_push;

        let ghost start = self@;
        let ghost mut taken: Seq<Atom> = Seq::empty();
        if let Some(content) = &choice.content {
            if !content.as_str().is_empty() {
                self.queue.push_back(AgentDelta::Content(content.clone()));
            }
            proof {
                taken = seq![Atom::Content(content@)];
                deltas_push(start.label, start.seen, Seq::empty(), Atom::Content(content@));
                assert(Seq::<Atom>::empty().push(Atom::Content(content@)) =~= taken);
            }
        }
        assert(self@ =~= StreamView {
            queue: start.queue + deltas_of(start.label, start.seen, taken),
            seen: seen_after(start.seen, taken),
            ..start
        });
        let ghost head = taken;
        if let Some(chunks) = &choice.tool_calls {
            let mut i: usize = 0;
            let ghost all = views(chunks@);
            assert(head + tool_atoms(all.take(0)) =~= head);
            while i < chunks.len()
                invariant
                    i <= chunks.len(),
                    all == views(chunks@),
                    self@ == (StreamView {
                        queue: start.queue + deltas_of(
                            start.label,
                            start.seen,
                            head + tool_atoms(all.take(i as int)),
                        ),
                        seen: seen_after(start.seen, head + tool_atoms(all.take(i as int))),
                        ..start
                    }),
                decreases chunks.len() - i,
            {
                let ghost so_far = head + tool_atoms(all.take(i as int));
                self.take_tool_chunk(&chunks[i]);
                proof {
                    deltas_push(start.label, start.seen, so_far, Atom::Tool(all[i as int]));
                    assert(head + tool_atoms(all.take(i + 1)) =~= so_far.push(
                        Atom::Tool(all[i as int]),
                    ));
                    assert(self@.queue =~= start.queue + deltas_of(
                        start.label,
                        start.seen,
                        head + tool_atoms(all.take(i + 1)),
                    ));
                }
                i = i + 1;
            }
            assert(all.take(all.len() as int) =~= all);
        }
        assert(head + tool_atoms(choice@.tool_calls) =~= choice_atoms(choice@));
        assert(head + tool_atoms(Seq::empty()) =~= head);
        if let Some(reason) = choice.finish_reason {
            self.saw_finish = Some(reason);
        }
    }

    /// Queues the deltas of a chunk.
    fn take_chunk(&mut self, chunk: &WireChunk, elapsed_ms: u64)
        ensures
            (final(self)@, StreamOutputView::Again) == old(self)@.react(
                StreamInputView::Chunk { chunk: chunk@, elapsed_ms },
            ),
    {
        broadcast use views_push;

        let ghost start = self@;
        let ghost all = views(chunk.choices@);
        let mut i: usize = 0;
        assert(start.queue + deltas_of(start.label, start.seen, choices_atoms(all.take(0)))
            =~= start.queue);
        while i < chunk.choices.len()
            invariant
                i <= chunk.choices.len(),
                all == views(chunk.choices@),
                self@ == (StreamView {
                    queue: start.queue + deltas_of(
                        start.label,
                        start.seen,
                        choices_atoms(all.take(i as int)),
                    ),
                    seen: seen_after(start.seen, choices_atoms(all.take(i as int))),
                    finish: last_finish(start.finish, all.take(i as int)),
                    ..start
                }),
            decreases chunk.choices.len() - i,
        {
            let ghost so_far = choices_atoms(all.take(i as int));
            self.take_choice(&chunk.choices[i]);
            proof {
                let part = choice_atoms(all[i as int]);
                assert(all.take(i + 1).drop_last() =~= all.take(i as int));
                deltas_split(start.label, start.seen, so_far, part);
                assert(self@.queue =~= start.queue + deltas_of(
                    start.label,
                    start.seen,
                    so_far + part,
                ));
            }
            i = i + 1;
        }
        assert(all.take(all.len() as int) =~= all);
        let ghost head = choices_atoms(all);
        match chunk.usage {
            Some(usage) => {
                self.queue.push_back(
                    AgentDelta::Stats(
                        StreamStats {
                            provider: self.provider_label.clone(),
                            prompt_tokens: Some(usage.prompt_tokens),
                            cached_tokens: usage.cached_tokens,
                            gen_tokens: usage.completion_tokens,
                            duration_ms: elapsed_ms,
                        },
                    ),
                );
                proof {
                    deltas_push(start.label, start.seen, head, Atom::Usage(usage, elapsed_ms));
                    assert(chunk_atoms(chunk@, elapsed_ms) =~= head.push(
                        Atom::Usage(usage, elapsed_ms),
                    ));
                    assert(self@.queue =~= start.queue + deltas_of(
                        start.label,
                        start.seen,
                        chunk_atoms(chunk@, elapsed_ms),
                    ));
                }
            },
            None => {
                assert(chunk_atoms(chunk@, elapsed_ms) =~= head);
            },
        }
    }

    /// Emits the end of the stream, unless that was done before.
    fn close(&mut self, reason: FinishReason) -> (r: StreamOutput)
        ensures
            (final(self)@, r@) == old(self)@.close(reason@),
    {
        if self.done_emitted {
            StreamOutput::End
        } else {
            self.done_emitted = true;
            StreamOutput::Emit(AgentDelta::Done { finish_reason: reason })
        }
    }

    /// Takes in what happened and says what to do.
    pub fn react(&mut self, input: StreamInput) -> (r: StreamOutput)
        requires
            old(self)@.accepts(input@),
        ensures
            (final(self)@, r@) == old(self)@.react(input@),
    {
        match input {
            StreamInput::Poll { cancelled } => {
                let ghost before = self.queue@;
                match self.queue.pop_front() {
                    Some(d) => {
                        assert(views(self.queue@) =~= views(before).skip(1));
                        StreamOutput::Emit(d)
                    },
                    None => if cancelled {
                        self.close(FinishReason::Cancelled)
                    } else {
                        StreamOutput::Pull
                    },
                }
            },
            StreamInput::Chunk { chunk, elapsed_ms } => {
                self.take_chunk(&chunk, elapsed_ms);
                StreamOutput::Again
            },
            StreamInput::Ended => {
                if self.done_emitted {
                    return StreamOutput::End;
                }
                let reason = match self.saw_finish.take() {
                    Some(r) => map_finish_reason(r),
                    None => FinishReason::Stop,
                };
                self.close(reason)
            },
            StreamInput::Failed(e) => {
                let mut text = "upstream stream error: ".to_owned();
                text.append(e.as_str());
                StreamOutput::Fail(text)
            },
        }
    }
}

/// The deltas of two groups of pieces are those of the first and then those of
/// the second.
pub proof fn deltas_split(label: Seq<char>, seen: Set<u32>, a: Seq<Atom>, b: Seq<Atom>)
    ensures
        deltas_of(label, seen, a + b) == deltas_of(label, seen, a) + deltas_of(
            label,
            seen_after(seen, a),
            b,
        ),
        seen_after(seen, a + b) == seen_after(seen_after(seen, a), b),
    decreases b.len(),
{
    if b.len() == 0 {
        assert(a + b =~= a);
        assert(deltas_of(label, seen, a) + Seq::<DeltaView>::empty() =~= deltas_of(
            label,
            seen,
            a,
        ));
    } else {
        deltas_split(label, seen, a, b.drop_last());
        assert((a + b).drop_last() =~= a + b.drop_last());
        assert(deltas_of(label, seen, a + b) =~= deltas_of(label, seen, a) + deltas_of(
            label,
            seen_after(seen, a),
            b,
        ));
    }
}

/// A message as a chat-completions request carries it. `tool_calls` is absent
/// rather than empty.
#[derive(Debug)]
pub enum RequestMessage {
    System { content: String },
    User { content: String },
    Assistant { content: String, tool_calls: Option<Vec<ToolCall>> },
    Tool { tool_call_id: String, content: String },
}

/// Mathematical form of a [`RequestMessage`].
pub enum RequestMessageView {
    System { content: Seq<char> },
    User { content: Seq<char> },
    Assistant { content: Seq<char>, tool_calls: Option<Seq<CallView>> },
    Tool { tool_call_id: Seq<char>, content: Seq<char> },
}

impl View for RequestMessage {
    type V = RequestMessageView;

    open spec fn view(&self) -> RequestMessageView {
        match self {
            RequestMessage::System { content } => RequestMessageView::System { content: content@ },
            RequestMessage::User { content } => RequestMessageView::User { content: content@ },
            RequestMessage::Assistant { content, tool_calls } => RequestMessageView::Assistant {
                content: content@,
                tool_calls: match tool_calls {
                    Some(t) => Some(views(t@)),
                    None => None,
                },
            },
            RequestMessage::Tool { tool_call_id, content } => RequestMessageView::Tool {
                tool_call_id: tool_call_id@,
                content: content@,
            },
        }
    }
}

/// The request form of a message.
pub open spec fn request_message(m: MessageView) -> RequestMessageView {
    match m {
        MessageView::System { content } => RequestMessageView::System { content },
        MessageView::User { content } => RequestMessageView::User { content },
        MessageView::Assistant { content, tool_calls } => RequestMessageView::Assistant {
            content,
            tool_calls: if tool_calls.len() > 0 {
                Some(tool_calls)
            } else {
                None
            },
        },
        MessageView::Tool { tool_call_id, content } => RequestMessageView::Tool {
            tool_call_id,
            content,
        },
    }
}

fn to_openai_message(m: &ChatMessage) -> (r: RequestMessage)
    ensures
        r@ == request_message(m@),
{
    match m {
        ChatMessage::System { content } => RequestMessage::System { content: content.clone() },
        ChatMessage::User { content } => RequestMessage::User { content: content.clone() },
        ChatMessage::Assistant { content, tool_calls } => RequestMessage::Assistant {
            content: content.clone(),
            tool_calls: if tool_calls.is_empty() {
                None
            } else {
                Some(copy_calls(tool_calls))
            },
        },
        ChatMessage::Tool { tool_call_id, content } => RequestMessage::Tool {
            tool_call_id: tool_call_id.clone(),
            content: content.clone(),
        },
    }
}

/// The request form of a history, message by message.
pub fn to_openai_messages(messages: &Vec<ChatMessage>) -> (r: Vec<RequestMessage>)
    ensures
        views(r@) == views(messages@).map_values(|m: MessageView| request_message(m)),
{
    let mut out: Vec<RequestMessage> = Vec::new();
    let mut i: usize = 0;
    while i < messages.len()
        invariant
            i <= messages.len(),
            out@.len() == i,
            forall|j: int|
                0 <= j < i ==> (#[trigger] out@[j])@ == request_message(messages@[j]@),
        decreases messages.len() - i,
    {
        out.push(to_openai_message(&messages[i]));
        i = i + 1;
    }
    assert(views(out@) =~= views(messages@).map_values(|m: MessageView| request_message(m)));
    out
}

/// A tool as a chat-completions request carries it. The parameters are those of
/// the schema, as they stand there.
#[derive(Debug)]
pub struct ToolSpec<'a> {
    pub name: String,
    pub description: Option<String>,
    pub parameters: Option<&'a Json>,
}

/// Mathematical form of a [`ToolSpec`].
pub struct ToolSpecView {
    pub name: Seq<char>,
    pub description: Option<Seq<char>>,
    pub parameters: Option<Json>,
}

impl<'a> View for ToolSpec<'a> {
    type V = ToolSpecView;

    open spec fn view(&self) -> ToolSpecView {
        ToolSpecView {
            name: self.name@,
            description: opt_view(self.description),
            parameters: match self.parameters {
                Some(p) => Some(*p),
                None => None,
            },
        }
    }
}

/// The tool that a function schema describes. The schema needs a `function`
/// member with a `name` string; the rest is optional.
pub open spec fn tool_spec(schema: Json) -> Result<ToolSpecView, Seq<char>> {
    match schema.member("function"@) {
        None => Err("tool schema missing `function`"@),
        Some(function) => match function.text_member("name"@) {
            None => Err("tool schema missing function.name"@),
            Some(name) => Ok(
                ToolSpecView {
                    name,
                    description: function.text_member("description"@),
                    parameters: function.member("parameters"@),
                },
            ),
        },
    }
}

/// The tools of several schemas, or the fault of the first faulty one.
pub open spec fn tool_specs(schemas: Seq<Json>) -> Result<Seq<ToolSpecView>, Seq<char>>
    decreases schemas.len(),
{
    if schemas.len() == 0 {
        Ok(Seq::empty())
    } else {
        match tool_specs(schemas.drop_last()) {
            Err(e) => Err(e),
            Ok(tools) => match tool_spec(schemas.last()) {
                Err(e) => Err(e),
                Ok(t) => Ok(tools.push(t)),
            },
        }
    }
}

fn to_openai_tool(schema: &Json) -> (r: Result<ToolSpec<'_>, String>)
    ensures
        match r {
            Ok(t) => tool_spec(*schema) == Ok::<ToolSpecView, Seq<char>>(t@),
            Err(e) => tool_spec(*schema) == Err::<ToolSpecView, Seq<char>>(e@),
        },
{
    let function = match schema.get("function") {
        Some(f) => f,
        None => {
            return Err("tool schema missing `function`".to_owned());
        },
    };
    let name = match function.get_text("name") {
        Some(n) => n.to_owned(),
        None => {
            return Err("tool schema missing function.name".to_owned());
        },
    };
    let description = match function.get_text("description") {
        Some(d) => Some(d.to_owned()),
        None => None,
    };
    let parameters = function.get("parameters");
    Ok(ToolSpec { name, description, parameters })
}

/// Reads the registry's function schemas.
pub fn to_openai_tools(schemas: &Vec<Json>) -> (r: Result<Vec<ToolSpec<'_>>, String>)
    ensures
        match r {
            Ok(t) => tool_specs(schemas@) == Ok::<Seq<ToolSpecView>, Seq<char>>(views(t@)),
            Err(e) => tool_specs(schemas@) == Err::<Seq<ToolSpecView>, Seq<char>>(e@),
        },
{
    let ghost all = schemas@;
    let mut out: Vec<ToolSpec<'_>> = Vec::new();
    let mut i: usize = 0;
    assert(views(out@) =~= Seq::empty());
    while i < schemas.len()
        invariant
            i <= schemas.len(),
            all == schemas@,
            tool_specs(all.take(i as int)) == Ok::<Seq<ToolSpecView>, Seq<char>>(views(out@)),
        decreases schemas.len() - i,
    {
        assert(all.take(i + 1).drop_last() =~= all.take(i as int));
        match to_openai_tool(&schemas[i]) {
            Ok(t) => {
                proof {
                    views_push(out@, t);
                }
                out.push(t);
            },
            Err(e) => {
                proof {
                    first_fault_stays(all, i + 1, e@);
                }
                return Err(e);
            },
        }
        i = i + 1;
    }
    assert(all.take(all.len() as int) =~= all);
    Ok(out)
}

proof fn first_fault_stays(schemas: Seq<Json>, n: int, e: Seq<char>)
    requires
        0 <= n <= schemas.len(),
        tool_specs(schemas.take(n)) == Err::<Seq<ToolSpecView>, Seq<char>>(e),
    ensures
        tool_specs(schemas) == Err::<Seq<ToolSpecView>, Seq<char>>(e),
    decreases schemas.len() - n,
{
    if n < schemas.len() {
        assert(schemas.take(n + 1).drop_last() =~= schemas.take(n));
        first_fault_stays(schemas, n + 1, e);
    } else {
        assert(schemas.take(n) =~= schemas);
    }
}

/// A chat-completions request, without its sampling parameters.
#[derive(Debug)]
pub struct ChatRequest<'a> {
    pub model: String,
    pub messages: Vec<RequestMessage>,
    /// Absent rather than empty.
    pub tools: Option<Vec<ToolSpec<'a>>>,
    pub max_tokens: Option<u32>,
    /// Always set: the token counts are asked for.
    pub include_usage: bool,
}

/// Builds the request for a turn. At least one token is always allowed.
pub fn build_request<'a>(
    model: &str,
    messages: &Vec<ChatMessage>,
    schemas: &'a Vec<Json>,
    max_tokens: Option<u32>,
) -> (r: Result<ChatRequest<'a>, String>)
    ensures
        match r {
            Ok(q) => {
                &&& q.model@ == model@
                &&& views(q.messages@) == views(messages@).map_values(
                    |m: MessageView| request_message(m),
                )
                &&& match tool_specs(schemas@) {
                    Ok(t) => match q.tools {
                        Some(v) => views(v@) == t && t.len() > 0,
                        None => t.len() == 0,
                    },
                    Err(_) => false,
                }
                &&& q.max_tokens == (match max_tokens {
                    Some(n) => Some(if n == 0 {
                        1u32
                    } else {
                        n
                    }),
                    None => None,
                })
                &&& q.include_usage
            },
            Err(e) => tool_specs(schemas@) == Err::<Seq<ToolSpecView>, Seq<char>>(e@),
        },
{
    let tools = match to_openai_tools(schemas) {
        Ok(t) => t,
        Err(e) => {
            return Err(e);
        },
    };
    Ok(
        ChatRequest {
            model: model.to_owned(),
            messages: to_openai_messages(messages),
            tools: if tools.is_empty() {
                None
            } else {
                Some(tools)
            },
            max_tokens: match max_tokens {
                Some(n) => Some(if n == 0 {
                    1
                } else {
                    n
                }),
                None => None,
            },
            include_usage: true,
        },
    )
}

} // verus!
