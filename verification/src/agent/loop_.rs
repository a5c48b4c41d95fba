//! The agent loop.
//!
//! A run alternates between asking the outside for something (open a stream,
//! hand over the next delta, put a call before the confirmation gate, run a tool) and
//! deciding what the answer means. [`AgentRun`] holds the deciding half: each
//! [`AgentRun::resume`] takes the answer to the last request and returns the
//! events to emit and the next request.
//!
//! Every tool call is put before the confirmation gate first. A denied call still gets a
//! tool message, with an `"error": "denied by user"` body, so that the model
//! can react on the next turn.
use vstd::prelude::*;

use crate::agent::confirm::ConfirmationOutcome;
use crate::agent::delta::{AgentDelta, DeltaView, FinishReason, FinishView};
use crate::agent::event::{AgentEvent, EventView};
use crate::agent::message::{ChatMessage, MessageView};
use crate::agent::tool::{copy_calls, result_view, CallView, ToolCall, ToolError, ToolErrorView};
use crate::agent::turn::{calls_in_order, TurnAccumulator, TurnView};
use crate::json::{error_body, error_fields, json_error, json_object, string_member, syntax_error};
use crate::text::{decimal, decimal_text, holds, is_blank, opt_view, trim, views, views_push};

verus! {

/// What a run is given besides the history.
#[derive(Debug)]
pub struct AgentOpts {
    /// How many turns the model may take.
    pub max_steps: usize,
    /// The names of the registered tools.
    pub tools: Vec<String>,
}

/// How a run ended, when it did not fail.
#[derive(Debug)]
pub enum AgentOutcome {
    /// The model's final answer.
    Final(String),
    /// The user cancelled.
    Cancelled,
}

/// Mathematical form of an [`AgentOutcome`].
pub enum OutcomeView {
    Final(Seq<char>),
    Cancelled,
}

impl View for AgentOutcome {
    type V = OutcomeView;

    open spec fn view(&self) -> OutcomeView {
        match self {
            AgentOutcome::Final(s) => OutcomeView::Final(s@),
            AgentOutcome::Cancelled => OutcomeView::Cancelled,
        }
    }
}

/// The view of the end of a run.
pub open spec fn end_view(r: Result<AgentOutcome, String>) -> Result<OutcomeView, Seq<char>> {
    match r {
        Ok(o) => Ok(o@),
        Err(e) => Err(e@),
    }
}

/// What a run waits for.
#[derive(Debug, Clone, Copy, PartialEq, Eq, Structural)]
pub enum Phase {
    /// The cancel flag, before a turn.
    TurnCheck,
    /// The provider's stream.
    Opening,
    /// The next delta of the stream.
    Streaming,
    /// The cancel flag, before a call.
    CallCheck,
    /// The confirmation gate's verdict on a call.
    Asking,
    /// The result of a call.
    Dispatching,
    /// Nothing more.
    Finished,
}

/// The answer to a request.
#[derive(Debug)]
pub enum RunInput {
    CancelFlag(bool),
    StreamOpened,
    StreamRefused(String),
    Delta(AgentDelta),
    StreamFailed(String),
    StreamEnded,
    GateAnswer(ConfirmationOutcome),
    /// The JSON text of a tool's result, or its error.
    ToolFinished(Result<String, ToolError>),
}

/// Mathematical form of a [`RunInput`].
pub enum InputView {
    CancelFlag(bool),
    StreamOpened,
    StreamRefused(Seq<char>),
    Delta(DeltaView),
    StreamFailed(Seq<char>),
    StreamEnded,
    GateAnswer(ConfirmationOutcome),
    ToolFinished(Result<Seq<char>, ToolErrorView>),
}

impl View for RunInput {
    type V = InputView;

    open spec fn view(&self) -> InputView {
        match self {
            RunInput::CancelFlag(b) => InputView::CancelFlag(*b),
            RunInput::StreamOpened => InputView::StreamOpened,
            RunInput::StreamRefused(e) => InputView::StreamRefused(e@),
            RunInput::Delta(d) => InputView::Delta(d@),
            RunInput::StreamFailed(e) => InputView::StreamFailed(e@),
            RunInput::StreamEnded => InputView::StreamEnded,
            RunInput::GateAnswer(o) => InputView::GateAnswer(*o),
            RunInput::ToolFinished(r) => InputView::ToolFinished(result_view(*r)),
        }
    }
}

/// What a run asks of the outside.
#[derive(Debug)]
pub enum RunRequest {
    ReadCancelFlag,
    /// Open a stream on the history as it stands.
    OpenStream,
    NextDelta,
    /// Put a call before the confirmation gate. `preview_args` holds the arguments that the
    /// tool's preview is to be rendered from; without it there is no preview.
    AskGate { call: ToolCall, preview_args: Option<String> },
    /// Run a registered tool on these JSON arguments.
    Dispatch { name: String, arguments: String },
    /// The run is over.
    Finish(Result<AgentOutcome, String>),
}

/// Mathematical form of a [`RunRequest`].
pub enum RequestView {
    ReadCancelFlag,
    OpenStream,
    NextDelta,
    AskGate { call: CallView, preview_args: Option<Seq<char>> },
    Dispatch { name: Seq<char>, arguments: Seq<char> },
    Finish(Result<OutcomeView, Seq<char>>),
}

impl View for RunRequest {
    type V = RequestView;

    open spec fn view(&self) -> RequestView {
        match self {
            RunRequest::ReadCancelFlag => RequestView::ReadCancelFlag,
            RunRequest::OpenStream => RequestView::OpenStream,
            RunRequest::NextDelta => RequestView::NextDelta,
            RunRequest::AskGate { call, preview_args } => RequestView::AskGate {
                call: call@,
                preview_args: opt_view(*preview_args),
            },
            RunRequest::Dispatch { name, arguments } => RequestView::Dispatch {
                name: name@,
                arguments: arguments@,
            },
            RunRequest::Finish(r) => RequestView::Finish(end_view(*r)),
        }
    }
}

/// One step of a run: the events to emit, in order, and the next request.
#[derive(Debug)]
pub struct RunStep {
    pub events: Vec<AgentEvent>,
    pub request: RunRequest,
}

/// Mathematical form of a [`RunStep`].
#[verifier::ext_equal]
pub struct StepView {
    pub events: Seq<EventView>,
    pub request: RequestView,
}

impl View for RunStep {
    type V = StepView;

    open spec fn view(&self) -> StepView {
        StepView { events: views(self.events@), request: self.request@ }
    }
}

/// The events that a delta gives rise to.
pub open spec fn delta_events(d: DeltaView) -> Seq<EventView> {
    match d {
        DeltaView::Content(s) => seq![EventView::Token(s)],
        DeltaView::Thinking(s) => seq![EventView::Thinking(s)],
        DeltaView::Stats(s) => seq![EventView::Stats(s)],
        _ => Seq::empty(),
    }
}

/// The arguments that a preview is rendered from: those of a call to a
/// registered tool, when they are JSON.
pub open spec fn preview_args(tools: Seq<Seq<char>>, call: CallView) -> Option<Seq<char>> {
    if tools.contains(call.name) && json_error(call.arguments) is None {
        Some(call.arguments)
    } else {
        None
    }
}

/// What an approved call is dispatched with: the empty object for blank
/// arguments, the arguments themselves when they are JSON. A call to an
/// unknown tool and one with other arguments is at fault.
pub open spec fn prepared(tools: Seq<Seq<char>>, call: CallView) -> Result<
    Seq<char>,
    ToolErrorView,
> {
    if !tools.contains(call.name) {
        Err(ToolErrorView::Argument("unknown tool `"@ + call.name + "`"@))
    } else if trim(call.arguments).len() == 0 {
        Ok("{}"@)
    } else {
        match json_error(call.arguments) {
            None => Ok(call.arguments),
            Some(e) => Err(
                ToolErrorView::Argument(
                    "arguments not valid JSON: "@ + e + " (raw: "@ + call.arguments + ")"@,
                ),
            ),
        }
    }
}

/// The start event of a call.
pub open spec fn start_event(call: CallView) -> EventView {
    EventView::ToolStart { id: call.id, name: call.name }
}

/// The end event of a call.
pub open spec fn end_event(call: CallView, r: Result<Seq<char>, ToolErrorView>) -> EventView {
    match r {
        Ok(v) => EventView::ToolEnd { id: call.id, ok: true, result: Some(v), error: None },
        Err(e) => EventView::ToolEnd {
            id: call.id,
            ok: false,
            result: None,
            error: Some(e.message()),
        },
    }
}

/// The tool message that answers a call: the result, or an `error` object.
pub open spec fn answer_message(call: CallView, r: Result<Seq<char>, ToolErrorView>) -> MessageView {
    MessageView::Tool {
        tool_call_id: call.id,
        content: match r {
            Ok(v) => v,
            Err(e) => json_object(error_fields(e.message())),
        },
    }
}

/// Whether the history ends with a tool message from whose body `text` is
/// read back under `error`.
pub open spec fn reports_error(messages: Seq<MessageView>, text: Seq<char>) -> bool {
    &&& messages.len() > 0
    &&& messages.last() matches MessageView::Tool { content, .. } && string_member(
        content,
        "error"@,
    ) == Some(text)
}

/// The refusal that answers a denied call.
pub open spec fn denial() -> Result<Seq<char>, ToolErrorView> {
    Err(ToolErrorView::Runtime("denied by user"@))
}

/// The message of a run that used up its turns.
pub open spec fn exhausted_message(max_steps: nat) -> Seq<char> {
    "agent exceeded max_steps="@ + decimal(max_steps)
}

/// Mathematical form of an [`AgentRun`].
#[verifier::ext_equal]
pub struct RunView {
    pub messages: Seq<MessageView>,
    pub tools: Seq<Seq<char>>,
    pub max_steps: nat,
    pub steps_taken: nat,
    pub turn: TurnView,
    pub calls: Seq<CallView>,
    pub cursor: nat,
    pub phase: Phase,
}

impl RunView {
    /// Ends the run.
    pub open spec fn finish(
        self,
        events: Seq<EventView>,
        end: Result<OutcomeView, Seq<char>>,
    ) -> (RunView, StepView) {
        (
            RunView { phase: Phase::Finished, ..self },
            StepView { events, request: RequestView::Finish(end) },
        )
    }

    /// Waits in `phase` for the answer to `request`.
    pub open spec fn wait(
        self,
        events: Seq<EventView>,
        phase: Phase,
        request: RequestView,
    ) -> (RunView, StepView) {
        (RunView { phase, ..self }, StepView { events, request })
    }

    /// Ends the run because the user cancelled.
    pub open spec fn cancelled(self, events: Seq<EventView>) -> (RunView, StepView) {
        self.finish(events.push(EventView::Cancelled), Ok(OutcomeView::Cancelled))
    }

    /// Begins the next turn, or fails when all turns are used up.
    pub open spec fn begin_turn(self, events: Seq<EventView>) -> (RunView, StepView) {
        if self.steps_taken < self.max_steps {
            self.wait(events, Phase::TurnCheck, RequestView::ReadCancelFlag)
        } else {
            let text = exhausted_message(self.max_steps);
            self.finish(events.push(EventView::Error(text)), Err(text))
        }
    }

    /// Goes on to the call after the current one.
    pub open spec fn next_call(self, events: Seq<EventView>) -> (RunView, StepView) {
        let next = RunView { cursor: self.cursor + 1, ..self };
        if next.cursor < self.calls.len() {
            next.wait(events, Phase::CallCheck, RequestView::ReadCancelFlag)
        } else {
            next.begin_turn(events)
        }
    }

    /// Threads the answer to the current call into the history.
    pub open spec fn answer(
        self,
        events: Seq<EventView>,
        r: Result<Seq<char>, ToolErrorView>,
    ) -> (RunView, StepView) {
        let call = self.calls[self.cursor as int];
        RunView { messages: self.messages.push(answer_message(call, r)), ..self }.next_call(
            events.push(end_event(call, r)),
        )
    }

    /// Closes the assistant turn. Whatever was received stands in the history,
    /// also when the stream failed.
    pub open spec fn close_turn(self, events: Seq<EventView>, failure: Option<Seq<char>>) -> (
        RunView,
        StepView,
    ) {
        let content = self.turn.content;
        let calls = calls_in_order(self.turn.calls);
        let closed = RunView {
            messages: self.messages.push(MessageView::Assistant { content, tool_calls: calls }),
            turn: TurnView::empty(),
            calls,
            cursor: 0,
            ..self
        };
        match failure {
            Some(e) => closed.finish(events.push(EventView::Error(e)), Err(e)),
            None => match self.turn.finish_reason {
                FinishView::Cancelled => closed.cancelled(events),
                FinishView::ToolCalls if calls.len() > 0 => closed.wait(
                    events,
                    Phase::CallCheck,
                    RequestView::ReadCancelFlag,
                ),
                _ => closed.finish(
                    events.push(EventView::Done { content }),
                    Ok(OutcomeView::Final(content)),
                ),
            },
        }
    }

    /// Whether `input` answers the request that the run is waiting on.
    pub open spec fn accepts(self, input: InputView) -> bool {
        match self.phase {
            Phase::TurnCheck | Phase::CallCheck => input is CancelFlag,
            Phase::Opening => input is StreamOpened || input is StreamRefused,
            Phase::Streaming => input is Delta || input is StreamFailed || input is StreamEnded,
            Phase::Asking => input is GateAnswer,
            Phase::Dispatching => input is ToolFinished,
            Phase::Finished => false,
        }
    }

    /// One step of the run: what `input` leads to.
    pub open spec fn advance(self, input: InputView) -> (RunView, StepView) {
        let none = Seq::<EventView>::empty();
        let call = self.calls[self.cursor as int];
        match input {
            InputView::CancelFlag(true) => self.cancelled(none),
            InputView::CancelFlag(false) => if self.phase == Phase::TurnCheck {
                RunView { steps_taken: self.steps_taken + 1, ..self }.wait(
                    none,
                    Phase::Opening,
                    RequestView::OpenStream,
                )
            } else {
                self.wait(
                    none,
                    Phase::Asking,
                    RequestView::AskGate { call, preview_args: preview_args(self.tools, call) },
                )
            },
            InputView::StreamOpened => self.wait(none, Phase::Streaming, RequestView::NextDelta),
            InputView::StreamRefused(e) => self.finish(none, Err(e)),
            InputView::Delta(d) => {
                let taken = RunView { turn: self.turn.absorb(d), ..self };
                if d is Done {
                    taken.close_turn(delta_events(d), None)
                } else {
                    taken.wait(delta_events(d), Phase::Streaming, RequestView::NextDelta)
                }
            },
            InputView::StreamFailed(e) => self.close_turn(none, Some(e)),
            InputView::StreamEnded => self.close_turn(none, None),
            InputView::GateAnswer(ConfirmationOutcome::Denied) => self.answer(
                seq![start_event(call)],
                denial(),
            ),
            InputView::GateAnswer(ConfirmationOutcome::Approved) => match prepared(
                self.tools,
                call,
            ) {
                Ok(arguments) => self.wait(
                    seq![start_event(call)],
                    Phase::Dispatching,
                    RequestView::Dispatch { name: call.name, arguments },
                ),
                Err(e) => self.answer(seq![start_event(call)], Err(e)),
            },
            InputView::ToolFinished(r) => self.answer(none, r),
        }
    }

    /// The numbers of the run are consistent.
    pub open spec fn wf(self) -> bool {
        &&& self.steps_taken <= self.max_steps
        &&& self.phase == Phase::TurnCheck ==> self.steps_taken < self.max_steps
        &&& self.phase != Phase::Streaming ==> self.turn == TurnView::empty()
        &&& self.phase == Phase::CallCheck || self.phase == Phase::Asking || self.phase
            == Phase::Dispatching ==> self.cursor < self.calls.len()
    }
}

/// An agent run between two requests.
pub struct AgentRun {
    messages: Vec<ChatMessage>,
    tools: Vec<String>,
    max_steps: usize,
    steps_taken: usize,
    turn: TurnAccumulator,
    calls: Vec<ToolCall>,
    cursor: usize,
    phase: Phase,
}

impl View for AgentRun {
    type V = RunView;

    closed spec fn view(&self) -> RunView {
        RunView {
            messages: views(self.messages@),
            tools: views(self.tools@),
            max_steps: self.max_steps as nat,
            steps_taken: self.steps_taken as nat,
            turn: self.turn@,
            calls: views(self.calls@),
            cursor: self.cursor as nat,
            phase: self.phase,
        }
    }
}

impl AgentRun {
    /// The run is consistent.
    pub closed spec fn wf(&self) -> bool {
        self.turn.wf() && self@.wf()
    }

    /// Starts a run on a history.
    pub fn start(messages: Vec<ChatMessage>, opts: AgentOpts) -> (r: (AgentRun, RunStep))
        ensures
            r.0.wf(),
            r.0@.messages == views(messages@),
            r.0@.tools == views(opts.tools@),
            r.0@.max_steps == opts.max_steps,
            r.0@.steps_taken == 0,
            r.0@.turn == TurnView::empty(),
            r.0@.calls == Seq::<CallView>::empty(),
            r.0@.cursor == 0,
            (r.0@, r.1@) == r.0@.begin_turn(Seq::empty()),
    {
        let mut run = AgentRun {
            messages,
            tools: opts.tools,
            max_steps: opts.max_steps,
            steps_taken: 0,
            turn: TurnAccumulator::new(),
            calls: Vec::new(),
            cursor: 0,
            phase: Phase::TurnCheck,
        };
        let step = run.begin_turn(Vec::new());
        (run, step)
    }

    /// The history as it stands.
    pub fn messages(&self) -> (r: &Vec<ChatMessage>)
        ensures
            views(r@) == self@.messages,
    {
        &self.messages
    }

    /// The history that the run leaves behind.
    pub fn into_messages(self) -> (r: Vec<ChatMessage>)
        ensures
            views(r@) == self@.messages,
    {
        self.messages
    }

    /// Whether `input` answers the request that the run is waiting on.
    pub fn accepts(&self, input: &RunInput) -> (r: bool)
        ensures
            r == self@.accepts(input@),
    {
        match self.phase {
            Phase::TurnCheck | Phase::CallCheck => matches!(input, RunInput::CancelFlag(_)),
            Phase::Opening => matches!(input, RunInput::StreamOpened)
                || matches!(input, RunInput::StreamRefused(_)),
            Phase::Streaming => matches!(input, RunInput::Delta(_))
                || matches!(input, RunInput::StreamFailed(_))
                || matches!(input, RunInput::StreamEnded),
            Phase::Asking => matches!(input, RunInput::GateAnswer(_)),
            Phase::Dispatching => matches!(input, RunInput::ToolFinished(_)),
            Phase::Finished => false,
        }
    }

    fn wait(&mut self, events: Vec<AgentEvent>, phase: Phase, request: RunRequest) -> (r: RunStep)
        ensures
            final(self).turn == old(self).turn,
            (final(self)@, r@) == old(self)@.wait(views(events@), phase, request@),
    {
        self.phase = phase;
        RunStep { events, request }
    }

    fn finish(&mut self, events: Vec<AgentEvent>, end: Result<AgentOutcome, String>) -> (r: RunStep)
        ensures
            final(self).turn == old(self).turn,
            (final(self)@, r@) == old(self)@.finish(views(events@), end_view(end)),
    {
        self.phase = Phase::Finished;
        RunStep { events, request: RunRequest::Finish(end) }
    }

    fn cancelled(&mut self, mut events: Vec<AgentEvent>) -> (r: RunStep)
        ensures
            final(self).turn == old(self).turn,
            (final(self)@, r@) == old(self)@.cancelled(views(events@)),
    {
        broadcast use views_push;

        events.push(AgentEvent::Cancelled);
        self.finish(events, Ok(AgentOutcome::Cancelled))
    }

    fn begin_turn(&mut self, mut events: Vec<AgentEvent>) -> (r: RunStep)
        ensures
            final(self).turn == old(self).turn,
            (final(self)@, r@) == old(self)@.begin_turn(views(events@)),
    {
        broadcast use views_push;

        if self.steps_taken < self.max_steps {
            self.wait(events, Phase::TurnCheck, RunRequest::ReadCancelFlag)
        } else {
            let mut text = "agent exceeded max_steps=".to_owned();
            text.append(decimal_text(self.max_steps as u128).as_str());
            events.push(AgentEvent::Error(text.clone()));
            self.finish(events, Err(text))
        }
    }

    fn next_call(&mut self, events: Vec<AgentEvent>) -> (r: RunStep)
        requires
            old(self)@.cursor < old(self)@.calls.len(),
        ensures
            final(self).turn == old(self).turn,
            (final(self)@, r@) == old(self)@.next_call(views(events@)),
    {
        let count: usize = self.calls.len();
        self.cursor = self.cursor + 1;
        if self.cursor < count {
            self.wait(events, Phase::CallCheck, RunRequest::ReadCancelFlag)
        } else {
            self.begin_turn(events)
        }
    }

    fn answer(&mut self, mut events: Vec<AgentEvent>, result: Result<String, ToolError>) -> (r:
        RunStep)
        requires
            old(self)@.cursor < old(self)@.calls.len(),
        ensures
            final(self).turn == old(self).turn,
            (final(self)@, r@) == old(self)@.answer(views(events@), result_view(result)),
            result_view(result) matches Err(e) ==> reports_error(
                final(self)@.messages,
                e.message(),
            ),
    {
        broadcast use views_push;

        let id = self.calls[self.cursor].id.clone();
        let (event, content) = match result {
            Ok(v) => (
                AgentEvent::ToolEnd { id: id.clone(), ok: true, result: Some(v.clone()), error: None },
                v,
            ),
            Err(e) => {
                let text = e.message();
                let body = error_body(text.as_str());
                (
                    AgentEvent::ToolEnd { id: id.clone(), ok: false, result: None, error: Some(text) },
                    body,
                )
            },
        };
        events.push(event);
        self.messages.push(ChatMessage::Tool { tool_call_id: id, content });
        self.next_call(events)
    }

    fn close_turn(&mut self, mut events: Vec<AgentEvent>, failure: Option<String>) -> (r: RunStep)
        requires
            old(self).turn.wf(),
        ensures
            final(self).turn.wf(),
            (final(self)@, r@) == old(self)@.close_turn(views(events@), opt_view(failure)),
    {
        broadcast use views_push;

        let mut turn = TurnAccumulator::new();
        std::mem::swap(&mut turn, &mut self.turn);
        let content = turn.content;
        let finish_reason = turn.finish_reason;
        let calls = turn.calls.into_calls();
        self.messages.push(
            ChatMessage::Assistant { content: content.clone(), tool_calls: copy_calls(&calls) },
        );
        let some_calls: bool = calls.len() > 0;
        self.calls = calls;
        self.cursor = 0;
        if let Some(e) = failure {
            events.push(AgentEvent::Error(e.clone()));
            return self.finish(events, Err(e));
        }
        match finish_reason {
            FinishReason::Cancelled => self.cancelled(events),
            FinishReason::ToolCalls if some_calls => {
                self.wait(events, Phase::CallCheck, RunRequest::ReadCancelFlag)
            },
            _ => {
                events.push(AgentEvent::Done { content: content.clone() });
                self.finish(events, Ok(AgentOutcome::Final(content)))
            },
        }
    }

    /// The current call and whether it is fit to be dispatched.
    fn prepare(&self) -> (r: Result<String, ToolError>)
        requires
            self@.cursor < self@.calls.len(),
        ensures
            result_view(r) == prepared(self@.tools, self@.calls[self@.cursor as int]),
    {
        let call = &self.calls[self.cursor];
        if !holds(&self.tools, call.name.as_str()) {
            let mut text = "unknown tool `".to_owned();
            text.append(call.name.as_str());
            text.append("`");
            return Err(ToolError::Argument(text));
        }
        if is_blank(call.arguments.as_str()) {
            return Ok("{}".to_owned());
        }
        match syntax_error(call.arguments.as_str()) {
            None => Ok(call.arguments.clone()),
            Some(e) => {
                let mut text = "arguments not valid JSON: ".to_owned();
                text.append(e.as_str());
                text.append(" (raw: ");
                text.append(call.arguments.as_str());
                text.append(")");
                Err(ToolError::Argument(text))
            },
        }
    }

    /// Takes the answer to the last request and says what comes next.
    pub fn resume(&mut self, input: RunInput) -> (r: RunStep)
        requires
            old(self).wf(),
            old(self)@.accepts(input@),
        ensures
            final(self).wf(),
            (final(self)@, r@) == old(self)@.advance(input@),
            input@ == InputView::GateAnswer(ConfirmationOutcome::Denied) ==> reports_error(
                final(self)@.messages,
                "denied by user"@,
            ),
            input@ == InputView::GateAnswer(ConfirmationOutcome::Approved) ==> (prepared(
                old(self)@.tools,
                old(self)@.calls[old(self)@.cursor as int],
            ) matches Err(e) ==> reports_error(final(self)@.messages, e.message())),
            input@ matches InputView::ToolFinished(t) ==> (t matches Err(e) ==> reports_error(
                final(self)@.messages,
                e.message(),
            )),
    {
        broadcast use views_push;

        let mut events: Vec<AgentEvent> = Vec::new();
        match input {
            RunInput::CancelFlag(true) => self.cancelled(events),
            RunInput::CancelFlag(false) => {
                if self.phase == Phase::TurnCheck {
                    self.steps_taken = self.steps_taken + 1;
                    self.wait(events, Phase::Opening, RunRequest::OpenStream)
                } else {
                    let call = self.calls[self.cursor].clone();
                    let preview_args = if holds(&self.tools, call.name.as_str())
                        && syntax_error(call.arguments.as_str()).is_none() {
                        Some(call.arguments.clone())
                    } else {
                        None
                    };
                    self.wait(events, Phase::Asking, RunRequest::AskGate { call, preview_args })
                }
            },
            RunInput::StreamOpened => self.wait(events, Phase::Streaming, RunRequest::NextDelta),
            RunInput::StreamRefused(e) => self.finish(events, Err(e)),
            RunInput::Delta(d) => {
                self.turn.absorb(&d);
                match d {
                    AgentDelta::Content(s) => events.push(AgentEvent::Token(s)),
                    AgentDelta::Thinking(s) => events.push(AgentEvent::Thinking(s)),
                    AgentDelta::Stats(s) => events.push(AgentEvent::Stats(s)),
                    AgentDelta::Done { .. } => {
                        return self.close_turn(events, None);
                    },
                    _ => {},
                }
                self.wait(events, Phase::Streaming, RunRequest::NextDelta)
            },
            RunInput::StreamFailed(e) => self.close_turn(events, Some(e)),
            RunInput::StreamEnded => self.close_turn(events, None),
            RunInput::GateAnswer(outcome) => {
                let call = &self.calls[self.cursor];
                events.push(AgentEvent::ToolStart { id: call.id.clone(), name: call.name.clone() });
                if outcome == ConfirmationOutcome::Denied {
                    return self.answer(events, Err(ToolError::Runtime("denied by user".to_owned())));
                }
                match self.prepare() {
                    Ok(arguments) => {
                        let name = self.calls[self.cursor].name.clone();
                        self.wait(
                            events,
                            Phase::Dispatching,
                            RunRequest::Dispatch { name, arguments },
                        )
                    },
                    Err(e) => self.answer(events, Err(e)),
                }
            },
            RunInput::ToolFinished(result) => self.answer(events, result),
        }
    }
}

} // verus!
