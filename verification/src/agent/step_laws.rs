//! What a run does with each answer, told from what it was given.
use vstd::prelude::*;

use crate::agent::confirm::ConfirmationOutcome;
use crate::agent::delta::{DeltaView, FinishView};
use crate::agent::event::EventView;
use crate::agent::loop_::{
    AgentOpts, AgentRun, InputView, OutcomeView, Phase, RequestView, RunInput, RunStep, RunView,
};
use crate::agent::message::{ChatMessage, MessageView};
use crate::agent::tool::{CallView, ToolErrorView};
use crate::agent::turn::{calls_below, calls_in_order, TurnView};
use crate::json::{json_error, json_object, FieldView, ScalarView};
use crate::text::{decimal, trim, views};

verus! {

/// The reason with which `input` ends the turn that `r` is streaming; nothing
/// when it does not end it, or ends it by a failure.
pub open spec fn reason_given(r: RunView, input: InputView) -> Option<FinishView> {
    match input {
        InputView::Delta(DeltaView::Done { finish_reason }) => Some(finish_reason),
        InputView::StreamEnded => Some(r.turn.finish_reason),
        _ => None,
    }
}

/// The indexes below `n` that a table of calls holds, in ascending order.
pub open spec fn indexes_below(calls: Map<u32, CallView>, n: nat) -> Seq<u32>
    decreases n,
{
    if n == 0 {
        Seq::empty()
    } else {
        let before = indexes_below(calls, (n - 1) as nat);
        if calls.contains_key((n - 1) as u32) {
            before.push((n - 1) as u32)
        } else {
            before
        }
    }
}

proof fn calls_below_match(calls: Map<u32, CallView>, n: nat)
    requires
        n <= 0x1_0000_0000,
    ensures
        calls_below(calls, n).len() == indexes_below(calls, n).len(),
        forall|i: int|
            0 <= i < indexes_below(calls, n).len() ==> {
                let k = #[trigger] indexes_below(calls, n)[i];
                k < n && calls.contains_key(k) && calls_below(calls, n)[i] == calls[k]
            },
        forall|i: int, j: int|
            0 <= i < j < indexes_below(calls, n).len() ==> #[trigger] indexes_below(calls, n)[i]
                < #[trigger] indexes_below(calls, n)[j],
        forall|k: u32| k < n && calls.contains_key(k) ==> #[trigger] indexes_below(calls, n).contains(
            k,
        ),
    decreases n,
{
    if n > 0 {
        let m = (n - 1) as nat;
        calls_below_match(calls, m);
        let before = indexes_below(calls, m);
        let after = indexes_below(calls, n);
        assert forall|k: u32| k < n && calls.contains_key(k) implies #[trigger] after.contains(k) by {
            if k < m {
                assert(before.contains(k));
                let i = choose|i: int| 0 <= i < before.len() && before[i] == k;
                assert(after[i] == k);
            } else {
                assert(after[after.len() - 1] == k);
            }
        }
    }
}

/// The calls of a turn are all calls of its table and nothing else, in
/// ascending order of their indexes: `indexes` are those, each once.
pub proof fn every_call_is_listed(calls: Map<u32, CallView>) -> (indexes: Seq<u32>)
    ensures
        indexes.len() == calls_in_order(calls).len(),
        forall|k: u32| #[trigger] calls.contains_key(k) <==> indexes.contains(k),
        forall|i: int, j: int|
            0 <= i < j < indexes.len() ==> #[trigger] indexes[i] < #[trigger] indexes[j],
        forall|i: int|
            0 <= i < indexes.len() ==> calls_in_order(calls)[i] == calls[#[trigger] indexes[i]],
{
    calls_below_match(calls, 0x1_0000_0000);
    let indexes = indexes_below(calls, 0x1_0000_0000);
    assert forall|k: u32| #[trigger] calls.contains_key(k) <==> indexes.contains(k) by {
        if indexes.contains(k) {
            let i = choose|i: int| 0 <= i < indexes.len() && indexes[i] == k;
            assert(calls.contains_key(indexes[i]));
        }
    }
    indexes
}

/// A turn that ends with tool calls goes on to its first call, whatever text
/// it holds: the run does not end there.
pub proof fn turn_with_calls_goes_on(r: RunView, input: InputView, index: u32)
    requires
        r.phase == Phase::Streaming,
        reason_given(r, input) == Some(FinishView::ToolCalls),
        r.turn.calls.contains_key(index),
    ensures
        ({
            let (next, step) = r.advance(input);
            &&& !(step.request is Finish)
            &&& step.request is ReadCancelFlag
            &&& step.events.len() == 0
            &&& next.phase == Phase::CallCheck
            &&& next.cursor == 0
            &&& next.calls.len() > 0
            &&& next.calls.contains(r.turn.calls[index])
            &&& next.calls == calls_in_order(r.turn.calls)
            &&& next.messages.drop_last() == r.messages
            &&& next.messages.len() == r.messages.len() + 1
            &&& next.messages.last() == (MessageView::Assistant {
                content: r.turn.content,
                tool_calls: next.calls,
            })
        }),
{
    let indexes = every_call_is_listed(r.turn.calls);
    let calls = calls_in_order(r.turn.calls);
    assert(indexes.contains(index));
    let i = choose|i: int| 0 <= i < indexes.len() && indexes[i] == index;
    assert(calls[i] == r.turn.calls[index]);
    assert(calls.contains(calls[i]));
    assert(r.advance(input).0.messages.drop_last() =~= r.messages);
}

/// A run ends with a final answer only at the end of a turn that was not
/// cancelled and either did not end with tool calls or has none. The answer is
/// the turn's text.
pub proof fn final_answer_has_no_open_calls(r: RunView, input: InputView)
    requires
        r.accepts(input),
        r.advance(input).1.request matches RequestView::Finish(Ok(OutcomeView::Final(_))),
    ensures
        r.phase == Phase::Streaming,
        reason_given(r, input) matches Some(reason) && !(reason is Cancelled) && (reason is ToolCalls
            ==> r.turn.calls == Map::<u32, CallView>::empty()),
        r.advance(input).1.request == RequestView::Finish(Ok(OutcomeView::Final(r.turn.content))),
{
    let indexes = every_call_is_listed(r.turn.calls);
    if reason_given(r, input) == Some(FinishView::ToolCalls) {
        assert forall|k: u32| !r.turn.calls.contains_key(k) by {
            if r.turn.calls.contains_key(k) {
                turn_with_calls_goes_on(r, input, k);
            }
        }
        assert(r.turn.calls =~= Map::<u32, CallView>::empty());
    }
}

/// A turn that ends by itself, is cut off, or ends for another reason is
/// final, also when it holds calls; so is one that ends with tool calls and has
/// none. Its text is the answer and is reported.
pub proof fn other_turns_are_final(r: RunView, input: InputView)
    requires
        r.phase == Phase::Streaming,
        reason_given(r, input) matches Some(reason) && !(reason is Cancelled) && (reason is ToolCalls
            ==> r.turn.calls == Map::<u32, CallView>::empty()),
    ensures
        ({
            let (next, step) = r.advance(input);
            &&& step.request == RequestView::Finish(Ok(OutcomeView::Final(r.turn.content)))
            &&& step.events == seq![EventView::Done { content: r.turn.content }]
            &&& next.messages.drop_last() == r.messages
            &&& next.messages.last() == (MessageView::Assistant {
                content: r.turn.content,
                tool_calls: calls_in_order(r.turn.calls),
            })
        }),
{
    let indexes = every_call_is_listed(r.turn.calls);
    if reason_given(r, input) == Some(FinishView::ToolCalls) && indexes.len() > 0 {
        assert(indexes.contains(indexes[0]));
        assert(r.turn.calls.contains_key(indexes[0]));
    }
    let (next, step) = r.advance(input);
    assert(next.messages.drop_last() =~= r.messages);
    assert(step.events =~= seq![EventView::Done { content: r.turn.content }]);
}

/// A turn that was cancelled ends the run as cancelled; what was received of it
/// stands in the history.
pub proof fn cancelled_turn_ends_the_run(r: RunView, input: InputView)
    requires
        r.phase == Phase::Streaming,
        reason_given(r, input) == Some(FinishView::Cancelled),
    ensures
        ({
            let (next, step) = r.advance(input);
            &&& step.request == RequestView::Finish(Ok(OutcomeView::Cancelled))
            &&& step.events == seq![EventView::Cancelled]
            &&& next.messages.drop_last() == r.messages
            &&& next.messages.last() == (MessageView::Assistant {
                content: r.turn.content,
                tool_calls: calls_in_order(r.turn.calls),
            })
        }),
{
    let (next, step) = r.advance(input);
    assert(next.messages.drop_last() =~= r.messages);
    assert(step.events =~= seq![EventView::Cancelled]);
}

/// A delta that does not end the turn is taken in and the next one asked for.
/// Text and reasoning are reported as they are and appended to what came
/// before, token counts are reported, and fragments of calls go to their call.
pub proof fn deltas_are_taken_as_they_are(r: RunView, d: DeltaView)
    requires
        r.phase == Phase::Streaming,
        !(d is Done),
    ensures
        ({
            let (next, step) = r.advance(InputView::Delta(d));
            &&& step.request is NextDelta
            &&& next.phase == Phase::Streaming
            &&& next.messages == r.messages
            &&& next.turn.finish_reason == r.turn.finish_reason
            &&& match d {
                DeltaView::Content(s) => {
                    &&& step.events == seq![EventView::Token(s)]
                    &&& next.turn == (TurnView { content: r.turn.content + s, ..r.turn })
                },
                DeltaView::Thinking(s) => {
                    &&& step.events == seq![EventView::Thinking(s)]
                    &&& next.turn == (TurnView { thinking: r.turn.thinking + s, ..r.turn })
                },
                DeltaView::Stats(s) => {
                    &&& step.events == seq![EventView::Stats(s)]
                    &&& next.turn == r.turn
                },
                DeltaView::ToolCallStart { index, id, name } => {
                    &&& step.events.len() == 0
                    &&& next.turn.content == r.turn.content
                    &&& next.turn.calls[index].id == id
                    &&& next.turn.calls[index].name == name
                    &&& next.turn.calls[index].arguments.len() == 0
                    &&& next.turn.calls.remove(index) == r.turn.calls.remove(index)
                    &&& next.turn.calls.contains_key(index)
                },
                DeltaView::ToolCallArgs { index, fragment } => {
                    &&& step.events.len() == 0
                    &&& next.turn.content == r.turn.content
                    &&& next.turn.calls.remove(index) == r.turn.calls.remove(index)
                    &&& next.turn.calls.contains_key(index) == r.turn.calls.contains_key(index)
                    &&& r.turn.calls.contains_key(index) ==> next.turn.calls[index] == (CallView {
                        arguments: r.turn.calls[index].arguments + fragment,
                        ..r.turn.calls[index]
                    })
                },
                _ => step.events.len() == 0 && next.turn == r.turn,
            }
        }),
{
    let next = r.advance(InputView::Delta(d)).0;
    match d {
        DeltaView::ToolCallStart { index, .. } => {
            assert(next.turn.calls.remove(index) =~= r.turn.calls.remove(index));
        },
        DeltaView::ToolCallArgs { index, .. } => {
            assert(next.turn.calls.remove(index) =~= r.turn.calls.remove(index));
        },
        _ => {},
    }
}

/// A call that is not cancelled is put before the confirmation gate as it is.
/// Its arguments are handed over for a preview exactly when its tool is
/// registered and they are JSON.
pub proof fn current_call_is_put_before_the_gate(r: RunView)
    requires
        r.phase == Phase::CallCheck,
    ensures
        ({
            let (next, step) = r.advance(InputView::CancelFlag(false));
            let call = r.calls[r.cursor as int];
            &&& step.events.len() == 0
            &&& next.messages == r.messages
            &&& next.calls == r.calls
            &&& next.cursor == r.cursor
            &&& step.request matches RequestView::AskGate { call: asked, preview_args } && asked
                == call && (preview_args is Some <==> r.tools.contains(call.name) && json_error(
                call.arguments,
            ) is None) && (preview_args matches Some(a) ==> a == call.arguments)
        }),
{
}

/// An approved call to a registered tool is dispatched under its own name, with
/// its own arguments, or with an empty object when they are blank. A call to
/// another tool, or with arguments that are neither blank nor JSON, is not.
pub proof fn approved_calls_are_dispatched(r: RunView)
    requires
        r.phase == Phase::Asking,
    ensures
        ({
            let call = r.calls[r.cursor as int];
            let (next, step) = r.advance(InputView::GateAnswer(ConfirmationOutcome::Approved));
            let known = r.tools.contains(call.name);
            let blank = trim(call.arguments).len() == 0;
            let is_json = json_error(call.arguments) is None;
            &&& step.events.len() > 0
            &&& step.events[0] == (EventView::ToolStart { id: call.id, name: call.name })
            &&& step.request is Dispatch <==> known && (blank || is_json)
            &&& known && blank ==> step.request == (RequestView::Dispatch {
                name: call.name,
                arguments: "{}"@,
            })
            &&& known && !blank && is_json ==> step.request == (RequestView::Dispatch {
                name: call.name,
                arguments: call.arguments,
            })
            &&& !(step.request is Dispatch) ==> step.events.len() == 2 || (step.events.len() == 3
                && step.request is Finish)
            &&& step.request is Dispatch ==> step.events.len() == 1 && next.messages == r.messages
                && next.calls == r.calls && next.cursor == r.cursor
            &&& !known ==> step.events[1] == (EventView::ToolEnd {
                id: call.id,
                ok: false,
                result: None,
                error: Some("unknown tool `"@ + call.name + "`"@),
            })
            &&& known && !blank && !is_json ==> step.events[1] == (EventView::ToolEnd {
                id: call.id,
                ok: false,
                result: None,
                error: Some(
                    "arguments not valid JSON: "@ + json_error(call.arguments)->0 + " (raw: "@
                        + call.arguments + ")"@,
                ),
            })
            &&& !(step.request is Dispatch) ==> next.messages == r.messages.push(
                MessageView::Tool {
                    tool_call_id: call.id,
                    content: json_object(
                        seq![
                            FieldView {
                                key: "error"@,
                                value: ScalarView::Text(step.events[1]->ToolEnd_error->0),
                            },
                        ],
                    ),
                },
            )
        }),
{
    let call = r.calls[r.cursor as int];
    let (next, step) = r.advance(InputView::GateAnswer(ConfirmationOutcome::Approved));
    if !(step.request is Dispatch) {
        let text = step.events[1]->ToolEnd_error->0;
        assert(crate::json::error_fields(text) =~= seq![
            FieldView { key: "error"@, value: ScalarView::Text(text) },
        ]);
    }
}

/// The text of an error.
pub open spec fn text_of(e: ToolErrorView) -> Seq<char> {
    match e {
        ToolErrorView::Argument(s) => s,
        ToolErrorView::Runtime(s) => s,
    }
}

/// The result of a tool answers its call: the message carries the call's
/// identifier and the result as it is, and the end of the call is reported with
/// it. A failure is reported with its text.
pub proof fn results_answer_their_call(r: RunView, t: Result<Seq<char>, ToolErrorView>)
    requires
        r.phase == Phase::Dispatching,
    ensures
        ({
            let call = r.calls[r.cursor as int];
            let (next, step) = r.advance(InputView::ToolFinished(t));
            &&& step.events.len() == 1 || (step.events.len() == 2 && step.request is Finish)
            &&& next.messages.drop_last() == r.messages
            &&& match t {
                Ok(v) => {
                    &&& next.messages.last() == (MessageView::Tool {
                        tool_call_id: call.id,
                        content: v,
                    })
                    &&& step.events[0] == (EventView::ToolEnd {
                        id: call.id,
                        ok: true,
                        result: Some(v),
                        error: None,
                    })
                },
                Err(e) => {
                    &&& next.messages.last() == (MessageView::Tool {
                        tool_call_id: call.id,
                        content: json_object(
                            seq![FieldView { key: "error"@, value: ScalarView::Text(text_of(e)) }],
                        ),
                    })
                    &&& step.events[0] == (EventView::ToolEnd {
                        id: call.id,
                        ok: false,
                        result: None,
                        error: Some(text_of(e)),
                    })
                },
            }
        }),
{
    let next = r.advance(InputView::ToolFinished(t)).0;
    assert(next.messages.drop_last() =~= r.messages);
    if let Err(e) = t {
        assert(crate::json::error_fields(e.message()) =~= seq![
            FieldView { key: "error"@, value: ScalarView::Text(text_of(e)) },
        ]);
    }
}

/// A denied call is answered like a failed one, by `denied by user`: its start
/// and its failed end are reported, and the body of the answer says so.
pub proof fn denied_calls_are_told_so(r: RunView)
    requires
        r.phase == Phase::Asking,
    ensures
        ({
            let call = r.calls[r.cursor as int];
            let (next, step) = r.advance(InputView::GateAnswer(ConfirmationOutcome::Denied));
            &&& !(step.request is Dispatch)
            &&& step.events.len() == 2 || (step.events.len() == 3 && step.request is Finish)
            &&& step.events[0] == (EventView::ToolStart { id: call.id, name: call.name })
            &&& step.events[1] == (EventView::ToolEnd {
                id: call.id,
                ok: false,
                result: None,
                error: Some("denied by user"@),
            })
            &&& next.messages == r.messages.push(
                MessageView::Tool {
                    tool_call_id: call.id,
                    content: json_object(
                        seq![
                            FieldView {
                                key: "error"@,
                                value: ScalarView::Text("denied by user"@),
                            },
                        ],
                    ),
                },
            )
        }),
{
    assert(crate::json::error_fields("denied by user"@) =~= seq![
        FieldView { key: "error"@, value: ScalarView::Text("denied by user"@) },
    ]);
}

/// A run starts on the history that it is given and keeps its settings; the
/// history that it leaves behind is its own.
pub proof fn runs_start_on_their_history(
    messages: Vec<ChatMessage>,
    opts: AgentOpts,
    r: (AgentRun, RunStep),
    run: AgentRun,
    left: Vec<ChatMessage>,
)
    requires
        call_ensures(AgentRun::start, (messages, opts), r),
        call_ensures(AgentRun::into_messages, (run,), left),
    ensures
        r.0@.messages == views(messages@),
        r.0@.tools == views(opts.tools@),
        r.0@.max_steps == opts.max_steps,
        r.0@.steps_taken == 0,
        opts.max_steps > 0 ==> r.1.request is ReadCancelFlag && r.1.events@.len() == 0,
        opts.max_steps == 0 ==> r.1.request is Finish,
        views(left@) == run@.messages,
{
    if opts.max_steps > 0 {
        assert(r.1@.events.len() == 0);
        assert(r.1@.request is ReadCancelFlag);
    } else {
        assert(r.1@.request is Finish);
    }
}

/// Once a call is answered, the next call of the turn is worked on; after the
/// last one comes the next turn; and when the turns are used up the run fails
/// with a message that names their number.
pub proof fn answered_calls_lead_on(r: RunView, input: InputView)
    requires
        r.wf(),
        r.accepts(input),
        r.phase == Phase::Asking || r.phase == Phase::Dispatching,
        !(r.advance(input).1.request is Dispatch),
    ensures
        ({
            let (next, step) = r.advance(input);
            let text = "agent exceeded max_steps="@ + decimal(r.max_steps);
            &&& next.calls == r.calls
            &&& next.steps_taken == r.steps_taken
            &&& if r.cursor + 1 < r.calls.len() {
                step.request is ReadCancelFlag && next.phase == Phase::CallCheck && next.cursor
                    == r.cursor + 1
            } else if r.steps_taken < r.max_steps {
                step.request is ReadCancelFlag && next.phase == Phase::TurnCheck
            } else {
                step.request == RequestView::Finish(Err(text)) && step.events.last()
                    == EventView::Error(text)
            }
        }),
{
}

/// A turn begins by opening a stream on the history, which it counts, unless
/// the run was cancelled. A stream that opens is read; one that does not ends
/// the run with its error, and nothing is added.
pub proof fn turns_open_a_stream(r: RunView, e: Seq<char>)
    ensures
        r.phase == Phase::TurnCheck ==> ({
            let (next, step) = r.advance(InputView::CancelFlag(false));
            &&& step.request is OpenStream
            &&& step.events.len() == 0
            &&& next.messages == r.messages
            &&& next.steps_taken == r.steps_taken + 1
        }),
        r.phase == Phase::Opening ==> ({
            let (next, step) = r.advance(InputView::StreamOpened);
            step.request is NextDelta && step.events.len() == 0 && next.messages == r.messages
                && next.turn == r.turn
        }),
        r.phase == Phase::Opening ==> ({
            let (next, step) = r.advance(InputView::StreamRefused(e));
            step.request == RequestView::Finish(Err(e)) && step.events.len() == 0
                && next.messages == r.messages
        }),
{
}

/// A run that may take a turn begins with one; a run that may take none fails
/// at once.
pub proof fn runs_begin_with_a_turn(r: RunView)
    requires
        r.steps_taken == 0,
    ensures
        ({
            let (next, step) = r.begin_turn(Seq::empty());
            if r.max_steps > 0 {
                step.request is ReadCancelFlag && step.events.len() == 0 && next.phase
                    == Phase::TurnCheck && next.messages == r.messages
            } else {
                step.request matches RequestView::Finish(Err(text)) && step.events == seq![
                    EventView::Error(text),
                ] && text == "agent exceeded max_steps="@ + decimal(0)
            }
        }),
{
    let (next, step) = r.begin_turn(Seq::empty());
    if r.max_steps == 0 {
        let text = "agent exceeded max_steps="@ + decimal(0);
        assert(step.events =~= seq![EventView::Error(text)]);
    }
}

/// Whatever a run asks for, every answer to it can be given.
pub proof fn every_request_can_be_answered(
    r: RunView,
    input: InputView,
    flag: bool,
    text: Seq<char>,
    d: DeltaView,
    outcome: ConfirmationOutcome,
    result: Result<Seq<char>, ToolErrorView>,
)
    requires
        r.wf(),
        r.accepts(input),
    ensures
        ({
            let (next, step) = r.advance(input);
            match step.request {
                RequestView::ReadCancelFlag => next.accepts(InputView::CancelFlag(flag)),
                RequestView::OpenStream => next.accepts(InputView::StreamOpened) && next.accepts(
                    InputView::StreamRefused(text),
                ),
                RequestView::NextDelta => next.accepts(InputView::Delta(d)) && next.accepts(
                    InputView::StreamFailed(text),
                ) && next.accepts(InputView::StreamEnded),
                RequestView::AskGate { .. } => next.accepts(InputView::GateAnswer(outcome)),
                RequestView::Dispatch { .. } => next.accepts(InputView::ToolFinished(result)),
                RequestView::Finish(_) => true,
            }
        }),
{
}

/// A run answers an input as its rule says: the laws of the rule are laws of
/// the run.
pub proof fn runs_step_by_their_rule(run: &mut AgentRun, input: RunInput, r: RunStep)
    requires
        old(run).wf(),
        old(run)@.accepts(input@),
        call_ensures(AgentRun::resume, (run, input), r),
    ensures
        final(run).wf(),
        final(run)@ == old(run)@.advance(input@).0,
        views(r.events@) == old(run)@.advance(input@).1.events,
        r.request@ == old(run)@.advance(input@).1.request,
{
    assert(r@ == old(run)@.advance(input@).1);
}

/// A run tells which inputs it takes and shows its history.
pub proof fn runs_tell_what_they_take(
    run: AgentRun,
    input: RunInput,
    takes: bool,
    shown: &Vec<ChatMessage>,
)
    requires
        call_ensures(AgentRun::accepts, (&run, &input), takes),
        call_ensures(AgentRun::messages, (&run,), shown),
    ensures
        takes <==> run@.accepts(input@),
        views(shown@) == run@.messages,
        run@.phase == Phase::Finished ==> !takes,
{
}

} // verus!
