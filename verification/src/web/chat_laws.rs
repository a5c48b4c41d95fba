//! What an agent request sets up, and what its answer is.
use vstd::prelude::*;

use crate::agent::loop_::AgentOutcome;
use crate::agent::message::{ChatMessage, MessageView};
use crate::agent::tool::{ToolInfo, ToolInfoView};
use crate::text::{joined, opt_view, views};
use crate::web::chat::{
    apply_expansion, chat_result, chosen, confirm_required, expand_targets, message_role, plan_chat,
    requirements, role_of, roles_of, set_content, unresolved_warning, visible_tools, with_content, AgentChatOpts, ChatPlan,
    CloudConfigInput, ExpandTargets, ProviderChoice, Role,
};
use crate::web::state::{AgentState, AgentStateView};

verus! {

/// What a tool says about needing confirmation is noted for every tool and for
/// no other name; of several tools with one name the last one counts.
pub proof fn requirements_are_noted(tools: Seq<ToolInfoView>, i: int, name: Seq<char>)
    requires
        0 <= i < tools.len(),
    ensures
        requirements(tools).contains_key(tools[i].name),
        (forall|j: int| i < j < tools.len() ==> (#[trigger] tools[j]).name != tools[i].name)
            ==> requirements(tools)[tools[i].name] == tools[i].requires_confirmation,
        (forall|j: int| 0 <= j < tools.len() ==> (#[trigger] tools[j]).name != name)
            ==> !requirements(tools).contains_key(name),
    decreases tools.len(),
{
    let front = tools.drop_last();
    let last = tools.len() - 1;
    if forall|j: int| 0 <= j < tools.len() ==> (#[trigger] tools[j]).name != name {
        unnamed_tools_require_nothing(tools, name);
    }
    if i < last {
        requirements_are_noted(front, i, name);
        if forall|j: int| i < j < tools.len() ==> (#[trigger] tools[j]).name != tools[i].name {
            assert(tools[last].name != tools[i].name);
            assert forall|j: int| i < j < front.len() implies (#[trigger] front[j]).name
                != front[i].name by {
                assert(front[j] == tools[j]);
            }
        }
    }
}

proof fn unnamed_tools_require_nothing(tools: Seq<ToolInfoView>, name: Seq<char>)
    requires
        forall|j: int| 0 <= j < tools.len() ==> (#[trigger] tools[j]).name != name,
    ensures
        !requirements(tools).contains_key(name),
    decreases tools.len(),
{
    if tools.len() > 0 {
        let front = tools.drop_last();
        assert forall|j: int| 0 <= j < front.len() implies (#[trigger] front[j]).name != name by {
            assert(front[j] == tools[j]);
        }
        unnamed_tools_require_nothing(front, name);
        assert(tools[tools.len() - 1].name != name);
    }
}

/// Whether a request leaves a tool: it does not say `disable` for it.
pub open spec fn is_left(opts: AgentChatOpts, tool: Seq<char>) -> bool {
    opts.tool_permissions@.contains_key(tool) ==> opts.tool_permissions@[tool]@ != "disable"@
}

/// A run is set up with every tool that the request does not disable, in the
/// order of the tools, and with no other; with eight turns unless the request
/// says how many; and with a policy that knows the request's permissions and
/// what each shown tool says about confirmation.
pub proof fn runs_are_set_up_as_requested(
    opts: AgentChatOpts,
    tools: Vec<ToolInfo>,
    r: ChatPlan,
    tool: ToolInfoView,
)
    requires
        opts.tool_permissions.wf(),
        call_ensures(plan_chat, (opts, &tools), r),
    ensures
        views(r.tools@).contains(tool) <==> views(tools@).contains(tool) && is_left(
            opts,
            tool.name,
        ),
        views(r.tools@) == views(tools@).filter(|t: ToolInfoView| is_left(opts, t.name)),
        opts.max_steps is Some ==> r.agent.max_steps == opts.max_steps->0,
        opts.max_steps is None ==> r.agent.max_steps == 8,
        r.agent.tools@.len() == r.tools@.len(),
        forall|i: int|
            0 <= i < r.tools@.len() ==> (#[trigger] r.agent.tools@[i])@ == r.tools@[i].name@,
        r.policy.wf(),
        r.policy.hints() == opts.tool_permissions@,
        forall|i: int|
            0 <= i < r.tools@.len() ==> r.policy.required().contains_key(
                (#[trigger] r.tools@[i]).name@,
            ),
        forall|i: int|
            0 <= i < r.tools@.len() && (forall|j: int|
                i < j < r.tools@.len() ==> (#[trigger] r.tools@[j]).name@ != r.tools@[i].name@)
                ==> r.policy.required()[(#[trigger] r.tools@[i]).name@]
                == r.tools@[i].requires_confirmation,
        match r.provider {
            ProviderChoice::Local { model } => opts.provider@ == "local"@ && model@
                == (match opts.model {
                Some(m) => m@,
                None => "local"@,
            }),
            ProviderChoice::Cloud { label } => opts.provider@ != "local"@ && label@
                == opts.provider@,
        },
{
    let all = views(tools@);
    let shown = views(r.tools@);
    let left = |t: ToolInfoView| is_left(opts, t.name);
    let may = |t: ToolInfoView|
        crate::web::chat::allowed(opts.tool_permissions@, t.name);
    assert(left =~= may);
    assert(shown == all.filter(left));
    filter_members(all, left, tool);
    assert(views(r.agent.tools@).len() == shown.len());
    assert forall|i: int| 0 <= i < r.tools@.len() implies (#[trigger] r.agent.tools@[i])@
        == r.tools@[i].name@ by {
        assert(views(r.agent.tools@)[i] == shown[i].name);
    }
    assert forall|i: int| 0 <= i < r.tools@.len() implies r.policy.required().contains_key(
        (#[trigger] r.tools@[i]).name@,
    ) by {
        assert(shown[i].name == r.tools@[i].name@);
        requirements_are_noted(shown, i, shown[i].name);
    }
    assert forall|i: int|
        0 <= i < r.tools@.len() && (forall|j: int|
            i < j < r.tools@.len() ==> (#[trigger] r.tools@[j]).name@
                != r.tools@[i].name@) implies r.policy.required()[(
    #[trigger] r.tools@[i]).name@] == r.tools@[i].requires_confirmation by {
        assert(shown[i].name == r.tools@[i].name@);
        assert forall|j: int| i < j < shown.len() implies (#[trigger] shown[j]).name
            != shown[i].name by {
            assert(shown[j].name == r.tools@[j].name@);
        }
        requirements_are_noted(shown, i, shown[i].name);
    }
}

proof fn filter_members(
    s: Seq<ToolInfoView>,
    keep: spec_fn(ToolInfoView) -> bool,
    t: ToolInfoView,
)
    ensures
        s.filter(keep).contains(t) <==> s.contains(t) && keep(t),
{
    broadcast use vstd::seq_lib::group_filter_ensures;

    if s.filter(keep).contains(t) {
        s.lemma_filter_contains_rev(keep, t);
        let i = choose|i: int| 0 <= i < s.filter(keep).len() && s.filter(keep)[i] == t;
        assert(keep(s.filter(keep)[i]));
    }
    if s.contains(t) && keep(t) {
        let i = choose|i: int| 0 <= i < s.len() && s[i] == t;
        assert(s.filter(keep).contains(s[i]));
    }
}

/// Leaving tools out keeps all others.
pub proof fn left_out_tools_are_the_disabled_ones(
    tools: Vec<ToolInfo>,
    disabled: Vec<String>,
    r: Vec<ToolInfo>,
    tool: ToolInfoView,
)
    requires
        call_ensures(visible_tools, (&tools, &disabled), r),
    ensures
        views(r@).contains(tool) <==> views(tools@).contains(tool) && !views(disabled@).contains(
            tool.name,
        ),
{
    filter_members(
        views(tools@),
        |t: ToolInfoView| !views(disabled@).contains(t.name),
        tool,
    );
}

/// The parts of a request are read as they are.
pub proof fn requests_are_read_as_they_are(
    opts: AgentChatOpts,
    provider: ProviderChoice,
    steps: usize,
    cloud: CloudConfigInput,
    disabled: Vec<String>,
    tool: Seq<char>,
)
    requires
        opts.tool_permissions.wf(),
        call_ensures(AgentChatOpts::provider_choice, (&opts,), provider),
        call_ensures(AgentChatOpts::step_limit, (&opts,), steps),
        call_ensures(AgentChatOpts::cloud_config_input, (&opts,), cloud),
        call_ensures(AgentChatOpts::disabled_tools, (&opts,), disabled),
    ensures
        provider is Local <==> opts.provider@ == "local"@,
        provider matches ProviderChoice::Cloud { label } ==> label@ == opts.provider@,
        provider matches ProviderChoice::Local { model } ==> model@ == (if opts.model is Some {
            opts.model->0@
        } else {
            "local"@
        }),
        steps == (if opts.max_steps is Some {
            opts.max_steps->0 as int
        } else {
            8
        }),
        cloud.provider@ == opts.provider@,
        opt_view(cloud.model) == opt_view(opts.model),
        opt_view(cloud.base_url) == opt_view(opts.base_url),
        opt_view(cloud.api_key) == opt_view(opts.api_key),
        views(disabled@).contains(tool) <==> !is_left(opts, tool),
{
}

/// The answer is the final text of the run; a cancelled run and a failed one
/// are failures, told by their own texts.
pub proof fn answers_are_the_final_text(end: Result<AgentOutcome, String>, r: Result<String, String>)
    requires
        call_ensures(chat_result, (end,), r),
    ensures
        match end {
            Ok(AgentOutcome::Final(s)) => r is Ok && r->Ok_0@ == s@,
            Ok(AgentOutcome::Cancelled) => r is Err && r->Err_0@ == "cancelled"@,
            Err(e) => r is Err && r->Err_0@ == e@,
        },
{
}

/// A role is read from its word.
pub proof fn roles_are_read_from_words(word: &str, r: Role)
    requires
        call_ensures(role_of, (word,), r),
    ensures
        r == Role::System <==> word@ == "system"@,
        r == Role::User <==> word@ == "user"@,
        r == Role::Other <==> word@ != "system"@ && word@ != "user"@,
{
    reveal_strlit("system");
    reveal_strlit("user");
    assert("system"@.len() != "user"@.len());
}

/// Of a history the first message is expanded when it is the system's, and the
/// last message of the user's is.
pub proof fn expanded_messages_are_these(
    messages: Vec<ChatMessage>,
    roles: Vec<Role>,
    r: ExpandTargets,
)
    requires
        call_ensures(roles_of, (&messages,), roles),
        call_ensures(expand_targets, (&roles,), r),
    ensures
        r.first <==> messages@.len() > 0 && messages@[0] is System,
        match r.user {
            Some(at) => at < messages@.len() && messages@[at as int] is User && forall|j: int|
                at < j < messages@.len() ==> !((#[trigger] messages@[j]) is User),
            None => forall|j: int|
                0 <= j < messages@.len() ==> !((#[trigger] messages@[j]) is User),
        },
{
    assert(roles@.len() == messages@.len());
    assert forall|j: int| 0 <= j < messages@.len() implies (roles@[j] == Role::User <==> (
    #[trigger] messages@[j]) is User) && (roles@[j] == Role::System <==> messages@[j] is System) by {
        assert(roles@[j] == crate::web::chat::message_role(views(messages@)[j]));
    }
}

/// A message that is given another text stays a message of its kind.
pub proof fn expansion_keeps_the_kind(m: MessageView, content: Seq<char>)
    ensures
        m is System ==> with_content(m, content) == (MessageView::System { content }),
        m is User ==> with_content(m, content) == (MessageView::User { content }),
        m is Assistant || m is Tool ==> with_content(m, content) == m,
{
}

/// Links that lead nowhere are named, in their order; where there are none,
/// there is no warning.
pub proof fn unresolved_links_are_named(unresolved: Vec<String>, r: Option<String>)
    requires
        call_ensures(unresolved_warning, (&unresolved,), r),
    ensures
        r is None <==> unresolved@.len() == 0,
        r is Some ==> r->0@ == "wikilink unresolved: "@ + joined(views(unresolved@), ", "@),
{
}

/// A run that begins is the active one, with a number that no run had before;
/// grants stay, and so do questions unless a run was active.
pub proof fn runs_begin_with_a_new_number<C, S>(state: AgentStateView<C, S>, flag: C)
    ensures
        state.begin(flag).active == Some((state.runs, flag)),
        state.begin(flag).runs > state.runs,
        state.begin(flag).grants == state.grants,
        state.active is None ==> state.begin(flag).pending == state.pending,
        state.active is Some ==> state.begin(flag).pending == Map::<Seq<char>, S>::empty(),
{
}

/// Ending a run clears the slot exactly when that run is active, and touches
/// nothing else.
pub proof fn runs_end_their_own_slot<C, S>(state: AgentStateView<C, S>, run: nat)
    ensures
        match state.active {
            Some((active, flag)) => if active == run {
                state.end(run).active is None
            } else {
                state.end(run).active == Some((active, flag))
            },
            None => state.end(run).active is None,
        },
        state.end(run).runs == state.runs,
        state.end(run).pending == state.pending,
        state.end(run).grants == state.grants,
{
}

/// Questions come and go without a trace on runs and grants; a grant without
/// one on runs and questions.
pub proof fn questions_and_grants_keep_to_themselves<C, S>(
    state: AgentStateView<C, S>,
    id: Seq<char>,
    sender: S,
    tool: Seq<char>,
)
    ensures
        state.ask(id, sender).active == state.active,
        state.ask(id, sender).runs == state.runs,
        state.ask(id, sender).pending == state.pending.insert(id, sender),
        state.drop_question(id).active == state.active,
        state.drop_question(id).runs == state.runs,
        state.drop_question(id).pending == state.pending.remove(id),
        state.drop_questions().active == state.active,
        state.drop_questions().runs == state.runs,
        state.drop_questions().pending == Map::<Seq<char>, S>::empty(),
        state.grant(tool).active == state.active,
        state.grant(tool).runs == state.runs,
        state.grant(tool).pending == state.pending,
        state.grant(tool).grants == state.grants.insert(tool),
        state.revoke(tool).active == state.active,
        state.revoke(tool).runs == state.runs,
        state.revoke(tool).pending == state.pending,
        state.revoke(tool).grants == state.grants.remove(tool),
{
}

/// A new state is empty; what it says of itself is what it holds.
pub proof fn states_tell_what_they_hold<C, S>(
    fresh: AgentState<C, S>,
    state: AgentState<C, S>,
    tool: &str,
    begins: bool,
    granted: bool,
    grants: Vec<String>,
    flag: Option<&C>,
)
    requires
        call_ensures(AgentState::<C, S>::new, (), fresh),
        state.wf(),
        call_ensures(AgentState::<C, S>::can_begin, (&state,), begins),
        call_ensures(AgentState::<C, S>::has_always_grant, (&state, tool), granted),
        call_ensures(AgentState::<C, S>::always_grants, (&state,), grants),
        call_ensures(AgentState::<C, S>::active_flag, (&state,), flag),
    ensures
        fresh@.active is None,
        fresh@.runs == 0,
        fresh@.pending == Map::<Seq<char>, S>::empty(),
        fresh@.grants == Set::<Seq<char>>::empty(),
        begins <==> state@.runs < u64::MAX,
        granted <==> state@.grants.contains(tool@),
        granted <==> views(grants@).contains(tool@),
        flag is Some <==> state@.active is Some,
        state@.active matches Some((_, c)) ==> *flag->0 == c,
{
    assert(views(grants@).to_set().contains(tool@) == views(grants@).contains(tool@));
}

/// What each tool says about confirmation is noted under its name.
pub proof fn confirmation_is_noted_by_name(
    tools: Vec<ToolInfo>,
    r: crate::order::TextMap<bool>,
    i: int,
)
    requires
        call_ensures(confirm_required, (&tools,), r),
        0 <= i < tools@.len(),
        forall|j: int| i < j < tools@.len() ==> (#[trigger] tools@[j]).name@ != tools@[i].name@,
    ensures
        r@.contains_key(tools@[i].name@),
        r@[tools@[i].name@] == tools@[i].requires_confirmation,
{
    let all = views(tools@);
    assert(all[i].name == tools@[i].name@);
    assert forall|j: int| i < j < all.len() implies (#[trigger] all[j]).name != all[i].name by {
        assert(all[j].name == tools@[j].name@);
    }
    requirements_are_noted(all, i, all[i].name);
}

/// A run begins with the next number, and the flag of the run before is given
/// back, to be raised.
pub proof fn runs_replace_the_one_before<C, S>(
    state: &mut AgentState<C, S>,
    flag: C,
    r: (u64, Option<C>),
)
    requires
        old(state).wf(),
        old(state)@.runs < u64::MAX,
        call_ensures(AgentState::<C, S>::begin_run, (state, flag), r),
    ensures
        final(state).wf(),
        r.0 == old(state)@.runs,
        final(state)@.active == Some((r.0 as nat, flag)),
        final(state)@.runs == old(state)@.runs + 1,
        final(state)@.grants == old(state)@.grants,
        r.1 is Some <==> old(state)@.active is Some,
        old(state)@.active matches Some((_, c)) ==> r.1 == Some(c)
            && final(state)@.pending == Map::<Seq<char>, S>::empty(),
        old(state)@.active is None ==> final(state)@.pending == old(state)@.pending,
{
}

/// Ending a run ends that run and no other.
pub proof fn runs_are_ended_by_number<C, S>(state: &mut AgentState<C, S>, run: u64, r: ())
    requires
        old(state).wf(),
        call_ensures(AgentState::<C, S>::end_run, (state, run), r),
    ensures
        final(state).wf(),
        old(state)@.active matches Some((active, _)) ==> (if active == run {
            final(state)@.active is None
        } else {
            final(state)@.active == old(state)@.active
        }),
        old(state)@.active is None ==> final(state)@.active is None,
        final(state)@.runs == old(state)@.runs,
        final(state)@.pending == old(state)@.pending,
        final(state)@.grants == old(state)@.grants,
{
}

/// Cancelling and shutting down drop every question and give the flag of the
/// active run, which stays active until it ends by itself.
pub proof fn cancelling_drops_the_questions<C, S>(
    state: &mut AgentState<C, S>,
    r: Option<&C>,
    other: &mut AgentState<C, S>,
    q: Option<&C>,
)
    requires
        old(state).wf(),
        old(other).wf(),
        call_ensures(AgentState::<C, S>::cancel, (state,), r),
        call_ensures(AgentState::<C, S>::shutdown, (other,), q),
    ensures
        final(state)@.pending == Map::<Seq<char>, S>::empty(),
        final(state)@.active == old(state)@.active,
        final(state)@.runs == old(state)@.runs,
        final(state)@.grants == old(state)@.grants,
        r is Some <==> old(state)@.active is Some,
        old(state)@.active matches Some((_, c)) ==> *r->0 == c,
        final(other)@.pending == Map::<Seq<char>, S>::empty(),
        final(other)@.active == old(other)@.active,
        final(other)@.runs == old(other)@.runs,
        final(other)@.grants == old(other)@.grants,
        q is Some <==> old(other)@.active is Some,
        old(other)@.active matches Some((_, c)) ==> *q->0 == c,
{
}

/// A tool has a standing grant after it was given one and until it is
/// withdrawn; nothing else changes.
pub proof fn grants_are_given_and_withdrawn<C, S>(
    given: &mut AgentState<C, S>,
    withdrawn: &mut AgentState<C, S>,
    tool: &str,
    other: Seq<char>,
)
    requires
        old(given).wf(),
        old(withdrawn).wf(),
        call_ensures(AgentState::<C, S>::grant_always, (given, tool), ()),
        call_ensures(AgentState::<C, S>::revoke_always, (withdrawn, tool), ()),
        other != tool@,
    ensures
        final(given)@.grants.contains(tool@),
        final(given)@.grants.contains(other) == old(given)@.grants.contains(other),
        final(given)@.active == old(given)@.active,
        final(given)@.pending == old(given)@.pending,
        !final(withdrawn)@.grants.contains(tool@),
        final(withdrawn)@.grants.contains(other) == old(withdrawn)@.grants.contains(other),
        final(withdrawn)@.active == old(withdrawn)@.active,
        final(withdrawn)@.pending == old(withdrawn)@.pending,
{
}

/// A question that was kept is given out under its identifier, once; one that
/// was dropped is not; the others keep waiting.
pub proof fn questions_wait_under_their_identifiers<C, S>(
    kept: &mut AgentState<C, S>,
    taken: &mut AgentState<C, S>,
    dropped: &mut AgentState<C, S>,
    id: &str,
    sender: S,
    r: Option<S>,
    other: Seq<char>,
)
    requires
        old(kept).wf(),
        old(taken).wf(),
        old(dropped).wf(),
        call_ensures(AgentState::<C, S>::register_pending_confirm, (kept, id, sender), ()),
        call_ensures(AgentState::<C, S>::take_pending_confirm, (taken, id), r),
        call_ensures(AgentState::<C, S>::cancel_pending_confirm, (dropped, id), ()),
        other != id@,
    ensures
        final(kept)@.pending.contains_key(id@),
        final(kept)@.pending[id@] == sender,
        final(kept)@.pending.contains_key(other) == old(kept)@.pending.contains_key(other),
        final(kept)@.active == old(kept)@.active,
        final(kept)@.grants == old(kept)@.grants,
        r is Some <==> old(taken)@.pending.contains_key(id@),
        r is Some ==> r->0 == old(taken)@.pending[id@],
        !final(taken)@.pending.contains_key(id@),
        final(taken)@.pending.contains_key(other) == old(taken)@.pending.contains_key(other),
        old(taken)@.pending.contains_key(other) ==> final(taken)@.pending[other] == old(
            taken,
        )@.pending[other],
        final(taken)@.active == old(taken)@.active,
        final(taken)@.grants == old(taken)@.grants,
        !final(dropped)@.pending.contains_key(id@),
        final(dropped)@.pending.contains_key(other) == old(dropped)@.pending.contains_key(other),
{
}

/// Expansion gives the system message in front and the last user message their
/// texts and leaves every other message as it is.
pub proof fn histories_are_expanded(
    messages: &mut Vec<ChatMessage>,
    targets: ExpandTargets,
    first_text: String,
    user_text: String,
    i: int,
)
    requires
        chosen(views(old(messages)@).map_values(|m: MessageView| message_role(m)), targets),
        call_ensures(apply_expansion, (messages, targets, first_text, user_text), ()),
        0 <= i < old(messages)@.len(),
    ensures
        final(messages)@.len() == old(messages)@.len(),
        final(messages)@[i]@ == (if i == 0 && old(messages)@[0] is System {
            MessageView::System { content: first_text@ }
        } else if old(messages)@[i] is User && (forall|j: int|
            i < j < old(messages)@.len() ==> !((#[trigger] old(messages)@[j]) is User)) {
            MessageView::User { content: user_text@ }
        } else {
            old(messages)@[i]@
        }),
{
    let before = views(old(messages)@);
    let after = views(final(messages)@);
    let roles = before.map_values(|m: MessageView| message_role(m));
    crate::web::chat::other_messages_stay(before, targets, first_text@, user_text@, i);
    assert(after.len() == before.len());
    assert(after[i] == final(messages)@[i]@);
    assert(before[i] == old(messages)@[i]@);
    assert(before[0] == old(messages)@[0]@);
    assert forall|j: int| 0 <= j < before.len() implies (roles[j] == Role::User <==> (
    #[trigger] old(messages)@[j]) is User) by {
        assert(before[j] == old(messages)@[j]@);
        assert(roles[j] == message_role(before[j]));
    }
    if crate::web::chat::is_last_user(roles, i) {
        assert forall|j: int| i < j < old(messages)@.len() implies !((
        #[trigger] old(messages)@[j]) is User) by {
            assert(roles[j] != Role::User);
        }
    } else if old(messages)@[i] is User && (forall|j: int|
        i < j < old(messages)@.len() ==> !((#[trigger] old(messages)@[j]) is User)) {
        assert(roles[i] == Role::User);
        assert forall|j: int| i < j < roles.len() implies #[trigger] roles[j] != Role::User by {
            assert(!(old(messages)@[j] is User));
        }
    }
}

/// One message is given another text; every other message stays.
pub proof fn one_message_is_given_a_text(
    messages: &mut Vec<ChatMessage>,
    at: usize,
    content: String,
    i: int,
)
    requires
        at < old(messages)@.len(),
        call_ensures(set_content, (messages, at, content), ()),
        0 <= i < old(messages)@.len(),
    ensures
        final(messages)@.len() == old(messages)@.len(),
        i != at ==> final(messages)@[i]@ == old(messages)@[i]@,
        old(messages)@[at as int] is System ==> final(messages)@[at as int]@ == (
        MessageView::System { content: content@ }),
        old(messages)@[at as int] is User ==> final(messages)@[at as int]@ == (MessageView::User {
            content: content@,
        }),
        !(old(messages)@[at as int] is System) && !(old(messages)@[at as int] is User)
            ==> final(messages)@[at as int]@ == old(messages)@[at as int]@,
{
    let before = views(old(messages)@);
    let after = views(final(messages)@);
    assert(after.len() == before.len());
    assert(after[i] == final(messages)@[i]@ && before[i] == old(messages)@[i]@);
    assert(after[at as int] == final(messages)@[at as int]@ && before[at as int]
        == old(messages)@[at as int]@);
}

} // verus!
