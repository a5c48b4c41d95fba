//! The agent command: what it sets up, what it expands, and what it answers.
use vstd::prelude::*;

use crate::agent::loop_::{end_view, AgentOpts, AgentOutcome, OutcomeView};
use crate::agent::message::{ChatMessage, MessageView};
use crate::agent::tool::{ToolInfo, ToolInfoView};
use crate::order::{ascending, TextMap};
use crate::text::{
    copy_opt, holds, join, joined, opt_text, opt_view, push_contains, text_eq, views, views_push,
};
use crate::web::gate::WebGatePolicy;

verus! {

/// How many turns a run may take when the request does not say.
pub const DEFAULT_MAX_STEPS: usize = 8;

/// The options of an agent request, without its sampling parameters.
pub struct AgentChatOpts {
    /// `local`, or the key of a cloud provider.
    pub provider: String,
    pub model: Option<String>,
    /// Needed for the provider `other`.
    pub base_url: Option<String>,
    /// In place of the stored key.
    pub api_key: Option<String>,
    pub max_steps: Option<usize>,
    pub max_tokens: Option<u32>,
    /// `ask`, `always` or `disable` for each tool.
    pub tool_permissions: TextMap<String>,
}

/// Where the model runs.
#[derive(Debug)]
pub enum ProviderChoice {
    /// On this machine. The label stands for the loaded model.
    Local { model: String },
    /// With a cloud provider, whose key is the label.
    Cloud { label: String },
}

/// What a cloud configuration is resolved from.
#[derive(Debug)]
pub struct CloudConfigInput<'a> {
    pub provider: &'a str,
    pub model: Option<&'a str>,
    pub base_url: Option<&'a str>,
    pub api_key: Option<&'a str>,
}

/// Whether a permission is exactly `disable`.
pub open spec fn is_disabling(permission: Seq<char>) -> bool {
    permission == "disable"@
}

impl AgentChatOpts {
    /// Where the model runs: a local run is labelled by the model where one is
    /// named.
    pub fn provider_choice(&self) -> (r: ProviderChoice)
        ensures
            if self.provider@ == "local"@ {
                r matches ProviderChoice::Local { model } && model@ == (match self.model {
                    Some(m) => m@,
                    None => "local"@,
                })
            } else {
                r matches ProviderChoice::Cloud { label } && label@ == self.provider@
            },
    {
        if text_eq(self.provider.as_str(), "local") {
            ProviderChoice::Local {
                model: match copy_opt(&self.model) {
                    Some(m) => m,
                    None => "local".to_owned(),
                },
            }
        } else {
            ProviderChoice::Cloud { label: self.provider.clone() }
        }
    }

    /// How many turns the run may take.
    pub fn step_limit(&self) -> (r: usize)
        ensures
            r == (match self.max_steps {
                Some(n) => n,
                None => DEFAULT_MAX_STEPS,
            }),
    {
        match self.max_steps {
            Some(n) => n,
            None => DEFAULT_MAX_STEPS,
        }
    }

    /// What the cloud configuration is resolved from, by the same rules as for
    /// a plain chat.
    pub fn cloud_config_input(&self) -> (r: CloudConfigInput<'_>)
        ensures
            r.provider@ == self.provider@,
            opt_view(r.model) == opt_view(self.model),
            opt_view(r.base_url) == opt_view(self.base_url),
            opt_view(r.api_key) == opt_view(self.api_key),
    {
        CloudConfigInput {
            provider: self.provider.as_str(),
            model: opt_text(&self.model),
            base_url: opt_text(&self.base_url),
            api_key: opt_text(&self.api_key),
        }
    }

    /// The tools that the request disables.
    pub fn disabled_tools(&self) -> (r: Vec<String>)
        requires
            self.tool_permissions.wf(),
        ensures
            ascending(views(r@)),
            forall|tool: Seq<char>| #[trigger]
                views(r@).contains(tool) <==> self.tool_permissions@.contains_key(tool)
                    && is_disabling(self.tool_permissions@[tool]@),
    {
        let keys = self.tool_permissions.keys();
        let ghost all = views(keys@);
        let ghost perms = self.tool_permissions@;
        let mut out: Vec<String> = Vec::new();
        let mut i: usize = 0;
        while i < keys.len()
            invariant
                i <= keys.len(),
                all == views(keys@),
                ascending(all),
                self.tool_permissions.wf(),
                perms == self.tool_permissions@,
                forall|k: Seq<char>| #[trigger] all.contains(k) <==> perms.contains_key(k),
                ascending(views(out@)),
                forall|k: Seq<char>| #[trigger]
                    views(out@).contains(k) <==> all.take(i as int).contains(k) && is_disabling(
                        perms[k]@,
                    ),
            decreases keys.len() - i,
        {
            let ghost before = views(out@);
            let key = &keys[i];
            let ghost k0 = all[i as int];
            assert(all.contains(k0));
            let off: bool = match self.tool_permissions.get(key.as_str()) {
                Some(p) => text_eq(p.as_str(), "disable"),
                None => false,
            };
            assert(off == is_disabling(perms[k0]@));
            if off {
                proof {
                    views_push(out@, *key);
                    assert forall|p: int, q: int| 0 <= p < q < before.push(k0).len() implies
                        crate::order::precedes(
                        #[trigger] before.push(k0)[p],
                        #[trigger] before.push(k0)[q],
                    ) by {
                        if q == before.len() {
                            assert(before.contains(before[p]));
                            assert(all.take(i as int).contains(before[p]));
                            let m = choose|m: int|
                                0 <= m < all.take(i as int).len() && all.take(i as int)[m]
                                    == before[p];
                            assert(crate::order::precedes(all[m], all[i as int]));
                        } else {
                            assert(crate::order::precedes(before[p], before[q]));
                        }
                    }
                }
                out.push(key.clone());
            }
            proof {
                assert forall|k: Seq<char>| #[trigger]
                    views(out@).contains(k) <==> all.take(i + 1).contains(k) && is_disabling(
                        perms[k]@,
                    ) by {
                    taken_members(all, i as int, k);
                    push_contains(before, k0, k);
                    assert(before.contains(k) <==> all.take(i as int).contains(k) && is_disabling(
                        perms[k]@,
                    ));
                }
            }
            i = i + 1;
        }
        assert(all.take(all.len() as int) =~= all);
        out
    }
}

proof fn taken_members(s: Seq<Seq<char>>, i: int, x: Seq<char>)
    requires
        0 <= i < s.len(),
    ensures
        s.take(i + 1).contains(x) <==> s.take(i).contains(x) || x == s[i],
{
    assert(s.take(i + 1) =~= s.take(i).push(s[i]));
    push_contains(s.take(i), s[i], x);
}

/// The tools that are left when some are disabled, in their order.
pub open spec fn visible(tools: Seq<ToolInfoView>, disabled: Seq<Seq<char>>) -> Seq<ToolInfoView> {
    tools.filter(|t: ToolInfoView| !disabled.contains(t.name))
}

/// The tools that the model is shown: a disabled one is not among them.
pub fn visible_tools(tools: &Vec<ToolInfo>, disabled: &Vec<String>) -> (r: Vec<ToolInfo>)
    ensures
        views(r@) == visible(views(tools@), views(disabled@)),
{
    let ghost all = views(tools@);
    let ghost keep = |t: ToolInfoView| !views(disabled@).contains(t.name);
    let mut out: Vec<ToolInfo> = Vec::new();
    let mut i: usize = 0;
    assert(views(out@) =~= all.take(0).filter(keep)) by {
        reveal(Seq::filter);
    }
    while i < tools.len()
        invariant
            i <= tools.len(),
            all == views(tools@),
            keep == (|t: ToolInfoView| !views(disabled@).contains(t.name)),
            views(out@) == all.take(i as int).filter(keep),
        decreases tools.len() - i,
    {
        proof {
            reveal(Seq::filter);
            assert(all.take(i + 1).drop_last() =~= all.take(i as int));
            assert(all.take(i + 1).last() == all[i as int]);
        }
        if !holds(disabled, tools[i].name.as_str()) {
            proof {
                views_push(out@, tools@[i as int]);
            }
            out.push(tools[i].clone());
        }
        i = i + 1;
    }
    assert(all.take(all.len() as int) =~= all);
    out
}

/// What each tool says about needing confirmation; the last of several tools
/// with one name counts.
pub open spec fn requirements(tools: Seq<ToolInfoView>) -> Map<Seq<char>, bool>
    decreases tools.len(),
{
    if tools.len() == 0 {
        Map::empty()
    } else {
        requirements(tools.drop_last()).insert(
            tools.last().name,
            tools.last().requires_confirmation,
        )
    }
}

/// Notes for the confirmation gate what each tool says about needing confirmation.
pub fn confirm_required(tools: &Vec<ToolInfo>) -> (r: TextMap<bool>)
    ensures
        r.wf(),
        r@ == requirements(views(tools@)),
{
    let ghost all = views(tools@);
    let mut out: TextMap<bool> = TextMap::new();
    let mut i: usize = 0;
    while i < tools.len()
        invariant
            i <= tools.len(),
            all == views(tools@),
            out.wf(),
            out@ == requirements(all.take(i as int)),
        decreases tools.len() - i,
    {
        assert(all.take(i + 1).drop_last() =~= all.take(i as int));
        out.insert(tools[i].name.as_str(), tools[i].requires_confirmation);
        i = i + 1;
    }
    assert(all.take(all.len() as int) =~= all);
    out
}

/// Whether a tool may be shown to the model: the request does not disable it.
pub open spec fn allowed(permissions: Map<Seq<char>, String>, tool: Seq<char>) -> bool {
    !(permissions.contains_key(tool) && is_disabling(permissions[tool]@))
}

/// The tools that a request leaves, in their order.
pub open spec fn allowed_tools(
    permissions: Map<Seq<char>, String>,
    tools: Seq<ToolInfoView>,
) -> Seq<ToolInfoView> {
    tools.filter(|t: ToolInfoView| allowed(permissions, t.name))
}

/// What an agent request sets up.
pub struct ChatPlan {
    pub provider: ProviderChoice,
    /// The tools that the model is shown.
    pub tools: Vec<ToolInfo>,
    pub policy: WebGatePolicy,
    pub agent: AgentOpts,
}

/// Sets up a run: where the model runs, the tools it is shown, the policy of
/// the confirmation gate, and the limit on its turns. `tools` are all registered tools.
pub fn plan_chat(opts: AgentChatOpts, tools: &Vec<ToolInfo>) -> (r: ChatPlan)
    requires
        opts.tool_permissions.wf(),
    ensures
        if opts.provider@ == "local"@ {
            r.provider matches ProviderChoice::Local { model } && model@ == (match opts.model {
                Some(m) => m@,
                None => "local"@,
            })
        } else {
            r.provider matches ProviderChoice::Cloud { label } && label@ == opts.provider@
        },
        views(r.tools@) == allowed_tools(opts.tool_permissions@, views(tools@)),
        r.policy.wf(),
        r.policy.hints() == opts.tool_permissions@,
        r.policy.required() == requirements(views(r.tools@)),
        r.agent.max_steps == (match opts.max_steps {
            Some(n) => n,
            None => DEFAULT_MAX_STEPS,
        }),
        views(r.agent.tools@) == views(r.tools@).map_values(|t: ToolInfoView| t.name),
{
    let provider = opts.provider_choice();
    let disabled = opts.disabled_tools();
    let shown = visible_tools(tools, &disabled);
    proof {
        let keep = |t: ToolInfoView| !views(disabled@).contains(t.name);
        let may = |t: ToolInfoView| allowed(opts.tool_permissions@, t.name);
        assert forall|t: ToolInfoView| #[trigger] keep(t) == may(t) by {
            assert(views(disabled@).contains(t.name) <==> opts.tool_permissions@.contains_key(
                t.name,
            ) && is_disabling(opts.tool_permissions@[t.name]@));
        }
        assert(keep =~= may);
    }
    let mut names: Vec<String> = Vec::new();
    let mut i: usize = 0;
    while i < shown.len()
        invariant
            i <= shown.len(),
            names@.len() == i,
            forall|j: int| 0 <= j < i ==> (#[trigger] names@[j])@ == shown@[j].name@,
        decreases shown.len() - i,
    {
        names.push(shown[i].name.clone());
        i = i + 1;
    }
    assert(views(names@) =~= views(shown@).map_values(|t: ToolInfoView| t.name));
    let max_steps: usize = opts.step_limit();
    let required = confirm_required(&shown);
    ChatPlan {
        provider,
        tools: shown,
        policy: WebGatePolicy::new(opts.tool_permissions, required),
        agent: AgentOpts { max_steps, tools: names },
    }
}

/// What the command answers.
pub fn chat_result(end: Result<AgentOutcome, String>) -> (r: Result<String, String>)
    ensures
        match end_view(end) {
            Ok(OutcomeView::Final(s)) => r matches Ok(t) && t@ == s,
            Ok(OutcomeView::Cancelled) => r matches Err(e) && e@ == "cancelled"@,
            Err(error) => r matches Err(e) && e@ == error,
        },
{
    match end {
        Ok(AgentOutcome::Final(s)) => Ok(s),
        Ok(AgentOutcome::Cancelled) => Err("cancelled".to_owned()),
        Err(e) => Err(e),
    }
}

/// Who a message is from, as far as expansion goes.
#[derive(Debug, Clone, Copy, PartialEq, Eq, Structural)]
pub enum Role {
    System,
    User,
    Other,
}

/// The role of an agent message.
pub open spec fn message_role(m: MessageView) -> Role {
    match m {
        MessageView::System { .. } => Role::System,
        MessageView::User { .. } => Role::User,
        _ => Role::Other,
    }
}

/// The role written as a word.
pub open spec fn word_role(word: Seq<char>) -> Role {
    if word == "system"@ {
        Role::System
    } else if word == "user"@ {
        Role::User
    } else {
        Role::Other
    }
}

/// Reads the role of a chat message.
pub fn role_of(word: &str) -> (r: Role)
    ensures
        r == word_role(word@),
{
    if text_eq(word, "system") {
        Role::System
    } else if text_eq(word, "user") {
        Role::User
    } else {
        Role::Other
    }
}

/// The roles of a history.
pub fn roles_of(messages: &Vec<ChatMessage>) -> (r: Vec<Role>)
    ensures
        r@ == views(messages@).map_values(|m: MessageView| message_role(m)),
{
    let mut out: Vec<Role> = Vec::new();
    let mut i: usize = 0;
    while i < messages.len()
        invariant
            i <= messages.len(),
            out@.len() == i,
            forall|j: int| 0 <= j < i ==> #[trigger] out@[j] == message_role(messages@[j]@),
        decreases messages.len() - i,
    {
        out.push(
            match &messages[i] {
                ChatMessage::System { .. } => Role::System,
                ChatMessage::User { .. } => Role::User,
                _ => Role::Other,
            },
        );
        i = i + 1;
    }
    assert(out@ =~= views(messages@).map_values(|m: MessageView| message_role(m)));
    out
}

/// Which messages have their links expanded.
#[derive(Debug, Clone, Copy, PartialEq, Eq, Structural)]
pub struct ExpandTargets {
    /// Whether the first message does.
    pub first: bool,
    /// The position of the other one that does.
    pub user: Option<usize>,
}

/// Whether `i` is the position of the last user message.
pub open spec fn is_last_user(roles: Seq<Role>, i: int) -> bool {
    &&& 0 <= i < roles.len()
    &&& roles[i] == Role::User
    &&& forall|j: int| i < j < roles.len() ==> #[trigger] roles[j] != Role::User
}

/// Whether `targets` are a system message in front and the last user message,
/// where there are such messages.
pub open spec fn chosen(roles: Seq<Role>, targets: ExpandTargets) -> bool {
    &&& targets.first == (roles.len() > 0 && roles[0] == Role::System)
    &&& match targets.user {
        Some(i) => is_last_user(roles, i as int),
        None => forall|j: int| 0 <= j < roles.len() ==> #[trigger] roles[j] != Role::User,
    }
}

/// The messages whose links are expanded: a system message in front, and the
/// most recent user message. The others stay as they are, so that what was
/// sent before is sent again unchanged.
pub fn expand_targets(roles: &Vec<Role>) -> (r: ExpandTargets)
    ensures
        chosen(roles@, r),
{
    let first: bool = roles.len() > 0 && roles[0] == Role::System;
    let mut i: usize = roles.len();
    while i > 0
        invariant
            i <= roles.len(),
            first == (roles@.len() > 0 && roles@[0] == Role::System),
            forall|j: int| i <= j < roles@.len() ==> #[trigger] roles@[j] != Role::User,
        decreases i,
    {
        i = i - 1;
        if roles[i] == Role::User {
            return ExpandTargets { first, user: Some(i) };
        }
    }
    ExpandTargets { first, user: None }
}

/// A message with another text; only system and user messages change.
pub open spec fn with_content(m: MessageView, content: Seq<char>) -> MessageView {
    match m {
        MessageView::System { .. } => MessageView::System { content },
        MessageView::User { .. } => MessageView::User { content },
        other => other,
    }
}

/// Replaces the text of one message.
pub fn set_content(messages: &mut Vec<ChatMessage>, at: usize, content: String)
    requires
        at < old(messages)@.len(),
    ensures
        views(final(messages)@) == views(old(messages)@).update(
            at as int,
            with_content(views(old(messages)@)[at as int], content@),
        ),
{
    let ghost before = views(messages@);
    let replaced = match &messages[at] {
        ChatMessage::System { .. } => ChatMessage::System { content },
        ChatMessage::User { .. } => ChatMessage::User { content },
        other => other.clone(),
    };
    messages.set(at, replaced);
    assert(views(messages@) =~= before.update(
        at as int,
        with_content(before[at as int], content@),
    ));
}

/// A history after the chosen messages were given these texts.
pub open spec fn expanded(
    messages: Seq<MessageView>,
    targets: ExpandTargets,
    first_text: Seq<char>,
    user_text: Seq<char>,
) -> Seq<MessageView> {
    let begun = if targets.first {
        messages.update(0, with_content(messages[0], first_text))
    } else {
        messages
    };
    match targets.user {
        Some(at) => begun.update(at as int, with_content(begun[at as int], user_text)),
        None => begun,
    }
}

/// Gives the chosen messages their expanded texts. A text whose message is not
/// there is not used.
pub fn apply_expansion(
    messages: &mut Vec<ChatMessage>,
    targets: ExpandTargets,
    first_text: String,
    user_text: String,
)
    requires
        chosen(
            views(old(messages)@).map_values(|m: MessageView| message_role(m)),
            targets,
        ),
    ensures
        views(final(messages)@) == expanded(
            views(old(messages)@),
            targets,
            first_text@,
            user_text@,
        ),
{
    let ghost before = views(messages@);
    if targets.first {
        set_content(messages, 0, first_text);
    }
    assert(views(messages@).len() == before.len());
    if let Some(at) = targets.user {
        set_content(messages, at, user_text);
    }
}

/// The warning about links that lead nowhere, where there are any.
pub fn unresolved_warning(unresolved: &Vec<String>) -> (r: Option<String>)
    ensures
        match r {
            Some(w) => unresolved@.len() > 0 && w@ == "wikilink unresolved: "@ + joined(
                views(unresolved@),
                ", "@,
            ),
            None => unresolved@.len() == 0,
        },
{
    if unresolved.len() == 0 {
        return None;
    }
    let mut text = "wikilink unresolved: ".to_owned();
    text.append(join(unresolved, ", ").as_str());
    Some(text)
}

/// A tool that the request disables is never shown to the model.
pub proof fn disabled_tools_are_not_shown(
    permissions: Map<Seq<char>, String>,
    tools: Seq<ToolInfoView>,
    i: int,
)
    requires
        0 <= i < allowed_tools(permissions, tools).len(),
    ensures
        allowed(permissions, allowed_tools(permissions, tools)[i].name),
        tools.contains(allowed_tools(permissions, tools)[i]),
{
    broadcast use vstd::seq_lib::group_filter_ensures;

    let may = |t: ToolInfoView| allowed(permissions, t.name);
    let shown = tools.filter(may);
    assert(may(shown[i]));
    tools.lemma_filter_contains_rev(may, shown[i]);
}

/// Expansion reaches a system message in front and the most recent user
/// message. Each gets its own text and keeps its role; every other message
/// stays as it is.
pub proof fn other_messages_stay(
    messages: Seq<MessageView>,
    targets: ExpandTargets,
    first_text: Seq<char>,
    user_text: Seq<char>,
    i: int,
)
    requires
        chosen(messages.map_values(|m: MessageView| message_role(m)), targets),
        0 <= i < messages.len(),
    ensures
        expanded(messages, targets, first_text, user_text).len() == messages.len(),
        expanded(messages, targets, first_text, user_text)[i] == (if i == 0 && messages[0] is System {
            MessageView::System { content: first_text }
        } else if is_last_user(messages.map_values(|m: MessageView| message_role(m)), i) {
            MessageView::User { content: user_text }
        } else {
            messages[i]
        }),
{
    let roles = messages.map_values(|m: MessageView| message_role(m));
    assert(roles[0] == message_role(messages[0]));
    assert(roles[i] == message_role(messages[i]));
    if let Some(at) = targets.user {
        assert(roles[at as int] == message_role(messages[at as int]));
        if is_last_user(roles, i) {
            assert(i == at);
        }
    }
}

} // verus!
