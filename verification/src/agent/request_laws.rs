//! What a request carries of the history and of the tools.
use vstd::prelude::*;

use crate::agent::cloud::{
    build_request, request_message, to_openai_messages, to_openai_tools, tool_spec, tool_specs,
    ChatRequest, RequestMessage, RequestMessageView, ToolSpec, ToolSpecView,
};
use crate::agent::message::{copy_messages, ChatMessage, MessageView};
use crate::json::{
    bool_field, text_field, uint_field, value_under, Field, FieldView, Json, Member, ScalarView,
};
use crate::text::views;

verus! {

/// The message that a request message is read as by whoever receives it.
pub open spec fn message_received(m: RequestMessageView) -> MessageView {
    match m {
        RequestMessageView::System { content } => MessageView::System { content },
        RequestMessageView::User { content } => MessageView::User { content },
        RequestMessageView::Assistant { content, tool_calls } => MessageView::Assistant {
            content,
            tool_calls: match tool_calls {
                Some(calls) => calls,
                None => Seq::empty(),
            },
        },
        RequestMessageView::Tool { tool_call_id, content } => MessageView::Tool {
            tool_call_id,
            content,
        },
    }
}

/// Nothing of a message is lost on the way into a request: it is received as
/// it was, and two messages with the same request form are the same.
pub proof fn messages_are_received_as_they_are(m: MessageView, other: MessageView)
    ensures
        message_received(request_message(m)) == m,
        request_message(m) == request_message(other) ==> m == other,
{
    if let MessageView::Assistant { tool_calls, .. } = m {
        if tool_calls.len() == 0 {
            assert(tool_calls =~= Seq::empty());
        }
    }
    if let MessageView::Assistant { tool_calls, .. } = other {
        if tool_calls.len() == 0 {
            assert(tool_calls =~= Seq::empty());
        }
    }
}

/// Each part of a message stands in its request form: the text in every role,
/// the identifier of the call that a tool message answers, and the calls of an
/// assistant message, which are left out rather than empty.
pub proof fn request_messages_carry_every_part(m: MessageView)
    ensures
        match (m, request_message(m)) {
            (
                MessageView::System { content },
                RequestMessageView::System { content: sent },
            ) => sent == content,
            (
                MessageView::User { content },
                RequestMessageView::User { content: sent },
            ) => sent == content,
            (
                MessageView::Assistant { content, tool_calls },
                RequestMessageView::Assistant { content: sent, tool_calls: calls },
            ) => sent == content && (if tool_calls.len() == 0 {
                calls is None
            } else {
                calls == Some(tool_calls)
            }),
            (
                MessageView::Tool { tool_call_id, content },
                RequestMessageView::Tool { tool_call_id: id, content: sent },
            ) => id == tool_call_id && sent == content,
            _ => false,
        },
{
}

/// Whether `q` carries each part of `m`.
pub open spec fn carries(m: ChatMessage, q: RequestMessage) -> bool {
    match (m, q) {
        (
            ChatMessage::System { content },
            RequestMessage::System { content: sent },
        ) => sent@ == content@,
        (
            ChatMessage::User { content },
            RequestMessage::User { content: sent },
        ) => sent@ == content@,
        (
            ChatMessage::Assistant { content, tool_calls },
            RequestMessage::Assistant { content: sent, tool_calls: calls },
        ) => sent@ == content@ && (match calls {
            Some(c) => {
                &&& c@.len() == tool_calls@.len()
                &&& tool_calls@.len() > 0
                &&& forall|i: int|
                    0 <= i < c@.len() ==> (#[trigger] c@[i]).id@ == tool_calls@[i].id@
                        && c@[i].name@ == tool_calls@[i].name@ && c@[i].arguments@
                        == tool_calls@[i].arguments@
            },
            None => tool_calls@.len() == 0,
        }),
        (
            ChatMessage::Tool { tool_call_id, content },
            RequestMessage::Tool { tool_call_id: id, content: sent },
        ) => id@ == tool_call_id@ && sent@ == content@,
        _ => false,
    }
}

proof fn equal_views_carry(m: ChatMessage, q: RequestMessage)
    requires
        q@ == request_message(m@),
    ensures
        carries(m, q),
{
    if let (
        ChatMessage::Assistant { tool_calls, .. },
        RequestMessage::Assistant { tool_calls: Some(c), .. },
    ) = (m, q) {
        assert forall|i: int| 0 <= i < c@.len() implies (#[trigger] c@[i])@ == tool_calls@[i]@ by {
            assert(views(c@)[i] == views(tool_calls@)[i]);
        }
        assert(views(c@).len() == views(tool_calls@).len());
    }
}

/// A request carries the whole history, message by message and in its order,
/// so that whoever receives it reads the history itself. It allows as many
/// tokens as asked for, and at least one.
pub proof fn requests_carry_the_history(
    model: &str,
    messages: &Vec<ChatMessage>,
    schemas: &Vec<Json>,
    max_tokens: Option<u32>,
    r: Result<ChatRequest<'_>, String>,
)
    requires
        call_ensures(build_request, (model, messages, schemas, max_tokens), r),
    ensures
        r matches Ok(q) ==> {
            &&& q.model@ == model@
            &&& views(q.messages@).map_values(|m: RequestMessageView| message_received(m))
                == views(messages@)
            &&& q.messages@.len() == messages@.len()
            &&& forall|i: int|
                0 <= i < messages@.len() ==> carries(#[trigger] messages@[i], q.messages@[i])
            &&& q.include_usage
            &&& q.max_tokens is Some == max_tokens is Some
            &&& max_tokens matches Some(n) ==> q.max_tokens->0 == (if n >= 1 {
                n as int
            } else {
                1
            })
        },
{
    if let Ok(q) = r {
        let sent = views(q.messages@);
        let given = views(messages@);
        assert forall|i: int| 0 <= i < given.len() implies message_received(sent[i])
            == #[trigger] given[i] by {
            messages_are_received_as_they_are(given[i], given[i]);
        }
        assert(sent.map_values(|m: RequestMessageView| message_received(m)) =~= given);
        assert(sent.len() == given.len());
        assert forall|i: int| 0 <= i < messages@.len() implies carries(
            #[trigger] messages@[i],
            q.messages@[i],
        ) by {
            assert(sent[i] == request_message(given[i]));
            equal_views_carry(messages@[i], q.messages@[i]);
        }
    }
}

/// A schema describes a tool when it has a `function` with a `name` that is a
/// string. The tool has that name, the description where it is a string, and
/// the parameters as they are.
pub proof fn tools_are_what_their_schemas_say(schema: Json)
    ensures
        tool_spec(schema) is Ok <==> (schema.member("function"@) matches Some(f) && (f.member(
            "name"@,
        ) matches Some(n) && n is Text)),
        tool_spec(schema) matches Ok(t) ==> {
            let f = schema.member("function"@)->0;
            &&& f.member("name"@) matches Some(Json::Text(s)) && s@ == t.name
            &&& t.description matches Some(d) ==> (f.member("description"@) matches Some(Json::Text(s))
                && s@ == d)
            &&& t.description is None ==> !(f.member("description"@) matches Some(Json::Text(_)))
            &&& t.parameters == f.member("parameters"@)
        },
        schema.member("function"@) is None ==> tool_spec(schema) == Err::<ToolSpecView, Seq<char>>(
            "tool schema missing `function`"@,
        ),
        schema.member("function"@) is Some && tool_spec(schema) is Err ==> tool_spec(schema) == Err::<
            ToolSpecView,
            Seq<char>,
        >("tool schema missing function.name"@),
{
}

/// Every schema gives its own tool, in the order of the schemas; and when some
/// schema is at fault, the fault reported is that of the first such.
pub proof fn tools_come_in_the_order_of_the_schemas(schemas: Seq<Json>) -> (first: int)
    ensures
        match tool_specs(schemas) {
            Ok(tools) => {
                &&& tools.len() == schemas.len()
                &&& forall|i: int|
                    0 <= i < schemas.len() ==> tool_spec(#[trigger] schemas[i]) == Ok::<
                        ToolSpecView,
                        Seq<char>,
                    >(tools[i])
            },
            Err(e) => {
                &&& 0 <= first < schemas.len()
                &&& tool_spec(schemas[first]) == Err::<ToolSpecView, Seq<char>>(e)
                &&& forall|i: int| 0 <= i < first ==> tool_spec(#[trigger] schemas[i]) is Ok
            },
        },
    decreases schemas.len(),
{
    if schemas.len() == 0 {
        0
    } else {
        let front = schemas.drop_last();
        let n = tools_come_in_the_order_of_the_schemas(front);
        match tool_specs(front) {
            Err(_) => {
                assert forall|i: int| 0 <= i < n implies tool_spec(#[trigger] schemas[i]) is Ok by {
                    assert(front[i] == schemas[i]);
                }
                n
            },
            Ok(tools) => {
                assert forall|i: int| 0 <= i < front.len() implies tool_spec(
                    #[trigger] schemas[i],
                ) == Ok::<ToolSpecView, Seq<char>>(tools[i]) by {
                    assert(front[i] == schemas[i]);
                }
                schemas.len() - 1
            },
        }
    }
}

/// Whether the `i`-th schema is the first at fault, with this message.
pub open spec fn is_first_fault(schemas: Seq<Json>, i: int, e: Seq<char>) -> bool {
    &&& 0 <= i < schemas.len()
    &&& tool_spec(schemas[i]) == Err::<ToolSpecView, Seq<char>>(e)
    &&& forall|j: int| 0 <= j < i ==> tool_spec(#[trigger] schemas[j]) is Ok
}

/// A request is refused exactly when a schema is at fault, with the message of
/// the first such; the tools it carries are those of the schemas, and there
/// are none when there are no schemas.
pub proof fn requests_carry_the_tools(
    model: &str,
    messages: &Vec<ChatMessage>,
    schemas: &Vec<Json>,
    max_tokens: Option<u32>,
    r: Result<ChatRequest<'_>, String>,
)
    requires
        call_ensures(build_request, (model, messages, schemas, max_tokens), r),
    ensures
        r is Ok <==> forall|i: int|
            0 <= i < schemas@.len() ==> tool_spec(#[trigger] schemas@[i]) is Ok,
        r matches Err(e) ==> exists|i: int| #[trigger] is_first_fault(schemas@, i, e@),
        r matches Ok(q) ==> (match q.tools {
            None => schemas@.len() == 0,
            Some(tools) => {
                &&& tools@.len() == schemas@.len()
                &&& schemas@.len() > 0
                &&& forall|i: int|
                    0 <= i < schemas@.len() ==> tool_spec(#[trigger] schemas@[i]) == Ok::<
                        ToolSpecView,
                        Seq<char>,
                    >(tools@[i]@)
            },
        }),
{
    let first = tools_come_in_the_order_of_the_schemas(schemas@);
    if let Err(e) = r {
        assert(is_first_fault(schemas@, first, e@));
    }
    if let Ok(q) = r {
        if let Some(tools) = q.tools {
            assert forall|i: int| 0 <= i < schemas@.len() implies tool_spec(
                #[trigger] schemas@[i],
            ) == Ok::<ToolSpecView, Seq<char>>(tools@[i]@) by {
                assert(views(tools@)[i] == tools@[i]@);
            }
        }
    }
}

/// An object gives back what stands under each of its keys, and nothing under
/// any other.
pub proof fn members_are_found_by_their_keys(members: Seq<Member>, key: Seq<char>)
    ensures
        match value_under(members, key) {
            Some(v) => exists|i: int|
                0 <= i < members.len() && (#[trigger] members[i]).key@ == key && members[i].value
                    == v,
            None => forall|i: int| 0 <= i < members.len() ==> (#[trigger] members[i]).key@ != key,
        },
    decreases members.len(),
{
    if members.len() > 0 && members[0].key@ != key {
        let rest = members.skip(1);
        members_are_found_by_their_keys(rest, key);
        match value_under(rest, key) {
            Some(v) => {
                let i = choose|i: int|
                    0 <= i < rest.len() && (#[trigger] rest[i]).key@ == key && rest[i].value == v;
                assert(members[i + 1].key@ == key && members[i + 1].value == v);
            },
            None => {
                assert forall|i: int| 0 <= i < members.len() implies (#[trigger] members[i]).key@
                    != key by {
                    if i > 0 {
                        assert(rest[i - 1] == members[i]);
                    }
                }
            },
        }
    }
}

/// What is no object has no members.
pub proof fn only_objects_have_members(v: Json, key: Seq<char>)
    ensures
        v.member(key) is Some ==> v is Object,
        v.text_member(key) matches Some(s) ==> (v.member(key) matches Some(Json::Text(t)) && t@ == s),
        (v.member(key) matches Some(m) && m is Text) ==> v.text_member(key) is Some,
        v matches Json::Object(m) ==> v.member(key) == value_under(m@, key),
{
}

/// Members are read by their keys; members that are written hold their key and
/// their value.
pub proof fn members_are_read_and_written(
    v: Json,
    key: &str,
    value: &str,
    flag: bool,
    n: u64,
    got: Option<&Json>,
    text: Option<&str>,
    fields: (Field, Field, Field),
)
    requires
        call_ensures(Json::get, (&v, key), got),
        call_ensures(Json::get_text, (&v, key), text),
        call_ensures(text_field, (key, value), fields.0),
        call_ensures(bool_field, (key, flag), fields.1),
        call_ensures(uint_field, (key, n), fields.2),
    ensures
        got is Some <==> v.member(key@) is Some,
        got is Some ==> *got->0 == v.member(key@)->0,
        text is Some <==> got is Some && *got->0 is Text,
        text is Some ==> text->0@ == got->0->Text_0@,
        fields.0@ == (FieldView { key: key@, value: ScalarView::Text(value@) }),
        fields.1@ == (FieldView { key: key@, value: ScalarView::Bool(flag) }),
        fields.2@ == (FieldView { key: key@, value: ScalarView::Int(n as int) }),
{
}

/// A history is turned into its request form message by message, each part as
/// it is.
pub proof fn histories_keep_every_message(
    messages: Vec<ChatMessage>,
    r: Vec<RequestMessage>,
    copied: Vec<ChatMessage>,
)
    requires
        call_ensures(to_openai_messages, (&messages,), r),
        call_ensures(copy_messages, (&messages,), copied),
    ensures
        r@.len() == messages@.len(),
        forall|i: int| 0 <= i < messages@.len() ==> carries(#[trigger] messages@[i], r@[i]),
        views(copied@) == views(messages@),
{
    assert(views(r@).len() == r@.len());
    assert forall|i: int| 0 <= i < messages@.len() implies carries(
        #[trigger] messages@[i],
        r@[i],
    ) by {
        assert(views(r@)[i] == request_message(views(messages@)[i]));
        equal_views_carry(messages@[i], r@[i]);
    }
}

/// The tools are read exactly when no schema is at fault, one for each schema
/// and in their order.
pub proof fn tools_are_read_from_their_schemas(
    schemas: &Vec<Json>,
    r: Result<Vec<ToolSpec<'_>>, String>,
)
    requires
        call_ensures(to_openai_tools, (schemas,), r),
    ensures
        r is Ok <==> forall|i: int|
            0 <= i < schemas@.len() ==> tool_spec(#[trigger] schemas@[i]) is Ok,
        r matches Err(e) ==> exists|i: int| #[trigger] is_first_fault(schemas@, i, e@),
        r matches Ok(t) ==> t@.len() == schemas@.len() && forall|i: int|
            0 <= i < schemas@.len() ==> tool_spec(#[trigger] schemas@[i]) == Ok::<
                ToolSpecView,
                Seq<char>,
            >(t@[i]@),
{
    let first = tools_come_in_the_order_of_the_schemas(schemas@);
    if let Err(e) = r {
        assert(is_first_fault(schemas@, first, e@));
    }
    if let Ok(t) = r {
        assert(views(t@).len() == t@.len());
        assert forall|i: int| 0 <= i < schemas@.len() implies tool_spec(
            #[trigger] schemas@[i],
        ) == Ok::<ToolSpecView, Seq<char>>(t@[i]@) by {
            assert(views(t@)[i] == t@[i]@);
        }
    }
}

} // verus!
