//! The desktop's confirmation policy.
//!
//! Two inputs are not equally trusted. The permissions that come with a
//! request are a hint: they can disable a tool or make it ask, but they cannot
//! approve a tool that requires confirmation. A standing grant can.
use vstd::prelude::*;

use crate::agent::confirm::{decide, decision, permission_of, GateDecision, ToolPermission};
use crate::agent::tool::ToolCall;
use crate::json::{
    is_last_of_key, json_error, json_member, json_object, object_text, string_member, text_field,
    Field, FieldView, ScalarView,
};
use crate::order::TextMap;
use crate::text::{opt_view, views};
use crate::tui::sink::lookup;

verus! {

/// The policy of one run.
pub struct WebGatePolicy {
    permissions: TextMap<String>,
    confirm_required: TextMap<bool>,
}

/// The desktop's verdict. A tool without a permission asks; one that is not
/// known requires confirmation.
pub open spec fn web_rule(
    permission: Option<Seq<char>>,
    required: Option<bool>,
    granted: bool,
) -> GateDecision {
    decision(
        match permission {
            Some(s) => permission_of(s),
            None => ToolPermission::Ask,
        },
        match required {
            Some(b) => b,
            None => true,
        },
        granted,
    )
}

impl WebGatePolicy {
    pub closed spec fn wf(&self) -> bool {
        self.permissions.wf() && self.confirm_required.wf()
    }

    /// The permissions that came with the request.
    pub closed spec fn hints(&self) -> Map<Seq<char>, String> {
        self.permissions@
    }

    /// What each registered tool says.
    pub closed spec fn required(&self) -> Map<Seq<char>, bool> {
        self.confirm_required@
    }

    pub fn new(permissions: TextMap<String>, confirm_required: TextMap<bool>) -> (r: WebGatePolicy)
        requires
            permissions.wf(),
            confirm_required.wf(),
        ensures
            r.wf(),
            r.hints() == permissions@,
            r.required() == confirm_required@,
    {
        WebGatePolicy { permissions, confirm_required }
    }

    /// The verdict on a call to a tool with or without a standing grant.
    pub fn verdict(&self, call: &ToolCall, granted: bool) -> (r: GateDecision)
        requires
            self.wf(),
        ensures
            r == web_rule(
                opt_view(lookup(self.hints(), call@.name)),
                lookup(self.required(), call@.name),
                granted,
            ),
    {
        let permission = match self.permissions.get(call.name.as_str()) {
            Some(s) => ToolPermission::parse(s.as_str()),
            None => ToolPermission::Ask,
        };
        let requires_confirmation: bool = match self.confirm_required.get(call.name.as_str()) {
            Some(b) => *b,
            None => true,
        };
        decide(permission, requires_confirmation, granted)
    }
}

/// No permission that comes with a request approves a tool that requires
/// confirmation or is not known; only a standing grant does.
pub proof fn requests_cannot_approve(permission: Option<Seq<char>>, required: Option<bool>)
    requires
        required != Some(false),
    ensures
        web_rule(permission, required, false) != GateDecision::Approve,
{
}

/// The members of the question that is put to the frontend. The preview is
/// left out when there is none.
pub open spec fn question_fields(
    id: Seq<char>,
    name: Seq<char>,
    arguments: Seq<char>,
    preview: Option<Seq<char>>,
) -> Seq<FieldView> {
    let base = seq![
        FieldView { key: "confirmationId"@, value: ScalarView::Text(id) },
        FieldView { key: "name"@, value: ScalarView::Text(name) },
        FieldView { key: "arguments"@, value: ScalarView::Text(arguments) },
    ];
    match preview {
        Some(p) => base.push(FieldView { key: "preview"@, value: ScalarView::Text(p) }),
        None => base,
    }
}

/// The JSON text of the question that is put to the frontend.
pub fn question(id: &str, call: &ToolCall, preview: Option<&str>) -> (r: String)
    ensures
        r@ == json_object(
            question_fields(id@, call@.name, call@.arguments, opt_view(preview)),
        ),
        json_error(r@) is None,
        string_member(r@, "confirmationId"@) == Some(id@),
        string_member(r@, "name"@) == Some(call@.name),
        string_member(r@, "arguments"@) == Some(call@.arguments),
        match preview {
            Some(p) => string_member(r@, "preview"@) == Some(p@),
            None => json_member(r@, "preview"@) is None,
        },
{
    let mut fields: Vec<Field> = Vec::new();
    fields.push(text_field("confirmationId", id));
    fields.push(text_field("name", call.name.as_str()));
    fields.push(text_field("arguments", call.arguments.as_str()));
    if let Some(p) = preview {
        fields.push(text_field("preview", p));
    }
    assert(views(fields@) =~= question_fields(
        id@,
        call@.name,
        call@.arguments,
        opt_view(preview),
    ));
    proof {
        reveal_strlit("confirmationId");
        reveal_strlit("name");
        reveal_strlit("arguments");
        reveal_strlit("preview");
        assert("confirmationId"@.len() == 14 && "name"@.len() == 4 && "arguments"@.len() == 9
            && "preview"@.len() == 7);
        let all = views(fields@);
        assert(all[0].key == "confirmationId"@ && all[1].key == "name"@ && all[2].key
            == "arguments"@);
        assert(is_last_of_key(all, 0));
        assert(is_last_of_key(all, 1));
        assert(is_last_of_key(all, 2));
        assert(preview is Some ==> is_last_of_key(all, 3));
    }
    let r = object_text(&fields);
    assert(fields@[0].value is Text);
    assert(fields@[1].value is Text);
    assert(fields@[2].value is Text);
    assert(preview is Some ==> fields@[3].value is Text);
    r
}

} // verus!
