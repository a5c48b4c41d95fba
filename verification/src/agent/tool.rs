//! Tool calls and the errors that tools report.
use vstd::prelude::*;

verus! {

/// One call that the model asked for. `arguments` is JSON text.
#[derive(Debug)]
pub struct ToolCall {
    pub id: String,
    pub name: String,
    pub arguments: String,
}

/// Mathematical form of a [`ToolCall`].
pub struct CallView {
    pub id: Seq<char>,
    pub name: Seq<char>,
    pub arguments: Seq<char>,
}

impl View for ToolCall {
    type V = CallView;

    open spec fn view(&self) -> CallView {
        CallView { id: self.id@, name: self.name@, arguments: self.arguments@ }
    }
}

impl Clone for ToolCall {
    fn clone(&self) -> (r: Self)
        ensures
            r == *self,
    {
        ToolCall {
            id: self.id.clone(),
            name: self.name.clone(),
            arguments: self.arguments.clone(),
        }
    }
}

/// A copy of a list of calls.
pub fn copy_calls(calls: &Vec<ToolCall>) -> (r: Vec<ToolCall>)
    ensures
        r@ == calls@,
{
    let mut out: Vec<ToolCall> = Vec::new();
    let mut i: usize = 0;
    while i < calls.len()
        invariant
            i <= calls.len(),
            out@ == calls@.take(i as int),
        decreases calls.len() - i,
    {
        out.push(calls[i].clone());
        assert(calls@.take(i + 1) == calls@.take(i as int).push(calls@[i as int]));
        i = i + 1;
    }
    assert(calls@.take(calls@.len() as int) == calls@);
    out
}

/// Why a tool did not produce a result.
#[derive(Debug)]
pub enum ToolError {
    /// The call itself was at fault.
    Argument(String),
    /// The tool ran and failed.
    Runtime(String),
}

/// Mathematical form of a [`ToolError`].
pub enum ToolErrorView {
    Argument(Seq<char>),
    Runtime(Seq<char>),
}

impl View for ToolError {
    type V = ToolErrorView;

    open spec fn view(&self) -> ToolErrorView {
        match self {
            ToolError::Argument(s) => ToolErrorView::Argument(s@),
            ToolError::Runtime(s) => ToolErrorView::Runtime(s@),
        }
    }
}

impl ToolErrorView {
    /// The text shown for the error.
    pub open spec fn message(self) -> Seq<char> {
        match self {
            ToolErrorView::Argument(s) => s,
            ToolErrorView::Runtime(s) => s,
        }
    }
}

impl ToolError {
    /// The error of arguments that do not have the form a tool expects.
    pub fn invalid_args(error: &str) -> (r: ToolError)
        ensures
            r@ == ToolErrorView::Argument("invalid args: "@ + error@),
    {
        let mut text = "invalid args: ".to_owned();
        text.append(error);
        ToolError::Argument(text)
    }

    /// The text shown for the error.
    pub fn message(&self) -> (r: String)
        ensures
            r@ == self@.message(),
    {
        match self {
            ToolError::Argument(s) => s.clone(),
            ToolError::Runtime(s) => s.clone(),
        }
    }
}

/// The outcome of a tool: the JSON text of its result, or its error.
pub open spec fn result_view(r: Result<String, ToolError>) -> Result<Seq<char>, ToolErrorView> {
    match r {
        Ok(s) => Ok(s@),
        Err(e) => Err(e@),
    }
}

/// What a settings page or a gate needs to know about a registered tool.
#[derive(Debug)]
pub struct ToolInfo {
    pub name: String,
    pub description: String,
    pub requires_confirmation: bool,
}

/// Mathematical form of a [`ToolInfo`].
pub struct ToolInfoView {
    pub name: Seq<char>,
    pub description: Seq<char>,
    pub requires_confirmation: bool,
}

impl View for ToolInfo {
    type V = ToolInfoView;

    open spec fn view(&self) -> ToolInfoView {
        ToolInfoView {
            name: self.name@,
            description: self.description@,
            requires_confirmation: self.requires_confirmation,
        }
    }
}

impl Clone for ToolInfo {
    fn clone(&self) -> (r: Self)
        ensures
            r == *self,
    {
        ToolInfo {
            name: self.name.clone(),
            description: self.description.clone(),
            requires_confirmation: self.requires_confirmation,
        }
    }
}

} // verus!
