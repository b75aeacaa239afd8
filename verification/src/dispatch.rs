//! The dispatcher: checks a decoded invocation against the schema of the tool
//! it names and turns it into a typed call for that tool's handler.
//!
//! Validation is strict and positional. The dispatcher decides; running the
//! handler is left to the caller, so nothing here touches the network, the
//! disk or any stored state.

use crate::text::str_eq;
use crate::tool_call::{argument_views, Argument, ArgumentView, ToolCall, ToolCallView};
use vstd::prelude::*;

verus! {

/// The closed vocabulary of tools.
#[derive(Debug, Clone, Copy, PartialEq, Eq, Structural)]
pub enum Tool {
    /// Continue the conversation with a streamed reply.
    Converse,
    /// Describe the image stored at a path.
    Image,
}

/// One entry of a tool's schema: the name and the declared type that the
/// argument at this position must carry.
#[derive(Debug, Clone, PartialEq, Eq)]
pub struct Parameter {
    pub name: String,
    pub type_tag: String,
}

pub struct ParameterView {
    pub name: Seq<char>,
    pub type_tag: Seq<char>,
}

impl View for Parameter {
    type V = ParameterView;

    open spec fn view(&self) -> ParameterView {
        ParameterView { name: self.name@, type_tag: self.type_tag@ }
    }
}

pub open spec fn parameter_views(parameters: Seq<Parameter>) -> Seq<ParameterView> {
    parameters.map_values(|p: Parameter| p@)
}

/// Why an invocation was not routed.
#[derive(Debug, Clone, PartialEq, Eq)]
pub enum DispatchError {
    /// No tool has the invocation's name.
    UnknownTool,
    /// The number of arguments differs from the schema's.
    ArityMismatch,
    /// The first argument whose name or declared type differs from the schema
    /// entry at its position: the argument's name, the type the schema
    /// expects there, and the type the argument declares.
    TypeMismatch { argument: String, expected: String, actual: String },
}

pub enum DispatchErrorView {
    UnknownTool,
    ArityMismatch,
    TypeMismatch { argument: Seq<char>, expected: Seq<char>, actual: Seq<char> },
}

impl View for DispatchError {
    type V = DispatchErrorView;

    open spec fn view(&self) -> DispatchErrorView {
        match self {
            DispatchError::UnknownTool => DispatchErrorView::UnknownTool,
            DispatchError::ArityMismatch => DispatchErrorView::ArityMismatch,
            DispatchError::TypeMismatch { argument, expected, actual } => {
                DispatchErrorView::TypeMismatch {
                    argument: argument@,
                    expected: expected@,
                    actual: actual@,
                }
            },
        }
    }
}

/// A validated invocation, its argument values converted to what the tool's
/// handler takes.
#[derive(Debug, Clone, PartialEq, Eq)]
pub enum HandlerCall {
    /// Stream a reply to `input`.
    Converse { input: String },
    /// Analyze the image at `path`.
    Image { path: String },
}

pub enum HandlerCallView {
    Converse { input: Seq<char> },
    Image { path: Seq<char> },
}

impl View for HandlerCall {
    type V = HandlerCallView;

    open spec fn view(&self) -> HandlerCallView {
        match self {
            HandlerCall::Converse { input } => HandlerCallView::Converse { input: input@ },
            HandlerCall::Image { path } => HandlerCallView::Image { path: path@ },
        }
    }
}

impl Tool {
    /// The name by which an invocation addresses the tool.
    pub open spec fn spec_name(self) -> Seq<char> {
        match self {
            Tool::Converse => "converse"@,
            Tool::Image => "image"@,
        }
    }

    /// The arguments the tool requires, in order.
    pub open spec fn spec_schema(self) -> Seq<ParameterView> {
        match self {
            Tool::Converse => seq![ParameterView { name: "input"@, type_tag: "String"@ }],
            Tool::Image => seq![ParameterView { name: "path"@, type_tag: "PathBuf"@ }],
        }
    }

    /// The tool that `name` addresses.
    pub open spec fn spec_named(name: Seq<char>) -> Option<Tool> {
        if name == Tool::Converse.spec_name() {
            Some(Tool::Converse)
        } else if name == Tool::Image.spec_name() {
            Some(Tool::Image)
        } else {
            None
        }
    }

    /// The call that the tool's handler receives for arguments that fit the
    /// schema.
    pub open spec fn spec_call(self, arguments: Seq<ArgumentView>) -> HandlerCallView {
        match self {
            Tool::Converse => HandlerCallView::Converse { input: arguments[0].value },
            Tool::Image => HandlerCallView::Image { path: arguments[0].value },
        }
    }

    pub fn name(self) -> (r: &'static str)
        ensures
            r@ == self.spec_name(),
    {
        match self {
            Tool::Converse => "converse",
            Tool::Image => "image",
        }
    }

    pub fn schema(self) -> (r: Vec<Parameter>)
        ensures
            parameter_views(r@) == self.spec_schema(),
    {
        let mut r: Vec<Parameter> = Vec::new();
        match self {
            Tool::Converse => {
                r.push(Parameter { name: "input".to_owned(), type_tag: "String".to_owned() });
            },
            Tool::Image => {
                r.push(Parameter { name: "path".to_owned(), type_tag: "PathBuf".to_owned() });
            },
        }
        assert(parameter_views(r@) =~= self.spec_schema());
        r
    }

    /// Looks a tool up by the name an invocation gives.
    pub fn named(name: &str) -> (r: Option<Tool>)
        ensures
            r == Tool::spec_named(name@),
    {
        if str_eq(name, Tool::Converse.name()) {
            Some(Tool::Converse)
        } else if str_eq(name, Tool::Image.name()) {
            Some(Tool::Image)
        } else {
            None
        }
    }
}

/// Whether an argument carries the name and the declared type of a schema
/// entry.
pub open spec fn agrees(argument: ArgumentView, parameter: ParameterView) -> bool {
    argument.name == parameter.name && argument.type_tag == parameter.type_tag
}

/// Whether `i` is the first position at which argument and schema disagree.
pub open spec fn first_mismatch(
    arguments: Seq<ArgumentView>,
    schema: Seq<ParameterView>,
    i: int,
) -> bool {
    &&& 0 <= i < arguments.len()
    &&& !agrees(arguments[i], schema[i])
    &&& forall|j: int| 0 <= j < i ==> agrees(#[trigger] arguments[j], schema[j])
}

/// Whether `arguments` fit `schema`: as many, and each agreeing with the
/// entry at its position.
pub open spec fn fits(arguments: Seq<ArgumentView>, schema: Seq<ParameterView>) -> bool {
    &&& arguments.len() == schema.len()
    &&& forall|i: int| 0 <= i < arguments.len() ==> agrees(#[trigger] arguments[i], schema[i])
}

/// The first position at which argument and schema disagree, where there is
/// one.
pub open spec fn mismatch_index(arguments: Seq<ArgumentView>, schema: Seq<ParameterView>) -> int {
    choose|i: int| first_mismatch(arguments, schema, i)
}

/// What [`validate`] makes of `arguments` against `schema`.
pub open spec fn validated(arguments: Seq<ArgumentView>, schema: Seq<ParameterView>) -> Result<
    (),
    DispatchErrorView,
> {
    if arguments.len() != schema.len() {
        Err(DispatchErrorView::ArityMismatch)
    } else if fits(arguments, schema) {
        Ok(())
    } else {
        let i = mismatch_index(arguments, schema);
        Err(
            DispatchErrorView::TypeMismatch {
                argument: arguments[i].name,
                expected: schema[i].type_tag,
                actual: arguments[i].type_tag,
            },
        )
    }
}

/// At most one position is the first to disagree.
pub proof fn first_mismatch_is_unique(
    arguments: Seq<ArgumentView>,
    schema: Seq<ParameterView>,
    i: int,
    k: int,
)
    requires
        first_mismatch(arguments, schema, i),
        first_mismatch(arguments, schema, k),
    ensures
        i == k,
{
    if i < k {
        assert(agrees(arguments[i], schema[i]));
    } else if k < i {
        assert(agrees(arguments[k], schema[k]));
    }
}

/// Checks arguments against a schema, position by position.
///
/// Succeeds exactly when the arguments fit. Otherwise the error is
/// `ArityMismatch` exactly when the counts differ, and else `TypeMismatch`
/// for the first position that disagrees.
pub fn validate(arguments: &[Argument], schema: &[Parameter]) -> (r: Result<(), DispatchError>)
    ensures
        match r {
            Ok(()) => validated(argument_views(arguments@), parameter_views(schema@)) == Ok::<
                (),
                DispatchErrorView,
            >(()),
            Err(e) => validated(argument_views(arguments@), parameter_views(schema@)) == Err::<
                (),
                DispatchErrorView,
            >(e@),
        },
{
    let ghost given = argument_views(arguments@);
    let ghost wanted = parameter_views(schema@);
    if arguments.len() != schema.len() {
        return Err(DispatchError::ArityMismatch);
    }
    let mut i: usize = 0;
    while i < arguments.len()
        invariant
            i <= arguments.len(),
            arguments.len() == schema.len(),
            given == argument_views(arguments@),
            wanted == parameter_views(schema@),
            forall|j: int| 0 <= j < i ==> agrees(#[trigger] given[j], wanted[j]),
        decreases arguments.len() - i,
    {
        let a = &arguments[i];
        let p = &schema[i];
        if !str_eq(a.name(), p.name.as_str()) || !str_eq(a.type_tag(), p.type_tag.as_str()) {
            let e = DispatchError::TypeMismatch {
                argument: a.name().to_owned(),
                expected: p.type_tag.clone(),
                actual: a.type_tag().to_owned(),
            };
            proof {
                assert(!agrees(given[i as int], wanted[i as int]));
                assert(first_mismatch(given, wanted, i as int));
                first_mismatch_is_unique(
                    given,
                    wanted,
                    i as int,
                    mismatch_index(given, wanted),
                );
            }
            return Err(e);
        }
        i += 1;
    }
    Ok(())
}

/// What [`dispatch`] makes of an invocation.
pub open spec fn dispatched(call: ToolCallView) -> Result<HandlerCallView, DispatchErrorView> {
    match Tool::spec_named(call.name) {
        None => Err(DispatchErrorView::UnknownTool),
        Some(tool) => match validated(call.arguments, tool.spec_schema()) {
            Ok(()) => Ok(tool.spec_call(call.arguments)),
            Err(e) => Err(e),
        },
    }
}

/// For a known tool the argument count is checked first: the failure is
/// `ArityMismatch` exactly when the count differs from the schema's, whatever
/// the arguments are called and whatever they declare.
pub proof fn arity_is_checked_before_types(call: ToolCallView)
    requires
        Tool::spec_named(call.name) is Some,
    ensures
        dispatched(call) == Err::<HandlerCallView, DispatchErrorView>(
            DispatchErrorView::ArityMismatch,
        ) <==> call.arguments.len() != Tool::spec_named(call.name)->0.spec_schema().len(),
{
}

/// The schema of `converse` is `(input: String)`: a call of it with no
/// argument or with two fails with `ArityMismatch`, and a call whose one
/// argument is `input` with another declared type fails with `TypeMismatch`
/// and says which type was expected and which was given.
pub proof fn converse_schema_is_enforced(call: ToolCallView)
    requires
        call.name == Tool::Converse.spec_name(),
    ensures
        call.arguments.len() == 0 || call.arguments.len() == 2 ==> dispatched(call) == Err::<
            HandlerCallView,
            DispatchErrorView,
        >(DispatchErrorView::ArityMismatch),
        call.arguments.len() == 1 && call.arguments[0].name == "input"@
            && call.arguments[0].type_tag != "String"@ ==> dispatched(call) == Err::<
            HandlerCallView,
            DispatchErrorView,
        >(
            DispatchErrorView::TypeMismatch {
                argument: "input"@,
                expected: "String"@,
                actual: call.arguments[0].type_tag,
            },
        ),
        call.arguments.len() == 1 && call.arguments[0].name == "input"@
            && call.arguments[0].type_tag == "String"@ ==> dispatched(call) == Ok::<
            HandlerCallView,
            DispatchErrorView,
        >(HandlerCallView::Converse { input: call.arguments[0].value }),
{
    let schema = Tool::Converse.spec_schema();
    if call.arguments.len() == 1 && call.arguments[0].name == "input"@
        && call.arguments[0].type_tag != "String"@ {
        assert(!agrees(call.arguments[0], schema[0]));
        assert(first_mismatch(call.arguments, schema, 0));
        first_mismatch_is_unique(
            call.arguments,
            schema,
            0,
            mismatch_index(call.arguments, schema),
        );
    }
}

/// Validates an invocation and routes it.
///
/// Succeeds exactly when the invocation names a tool and its arguments fit
/// that tool's schema; the result carries the argument values converted for
/// the handler. Fails with `UnknownTool` exactly when no tool has that name;
/// for a known tool, with `ArityMismatch` exactly when the argument count
/// differs from the schema's, and else with `TypeMismatch` for the first
/// argument whose name or declared type differs from the schema entry at its
/// position.
pub fn dispatch(call: &ToolCall) -> (r: Result<HandlerCall, DispatchError>)
    ensures
        match r {
            Ok(routed) => dispatched(call@) == Ok::<HandlerCallView, DispatchErrorView>(routed@),
            Err(e) => dispatched(call@) == Err::<HandlerCallView, DispatchErrorView>(e@),
        },
{
    let tool = match Tool::named(call.name()) {
        Some(tool) => tool,
        None => {
            return Err(DispatchError::UnknownTool);
        },
    };
    let schema = tool.schema();
    let arguments = call.args();
    match validate(arguments, schema.as_slice()) {
        Err(e) => Err(e),
        Ok(()) => {
            assert(arguments@.len() == 1);
            assert(argument_views(arguments@)[0] == arguments@[0]@);
            let value = arguments[0].value().to_owned();
            match tool {
                Tool::Converse => Ok(HandlerCall::Converse { input: value }),
                Tool::Image => Ok(HandlerCall::Image { path: value }),
            }
        },
    }
}

} // verus!
