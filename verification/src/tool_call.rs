//! The tool-call codec: from the text a model produced to a structured
//! invocation with named, typed, textual arguments.
//!
//! A payload names one tool and lists its arguments in order:
//!
//! ```text
//! <converse name="converse">
//!     <argument name="input" type="String" value="hello"/>
//! </converse>
//! ```
//!
//! The root carries exactly one attribute, `name`; every child carries exactly
//! `name`, `type` and `value`, in any order. Decoding is all or nothing: any
//! defect rejects the whole payload.

use crate::text::str_eq;
use crate::xml::{
    parse_document, resolve, resolved_document, scan, Attribute, AttributeView, Document,
    DocumentView, Element, ElementView,
};
use vstd::prelude::*;
use vstd::std_specs::convert::TryFromSpecImpl;

verus! {

/// One argument of an invocation. The type is declared, not enforced here;
/// the value is always text.
#[derive(Debug, Clone, PartialEq, Eq, Default)]
pub struct Argument {
    name: String,
    type_tag: String,
    value: String,
}

pub struct ArgumentView {
    pub name: Seq<char>,
    pub type_tag: Seq<char>,
    pub value: Seq<char>,
}

impl View for Argument {
    type V = ArgumentView;

    closed spec fn view(&self) -> ArgumentView {
        ArgumentView { name: self.name@, type_tag: self.type_tag@, value: self.value@ }
    }
}

impl Argument {
    pub fn new(name: String, type_tag: String, value: String) -> (a: Argument)
        ensures
            a@ == (ArgumentView { name: name@, type_tag: type_tag@, value: value@ }),
    {
        Argument { name, type_tag, value }
    }

    pub fn name(&self) -> (r: &str)
        ensures
            r@ == self@.name,
    {
        self.name.as_str()
    }

    /// The declared semantic type, such as `String` or `PathBuf`.
    pub fn type_tag(&self) -> (r: &str)
        ensures
            r@ == self@.type_tag,
    {
        self.type_tag.as_str()
    }

    pub fn value(&self) -> (r: &str)
        ensures
            r@ == self@.value,
    {
        self.value.as_str()
    }
}

/// A decoded invocation: the tool's name and its arguments in source order.
#[derive(Debug, Clone, PartialEq, Eq, Default)]
pub struct ToolCall {
    name: String,
    arguments: Vec<Argument>,
}

pub struct ToolCallView {
    pub name: Seq<char>,
    pub arguments: Seq<ArgumentView>,
}

impl View for ToolCall {
    type V = ToolCallView;

    closed spec fn view(&self) -> ToolCallView {
        ToolCallView { name: self.name@, arguments: argument_views(self.arguments@) }
    }
}

pub open spec fn argument_views(arguments: Seq<Argument>) -> Seq<ArgumentView> {
    arguments.map_values(|a: Argument| a@)
}

/// Why a payload was rejected. The codec does not decode in part, so there is
/// one kind of failure.
#[derive(Debug, Clone, Copy, PartialEq, Eq)]
pub enum ToolCallError {
    Malformed,
}

/// The value of the first attribute called `name`.
pub open spec fn lookup(attributes: Seq<AttributeView>, name: Seq<char>) -> Option<Seq<char>>
    decreases attributes.len(),
{
    if attributes.len() == 0 {
        None
    } else if attributes[0].name == name {
        Some(attributes[0].value)
    } else {
        lookup(attributes.drop_first(), name)
    }
}

/// The argument that a child element spells: it has exactly the attributes
/// `name`, `type` and `value`.
pub open spec fn argument_of(e: ElementView) -> Option<ArgumentView> {
    match (lookup(e.attributes, "name"@), lookup(e.attributes, "type"@), lookup(
        e.attributes,
        "value"@,
    )) {
        (Some(name), Some(type_tag), Some(value)) => if e.attributes.len() == 3 {
            Some(ArgumentView { name, type_tag, value })
        } else {
            None
        },
        _ => None,
    }
}

/// The invocation that a document spells, whatever its root tag is called:
/// the root has the single attribute `name`, and every child is an argument.
pub open spec fn envelope_of(d: DocumentView) -> Option<ToolCallView> {
    if d.root.attributes.len() == 1 && d.root.attributes[0].name == "name"@ && forall|i: int|
        0 <= i < d.children.len() ==> (#[trigger] argument_of(d.children[i])) is Some {
        Some(
            ToolCallView {
                name: d.root.attributes[0].value,
                arguments: d.children.map_values(|e: ElementView| argument_of(e)->0),
            },
        )
    } else {
        None
    }
}

/// The invocation that a document spells on the wire: as [`envelope_of`], and
/// the root tag is the tool's name.
pub open spec fn call_of(d: DocumentView) -> Option<ToolCallView> {
    match envelope_of(d) {
        Some(call) => if call.name == d.root.tag {
            Some(call)
        } else {
            None
        },
        None => None,
    }
}

/// The document that `text` spells, with the references in its attribute
/// values replaced.
pub open spec fn document_of(text: Seq<char>) -> Option<DocumentView> {
    match parse_document(text) {
        Some(d) => resolved_document(d),
        None => None,
    }
}

/// What [`decode`] makes of `text`.
pub open spec fn decoded(text: Seq<char>) -> Option<ToolCallView> {
    match document_of(text) {
        Some(d) => call_of(d),
        None => None,
    }
}

/// The invocation in the envelope that `text` spells, whatever its root tag
/// is called: what [`ToolCall::from_envelope`] reads from the document of
/// `text`.
pub open spec fn enveloped(text: Seq<char>) -> Option<ToolCallView> {
    match document_of(text) {
        Some(d) => envelope_of(d),
        None => None,
    }
}

/// A decoded invocation has exactly as many arguments as the payload's root
/// has children, each read from the child at its position, and is named by
/// the root tag.
pub proof fn decoded_arguments_follow_the_children(text: Seq<char>)
    requires
        decoded(text) is Some,
    ensures
        parse_document(text) is Some,
        document_of(text) is Some,
        ({
            let written = parse_document(text)->0;
            let document = document_of(text)->0;
            let call = decoded(text)->0;
            &&& call.name == document.root.tag
            &&& call.arguments.len() == written.children.len()
            &&& call.arguments.len() == document.children.len()
            &&& forall|i: int|
                0 <= i < call.arguments.len() ==> argument_of(document.children[i]) == Some(
                    #[trigger] call.arguments[i],
                )
        }),
{
}

/// A payload whose root does not carry the attribute `name` is malformed.
pub proof fn root_without_name_is_malformed(text: Seq<char>)
    requires
        parse_document(text) matches Some(written) && lookup(written.root.attributes, "name"@)
            is None,
    ensures
        enveloped(text) is None,
        decoded(text) is None,
{
    let written = parse_document(text)->0;
    match resolved_document(written) {
        Some(document) => {
            if document.root.attributes.len() == 1 {
                assert(document.root.attributes[0].name == written.root.attributes[0].name);
            }
        },
        None => {},
    }
}

/// A payload whose root tag differs from its `name` attribute is malformed.
pub proof fn root_tag_that_differs_from_name_is_malformed(text: Seq<char>)
    requires
        document_of(text) matches Some(document) && lookup(document.root.attributes, "name"@)
            != Some(document.root.tag),
    ensures
        decoded(text) is None,
{
    let document = document_of(text)->0;
    if document.root.attributes.len() == 1 {
        assert(document.root.attributes.drop_first().len() == 0);
    }
}

pub(crate) fn find<'a>(attributes: &'a Vec<Attribute>, name: &str) -> (r: Option<&'a String>)
    ensures
        match r {
            Some(value) => lookup(crate::xml::attribute_views(attributes@), name@) == Some(
                value@,
            ),
            None => lookup(crate::xml::attribute_views(attributes@), name@) is None,
        },
{
    let ghost all = crate::xml::attribute_views(attributes@);
    let mut i: usize = 0;
    proof {
        assert(all.skip(0) =~= all);
    }
    while i < attributes.len()
        invariant
            i <= attributes.len(),
            all == crate::xml::attribute_views(attributes@),
            lookup(all, name@) == lookup(all.skip(i as int), name@),
        decreases attributes.len() - i,
    {
        proof {
            assert(all.skip(i as int)[0] == attributes@[i as int]@);
            assert(all.skip(i as int).drop_first() =~= all.skip(i + 1));
        }
        if str_eq(attributes[i].name.as_str(), name) {
            return Some(&attributes[i].value);
        }
        i += 1;
    }
    None
}

impl Argument {
    /// Reads an argument from a child element whose attribute values are
    /// already resolved.
    ///
    /// Returns `Some` exactly when the element has three attributes and
    /// `name`, `type` and `value` are among them.
    pub fn from_element(element: &Element) -> (r: Option<Argument>)
        ensures
            match r {
                Some(a) => argument_of(element@) == Some(a@),
                None => argument_of(element@) is None,
            },
    {
        if element.attributes.len() != 3 {
            return None;
        }
        let name = match find(&element.attributes, "name") {
            Some(v) => v.clone(),
            None => {
                return None;
            },
        };
        let type_tag = match find(&element.attributes, "type") {
            Some(v) => v.clone(),
            None => {
                return None;
            },
        };
        let value = match find(&element.attributes, "value") {
            Some(v) => v.clone(),
            None => {
                return None;
            },
        };
        Some(Argument { name, type_tag, value })
    }
}

impl ToolCall {
    pub fn new(name: String, arguments: Vec<Argument>) -> (call: ToolCall)
        ensures
            call@ == (ToolCallView { name: name@, arguments: argument_views(arguments@) }),
    {
        ToolCall { name, arguments }
    }

    pub fn name(&self) -> (r: &str)
        ensures
            r@ == self@.name,
    {
        self.name.as_str()
    }

    /// The arguments in source order.
    pub fn args(&self) -> (r: &[Argument])
        ensures
            argument_views(r@) == self@.arguments,
    {
        self.arguments.as_slice()
    }

    /// Reads an invocation from a document whose attribute values are already
    /// resolved, whatever its root tag is called.
    ///
    /// Returns `Some` exactly when the root has the single attribute `name`
    /// and every child is an argument; the arguments keep the children's
    /// order.
    pub fn from_envelope(document: &Document) -> (r: Option<ToolCall>)
        ensures
            match r {
                Some(call) => envelope_of(document@) == Some(call@),
                None => envelope_of(document@) is None,
            },
    {
        let root = &document.root;
        if root.attributes.len() != 1 || !str_eq(root.attributes[0].name.as_str(), "name") {
            return None;
        }
        let ghost children = crate::xml::element_views(document.children@);
        let mut arguments: Vec<Argument> = Vec::new();
        let mut i: usize = 0;
        while i < document.children.len()
            invariant
                i <= document.children.len(),
                children == crate::xml::element_views(document.children@),
                arguments@.len() == i,
                forall|j: int|
                    0 <= j < i ==> argument_of(children[j]) == Some(#[trigger] arguments@[j]@),
            decreases document.children.len() - i,
        {
            match Argument::from_element(&document.children[i]) {
                Some(a) => {
                    arguments.push(a);
                },
                None => {
                    assert(argument_of(children[i as int]) is None);
                    return None;
                },
            }
            i += 1;
        }
        proof {
            assert forall|j: int| 0 <= j < children.len() implies (#[trigger] argument_of(
                children[j],
            )) is Some by {
                assert(argument_of(children[j]) == Some(arguments@[j]@));
            }
            assert(children.map_values(|e: ElementView| argument_of(e)->0) =~= argument_views(
                arguments@,
            ));
        }
        Some(ToolCall { name: root.attributes[0].value.clone(), arguments })
    }

    /// Reads an invocation from a document whose attribute values are already
    /// resolved.
    ///
    /// Returns `Some` exactly when [`ToolCall::from_envelope`] does and the
    /// root tag equals the tool's name.
    pub fn from_document(document: &Document) -> (r: Option<ToolCall>)
        ensures
            match r {
                Some(call) => call_of(document@) == Some(call@),
                None => call_of(document@) is None,
            },
    {
        match ToolCall::from_envelope(document) {
            Some(call) => if str_eq(call.name.as_str(), document.root.tag.as_str()) {
                Some(call)
            } else {
                None
            },
            None => None,
        }
    }
}

impl TryFrom<&str> for ToolCall {
    type Error = ToolCallError;

    /// Decodes a payload, as [`decode`] does.
    ///
    /// Succeeds exactly when `text` follows the tag grammar, every attribute
    /// value resolves, the root has the single attribute `name`, the root
    /// tag is that name, and every child is an argument. A payload under a
    /// root tag of another name, such as `<tool-call name="image">`, is
    /// malformed; [`ToolCall::from_envelope`] reads such an envelope.
    fn try_from(text: &str) -> (r: Result<ToolCall, ToolCallError>)
        ensures
            match r {
                Ok(call) => decoded(text@) == Some(call@),
                Err(e) => decoded(text@) is None && e == ToolCallError::Malformed,
            },
    {
        let document = match read(text) {
            Some(d) => d,
            None => {
                return Err(ToolCallError::Malformed);
            },
        };
        match ToolCall::from_document(&document) {
            Some(call) => Ok(call),
            None => Err(ToolCallError::Malformed),
        }
    }
}

impl TryFromSpecImpl<&str> for ToolCall {
    open spec fn obeys_try_from_spec() -> bool {
        false
    }

    open spec fn try_from_spec(v: &str) -> Result<ToolCall, ToolCallError> {
        arbitrary()
    }
}

fn read(text: &str) -> (r: Option<Document>)
    ensures
        match r {
            Some(d) => document_of(text@) == Some(d@),
            None => document_of(text@) is None,
        },
{
    match scan(text) {
        Some(raw) => resolve(&raw),
        None => None,
    }
}

/// Decodes one response of the model into an invocation.
///
/// Succeeds exactly when `text` is a single well-formed tagged structure whose
/// root tag and `name` attribute agree and whose children are arguments; the
/// arguments keep their source order. Any defect gives
/// [`ToolCallError::Malformed`].
pub fn decode(text: &str) -> (r: Result<ToolCall, ToolCallError>)
    ensures
        match r {
            Ok(call) => decoded(text@) == Some(call@),
            Err(e) => decoded(text@) is None && e == ToolCallError::Malformed,
        },
{
    let document = match read(text) {
        Some(d) => d,
        None => {
            return Err(ToolCallError::Malformed);
        },
    };
    match ToolCall::from_document(&document) {
        Some(call) => Ok(call),
        None => Err(ToolCallError::Malformed),
    }
}

} // verus!
