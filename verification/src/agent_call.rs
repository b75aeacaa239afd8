//! The single-argument call format: an envelope that names an agent and
//! carries exactly one untyped argument.
//!
//! ```text
//! <agent-call name="image">
//!     <arg name="path" value="images/1.jpg"/>
//! </agent-call>
//! ```

use crate::tool_call::{document_of, lookup, ToolCallError};
use crate::xml::{attribute_views, element_views, resolve, scan, Document, DocumentView};
use vstd::prelude::*;
use vstd::std_specs::convert::TryFromSpecImpl;

verus! {

/// The one argument of an [`AgentCall`].
#[derive(Debug, Clone, PartialEq, Eq, Default)]
pub struct Arg {
    name: String,
    value: String,
}

pub struct ArgView {
    pub name: Seq<char>,
    pub value: Seq<char>,
}

impl View for Arg {
    type V = ArgView;

    closed spec fn view(&self) -> ArgView {
        ArgView { name: self.name@, value: self.value@ }
    }
}

impl Arg {
    pub fn new(name: String, value: String) -> (a: Arg)
        ensures
            a@ == (ArgView { name: name@, value: value@ }),
    {
        Arg { name, value }
    }

    pub fn name(&self) -> (r: &str)
        ensures
            r@ == self@.name,
    {
        self.name.as_str()
    }

    pub fn value(&self) -> (r: &str)
        ensures
            r@ == self@.value,
    {
        self.value.as_str()
    }
}

/// A call that names an agent and gives it one argument.
#[derive(Debug, Clone, PartialEq, Eq, Default)]
pub struct AgentCall {
    name: String,
    arg: Arg,
}

pub struct AgentCallView {
    pub name: Seq<char>,
    pub arg: ArgView,
}

impl View for AgentCall {
    type V = AgentCallView;

    closed spec fn view(&self) -> AgentCallView {
        AgentCallView { name: self.name@, arg: self.arg@ }
    }
}

/// The call that a document spells: the root has the single attribute
/// `name`, and its single child has exactly the attributes `name` and
/// `value`.
pub open spec fn agent_call_of(d: DocumentView) -> Option<AgentCallView> {
    if d.root.attributes.len() == 1 && d.root.attributes[0].name == "name"@ && d.children.len()
        == 1 && d.children[0].attributes.len() == 2 {
        match (lookup(d.children[0].attributes, "name"@), lookup(
            d.children[0].attributes,
            "value"@,
        )) {
            (Some(name), Some(value)) => Some(
                AgentCallView { name: d.root.attributes[0].value, arg: ArgView { name, value } },
            ),
            _ => None,
        }
    } else {
        None
    }
}

impl AgentCall {
    pub fn new(name: String, arg: Arg) -> (call: AgentCall)
        ensures
            call@ == (AgentCallView { name: name@, arg: arg@ }),
    {
        AgentCall { name, arg }
    }

    pub fn name(&self) -> (r: &str)
        ensures
            r@ == self@.name,
    {
        self.name.as_str()
    }

    pub fn arg(&self) -> (r: &Arg)
        ensures
            r@ == self@.arg,
    {
        &self.arg
    }

    /// Reads a call from a document whose attribute values are already
    /// resolved.
    pub fn from_document(document: &Document) -> (r: Option<AgentCall>)
        ensures
            match r {
                Some(call) => agent_call_of(document@) == Some(call@),
                None => agent_call_of(document@) is None,
            },
    {
        let root = &document.root;
        if root.attributes.len() != 1 || !crate::text::str_eq(
            root.attributes[0].name.as_str(),
            "name",
        ) || document.children.len() != 1 || document.children[0].attributes.len() != 2 {
            return None;
        }
        let child = &document.children[0];
        assert(element_views(document.children@)[0] == child@);
        let name = match crate::tool_call::find(&child.attributes, "name") {
            Some(v) => v.clone(),
            None => {
                return None;
            },
        };
        let value = match crate::tool_call::find(&child.attributes, "value") {
            Some(v) => v.clone(),
            None => {
                return None;
            },
        };
        assert(attribute_views(root.attributes@)[0] == root.attributes@[0]@);
        Some(AgentCall { name: root.attributes[0].value.clone(), arg: Arg { name, value } })
    }
}

impl TryFrom<&str> for AgentCall {
    type Error = ToolCallError;

    /// Decodes a single-argument call.
    ///
    /// Succeeds exactly when `text` follows the tag grammar, every attribute
    /// value resolves, the root has the single attribute `name`, and there is
    /// one child, with exactly the attributes `name` and `value`.
    fn try_from(text: &str) -> (r: Result<AgentCall, ToolCallError>)
        ensures
            match r {
                Ok(call) => document_of(text@) matches Some(d) && agent_call_of(d) == Some(call@),
                Err(e) => e == ToolCallError::Malformed && (document_of(text@) matches Some(d)
                    ==> agent_call_of(d) is None),
            },
    {
        let document = match scan(text) {
            Some(raw) => match resolve(&raw) {
                Some(d) => d,
                None => {
                    return Err(ToolCallError::Malformed);
                },
            },
            None => {
                return Err(ToolCallError::Malformed);
            },
        };
        match AgentCall::from_document(&document) {
            Some(call) => Ok(call),
            None => Err(ToolCallError::Malformed),
        }
    }
}

impl TryFromSpecImpl<&str> for AgentCall {
    open spec fn obeys_try_from_spec() -> bool {
        false
    }

    open spec fn try_from_spec(v: &str) -> Result<AgentCall, ToolCallError> {
        arbitrary()
    }
}

} // verus!
