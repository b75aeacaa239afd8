//! The tag grammar of the tool-call wire format.
//!
//! A payload is a single element whose children are empty elements; all data
//! is carried in attributes. The grammar is a deliberately small subset of XML:
//!
//! ```text
//! document   ::= S* prolog? S* element S*
//! prolog     ::= "<?" any* "?>"
//! element    ::= "<" name attributes S* ( "/>" | ">" children S* "</" name S* ">" )
//! children   ::= ( S* child )*
//! child      ::= "<" name attributes S* ( "/>" | ">" S* "</" name S* ">" )
//! attributes ::= ( S+ name S* "=" S* quoted )*
//! quoted     ::= '"' [^"<]* '"' | "'" [^'<]* "'"
//! name       ::= [A-Za-z_:] [A-Za-z0-9_:.-]*
//! S          ::= " " | "\t" | "\n" | "\r"
//! ```
//!
//! Anything else (text content, comments, nested grandchildren, a second root)
//! is rejected. [`scan`] keeps attribute values as written; [`resolve`] then
//! replaces their entity and character references.

use crate::text::{chars_of, string_of};
use quick_xml::escape::EscapeError;
use vstd::prelude::*;
use vstd::slice::slice_subrange;

verus! {

/// One `name="value"` pair, the value as written between its quotes.
#[derive(Debug, Clone, PartialEq, Eq)]
pub struct Attribute {
    pub name: String,
    pub value: String,
}

pub struct AttributeView {
    pub name: Seq<char>,
    pub value: Seq<char>,
}

impl View for Attribute {
    type V = AttributeView;

    open spec fn view(&self) -> AttributeView {
        AttributeView { name: self.name@, value: self.value@ }
    }
}

/// A start tag: its name and its attributes in source order.
#[derive(Debug, Clone, PartialEq, Eq)]
pub struct Element {
    pub tag: String,
    pub attributes: Vec<Attribute>,
}

pub struct ElementView {
    pub tag: Seq<char>,
    pub attributes: Seq<AttributeView>,
}

impl View for Element {
    type V = ElementView;

    open spec fn view(&self) -> ElementView {
        ElementView { tag: self.tag@, attributes: attribute_views(self.attributes@) }
    }
}

/// A scanned payload: the root tag and its children in source order.
#[derive(Debug, Clone, PartialEq, Eq)]
pub struct Document {
    pub root: Element,
    pub children: Vec<Element>,
}

pub struct DocumentView {
    pub root: ElementView,
    pub children: Seq<ElementView>,
}

impl View for Document {
    type V = DocumentView;

    open spec fn view(&self) -> DocumentView {
        DocumentView { root: self.root@, children: element_views(self.children@) }
    }
}

pub open spec fn attribute_views(attributes: Seq<Attribute>) -> Seq<AttributeView> {
    attributes.map_values(|a: Attribute| a@)
}

pub open spec fn element_views(elements: Seq<Element>) -> Seq<ElementView> {
    elements.map_values(|e: Element| e@)
}

pub open spec fn is_space(c: char) -> bool {
    c == ' ' || c == '\t' || c == '\n' || c == '\r'
}

pub open spec fn is_name_start(c: char) -> bool {
    ('a' <= c && c <= 'z') || ('A' <= c && c <= 'Z') || c == '_' || c == ':'
}

pub open spec fn is_name_char(c: char) -> bool {
    is_name_start(c) || ('0' <= c && c <= '9') || c == '-' || c == '.'
}

/// The first position at or after `i` that holds no white space.
pub open spec fn skip_spaces(s: Seq<char>, i: int) -> int
    decreases s.len() - i,
{
    if 0 <= i < s.len() && is_space(s[i]) {
        skip_spaces(s, i + 1)
    } else {
        i
    }
}

/// The end of the run of name characters that starts at `i`.
pub open spec fn name_end(s: Seq<char>, i: int) -> int
    decreases s.len() - i,
{
    if 0 <= i < s.len() && is_name_char(s[i]) {
        name_end(s, i + 1)
    } else {
        i
    }
}

/// The first position at or after `i` that holds `quote` or `<`, or the end
/// of the text.
pub open spec fn value_end(s: Seq<char>, i: int, quote: char) -> int
    decreases s.len() - i,
{
    if 0 <= i < s.len() && s[i] != quote && s[i] != '<' {
        value_end(s, i + 1, quote)
    } else {
        i
    }
}

/// An attribute whose name starts at `i`: the pair and the position after the
/// closing quote.
pub open spec fn parse_attribute(s: Seq<char>, i: int) -> Option<(AttributeView, int)> {
    let e = name_end(s, i);
    let eq = skip_spaces(s, e);
    let q = skip_spaces(s, eq + 1);
    let c = value_end(s, q + 1, s[q]);
    if 0 <= i < s.len() && is_name_start(s[i]) && eq < s.len() && s[eq] == '=' && q < s.len() && (
    s[q] == '"' || s[q] == '\'') && c < s.len() && s[c] == s[q] {
        Some((AttributeView { name: s.subrange(i, e), value: s.subrange(q + 1, c) }, c + 1))
    } else {
        None
    }
}

/// The attributes that follow position `i`, each preceded by white space, and
/// the position of the first character that is neither.
pub open spec fn parse_attributes(s: Seq<char>, i: int) -> Option<(Seq<AttributeView>, int)>
    decreases s.len() - i,
{
    let j = skip_spaces(s, i);
    if 0 <= i <= j < s.len() && is_name_start(s[j]) {
        if j == i {
            None
        } else {
            match parse_attribute(s, j) {
                Some((first, k)) => if i < k <= s.len() {
                    match parse_attributes(s, k) {
                        Some((rest, end)) => Some((seq![first] + rest, end)),
                        None => None,
                    }
                } else {
                    None
                },
                None => None,
            }
        }
    } else {
        Some((Seq::empty(), j))
    }
}

/// A start tag at `i`: the element, whether the tag closes itself, and the
/// position after it.
pub open spec fn parse_tag(s: Seq<char>, i: int) -> Option<(ElementView, bool, int)> {
    let e = name_end(s, i + 1);
    if 0 <= i && i + 1 < s.len() && s[i] == '<' && is_name_start(s[i + 1]) {
        match parse_attributes(s, e) {
            Some((attributes, j)) => {
                let element = ElementView { tag: s.subrange(i + 1, e), attributes };
                if 0 <= j && j + 1 < s.len() && s[j] == '/' && s[j + 1] == '>' {
                    Some((element, true, j + 2))
                } else if 0 <= j < s.len() && s[j] == '>' {
                    Some((element, false, j + 1))
                } else {
                    None
                }
            },
            None => None,
        }
    } else {
        None
    }
}

/// An end tag for `tag` at `i`: the position after it.
pub open spec fn parse_close(s: Seq<char>, i: int, tag: Seq<char>) -> Option<int> {
    let e = i + 2 + tag.len();
    let j = skip_spaces(s, e);
    if 0 <= i && e <= s.len() && s[i] == '<' && s[i + 1] == '/' && s.subrange(i + 2, e) == tag
        && 0 <= j < s.len() && s[j] == '>' {
        Some(j + 1)
    } else {
        None
    }
}

/// What follows a child's start tag at `k`: nothing if the tag closed itself,
/// else white space and the child's end tag.
pub open spec fn parse_child_end(s: Seq<char>, k: int, closed: bool, tag: Seq<char>) -> Option<
    int,
> {
    if closed {
        Some(k)
    } else {
        parse_close(s, skip_spaces(s, k), tag)
    }
}

/// The child elements that follow position `i`, and the position of the first
/// character after them that is neither white space nor the start of a child.
pub open spec fn parse_children(s: Seq<char>, i: int) -> Option<(Seq<ElementView>, int)>
    decreases s.len() - i,
{
    let j = skip_spaces(s, i);
    if 0 <= i <= j && j + 1 < s.len() && s[j] == '<' && s[j + 1] != '/' {
        match parse_tag(s, j) {
            Some((child, closed, k)) => match parse_child_end(s, k, closed, child.tag) {
                Some(n) => if i < n <= s.len() {
                    match parse_children(s, n) {
                        Some((rest, end)) => Some((seq![child] + rest, end)),
                        None => None,
                    }
                } else {
                    None
                },
                None => None,
            },
            None => None,
        }
    } else {
        Some((Seq::empty(), j))
    }
}

/// The first position at or after `i` where `?>` stands, or a position from
/// which no two characters are left.
pub open spec fn prolog_end(s: Seq<char>, i: int) -> int
    decreases s.len() - i,
{
    if 0 <= i && i + 1 < s.len() && !(s[i] == '?' && s[i + 1] == '>') {
        prolog_end(s, i + 1)
    } else {
        i
    }
}

/// The position after leading white space and, if one follows, a `<? ... ?>`
/// declaration.
pub open spec fn parse_prolog(s: Seq<char>) -> Option<int> {
    let j = skip_spaces(s, 0);
    let e = prolog_end(s, j + 2);
    if j + 1 < s.len() && s[j] == '<' && s[j + 1] == '?' {
        if e + 1 < s.len() {
            Some(e + 2)
        } else {
            None
        }
    } else {
        Some(j)
    }
}

/// What follows the root's start tag at `k`: the children and the position
/// after the root's end tag.
pub open spec fn parse_body(s: Seq<char>, k: int, closed: bool, tag: Seq<char>) -> Option<
    (Seq<ElementView>, int),
> {
    if closed {
        Some((Seq::empty(), k))
    } else {
        match parse_children(s, k) {
            Some((children, c)) => match parse_close(s, c, tag) {
                Some(end) => Some((children, end)),
                None => None,
            },
            None => None,
        }
    }
}

/// The document that `s` spells, if it follows the grammar.
pub open spec fn parse_document(s: Seq<char>) -> Option<DocumentView> {
    match parse_prolog(s) {
        Some(p) => match parse_tag(s, skip_spaces(s, p)) {
            Some((root, closed, k)) => match parse_body(s, k, closed, root.tag) {
                Some((children, end)) => if skip_spaces(s, end) == s.len() {
                    Some(DocumentView { root, children })
                } else {
                    None
                },
                None => None,
            },
            None => None,
        },
        None => None,
    }
}

/// `rest` with `prefix` put before its items.
pub open spec fn prefixed<T>(prefix: Seq<T>, rest: Option<(Seq<T>, int)>) -> Option<(Seq<T>, int)> {
    match rest {
        Some((items, end)) => Some((prefix + items, end)),
        None => None,
    }
}

fn space(c: char) -> (b: bool)
    ensures
        b == is_space(c),
{
    c == ' ' || c == '\t' || c == '\n' || c == '\r'
}

fn name_start(c: char) -> (b: bool)
    ensures
        b == is_name_start(c),
{
    ('a' <= c && c <= 'z') || ('A' <= c && c <= 'Z') || c == '_' || c == ':'
}

fn name_char(c: char) -> (b: bool)
    ensures
        b == is_name_char(c),
{
    name_start(c) || ('0' <= c && c <= '9') || c == '-' || c == '.'
}

fn scan_spaces(s: &[char], i: usize) -> (j: usize)
    requires
        i <= s.len(),
    ensures
        j == skip_spaces(s@, i as int),
        i <= j <= s.len(),
{
    let mut j: usize = i;
    while j < s.len() && space(s[j])
        invariant
            i <= j <= s.len(),
            skip_spaces(s@, i as int) == skip_spaces(s@, j as int),
        decreases s.len() - j,
    {
        j += 1;
    }
    j
}

fn scan_name(s: &[char], i: usize) -> (j: usize)
    requires
        i <= s.len(),
    ensures
        j == name_end(s@, i as int),
        i <= j <= s.len(),
{
    let mut j: usize = i;
    while j < s.len() && name_char(s[j])
        invariant
            i <= j <= s.len(),
            name_end(s@, i as int) == name_end(s@, j as int),
        decreases s.len() - j,
    {
        j += 1;
    }
    j
}

fn scan_value(s: &[char], i: usize, quote: char) -> (j: usize)
    requires
        i <= s.len(),
    ensures
        j == value_end(s@, i as int, quote),
        i <= j <= s.len(),
{
    let mut j: usize = i;
    while j < s.len() && s[j] != quote && s[j] != '<'
        invariant
            i <= j <= s.len(),
            value_end(s@, i as int, quote) == value_end(s@, j as int, quote),
        decreases s.len() - j,
    {
        j += 1;
    }
    j
}

fn scan_prolog(s: &[char], i: usize) -> (j: usize)
    requires
        i <= s.len(),
    ensures
        j == prolog_end(s@, i as int),
        i <= j <= s.len(),
{
    let mut j: usize = i;
    while s.len() - j >= 2 && !(s[j] == '?' && s[j + 1] == '>')
        invariant
            i <= j <= s.len(),
            prolog_end(s@, i as int) == prolog_end(s@, j as int),
        decreases s.len() - j,
    {
        j += 1;
    }
    j
}

fn read_attribute(s: &[char], i: usize) -> (r: Option<(Attribute, usize)>)
    requires
        i <= s.len(),
    ensures
        match r {
            Some((a, k)) => parse_attribute(s@, i as int) == Some((a@, k as int)) && i < k
                <= s.len(),
            None => parse_attribute(s@, i as int) is None,
        },
{
    if i >= s.len() || !name_start(s[i]) {
        return None;
    }
    let e = scan_name(s, i);
    let eq = scan_spaces(s, e);
    if eq >= s.len() || s[eq] != '=' {
        return None;
    }
    let q = scan_spaces(s, eq + 1);
    if q >= s.len() || (s[q] != '"' && s[q] != '\'') {
        return None;
    }
    let c = scan_value(s, q + 1, s[q]);
    if c >= s.len() || s[c] != s[q] {
        return None;
    }
    let name = string_of(slice_subrange(s, i, e));
    let value = string_of(slice_subrange(s, q + 1, c));
    Some((Attribute { name, value }, c + 1))
}

fn read_attributes(s: &[char], start: usize) -> (r: Option<(Vec<Attribute>, usize)>)
    requires
        start <= s.len(),
    ensures
        match r {
            Some((v, end)) => parse_attributes(s@, start as int) == Some(
                (attribute_views(v@), end as int),
            ) && start <= end <= s.len(),
            None => parse_attributes(s@, start as int) is None,
        },
{
    let mut out: Vec<Attribute> = Vec::new();
    let mut i: usize = start;
    loop
        invariant
            start <= i <= s.len(),
            parse_attributes(s@, start as int) == prefixed(
                attribute_views(out@),
                parse_attributes(s@, i as int),
            ),
        decreases s.len() - i,
    {
        let j = scan_spaces(s, i);
        if j < s.len() && name_start(s[j]) {
            if j == i {
                return None;
            }
            match read_attribute(s, j) {
                None => {
                    return None;
                },
                Some((a, k)) => {
                    proof {
                        let before = attribute_views(out@);
                        let after = attribute_views(out@.push(a));
                        assert(after =~= before.push(a@));
                        match parse_attributes(s@, k as int) {
                            Some((rest, end)) => {
                                assert(before + (seq![a@] + rest) =~= after + rest);
                            },
                            None => {},
                        }
                    }
                    out.push(a);
                    i = k;
                },
            }
        } else {
            proof {
                assert(attribute_views(out@) + Seq::<AttributeView>::empty() =~= attribute_views(
                    out@,
                ));
            }
            return Some((out, j));
        }
    }
}

fn read_tag(s: &[char], i: usize) -> (r: Option<(Element, bool, usize)>)
    requires
        i <= s.len(),
    ensures
        match r {
            Some((element, closed, k)) => parse_tag(s@, i as int) == Some(
                (element@, closed, k as int),
            ) && i < k <= s.len(),
            None => parse_tag(s@, i as int) is None,
        },
{
    if s.len() - i < 2 || s[i] != '<' || !name_start(s[i + 1]) {
        return None;
    }
    let e = scan_name(s, i + 1);
    match read_attributes(s, e) {
        None => None,
        Some((attributes, j)) => {
            let tag = string_of(slice_subrange(s, i + 1, e));
            let element = Element { tag, attributes };
            if s.len() - j >= 2 && s[j] == '/' && s[j + 1] == '>' {
                Some((element, true, j + 2))
            } else if j < s.len() && s[j] == '>' {
                Some((element, false, j + 1))
            } else {
                None
            }
        },
    }
}

fn read_close(s: &[char], i: usize, tag: &[char]) -> (r: Option<usize>)
    requires
        i <= s.len(),
    ensures
        match r {
            Some(k) => parse_close(s@, i as int, tag@) == Some(k as int) && i < k <= s.len(),
            None => parse_close(s@, i as int, tag@) is None,
        },
{
    if s.len() - i < 2 || s.len() - i - 2 < tag.len() || s[i] != '<' || s[i + 1] != '/' {
        return None;
    }
    let e = i + 2 + tag.len();
    let mut n: usize = 0;
    while n < tag.len()
        invariant
            n <= tag.len(),
            e == i + 2 + tag.len(),
            e <= s.len(),
            s@.subrange(i + 2, i + 2 + n) == tag@.subrange(0, n as int),
        decreases tag.len() - n,
    {
        if s[i + 2 + n] != tag[n] {
            proof {
                assert(s@.subrange(i + 2, e as int)[n as int] == s@[i + 2 + n]);
            }
            return None;
        }
        proof {
            assert(s@.subrange(i + 2, i + 2 + n + 1) =~= s@.subrange(i + 2, i + 2 + n).push(
                s@[i + 2 + n],
            ));
            assert(tag@.subrange(0, n + 1) =~= tag@.subrange(0, n as int).push(tag@[n as int]));
        }
        n += 1;
    }
    proof {
        assert(tag@.subrange(0, tag.len() as int) =~= tag@);
    }
    let j = scan_spaces(s, e);
    if j < s.len() && s[j] == '>' {
        Some(j + 1)
    } else {
        None
    }
}

fn read_children(s: &[char], start: usize) -> (r: Option<(Vec<Element>, usize)>)
    requires
        start <= s.len(),
    ensures
        match r {
            Some((v, end)) => parse_children(s@, start as int) == Some(
                (element_views(v@), end as int),
            ) && start <= end <= s.len(),
            None => parse_children(s@, start as int) is None,
        },
{
    let mut out: Vec<Element> = Vec::new();
    let mut i: usize = start;
    loop
        invariant
            start <= i <= s.len(),
            parse_children(s@, start as int) == prefixed(
                element_views(out@),
                parse_children(s@, i as int),
            ),
        decreases s.len() - i,
    {
        let j = scan_spaces(s, i);
        if s.len() - j >= 2 && s[j] == '<' && s[j + 1] != '/' {
            let (child, n) = match read_tag(s, j) {
                None => {
                    return None;
                },
                Some((child, closed, k)) => {
                    if closed {
                        (child, k)
                    } else {
                        let tag = chars_of(child.tag.as_str());
                        match read_close(s, scan_spaces(s, k), tag.as_slice()) {
                            None => {
                                return None;
                            },
                            Some(n) => (child, n),
                        }
                    }
                },
            };
            proof {
                let before = element_views(out@);
                let after = element_views(out@.push(child));
                assert(after =~= before.push(child@));
                match parse_children(s@, n as int) {
                    Some((rest, end)) => {
                        assert(before + (seq![child@] + rest) =~= after + rest);
                    },
                    None => {},
                }
            }
            out.push(child);
            i = n;
        } else {
            proof {
                assert(element_views(out@) + Seq::<ElementView>::empty() =~= element_views(out@));
            }
            return Some((out, j));
        }
    }
}

/// Scans a payload into its root tag and child tags.
///
/// Returns `Some` exactly when `text` follows the grammar of this module, and
/// then the document that [`parse_document`] gives for it.
pub fn scan(text: &str) -> (r: Option<Document>)
    ensures
        match r {
            Some(document) => parse_document(text@) == Some(document@),
            None => parse_document(text@) is None,
        },
{
    let chars = chars_of(text);
    let s = chars.as_slice();
    let first = scan_spaces(s, 0);
    let p = if s.len() - first >= 2 && s[first] == '<' && s[first + 1] == '?' {
        let e = scan_prolog(s, first + 2);
        if s.len() - e >= 2 {
            e + 2
        } else {
            return None;
        }
    } else {
        first
    };
    let (root, closed, k) = match read_tag(s, scan_spaces(s, p)) {
        None => {
            return None;
        },
        Some(found) => found,
    };
    let (children, end) = if closed {
        (Vec::new(), k)
    } else {
        let (children, c) = match read_children(s, k) {
            None => {
                return None;
            },
            Some(found) => found,
        };
        let tag = chars_of(root.tag.as_str());
        match read_close(s, c, tag.as_slice()) {
            None => {
                return None;
            },
            Some(end) => (children, end),
        }
    };
    if scan_spaces(s, end) != s.len() {
        return None;
    }
    proof {
        assert(element_views(Seq::<Element>::empty()) =~= Seq::<ElementView>::empty());
    }
    Some(Document { root, children })
}

/// `quick_xml::escape::EscapeError`, which says why a value did not resolve.
/// Nothing is stated of what it holds.
#[verifier::external_type_specification]
#[verifier::external_body]
pub struct ExEscapeError(EscapeError);

/// What `quick_xml::escape::unescape` makes of an attribute value as written:
/// the value with every `&...;` reference replaced, or `None` where a
/// reference is unknown, unterminated or not a character.
pub uninterp spec fn unescaped(raw: Seq<char>) -> Option<Seq<char>>;

/// Whether `raw` holds `&`, the character that opens a reference.
pub open spec fn has_reference(raw: Seq<char>) -> bool {
    raw.contains('&')
}

/// `quick_xml::escape::unescape`. The result is a function of `raw` alone,
/// named [`unescaped`]. A text without `&` never fails and comes back
/// unchanged.
#[verifier::external_body]
fn unescape(raw: &str) -> (r: Result<String, EscapeError>)
    ensures
        r matches Ok(value) ==> unescaped(raw@) == Some(value@),
        r is Err ==> unescaped(raw@) is None,
        r is Err ==> has_reference(raw@),
        r matches Ok(value) ==> has_reference(raw@) || value@ == raw@,
{
    quick_xml::escape::unescape(raw).map(|value| value.into_owned())
}

/// An attribute value with its references replaced: the value itself where
/// it holds none, else what [`unescaped`] makes of it.
pub open spec fn resolved_value(raw: Seq<char>) -> Option<Seq<char>> {
    if has_reference(raw) {
        unescaped(raw)
    } else {
        Some(raw)
    }
}

/// The attribute with the references in its value replaced.
pub open spec fn resolved_attribute(a: AttributeView) -> Option<AttributeView> {
    match resolved_value(a.value) {
        Some(value) => Some(AttributeView { name: a.name, value }),
        None => None,
    }
}

/// All attributes resolved, or `None` if one of them cannot be.
pub open spec fn resolved_attributes(attributes: Seq<AttributeView>) -> Option<
    Seq<AttributeView>,
> {
    if forall|i: int|
        0 <= i < attributes.len() ==> (#[trigger] resolved_attribute(attributes[i])) is Some {
        Some(attributes.map_values(|a: AttributeView| resolved_attribute(a)->0))
    } else {
        None
    }
}

pub open spec fn resolved_element(e: ElementView) -> Option<ElementView> {
    match resolved_attributes(e.attributes) {
        Some(attributes) => Some(ElementView { tag: e.tag, attributes }),
        None => None,
    }
}

/// All elements resolved, or `None` if one of them cannot be.
pub open spec fn resolved_elements(elements: Seq<ElementView>) -> Option<Seq<ElementView>> {
    if forall|i: int|
        0 <= i < elements.len() ==> (#[trigger] resolved_element(elements[i])) is Some {
        Some(elements.map_values(|e: ElementView| resolved_element(e)->0))
    } else {
        None
    }
}

pub open spec fn resolved_document(d: DocumentView) -> Option<DocumentView> {
    match (resolved_element(d.root), resolved_elements(d.children)) {
        (Some(root), Some(children)) => Some(DocumentView { root, children }),
        _ => None,
    }
}

fn resolve_attributes(attributes: &Vec<Attribute>) -> (r: Option<Vec<Attribute>>)
    ensures
        match r {
            Some(v) => resolved_attributes(attribute_views(attributes@)) == Some(
                attribute_views(v@),
            ),
            None => resolved_attributes(attribute_views(attributes@)) is None,
        },
{
    let ghost raw = attribute_views(attributes@);
    let mut out: Vec<Attribute> = Vec::new();
    let mut i: usize = 0;
    while i < attributes.len()
        invariant
            i <= attributes.len(),
            raw == attribute_views(attributes@),
            out@.len() == i,
            forall|j: int|
                0 <= j < i ==> resolved_attribute(raw[j]) == Some(#[trigger] out@[j]@),
        decreases attributes.len() - i,
    {
        let a = &attributes[i];
        match unescape(a.value.as_str()) {
            Err(_) => {
                assert(resolved_attribute(raw[i as int]) is None);
                return None;
            },
            Ok(value) => {
                out.push(Attribute { name: a.name.clone(), value });
            },
        }
        i += 1;
    }
    proof {
        assert forall|j: int| 0 <= j < raw.len() implies (#[trigger] resolved_attribute(
            raw[j],
        )) is Some by {
            assert(resolved_attribute(raw[j]) == Some(out@[j]@));
        }
        assert(raw.map_values(|a: AttributeView| resolved_attribute(a)->0) =~= attribute_views(
            out@,
        ));
    }
    Some(out)
}

fn resolve_element(element: &Element) -> (r: Option<Element>)
    ensures
        match r {
            Some(e) => resolved_element(element@) == Some(e@),
            None => resolved_element(element@) is None,
        },
{
    match resolve_attributes(&element.attributes) {
        Some(attributes) => Some(Element { tag: element.tag.clone(), attributes }),
        None => None,
    }
}

/// Replaces the entity and character references in every attribute value of
/// `document`.
///
/// Returns `None` exactly when some value holds a reference that cannot be
/// replaced.
pub fn resolve(document: &Document) -> (r: Option<Document>)
    ensures
        match r {
            Some(d) => resolved_document(document@) == Some(d@),
            None => resolved_document(document@) is None,
        },
{
    let root = match resolve_element(&document.root) {
        Some(root) => root,
        None => {
            return None;
        },
    };
    let ghost raw = element_views(document.children@);
    let mut children: Vec<Element> = Vec::new();
    let mut i: usize = 0;
    while i < document.children.len()
        invariant
            i <= document.children.len(),
            raw == element_views(document.children@),
            children@.len() == i,
            forall|j: int|
                0 <= j < i ==> resolved_element(raw[j]) == Some(#[trigger] children@[j]@),
        decreases document.children.len() - i,
    {
        match resolve_element(&document.children[i]) {
            None => {
                assert(resolved_element(raw[i as int]) is None);
                return None;
            },
            Some(child) => {
                children.push(child);
            },
        }
        i += 1;
    }
    proof {
        assert forall|j: int| 0 <= j < raw.len() implies (#[trigger] resolved_element(
            raw[j],
        )) is Some by {
            assert(resolved_element(raw[j]) == Some(children@[j]@));
        }
        assert(raw.map_values(|e: ElementView| resolved_element(e)->0) =~= element_views(
            children@,
        ));
    }
    Some(Document { root, children })
}

} // verus!
