//! The canonical spelling of an invocation, and the proof that the codec
//! reads it back: the grammar accepts what it is meant to accept, and tells a
//! payload named by its root tag from one that is not.

use crate::tool_call::{
    argument_of, call_of, decoded, enveloped, envelope_of, lookup, ArgumentView, ToolCallView,
};
use crate::xml::{
    is_name_char, is_name_start, name_end, parse_attribute, parse_attributes, parse_body,
    parse_child_end, parse_children, parse_close, parse_document, parse_prolog, parse_tag,
    has_reference, resolved_attribute, resolved_document, resolved_element, resolved_value,
    skip_spaces, value_end,
    AttributeView, DocumentView, ElementView,
};
use vstd::prelude::*;

verus! {

/// Whether `s` can be a tag or attribute name.
pub open spec fn is_name(s: Seq<char>) -> bool {
    &&& s.len() > 0
    &&& is_name_start(s[0])
    &&& forall|i: int| 0 <= i < s.len() ==> is_name_char(#[trigger] s[i])
}

/// Whether `s` can stand between double quotes as it is: it holds no double
/// quote, no `<` and no `&`.
pub open spec fn is_quotable(s: Seq<char>) -> bool {
    forall|i: int|
        0 <= i < s.len() ==> (#[trigger] s[i]) != '"' && s[i] != '<' && s[i] != '&'
}

/// Whether an argument's three texts can stand between double quotes.
pub open spec fn is_writable(a: ArgumentView) -> bool {
    is_quotable(a.name) && is_quotable(a.type_tag) && is_quotable(a.value)
}

/// An attribute as written: a space, the name, and the value in double
/// quotes.
pub open spec fn written_attribute(name: Seq<char>, value: Seq<char>) -> Seq<char> {
    seq![' '] + name + seq!['=', '"'] + value + seq!['"']
}

/// An argument as written: an empty `argument` element with the attributes
/// `name`, `type` and `value`.
pub open spec fn written_argument(a: ArgumentView) -> Seq<char> {
    seq!['<'] + "argument"@ + written_attribute("name"@, a.name) + written_attribute(
        "type"@,
        a.type_tag,
    ) + written_attribute("value"@, a.value) + seq!['/', '>']
}

/// The arguments as written, one after the other.
pub open spec fn written_arguments(arguments: Seq<ArgumentView>) -> Seq<char>
    decreases arguments.len(),
{
    if arguments.len() == 0 {
        Seq::empty()
    } else {
        written_argument(arguments[0]) + written_arguments(arguments.drop_first())
    }
}

/// The end tag of `name`.
pub open spec fn written_close(name: Seq<char>) -> Seq<char> {
    seq!['<', '/'] + name + seq!['>']
}

/// An invocation written under a root tag of any name.
pub open spec fn written_as(tag: Seq<char>, call: ToolCallView) -> Seq<char> {
    seq!['<'] + tag + written_attribute("name"@, call.name) + seq!['>'] + written_arguments(
        call.arguments,
    ) + written_close(tag)
}

/// The canonical spelling of an invocation: written under the tool's name.
pub open spec fn written(call: ToolCallView) -> Seq<char> {
    written_as(call.name, call)
}

/// The element that an argument is written as.
pub open spec fn spelled_argument(a: ArgumentView) -> ElementView {
    ElementView {
        tag: "argument"@,
        attributes: seq![
            AttributeView { name: "name"@, value: a.name },
            AttributeView { name: "type"@, value: a.type_tag },
            AttributeView { name: "value"@, value: a.value },
        ],
    }
}

/// The document that an invocation written under `tag` spells.
pub open spec fn spelled_as(tag: Seq<char>, call: ToolCallView) -> DocumentView {
    DocumentView {
        root: ElementView {
            tag,
            attributes: seq![AttributeView { name: "name"@, value: call.name }],
        },
        children: call.arguments.map_values(|a: ArgumentView| spelled_argument(a)),
    }
}

/// Whether an invocation can be written: its name and the texts of its
/// arguments can stand between double quotes as they are.
pub open spec fn is_writable_call(call: ToolCallView) -> bool {
    &&& is_quotable(call.name)
    &&& forall|k: int| 0 <= k < call.arguments.len() ==> is_writable(#[trigger] call.arguments[k])
}

/// Whether `t` stands in `s` at position `i`.
pub open spec fn holds(s: Seq<char>, i: int, t: Seq<char>) -> bool {
    &&& 0 <= i
    &&& i + t.len() <= s.len()
    &&& s.subrange(i, i + t.len()) == t
}

proof fn holds_at(s: Seq<char>, i: int, t: Seq<char>, k: int)
    requires
        holds(s, i, t),
        0 <= k < t.len(),
    ensures
        s[i + k] == t[k],
{
    assert(s.subrange(i, i + t.len())[k] == s[i + k]);
}

proof fn holds_split(s: Seq<char>, i: int, a: Seq<char>, b: Seq<char>)
    requires
        holds(s, i, a + b),
    ensures
        holds(s, i, a),
        holds(s, i + a.len(), b),
{
    let t = a + b;
    assert(s.subrange(i, i + a.len()) =~= a) by {
        assert forall|k: int| 0 <= k < a.len() implies s.subrange(i, i + a.len())[k] == a[k] by {
            holds_at(s, i, t, k);
        }
    }
    assert(s.subrange(i + a.len(), i + a.len() + b.len()) =~= b) by {
        assert forall|k: int| 0 <= k < b.len() implies s.subrange(
            i + a.len(),
            i + a.len() + b.len(),
        )[k] == b[k] by {
            holds_at(s, i, t, a.len() + k);
        }
    }
}

proof fn name_end_over(s: Seq<char>, i: int, name: Seq<char>)
    requires
        holds(s, i, name),
        forall|k: int| 0 <= k < name.len() ==> is_name_char(#[trigger] name[k]),
        i + name.len() == s.len() || !is_name_char(s[i + name.len()]),
    ensures
        name_end(s, i) == i + name.len(),
    decreases name.len(),
{
    if name.len() > 0 {
        holds_at(s, i, name, 0);
        assert(seq![name[0]] + name.drop_first() =~= name);
        holds_split(s, i, seq![name[0]], name.drop_first());
        assert forall|k: int| 0 <= k < name.drop_first().len() implies is_name_char(
            #[trigger] name.drop_first()[k],
        ) by {
            assert(name.drop_first()[k] == name[k + 1]);
        }
        name_end_over(s, i + 1, name.drop_first());
    }
}

proof fn value_end_over(s: Seq<char>, i: int, value: Seq<char>)
    requires
        holds(s, i, value),
        is_quotable(value),
        i + value.len() < s.len(),
        s[i + value.len()] == '"',
    ensures
        value_end(s, i, '"') == i + value.len(),
    decreases value.len(),
{
    if value.len() > 0 {
        holds_at(s, i, value, 0);
        assert(seq![value[0]] + value.drop_first() =~= value);
        holds_split(s, i, seq![value[0]], value.drop_first());
        assert forall|k: int| 0 <= k < value.drop_first().len() implies (
        #[trigger] value.drop_first()[k]) != '"' && value.drop_first()[k] != '<'
            && value.drop_first()[k] != '&' by {
            assert(value.drop_first()[k] == value[k + 1]);
        }
        value_end_over(s, i + 1, value.drop_first());
    }
}

/// An attribute written at `i`, after its leading space, is read back.
proof fn attribute_over(s: Seq<char>, i: int, name: Seq<char>, value: Seq<char>)
    requires
        holds(s, i, name + seq!['=', '"'] + value + seq!['"']),
        is_name(name),
        is_quotable(value),
    ensures
        parse_attribute(s, i) == Some(
            (AttributeView { name, value }, i + name.len() + value.len() + 3),
        ),
{
    let n = name.len() as int;
    let v = value.len() as int;
    holds_split(s, i, name + seq!['=', '"'] + value, seq!['"']);
    holds_split(s, i, name + seq!['=', '"'], value);
    holds_split(s, i, name, seq!['=', '"']);
    holds_at(s, i + n, seq!['=', '"'], 0);
    holds_at(s, i + n, seq!['=', '"'], 1);
    holds_at(s, i + n + 2 + v, seq!['"'], 0);
    holds_at(s, i, name, 0);
    name_end_over(s, i, name);
    value_end_over(s, i + n + 2, value);
    assert(s[i + n] == '=');
    assert(s[i + n + 1] == '"');
    assert(skip_spaces(s, i + n) == i + n);
    assert(skip_spaces(s, i + n + 1) == i + n + 1);
}

/// Where no attribute follows, the attribute list ends.
proof fn attributes_end(s: Seq<char>, i: int)
    requires
        0 <= i < s.len(),
        s[i] == '>' || s[i] == '/',
    ensures
        parse_attributes(s, i) == Some((Seq::<AttributeView>::empty(), i)),
{
    assert(skip_spaces(s, i) == i);
}

/// A written attribute at `i` is the first of the attributes read from `i`.
proof fn attributes_over(
    s: Seq<char>,
    i: int,
    name: Seq<char>,
    value: Seq<char>,
    rest: Seq<AttributeView>,
    end: int,
)
    requires
        holds(s, i, written_attribute(name, value)),
        is_name(name),
        is_quotable(value),
        parse_attributes(s, i + written_attribute(name, value).len()) == Some((rest, end)),
    ensures
        written_attribute(name, value).len() == name.len() + value.len() + 4,
        parse_attributes(s, i) == Some((seq![AttributeView { name, value }] + rest, end)),
{
    let body = name + seq!['=', '"'] + value + seq!['"'];
    assert(written_attribute(name, value) =~= seq![' '] + body);
    holds_split(s, i, seq![' '], body);
    holds_at(s, i, seq![' '], 0);
    holds_at(s, i + 1, body, 0);
    assert(body[0] == name[0]);
    assert(skip_spaces(s, i + 1) == i + 1);
    assert(skip_spaces(s, i) == i + 1);
    attribute_over(s, i + 1, name, value);
}

proof fn literal_names()
    ensures
        is_name("argument"@),
        is_name("name"@),
        is_name("type"@),
        is_name("value"@),
        "argument"@.len() == 8,
        "name"@.len() == 4,
        "type"@.len() == 4,
        "value"@.len() == 5,
        "name"@ != "type"@,
        "name"@ != "value"@,
        "type"@ != "value"@,
{
    reveal_strlit("argument");
    reveal_strlit("name");
    reveal_strlit("type");
    reveal_strlit("value");
    assert("name"@[0] != "type"@[0]);
}

/// A written argument at `i` is read back as an element that closes itself.
proof fn argument_over(s: Seq<char>, i: int, a: ArgumentView)
    requires
        holds(s, i, written_argument(a)),
        is_writable(a),
    ensures
        parse_tag(s, i) == Some((spelled_argument(a), true, i + written_argument(a).len())),
        written_argument(a).len() >= 2,
        written_argument(a)[0] == '<',
        written_argument(a)[1] == 'a',
{
    literal_names();
    reveal_strlit("argument");
    let tag = "argument"@;
    let a1 = written_attribute("name"@, a.name);
    let a2 = written_attribute("type"@, a.type_tag);
    let a3 = written_attribute("value"@, a.value);
    let tail = seq!['/', '>'];
    let all = written_argument(a);
    assert(all == seq!['<'] + tag + a1 + a2 + a3 + tail);
    holds_split(s, i, seq!['<'] + tag + a1 + a2 + a3, tail);
    holds_split(s, i, seq!['<'] + tag + a1 + a2, a3);
    holds_split(s, i, seq!['<'] + tag + a1, a2);
    holds_split(s, i, seq!['<'] + tag, a1);
    holds_split(s, i, seq!['<'], tag);
    let cut_1 = i + 1 + tag.len();
    let cut_2 = cut_1 + a1.len();
    let cut_3 = cut_2 + a2.len();
    let cut_4 = cut_3 + a3.len();
    holds_at(s, i, seq!['<'], 0);
    holds_at(s, i + 1, tag, 0);
    holds_at(s, cut_4, tail, 0);
    holds_at(s, cut_4, tail, 1);
    holds_at(s, cut_1, a1, 0);
    assert(a1[0] == ' ');
    name_end_over(s, i + 1, tag);
    attributes_end(s, cut_4);
    attributes_over(s, cut_3, "value"@, a.value, Seq::empty(), cut_4);
    let r3 = seq![AttributeView { name: "value"@, value: a.value }] + Seq::<
        AttributeView,
    >::empty();
    attributes_over(s, cut_2, "type"@, a.type_tag, r3, cut_4);
    let r2 = seq![AttributeView { name: "type"@, value: a.type_tag }] + r3;
    attributes_over(s, cut_1, "name"@, a.name, r2, cut_4);
    let r1 = seq![AttributeView { name: "name"@, value: a.name }] + r2;
    assert(r1 =~= spelled_argument(a).attributes);
    assert(s.subrange(i + 1, cut_1) == tag);
    assert(all[0] == '<');
    assert(all[1] == tag[0]);
}

/// Written arguments at `i`, followed by an end tag, are read back as the
/// children, in order.
proof fn children_over(s: Seq<char>, i: int, arguments: Seq<ArgumentView>, tail: Seq<char>)
    requires
        holds(s, i, written_arguments(arguments) + tail),
        forall|k: int| 0 <= k < arguments.len() ==> is_writable(#[trigger] arguments[k]),
        tail.len() >= 2,
        tail[0] == '<',
        tail[1] == '/',
    ensures
        parse_children(s, i) == Some(
            (
                arguments.map_values(|a: ArgumentView| spelled_argument(a)),
                i + written_arguments(arguments).len(),
            ),
        ),
    decreases arguments.len(),
{
    let spelled_all = arguments.map_values(|a: ArgumentView| spelled_argument(a));
    holds_split(s, i, written_arguments(arguments), tail);
    if arguments.len() == 0 {
        holds_at(s, i, tail, 0);
        holds_at(s, i, tail, 1);
        assert(skip_spaces(s, i) == i);
        assert(spelled_all =~= Seq::<ElementView>::empty());
    } else {
        let first = arguments[0];
        let rest = arguments.drop_first();
        let w = written_argument(first);
        assert(written_arguments(arguments) + tail =~= w + (written_arguments(rest) + tail));
        holds_split(s, i, w, written_arguments(rest) + tail);
        argument_over(s, i, first);
        holds_at(s, i, w, 0);
        holds_at(s, i, w, 1);
        assert(skip_spaces(s, i) == i);
        assert forall|k: int| 0 <= k < rest.len() implies is_writable(#[trigger] rest[k]) by {
            assert(rest[k] == arguments[k + 1]);
        }
        children_over(s, i + w.len(), rest, tail);
        let spelled_rest = rest.map_values(|a: ArgumentView| spelled_argument(a));
        assert(seq![spelled_argument(first)] + spelled_rest =~= spelled_all);
        assert(parse_child_end(s, i + w.len(), true, spelled_argument(first).tag) == Some(
            i + w.len(),
        ));
    }
}

/// The end tag of `name` at `i`, at the end of the text, is read back.
proof fn close_over(s: Seq<char>, i: int, name: Seq<char>)
    requires
        holds(s, i, written_close(name)),
    ensures
        parse_close(s, i, name) == Some(i + name.len() + 3),
{
    holds_split(s, i, seq!['<', '/'] + name, seq!['>']);
    holds_split(s, i, seq!['<', '/'], name);
    holds_at(s, i, seq!['<', '/'], 0);
    holds_at(s, i, seq!['<', '/'], 1);
    holds_at(s, i + 2 + name.len(), seq!['>'], 0);
    assert(skip_spaces(s, i + 2 + name.len()) == i + 2 + name.len());
}

/// The root's start tag at the start of the text is read back.
proof fn root_over(s: Seq<char>, tag: Seq<char>, name: Seq<char>, rest: Seq<char>)
    requires
        is_name(tag),
        is_quotable(name),
        s == seq!['<'] + tag + written_attribute("name"@, name) + seq!['>'] + rest,
    ensures
        parse_prolog(s) == Some(0int),
        skip_spaces(s, 0) == 0,
        parse_tag(s, 0) == Some(
            (
                ElementView { tag, attributes: seq![AttributeView { name: "name"@, value: name }] },
                false,
                (tag.len() + written_attribute("name"@, name).len() + 2) as int,
            ),
        ),
        holds(s, (tag.len() + written_attribute("name"@, name).len() + 2) as int, rest),
{
    literal_names();
    let n = tag.len() as int;
    let a = written_attribute("name"@, name);
    assert(s.subrange(0, s.len() as int) =~= s);
    holds_split(s, 0, seq!['<'] + tag + a + seq!['>'], rest);
    holds_split(s, 0, seq!['<'] + tag + a, seq!['>']);
    holds_split(s, 0, seq!['<'] + tag, a);
    holds_split(s, 0, seq!['<'], tag);
    let cut_1 = 1 + n;
    let cut_2 = cut_1 + a.len();
    holds_at(s, 0, seq!['<'], 0);
    holds_at(s, 1, tag, 0);
    holds_at(s, cut_1, a, 0);
    holds_at(s, cut_2, seq!['>'], 0);
    assert(a[0] == ' ');
    assert(skip_spaces(s, 0) == 0);
    name_end_over(s, 1, tag);
    attributes_end(s, cut_2);
    attributes_over(s, cut_1, "name"@, name, Seq::empty(), cut_2);
    let attributes = seq![AttributeView { name: "name"@, value: name }] + Seq::<
        AttributeView,
    >::empty();
    assert(attributes =~= seq![AttributeView { name: "name"@, value: name }]);
    assert(s.subrange(1, cut_1) == tag);
}

/// What follows the root's start tag is read back: the children, then the
/// end tag, then nothing.
proof fn body_over(s: Seq<char>, i: int, tag: Seq<char>, call: ToolCallView)
    requires
        holds(s, i, written_arguments(call.arguments) + written_close(tag)),
        i + written_arguments(call.arguments).len() + written_close(tag).len() == s.len(),
        is_writable_call(call),
    ensures
        parse_body(s, i, false, tag) == Some((spelled_as(tag, call).children, s.len() as int)),
        skip_spaces(s, s.len() as int) == s.len(),
{
    let body = written_arguments(call.arguments);
    let close = written_close(tag);
    assert(close[0] == '<' && close[1] == '/');
    children_over(s, i, call.arguments, close);
    holds_split(s, i, body, close);
    close_over(s, i + body.len(), tag);
}

/// What is written scans to the document that spells it.
pub proof fn written_call_scans(tag: Seq<char>, call: ToolCallView)
    requires
        is_name(tag),
        is_writable_call(call),
    ensures
        parse_document(written_as(tag, call)) == Some(spelled_as(tag, call)),
{
    let s = written_as(tag, call);
    let rest = written_arguments(call.arguments) + written_close(tag);
    let cut = (tag.len() + written_attribute("name"@, call.name).len() + 2) as int;
    assert(s =~= seq!['<'] + tag + written_attribute("name"@, call.name) + seq!['>'] + rest);
    root_over(s, tag, call.name, rest);
    body_over(s, cut, tag, call);
}

/// The document that spells an invocation reads back as that invocation,
/// and as a call on the wire exactly when its root tag is the tool's name.
pub proof fn spelled_call_reads_back(tag: Seq<char>, call: ToolCallView)
    ensures
        envelope_of(spelled_as(tag, call)) == Some(call),
        call_of(spelled_as(tag, call)) == if tag == call.name {
            Some(call)
        } else {
            None
        },
{
    literal_names();
    let d = spelled_as(tag, call);
    assert forall|i: int| 0 <= i < d.children.len() implies (#[trigger] argument_of(
        d.children[i],
    )) == Some(call.arguments[i]) by {
        let a = call.arguments[i];
        let attributes = spelled_argument(a).attributes;
        let second = attributes.drop_first();
        let third = second.drop_first();
        assert(second[0] == attributes[1]);
        assert(third[0] == attributes[2]);
        assert(lookup(attributes, "name"@) == Some(a.name));
        assert(lookup(second, "type"@) == Some(a.type_tag));
        assert(lookup(attributes, "type"@) == Some(a.type_tag));
        assert(lookup(third, "value"@) == Some(a.value));
        assert(lookup(second, "value"@) == Some(a.value));
        assert(lookup(attributes, "value"@) == Some(a.value));
    }
    assert(d.children.map_values(|e: ElementView| argument_of(e)->0) =~= call.arguments);
}

proof fn quotable_resolves_to_itself(s: Seq<char>)
    requires
        is_quotable(s),
    ensures
        resolved_value(s) == Some(s),
{
    if has_reference(s) {
        let i = choose|i: int| 0 <= i < s.len() && s[i] == '&';
        assert(s[i] != '&');
    }
}

proof fn spelled_call_resolves(tag: Seq<char>, call: ToolCallView)
    requires
        is_writable_call(call),
    ensures
        resolved_document(spelled_as(tag, call)) == Some(spelled_as(tag, call)),
{
    let d = spelled_as(tag, call);
    quotable_resolves_to_itself(call.name);
    assert(resolved_attribute(d.root.attributes[0]) == Some(d.root.attributes[0]));
    assert(d.root.attributes.map_values(|a: AttributeView| resolved_attribute(a)->0)
        =~= d.root.attributes);
    assert(resolved_element(d.root) == Some(d.root));
    assert forall|i: int| 0 <= i < d.children.len() implies (#[trigger] resolved_element(
        d.children[i],
    )) == Some(d.children[i]) by {
        let e = d.children[i];
        let a = call.arguments[i];
        quotable_resolves_to_itself(a.name);
        quotable_resolves_to_itself(a.type_tag);
        quotable_resolves_to_itself(a.value);
        assert(resolved_attribute(e.attributes[0]) == Some(e.attributes[0]));
        assert(resolved_attribute(e.attributes[1]) == Some(e.attributes[1]));
        assert(resolved_attribute(e.attributes[2]) == Some(e.attributes[2]));
        assert(e.attributes.map_values(|a: AttributeView| resolved_attribute(a)->0)
            =~= e.attributes);
    }
    assert(d.children.map_values(|e: ElementView| resolved_element(e)->0) =~= d.children);
}

/// An invocation written under a root tag of any name reads back from its
/// envelope: with its name and with all its arguments in their order.
pub proof fn envelope_reads_back_what_is_written(tag: Seq<char>, call: ToolCallView)
    requires
        is_name(tag),
        is_writable_call(call),
    ensures
        enveloped(written_as(tag, call)) == Some(call),
{
    written_call_scans(tag, call);
    spelled_call_reads_back(tag, call);
    spelled_call_resolves(tag, call);
}

/// Decoding reads the canonical spelling of an invocation back: for every
/// invocation whose name is a tag name and whose texts can stand between
/// double quotes as they are, decoding what is written gives the invocation,
/// with all its arguments in their order.
pub proof fn decoding_reads_back_what_is_written(call: ToolCallView)
    requires
        is_name(call.name),
        is_writable_call(call),
    ensures
        decoded(written(call)) == Some(call),
{
    written_call_scans(call.name, call);
    spelled_call_reads_back(call.name, call);
    spelled_call_resolves(call.name, call);
}

/// An invocation written under a root tag that is not the tool's name is
/// malformed on the wire, however well it is written otherwise.
pub proof fn decoding_rejects_a_root_tag_that_is_not_the_name(tag: Seq<char>, call: ToolCallView)
    requires
        is_name(tag),
        is_writable_call(call),
        tag != call.name,
    ensures
        decoded(written_as(tag, call)) is None,
{
    written_call_scans(tag, call);
    spelled_call_reads_back(tag, call);
    spelled_call_resolves(tag, call);
}

} // verus!
