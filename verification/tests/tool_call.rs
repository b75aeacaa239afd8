use blossom::tool_call::{decode, Argument, ToolCall, ToolCallError};
use blossom::xml::{resolve, scan};

const XML: &str = r#"
<?xml version="1.0" encoding="utf-8"?>
<tool-call name="image">
    <argument name="path" type="PathBuf" value="images/1.jpg"/>
</tool-call>
"#;

fn argument(name: &str, type_tag: &str, value: &str) -> Argument {
    Argument::new(name.to_string(), type_tag.to_string(), value.to_string())
}

#[test]
fn tool_call_test_deserialize() {
    assert_eq!(ToolCall::try_from(XML), Err(ToolCallError::Malformed));
}

#[test]
fn try_from_reads_a_payload_named_by_its_root_tag() {
    let tool_call = ToolCall::try_from(
        r#"
<?xml version="1.0" encoding="utf-8"?>
<image name="image">
    <argument name="path" type="PathBuf" value="images/1.jpg"/>
</image>
"#,
    )
    .unwrap();
    assert_eq!(
        tool_call,
        ToolCall::new(
            "image".to_string(),
            [Argument::new(
                "path".to_string(),
                "PathBuf".to_string(),
                "images/1.jpg".to_string(),
            )]
            .to_vec()
        )
    );
}

#[test]
fn try_from_agrees_with_decode() {
    for text in [
        XML,
        r#"<converse name="converse"><a name="input" type="String" value="x"/></converse>"#,
        r#"<converse name="image"/>"#,
        "<converse/>",
        "",
    ] {
        assert_eq!(ToolCall::try_from(text), decode(text), "{:?}", text);
    }
}

#[test]
fn decode_reads_tool_named_by_root_tag() {
    let call = decode(
        r#"<converse name="converse"><argument name="input" type="String" value="hi there"/></converse>"#,
    )
    .unwrap();
    assert_eq!(call.name(), "converse");
    assert_eq!(call.args(), &[argument("input", "String", "hi there")]);
}

#[test]
fn decode_keeps_arguments_in_source_order() {
    let text = r#"<plan name="plan">
        <a name="first" type="String" value="1"/>
        <b name="second" type="PathBuf" value="2"></b>
        <c value="3" type="u8" name="third" />
    </plan>"#;
    let call = decode(text).unwrap();
    assert_eq!(
        call,
        ToolCall::new(
            "plan".to_string(),
            vec![
                argument("first", "String", "1"),
                argument("second", "PathBuf", "2"),
                argument("third", "u8", "3"),
            ]
        )
    );
}

#[test]
fn decode_accepts_a_call_without_arguments() {
    assert_eq!(
        decode(r#"<ping name="ping"/>"#),
        Ok(ToolCall::new("ping".to_string(), vec![]))
    );
    assert_eq!(
        decode("<ping name='ping'>\n</ping>\n"),
        Ok(ToolCall::new("ping".to_string(), vec![]))
    );
}

#[test]
fn decode_rejects_root_tag_that_differs_from_name() {
    assert_eq!(decode(XML), Err(ToolCallError::Malformed));
    assert_eq!(
        decode(r#"<converse name="image"/>"#),
        Err(ToolCallError::Malformed)
    );
}

#[test]
fn decode_rejects_root_without_name() {
    assert_eq!(decode("<converse/>"), Err(ToolCallError::Malformed));
    assert_eq!(
        decode(r#"<converse title="converse"/>"#),
        Err(ToolCallError::Malformed)
    );
    assert_eq!(
        ToolCall::try_from(r#"<tool-call id="image"/>"#),
        Err(ToolCallError::Malformed)
    );
}

#[test]
fn decode_rejects_extra_root_attribute() {
    assert_eq!(
        decode(r#"<converse name="converse" id="1"/>"#),
        Err(ToolCallError::Malformed)
    );
}

#[test]
fn decode_rejects_argument_with_missing_or_extra_attribute() {
    assert_eq!(
        decode(r#"<t name="t"><a name="x" value="1"/></t>"#),
        Err(ToolCallError::Malformed)
    );
    assert_eq!(
        decode(r#"<t name="t"><a name="x" type="String" value="1" unit="m"/></t>"#),
        Err(ToolCallError::Malformed)
    );
    assert_eq!(
        decode(r#"<t name="t"><a name="x" name="y" value="1"/></t>"#),
        Err(ToolCallError::Malformed)
    );
}

#[test]
fn decode_rejects_structural_defects() {
    for text in [
        "",
        "   ",
        "converse",
        "<converse name=\"converse\"",
        "<converse name=\"converse\">",
        "<converse name=\"converse\"></convers>",
        "<converse name=\"converse\"></converse> trailing",
        "<converse name=\"converse\"/><converse name=\"converse\"/>",
        "<converse name=\"converse\">text</converse>",
        "<converse name=\"converse\"><a name=\"x\" type=\"t\" value=\"v\"><b/></a></converse>",
        "<converse name=converse/>",
        "<converse name=\"a<b\"/>",
        "<converse name=\"converse\"type=\"x\"/>",
        "<?xml version=\"1.0\"<converse name=\"converse\"/>",
        "<!-- note --><converse name=\"converse\"/>",
        "<1st name=\"1st\"/>",
    ] {
        assert_eq!(decode(text), Err(ToolCallError::Malformed), "{}", text);
    }
}

#[test]
fn decode_resolves_references_in_values() {
    let call = decode(
        r#"<converse name="converse"><a name="input" type="String" value="a &amp; b &lt;c&gt; &quot;d&quot; &#65;&#x42;"/></converse>"#,
    )
    .unwrap();
    assert_eq!(call.args()[0].value(), "a & b <c> \"d\" AB");
}

#[test]
fn decode_rejects_invalid_references() {
    for value in ["&bogus;", "a & b", "&amp", "&#0;", "&#xD800;", "&#-1;"] {
        let text = format!(
            r#"<converse name="converse"><a name="input" type="String" value="{}"/></converse>"#,
            value
        );
        assert_eq!(decode(&text), Err(ToolCallError::Malformed), "{}", value);
    }
}

#[test]
fn decode_is_deterministic() {
    let good = r#"<converse name="converse"><a name="input" type="String" value="x"/></converse>"#;
    assert_eq!(decode(good), decode(good));
    assert_eq!(decode("<broken"), decode("<broken"));
}

#[test]
fn scan_keeps_values_as_written_and_resolve_replaces_references() {
    let raw = scan(r#"<t name="a&amp;b"><c k='"q"'/></t>"#).unwrap();
    assert_eq!(raw.root.tag, "t");
    assert_eq!(raw.root.attributes[0].name, "name");
    assert_eq!(raw.root.attributes[0].value, "a&amp;b");
    assert_eq!(raw.children.len(), 1);
    assert_eq!(raw.children[0].tag, "c");
    assert_eq!(raw.children[0].attributes[0].value, "\"q\"");
    let resolved = resolve(&raw).unwrap();
    assert_eq!(resolved.root.attributes[0].value, "a&b");
    assert_eq!(resolve(&scan(r#"<t name="&what;"/>"#).unwrap()), None);
}

#[test]
fn from_document_takes_resolved_values() {
    let document = resolve(&scan(XML).unwrap()).unwrap();
    assert_eq!(ToolCall::from_document(&document), None);
    let call = ToolCall::from_envelope(&document).unwrap();
    assert_eq!(call.name(), "image");
    assert_eq!(
        Argument::from_element(&document.children[0]),
        Some(argument("path", "PathBuf", "images/1.jpg"))
    );
    assert_eq!(Argument::from_element(&document.root), None);
}
