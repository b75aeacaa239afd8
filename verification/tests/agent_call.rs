use blossom::agent_call::{AgentCall, Arg};
use blossom::tool_call::ToolCallError;

const XML: &str = r#"
<?xml version="1.0" encoding="utf-8"?>
<agent-call name="image">
    <arg name="path" value="images/1.jpg"/>
</agent-call>
"#;

#[test]
fn xml_test_deserialize() {
    let agent_call: AgentCall = AgentCall::try_from(XML).unwrap();
    assert_eq!(
        agent_call,
        AgentCall::new(
            "image".to_string(),
            Arg::new("path".to_string(), "images/1.jpg".to_string()),
        )
    );
}

#[test]
fn agent_call_needs_exactly_one_argument() {
    assert_eq!(
        AgentCall::try_from(r#"<agent-call name="image"/>"#),
        Err(ToolCallError::Malformed)
    );
    assert_eq!(
        AgentCall::try_from(
            r#"<agent-call name="image"><arg name="a" value="1"/><arg name="b" value="2"/></agent-call>"#
        ),
        Err(ToolCallError::Malformed)
    );
    assert_eq!(
        AgentCall::try_from(r#"<agent-call name="image"><arg name="a" type="T" value="1"/></agent-call>"#),
        Err(ToolCallError::Malformed)
    );
}

#[test]
fn agent_call_accessors() {
    let call = AgentCall::try_from(r#"<c name="n"><arg value="v &amp; w" name="k"/></c>"#).unwrap();
    assert_eq!(call.name(), "n");
    assert_eq!(call.arg().name(), "k");
    assert_eq!(call.arg().value(), "v & w");
}
