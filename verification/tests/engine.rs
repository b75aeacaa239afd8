use blossom::engine::{
    collect_reply, conversation_input, endpoint, interpret_reply, Endpoint, ImageRequest,
    ReplyError, DEFAULT_PORT,
};
use blossom::tool_call::ToolCallError;

#[test]
fn endpoint_joins_scheme_and_host() {
    assert_eq!(
        endpoint("https", Some("models.example"), Some(8080)),
        Endpoint {
            host: "https://models.example".to_string(),
            port: 8080
        }
    );
}

#[test]
fn endpoint_defaults_host_and_port() {
    assert_eq!(DEFAULT_PORT, 11434);
    assert_eq!(
        endpoint("http", None, None),
        Endpoint {
            host: "http://localhost".to_string(),
            port: 11434
        }
    );
}

#[test]
fn interpret_reply_decodes_the_message() {
    let call = interpret_reply(Some(
        r#"<converse name="converse"><a name="input" type="String" value="x"/></converse>"#,
    ))
    .unwrap();
    assert_eq!(call.name(), "converse");
    assert_eq!(interpret_reply(None), Err(ReplyError::NoMessage));
    assert_eq!(
        interpret_reply(Some("no tags here")),
        Err(ReplyError::ToolCall(ToolCallError::Malformed))
    );
}

#[test]
fn conversation_input_is_trimmed() {
    assert_eq!(conversation_input("  tell me more \n"), "tell me more");
}

#[test]
fn image_request_carries_the_base64_of_the_bytes() {
    let request = ImageRequest::encode("blossom-image", b"hello world~").unwrap();
    assert_eq!(request.model, "blossom-image");
    assert_eq!(request.prompt, "Please analyze this image");
    assert_eq!(request.image, "aGVsbG8gd29ybGR+");
    assert_eq!(ImageRequest::encode("m", b"a").unwrap().image, "YQ==");
    assert_eq!(ImageRequest::encode("m", b"").unwrap().image, "");
    assert_eq!(
        ImageRequest::new("m", "YQ==".to_string()),
        ImageRequest::encode("m", b"a").unwrap()
    );
}

#[test]
fn collect_reply_concatenates_fragments() {
    assert_eq!(
        collect_reply(&vec!["Hel".to_string(), "".to_string(), "lo".to_string()]),
        "Hello"
    );
    assert_eq!(collect_reply(&vec![]), "");
}
