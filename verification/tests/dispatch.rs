use blossom::dispatch::{dispatch, validate, DispatchError, HandlerCall, Parameter, Tool};
use blossom::tool_call::{Argument, ToolCall};

fn argument(name: &str, type_tag: &str, value: &str) -> Argument {
    Argument::new(name.to_string(), type_tag.to_string(), value.to_string())
}

fn call(name: &str, arguments: Vec<Argument>) -> ToolCall {
    ToolCall::new(name.to_string(), arguments)
}

#[test]
fn dispatch_routes_converse() {
    let routed = dispatch(&call("converse", vec![argument("input", "String", "hello")]));
    assert_eq!(
        routed,
        Ok(HandlerCall::Converse {
            input: "hello".to_string()
        })
    );
}

#[test]
fn dispatch_routes_image_with_a_path() {
    let routed = dispatch(&call("image", vec![argument("path", "PathBuf", "images/1.jpg")]));
    assert_eq!(
        routed,
        Ok(HandlerCall::Image {
            path: "images/1.jpg".to_string()
        })
    );
}

#[test]
fn dispatch_fails_arity_mismatch_for_zero_or_two_arguments() {
    assert_eq!(
        dispatch(&call("converse", vec![])),
        Err(DispatchError::ArityMismatch)
    );
    assert_eq!(
        dispatch(&call(
            "converse",
            vec![
                argument("input", "String", "a"),
                argument("input", "String", "b")
            ]
        )),
        Err(DispatchError::ArityMismatch)
    );
}

#[test]
fn dispatch_fails_type_mismatch_for_wrong_declared_type() {
    assert_eq!(
        dispatch(&call("converse", vec![argument("input", "PathBuf", "a")])),
        Err(DispatchError::TypeMismatch {
            argument: "input".to_string(),
            expected: "String".to_string(),
            actual: "PathBuf".to_string(),
        })
    );
}

#[test]
fn dispatch_fails_type_mismatch_for_wrong_name() {
    assert_eq!(
        dispatch(&call("converse", vec![argument("text", "String", "a")])),
        Err(DispatchError::TypeMismatch {
            argument: "text".to_string(),
            expected: "String".to_string(),
            actual: "String".to_string(),
        })
    );
}

#[test]
fn dispatch_fails_unknown_tool() {
    assert_eq!(
        dispatch(&call("teleport", vec![argument("input", "String", "a")])),
        Err(DispatchError::UnknownTool)
    );
    assert_eq!(
        dispatch(&call("Converse", vec![argument("input", "String", "a")])),
        Err(DispatchError::UnknownTool)
    );
}

#[test]
fn validate_is_positional_and_reports_the_first_mismatch() {
    let schema = vec![
        Parameter {
            name: "from".to_string(),
            type_tag: "PathBuf".to_string(),
        },
        Parameter {
            name: "to".to_string(),
            type_tag: "PathBuf".to_string(),
        },
    ];
    let in_order = [
        argument("from", "PathBuf", "a"),
        argument("to", "PathBuf", "b"),
    ];
    assert_eq!(validate(&in_order, &schema), Ok(()));
    let swapped = [
        argument("to", "PathBuf", "b"),
        argument("from", "PathBuf", "a"),
    ];
    assert_eq!(
        validate(&swapped, &schema),
        Err(DispatchError::TypeMismatch {
            argument: "to".to_string(),
            expected: "PathBuf".to_string(),
            actual: "PathBuf".to_string(),
        })
    );
    let second_wrong = [
        argument("from", "PathBuf", "a"),
        argument("to", "String", "b"),
    ];
    assert_eq!(
        validate(&second_wrong, &schema),
        Err(DispatchError::TypeMismatch {
            argument: "to".to_string(),
            expected: "PathBuf".to_string(),
            actual: "String".to_string(),
        })
    );
    assert_eq!(validate(&[], &schema), Err(DispatchError::ArityMismatch));
    assert_eq!(validate(&[], &[]), Ok(()));
}

#[test]
fn tools_declare_name_and_schema() {
    assert_eq!(Tool::Converse.name(), "converse");
    assert_eq!(Tool::Image.name(), "image");
    assert_eq!(Tool::named("converse"), Some(Tool::Converse));
    assert_eq!(Tool::named("image"), Some(Tool::Image));
    assert_eq!(Tool::named("tool-call"), None);
    assert_eq!(
        Tool::Converse.schema(),
        vec![Parameter {
            name: "input".to_string(),
            type_tag: "String".to_string()
        }]
    );
    assert_eq!(
        Tool::Image.schema(),
        vec![Parameter {
            name: "path".to_string(),
            type_tag: "PathBuf".to_string()
        }]
    );
}
