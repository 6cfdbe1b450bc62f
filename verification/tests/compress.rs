//! The compression tool.
use codelink::compress::{
    validate_args, CompressArgs, CompressHandler, CompressRange, FunctionCallError, ToolKind,
    ToolPayload,
};
use codelink::tool::{create_compress_tool, JsonSchema, ToolSpec, COMPRESS_TOOL_NAME};

fn range(start_id: &str, end_id: &str, summary: &str) -> CompressRange {
    CompressRange {
        start_id: start_id.to_string(),
        end_id: end_id.to_string(),
        summary: summary.to_string(),
    }
}

fn request(topic: Option<&str>, content: Vec<CompressRange>) -> CompressArgs {
    CompressArgs {
        topic: topic.map(|topic| topic.to_string()),
        content,
    }
}

fn refusal(message: &str) -> FunctionCallError {
    FunctionCallError::RespondToModel(message.to_string())
}

#[test]
fn complete_request_is_recorded() {
    let args = request(
        Some("  parser work "),
        vec![range("m0004", "m0011", "done"), range("m1", "m2", "also")],
    );
    let output = CompressHandler.handle(&args).unwrap();
    assert_eq!(output.success, Some(true));
    assert_eq!(
        output.text,
        "Compression request recorded for topic `parser work` with 2 range(s). CodeLink will apply \
         it before the next model prompt if the message ids still match and are outside the \
         recent-turn guard."
    );
}

#[test]
fn missing_or_blank_topic_gets_a_default() {
    for topic in [None, Some(""), Some(" \t\n")] {
        let output = CompressHandler
            .handle(&request(topic, vec![range("a", "b", "c")]))
            .unwrap();
        assert!(output.text.contains("topic `closed context` with 1 range(s)"));
    }
}

#[test]
fn request_without_ranges_is_refused() {
    assert_eq!(
        CompressHandler.handle(&request(None, vec![])),
        Err(refusal("compress requires at least one content range"))
    );
}

#[test]
fn range_without_ends_is_refused() {
    let expected = Err(refusal(
        "compress range start_id and end_id must be non-empty",
    ));
    assert_eq!(
        validate_args(&request(None, vec![range(" ", "b", "c")])),
        expected
    );
    assert_eq!(
        validate_args(&request(None, vec![range("a", "\u{2003}", "")])),
        expected
    );
}

#[test]
fn range_without_summary_is_refused() {
    assert_eq!(
        validate_args(&request(
            None,
            vec![range("a", "b", "c"), range("a", "b", "\n"), range("", "", "")]
        )),
        Err(refusal("compress range summary must be non-empty"))
    );
}

#[test]
fn complete_ranges_pass_validation() {
    assert_eq!(
        validate_args(&request(None, vec![range("a", "b", "c")])),
        Ok(())
    );
}

#[test]
fn only_function_payloads_are_taken() {
    assert_eq!(CompressHandler.kind(), ToolKind::Function);
    assert_eq!(
        CompressHandler.arguments(ToolPayload::Function {
            arguments: "{}".to_string()
        }),
        Ok("{}".to_string())
    );
    assert_eq!(
        CompressHandler.arguments(ToolPayload::Other),
        Err(refusal("compress handler received unsupported payload"))
    );
}

fn text(about: &str) -> JsonSchema {
    JsonSchema::String {
        description: Some(about.to_string()),
    }
}

#[test]
fn compress_tool_describes_its_arguments() {
    let ToolSpec::Function(tool) = create_compress_tool();
    assert_eq!(tool.name, COMPRESS_TOOL_NAME);
    assert_eq!(tool.name, "compress");
    assert_eq!(
        tool.description,
        "Compresses closed, stale conversation ranges into durable technical summaries before \
         future prompts are sent."
    );
    assert!(!tool.strict);
    assert_eq!(tool.defer_loading, None);
    assert_eq!(tool.output_schema, None);
    let ranges = JsonSchema::Object {
        properties: vec![
            (
                "end_id".to_string(),
                text("Last visible CodeLink message id in the stale contiguous range, for example m0011."),
            ),
            (
                "start_id".to_string(),
                text("First visible CodeLink message id in the stale contiguous range, for example m0004."),
            ),
            (
                "summary".to_string(),
                text("High-fidelity technical summary preserving decisions, file paths, commands, failures, and current state."),
            ),
        ],
        required: Some(vec![
            "start_id".to_string(),
            "end_id".to_string(),
            "summary".to_string(),
        ]),
        additional_properties: Some(false),
    };
    assert_eq!(
        tool.parameters,
        JsonSchema::Object {
            properties: vec![
                (
                    "content".to_string(),
                    JsonSchema::Array {
                        items: Box::new(ranges),
                        description: Some(
                            "One or more stale contiguous message ranges to compress.".to_string()
                        ),
                    },
                ),
                (
                    "topic".to_string(),
                    text("Short label for the closed work being compressed."),
                ),
            ],
            required: Some(vec!["content".to_string()]),
            additional_properties: Some(false),
        }
    );
}
