//! How tools are described to a model.
use crate::text;
use vstd::prelude::*;
use vstd::string::*;

verus! {

/// The name of the tool with which a model asks for compression.
pub const COMPRESS_TOOL_NAME: &'static str = "compress";

/// The shape of a JSON value.
#[derive(Debug, PartialEq, Eq)]
pub enum JsonSchema {
    String { description: Option<String> },
    Array { items: Box<JsonSchema>, description: Option<String> },
    /// The properties stand in the order of their names.
    Object {
        properties: Vec<(String, JsonSchema)>,
        required: Option<Vec<String>>,
        additional_properties: Option<bool>,
    },
}

/// A function that a model can call.
#[derive(Debug, PartialEq, Eq)]
pub struct ResponsesApiTool {
    pub name: String,
    pub description: String,
    pub strict: bool,
    pub defer_loading: Option<bool>,
    pub parameters: JsonSchema,
    pub output_schema: Option<JsonSchema>,
}

/// A tool of a model.
#[derive(Debug, PartialEq, Eq)]
pub enum ToolSpec {
    Function(ResponsesApiTool),
}

/// Whether a property is a string with the given name and description.
pub open spec fn is_string_property(
    property: (String, JsonSchema),
    name: Seq<char>,
    about: Seq<char>,
) -> bool {
    &&& property.0@ == name
    &&& property.1 matches JsonSchema::String { description }
    &&& text::view_option(description) == Some(about)
}

/// Whether a schema is that of a part of a conversation that is to be compressed.
pub open spec fn is_range_schema(schema: JsonSchema) -> bool {
    &&& schema matches JsonSchema::Object { properties, required, additional_properties }
    &&& properties@.len() == 3
    &&& is_string_property(
        properties@[0],
        "end_id"@,
        "Last visible CodeLink message id in the stale contiguous range, for example m0011."@,
    )
    &&& is_string_property(
        properties@[1],
        "start_id"@,
        "First visible CodeLink message id in the stale contiguous range, for example m0004."@,
    )
    &&& is_string_property(
        properties@[2],
        "summary"@,
        "High-fidelity technical summary preserving decisions, file paths, commands, failures, and current state."@,
    )
    &&& required is Some
    &&& text::views(required->0@) == seq!["start_id"@, "end_id"@, "summary"@]
    &&& additional_properties == Some(false)
}

/// Whether a schema is that of a request to compress parts of a conversation.
pub open spec fn is_request_schema(schema: JsonSchema) -> bool {
    &&& schema matches JsonSchema::Object { properties, required, additional_properties }
    &&& properties@.len() == 2
    &&& properties@[0].0@ == "content"@
    &&& properties@[0].1 matches JsonSchema::Array { items, description }
    &&& is_range_schema(*items)
    &&& text::view_option(description) == Some(
        "One or more stale contiguous message ranges to compress."@,
    )
    &&& is_string_property(
        properties@[1],
        "topic"@,
        "Short label for the closed work being compressed."@,
    )
    &&& required is Some
    &&& text::views(required->0@) == seq!["content"@]
    &&& additional_properties == Some(false)
}

/// A property that is a string.
fn string_property(name: &str, about: &str) -> (property: (String, JsonSchema))
    ensures
        is_string_property(property, name@, about@),
{
    (name.to_owned(), JsonSchema::String { description: Some(about.to_owned()) })
}

/// The schema of a part of a conversation that is to be compressed.
fn range_schema() -> (schema: JsonSchema)
    ensures
        is_range_schema(schema),
{
    let mut properties: Vec<(String, JsonSchema)> = Vec::new();
    properties.push(
        string_property(
            "end_id",
            "Last visible CodeLink message id in the stale contiguous range, for example m0011.",
        ),
    );
    properties.push(
        string_property(
            "start_id",
            "First visible CodeLink message id in the stale contiguous range, for example m0004.",
        ),
    );
    properties.push(
        string_property(
            "summary",
            "High-fidelity technical summary preserving decisions, file paths, commands, failures, and current state.",
        ),
    );
    let mut required: Vec<String> = Vec::new();
    required.push("start_id".to_owned());
    required.push("end_id".to_owned());
    required.push("summary".to_owned());
    assert(text::views(required@) =~= seq!["start_id"@, "end_id"@, "summary"@]);
    JsonSchema::Object { properties, required: Some(required), additional_properties: Some(false) }
}

/// Describes the tool with which a model asks for compression.
pub fn create_compress_tool() -> (tool: ToolSpec)
    ensures
        match tool {
            ToolSpec::Function(tool) => {
                &&& tool.name@ == COMPRESS_TOOL_NAME@
                &&& tool.description@
                    == "Compresses closed, stale conversation ranges into durable technical summaries before future prompts are sent."@
                &&& !tool.strict
                &&& tool.defer_loading is None
                &&& is_request_schema(tool.parameters)
                &&& tool.output_schema is None
            },
        },
{
    let mut properties: Vec<(String, JsonSchema)> = Vec::new();
    properties.push(
        (
            "content".to_owned(),
            JsonSchema::Array {
                items: Box::new(range_schema()),
                description: Some(
                    "One or more stale contiguous message ranges to compress.".to_owned(),
                ),
            },
        ),
    );
    properties.push(
        string_property("topic", "Short label for the closed work being compressed."),
    );
    let mut required: Vec<String> = Vec::new();
    required.push("content".to_owned());
    assert(text::views(required@) =~= seq!["content"@]);
    ToolSpec::Function(
        ResponsesApiTool {
            name: COMPRESS_TOOL_NAME.to_owned(),
            description:
                "Compresses closed, stale conversation ranges into durable technical summaries before future prompts are sent.".to_owned(),
            strict: false,
            defer_loading: None,
            parameters: JsonSchema::Object {
                properties,
                required: Some(required),
                additional_properties: Some(false),
            },
            output_schema: None,
        },
    )
}

} // verus!
