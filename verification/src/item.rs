//! The items of a conversation, as they are sent to the model.
//!
//! Each type has a view in which strings are sequences of characters and vectors are sequences;
//! the contracts of the pruner speak of those views.
use crate::text;
use vstd::prelude::*;

verus! {

/// A part of a message.
#[derive(Debug, Clone, PartialEq, Eq)]
pub enum ContentItem {
    /// Text that was given to the model.
    InputText { text: String },
    /// An image that was given to the model.
    InputImage { image_url: String, detail: Option<String> },
    /// Text that the model wrote.
    OutputText { text: String },
}

/// The view of a part of a message.
#[verifier::ext_equal]
pub enum ContentView {
    InputText { text: Seq<char> },
    InputImage { image_url: Seq<char>, detail: Option<Seq<char>> },
    OutputText { text: Seq<char> },
}

impl View for ContentItem {
    type V = ContentView;

    open spec fn view(&self) -> ContentView {
        match self {
            ContentItem::InputText { text } => ContentView::InputText { text: text@ },
            ContentItem::InputImage { image_url, detail } => ContentView::InputImage {
                image_url: image_url@,
                detail: text::view_option(*detail),
            },
            ContentItem::OutputText { text } => ContentView::OutputText { text: text@ },
        }
    }
}

/// The views of the parts of a message.
pub open spec fn content_views(content: Seq<ContentItem>) -> Seq<ContentView> {
    content.map_values(|part: ContentItem| part@)
}

/// A part of what a tool returned.
#[derive(Debug, Clone, PartialEq, Eq)]
pub enum FunctionCallOutputContentItem {
    InputText { text: String },
    InputImage { image_url: String, detail: Option<String> },
}

/// The view of a part of what a tool returned.
#[verifier::ext_equal]
pub enum OutputPartView {
    InputText { text: Seq<char> },
    InputImage { image_url: Seq<char>, detail: Option<Seq<char>> },
}

impl View for FunctionCallOutputContentItem {
    type V = OutputPartView;

    open spec fn view(&self) -> OutputPartView {
        match self {
            FunctionCallOutputContentItem::InputText { text } => OutputPartView::InputText {
                text: text@,
            },
            FunctionCallOutputContentItem::InputImage { image_url, detail } => {
                OutputPartView::InputImage { image_url: image_url@, detail: text::view_option(*detail) }
            },
        }
    }
}

/// The views of the parts of what a tool returned.
pub open spec fn output_part_views(parts: Seq<FunctionCallOutputContentItem>) -> Seq<
    OutputPartView,
> {
    parts.map_values(|part: FunctionCallOutputContentItem| part@)
}

/// What a tool returned: plain text, or a list of texts and images.
#[derive(Debug, Clone, PartialEq, Eq)]
pub enum FunctionCallOutputBody {
    Text(String),
    ContentItems(Vec<FunctionCallOutputContentItem>),
}

/// The view of what a tool returned.
#[verifier::ext_equal]
pub enum BodyView {
    Text(Seq<char>),
    ContentItems(Seq<OutputPartView>),
}

impl View for FunctionCallOutputBody {
    type V = BodyView;

    open spec fn view(&self) -> BodyView {
        match self {
            FunctionCallOutputBody::Text(text) => BodyView::Text(text@),
            FunctionCallOutputBody::ContentItems(parts) => BodyView::ContentItems(
                output_part_views(parts@),
            ),
        }
    }
}

/// The texts among the parts that hold more than white space, in order.
pub open spec fn text_segments(parts: Seq<OutputPartView>) -> Seq<Seq<char>>
    decreases parts.len(),
{
    if parts.len() == 0 {
        Seq::empty()
    } else {
        let before = text_segments(parts.drop_last());
        match parts.last() {
            OutputPartView::InputText { text } => if text::trim_of(text).len() > 0 {
                before.push(text)
            } else {
                before
            },
            OutputPartView::InputImage { .. } => before,
        }
    }
}

impl BodyView {
    /// What a tool returned, as text: plain text as it is, and of a list the texts that hold more
    /// than white space, one to a line. A list without such a text has none.
    pub open spec fn to_text(self) -> Option<Seq<char>> {
        match self {
            BodyView::Text(text) => Some(text),
            BodyView::ContentItems(parts) => if text_segments(parts).len() == 0 {
                None
            } else {
                Some(text::join_of(text_segments(parts), "\n"@))
            },
        }
    }
}

impl FunctionCallOutputBody {
    /// What a tool returned, as text.
    pub fn to_text(&self) -> (text: Option<String>)
        ensures
            text::view_option(text) == self@.to_text(),
    {
        match self {
            FunctionCallOutputBody::Text(text) => Some(text.clone()),
            FunctionCallOutputBody::ContentItems(parts) => {
                let mut segments: Vec<String> = Vec::new();
                let mut i: usize = 0;
                let ghost all = output_part_views(parts@);
                while i < parts.len()
                    invariant
                        i <= parts@.len(),
                        all == output_part_views(parts@),
                        text::views(segments@) == text_segments(all.take(i as int)),
                    decreases parts@.len() - i,
                {
                    assert(all.take(i + 1).drop_last() =~= all.take(i as int));
                    let ghost before = text::views(segments@);
                    if let FunctionCallOutputContentItem::InputText { text } = &parts[i] {
                        if !text::is_blank(text.as_str()) {
                            segments.push(text.clone());
                            assert(text::views(segments@) =~= before.push(text@));
                        }
                    }
                    i += 1;
                }
                assert(all.take(i as int) =~= all);
                if segments.len() == 0 {
                    None
                } else {
                    Some(text::join(&segments, "\n"))
                }
            },
        }
    }
}

/// The output of a tool call, and whether the call is known to have succeeded or failed.
#[derive(Debug, Clone, PartialEq, Eq)]
pub struct FunctionCallOutputPayload {
    pub body: FunctionCallOutputBody,
    pub success: Option<bool>,
}

/// The view of the output of a tool call.
#[verifier::ext_equal]
pub struct OutputView {
    pub body: BodyView,
    pub success: Option<bool>,
}

impl View for FunctionCallOutputPayload {
    type V = OutputView;

    open spec fn view(&self) -> OutputView {
        OutputView { body: self.body@, success: self.success }
    }
}

/// An output that is plain text, of a call of which it is not known whether it succeeded.
pub open spec fn text_output(text: Seq<char>) -> OutputView {
    OutputView { body: BodyView::Text(text), success: None }
}

impl FunctionCallOutputPayload {
    /// An output that is plain text.
    pub fn from_text(text: String) -> (output: FunctionCallOutputPayload)
        ensures
            output@ == text_output(text@),
            output.body == FunctionCallOutputBody::Text(text),
    {
        FunctionCallOutputPayload { body: FunctionCallOutputBody::Text(text), success: None }
    }

    /// An output that is a list of texts and images.
    pub fn from_content_items(parts: Vec<FunctionCallOutputContentItem>) -> (output:
        FunctionCallOutputPayload)
        ensures
            output.body == FunctionCallOutputBody::ContentItems(parts),
            output.success is None,
    {
        FunctionCallOutputPayload {
            body: FunctionCallOutputBody::ContentItems(parts),
            success: None,
        }
    }

    /// The parts of an output that is a list.
    pub fn content_items(&self) -> (parts: Option<&Vec<FunctionCallOutputContentItem>>)
        ensures
            match self.body {
                FunctionCallOutputBody::Text(_) => parts is None,
                FunctionCallOutputBody::ContentItems(items) => parts == Some(&items),
            },
    {
        match &self.body {
            FunctionCallOutputBody::Text(_) => None,
            FunctionCallOutputBody::ContentItems(parts) => Some(parts),
        }
    }

    /// The text of an output that is plain text.
    pub fn text_content(&self) -> (text: Option<&str>)
        ensures
            match self@.body {
                BodyView::Text(content) => text matches Some(text) && text@ == content,
                BodyView::ContentItems(_) => text is None,
            },
    {
        match &self.body {
            FunctionCallOutputBody::Text(text) => Some(text.as_str()),
            FunctionCallOutputBody::ContentItems(_) => None,
        }
    }
}

/// An item of a conversation.
///
/// Items whose contents the pruner neither reads nor changes carry them in `payload`, in whatever
/// serialized form the owner of the conversation uses.
#[allow(inconsistent_fields)]
#[derive(Debug, Clone, PartialEq, Eq)]
pub enum ResponseItem {
    Message {
        id: Option<String>,
        role: String,
        content: Vec<ContentItem>,
        phase: Option<String>,
    },
    Reasoning { payload: String },
    LocalShellCall { payload: String },
    FunctionCall {
        id: Option<String>,
        name: String,
        namespace: Option<String>,
        arguments: String,
        call_id: String,
    },
    ToolSearchCall { payload: String },
    FunctionCallOutput { call_id: String, output: FunctionCallOutputPayload },
    CustomToolCall {
        id: Option<String>,
        status: Option<String>,
        call_id: String,
        name: String,
        input: String,
    },
    CustomToolCallOutput {
        call_id: String,
        name: Option<String>,
        output: FunctionCallOutputPayload,
    },
    ToolSearchOutput { payload: String },
    WebSearchCall { payload: String },
    ImageGenerationCall {
        id: String,
        status: String,
        revised_prompt: Option<String>,
        result: String,
    },
    Compaction { payload: String },
    Other,
}

/// The view of an item of a conversation.
#[allow(inconsistent_fields)]
#[verifier::ext_equal]
pub enum ItemView {
    Message {
        id: Option<Seq<char>>,
        role: Seq<char>,
        content: Seq<ContentView>,
        phase: Option<Seq<char>>,
    },
    Reasoning { payload: Seq<char> },
    LocalShellCall { payload: Seq<char> },
    FunctionCall {
        id: Option<Seq<char>>,
        name: Seq<char>,
        namespace: Option<Seq<char>>,
        arguments: Seq<char>,
        call_id: Seq<char>,
    },
    ToolSearchCall { payload: Seq<char> },
    FunctionCallOutput { call_id: Seq<char>, output: OutputView },
    CustomToolCall {
        id: Option<Seq<char>>,
        status: Option<Seq<char>>,
        call_id: Seq<char>,
        name: Seq<char>,
        input: Seq<char>,
    },
    CustomToolCallOutput { call_id: Seq<char>, name: Option<Seq<char>>, output: OutputView },
    ToolSearchOutput { payload: Seq<char> },
    WebSearchCall { payload: Seq<char> },
    ImageGenerationCall {
        id: Seq<char>,
        status: Seq<char>,
        revised_prompt: Option<Seq<char>>,
        result: Seq<char>,
    },
    Compaction { payload: Seq<char> },
    Other,
}

impl View for ResponseItem {
    type V = ItemView;

    open spec fn view(&self) -> ItemView {
        match self {
            ResponseItem::Message { id, role, content, phase } => ItemView::Message {
                id: text::view_option(*id),
                role: role@,
                content: content_views(content@),
                phase: text::view_option(*phase),
            },
            ResponseItem::Reasoning { payload } => ItemView::Reasoning { payload: payload@ },
            ResponseItem::LocalShellCall { payload } => ItemView::LocalShellCall {
                payload: payload@,
            },
            ResponseItem::FunctionCall { id, name, namespace, arguments, call_id } => {
                ItemView::FunctionCall {
                    id: text::view_option(*id),
                    name: name@,
                    namespace: text::view_option(*namespace),
                    arguments: arguments@,
                    call_id: call_id@,
                }
            },
            ResponseItem::ToolSearchCall { payload } => ItemView::ToolSearchCall {
                payload: payload@,
            },
            ResponseItem::FunctionCallOutput { call_id, output } => ItemView::FunctionCallOutput {
                call_id: call_id@,
                output: output@,
            },
            ResponseItem::CustomToolCall { id, status, call_id, name, input } => {
                ItemView::CustomToolCall {
                    id: text::view_option(*id),
                    status: text::view_option(*status),
                    call_id: call_id@,
                    name: name@,
                    input: input@,
                }
            },
            ResponseItem::CustomToolCallOutput { call_id, name, output } => {
                ItemView::CustomToolCallOutput {
                    call_id: call_id@,
                    name: text::view_option(*name),
                    output: output@,
                }
            },
            ResponseItem::ToolSearchOutput { payload } => ItemView::ToolSearchOutput {
                payload: payload@,
            },
            ResponseItem::WebSearchCall { payload } => ItemView::WebSearchCall {
                payload: payload@,
            },
            ResponseItem::ImageGenerationCall { id, status, revised_prompt, result } => {
                ItemView::ImageGenerationCall {
                    id: id@,
                    status: status@,
                    revised_prompt: text::view_option(*revised_prompt),
                    result: result@,
                }
            },
            ResponseItem::Compaction { payload } => ItemView::Compaction { payload: payload@ },
            ResponseItem::Other => ItemView::Other,
        }
    }
}

/// The views of the items of a conversation.
pub open spec fn item_views(items: Seq<ResponseItem>) -> Seq<ItemView> {
    items.map_values(|item: ResponseItem| item@)
}

impl ItemView {
    /// The id of the call that an item makes, where it is a call of a tool.
    pub open spec fn call_id(self) -> Option<Seq<char>> {
        match self {
            ItemView::FunctionCall { call_id, .. } => Some(call_id),
            ItemView::CustomToolCall { call_id, .. } => Some(call_id),
            _ => None,
        }
    }

    /// The id of the call that an item answers, where it is the output of a tool.
    pub open spec fn output_call_id(self) -> Option<Seq<char>> {
        match self {
            ItemView::FunctionCallOutput { call_id, .. } => Some(call_id),
            ItemView::CustomToolCallOutput { call_id, .. } => Some(call_id),
            _ => None,
        }
    }

    /// The output of a tool that an item holds.
    pub open spec fn output(self) -> Option<OutputView> {
        match self {
            ItemView::FunctionCallOutput { output, .. } => Some(output),
            ItemView::CustomToolCallOutput { output, .. } => Some(output),
            _ => None,
        }
    }

    /// A call of a tool with another input.
    pub open spec fn with_input(self, input: Seq<char>) -> ItemView {
        match self {
            ItemView::FunctionCall { id, name, namespace, arguments: _, call_id } => {
                ItemView::FunctionCall { id, name, namespace, arguments: input, call_id }
            },
            ItemView::CustomToolCall { id, status, call_id, name, input: _ } => {
                ItemView::CustomToolCall { id, status, call_id, name, input }
            },
            _ => self,
        }
    }

    /// An answer of a tool with another output.
    pub open spec fn with_output(self, output: OutputView) -> ItemView {
        match self {
            ItemView::FunctionCallOutput { call_id, output: _ } => ItemView::FunctionCallOutput {
                call_id,
                output,
            },
            ItemView::CustomToolCallOutput { call_id, name, output: _ } => {
                ItemView::CustomToolCallOutput { call_id, name, output }
            },
            _ => self,
        }
    }

    /// A message of the user opens a turn.
    pub open spec fn is_user_turn_boundary(self) -> bool {
        self matches ItemView::Message { role, .. } && role == "user"@
    }
}

/// For each item, whether it opens a turn.
pub open spec fn turn_boundaries_of(items: Seq<ItemView>) -> Seq<bool> {
    items.map_values(|item: ItemView| item.is_user_turn_boundary())
}

/// Whether an item opens a turn.
pub fn is_user_turn_boundary(item: &ResponseItem) -> (boundary: bool)
    ensures
        boundary == item@.is_user_turn_boundary(),
{
    match item {
        ResponseItem::Message { role, .. } => text::text_eq(role.as_str(), "user"),
        _ => false,
    }
}

/// For each item, whether it opens a turn.
pub fn turn_boundaries(items: &[ResponseItem]) -> (boundaries: Vec<bool>)
    ensures
        boundaries@ == turn_boundaries_of(item_views(items@)),
{
    let mut boundaries: Vec<bool> = Vec::new();
    let mut i: usize = 0;
    while i < items.len()
        invariant
            i <= items@.len(),
            boundaries@ == turn_boundaries_of(item_views(items@)).take(i as int),
        decreases items@.len() - i,
    {
        boundaries.push(is_user_turn_boundary(&items[i]));
        assert(boundaries@ =~= turn_boundaries_of(item_views(items@)).take(i + 1));
        i += 1;
    }
    assert(boundaries@ =~= turn_boundaries_of(item_views(items@)));
    boundaries
}

/// A turn opens with each message of the user, and with nothing else.
pub proof fn law_turns_open_with_messages_of_the_user(items: Seq<ItemView>, i: int)
    requires
        0 <= i < items.len(),
    ensures
        turn_boundaries_of(items).len() == items.len(),
        match items[i] {
            ItemView::Message { role, .. } => turn_boundaries_of(items)[i] == (role == "user"@),
            _ => !turn_boundaries_of(items)[i],
        },
{
}

/// What a tool returned is read as text part by part: plain text as it is, and of a list each text
/// that holds more than white space, on a line of its own. Images and blank texts add nothing.
pub proof fn law_output_is_read_part_by_part(parts: Seq<OutputPartView>, part: OutputPartView)
    ensures
        forall|text: Seq<char>| #[trigger] BodyView::Text(text).to_text() == Some(text),
        BodyView::ContentItems(Seq::empty()).to_text() is None,
        ({
            let before = BodyView::ContentItems(parts).to_text();
            let after = BodyView::ContentItems(parts.push(part)).to_text();
            match part {
                OutputPartView::InputImage { .. } => after == before,
                OutputPartView::InputText { text } => if text::all_white(text) {
                    after == before
                } else {
                    after == match before {
                        Some(before) => Some(before + seq!['\n'] + text),
                        None => Some(text),
                    }
                },
            }
        }),
{
    reveal_strlit("\n");
    assert("\n"@ =~= seq!['\n']);
    assert(parts.push(part).drop_last() =~= parts);
    if let OutputPartView::InputText { text } = part {
        text::lemma_blank_is_white(text);
        let segments = text_segments(parts);
        assert(segments.push(text).drop_last() =~= segments);
    }
}

/// Items whose views are equal are of one kind and have equal texts in every field.
pub proof fn law_views_tell_items_apart(a: ResponseItem, b: ResponseItem)
    requires
        a@ == b@,
    ensures
        match (a, b) {
            (
                ResponseItem::Message { id, role, content, phase },
                ResponseItem::Message { id: id2, role: role2, content: content2, phase: phase2 },
            ) => {
                &&& text::view_option(id) == text::view_option(id2)
                &&& role@ == role2@
                &&& content@.len() == content2@.len()
                &&& forall|k: int|
                    0 <= k < content@.len() ==> match (#[trigger] content@[k], content2@[k]) {
                        (
                            ContentItem::InputText { text },
                            ContentItem::InputText { text: text2 },
                        ) => text@ == text2@,
                        (
                            ContentItem::OutputText { text },
                            ContentItem::OutputText { text: text2 },
                        ) => text@ == text2@,
                        (
                            ContentItem::InputImage { image_url, detail },
                            ContentItem::InputImage { image_url: image_url2, detail: detail2 },
                        ) => image_url@ == image_url2@ && text::view_option(detail)
                            == text::view_option(detail2),
                        _ => false,
                    }
                &&& text::view_option(phase) == text::view_option(phase2)
            },
            (
                ResponseItem::FunctionCall { id, name, namespace, arguments, call_id },
                ResponseItem::FunctionCall {
                    id: id2,
                    name: name2,
                    namespace: namespace2,
                    arguments: arguments2,
                    call_id: call_id2,
                },
            ) => {
                &&& text::view_option(id) == text::view_option(id2)
                &&& name@ == name2@
                &&& text::view_option(namespace) == text::view_option(namespace2)
                &&& arguments@ == arguments2@
                &&& call_id@ == call_id2@
            },
            (
                ResponseItem::CustomToolCall { id, status, call_id, name, input },
                ResponseItem::CustomToolCall {
                    id: id2,
                    status: status2,
                    call_id: call_id2,
                    name: name2,
                    input: input2,
                },
            ) => {
                &&& text::view_option(id) == text::view_option(id2)
                &&& text::view_option(status) == text::view_option(status2)
                &&& call_id@ == call_id2@
                &&& name@ == name2@
                &&& input@ == input2@
            },
            (
                ResponseItem::FunctionCallOutput { call_id, output },
                ResponseItem::FunctionCallOutput { call_id: call_id2, output: output2 },
            ) => call_id@ == call_id2@ && same_output(output, output2),
            (
                ResponseItem::CustomToolCallOutput { call_id, name, output },
                ResponseItem::CustomToolCallOutput {
                    call_id: call_id2,
                    name: name2,
                    output: output2,
                },
            ) => {
                &&& call_id@ == call_id2@
                &&& text::view_option(name) == text::view_option(name2)
                &&& same_output(output, output2)
            },
            (
                ResponseItem::ImageGenerationCall { id, status, revised_prompt, result },
                ResponseItem::ImageGenerationCall {
                    id: id2,
                    status: status2,
                    revised_prompt: revised_prompt2,
                    result: result2,
                },
            ) => {
                &&& id@ == id2@
                &&& status@ == status2@
                &&& text::view_option(revised_prompt) == text::view_option(revised_prompt2)
                &&& result@ == result2@
            },
            (
                ResponseItem::Reasoning { payload },
                ResponseItem::Reasoning { payload: payload2 },
            ) => payload@ == payload2@,
            (
                ResponseItem::LocalShellCall { payload },
                ResponseItem::LocalShellCall { payload: payload2 },
            ) => payload@ == payload2@,
            (
                ResponseItem::ToolSearchCall { payload },
                ResponseItem::ToolSearchCall { payload: payload2 },
            ) => payload@ == payload2@,
            (
                ResponseItem::ToolSearchOutput { payload },
                ResponseItem::ToolSearchOutput { payload: payload2 },
            ) => payload@ == payload2@,
            (
                ResponseItem::WebSearchCall { payload },
                ResponseItem::WebSearchCall { payload: payload2 },
            ) => payload@ == payload2@,
            (
                ResponseItem::Compaction { payload },
                ResponseItem::Compaction { payload: payload2 },
            ) => payload@ == payload2@,
            (ResponseItem::Other, ResponseItem::Other) => true,
            _ => false,
        },
{
    match (a, b) {
        (
            ResponseItem::Message { content, .. },
            ResponseItem::Message { content: content2, .. },
        ) => {
            assert(content_views(content@).len() == content@.len());
            assert(content_views(content2@).len() == content2@.len());
            assert forall|k: int| 0 <= k < content@.len() implies (#[trigger] content@[k])@
                == content2@[k]@ by {
                assert(content_views(content@)[k] == content@[k]@);
                assert(content_views(content2@)[k] == content2@[k]@);
            }
        },
        (
            ResponseItem::FunctionCallOutput { output, .. },
            ResponseItem::FunctionCallOutput { output: output2, .. },
        ) => {
            lemma_equal_outputs(output, output2);
        },
        (
            ResponseItem::CustomToolCallOutput { output, .. },
            ResponseItem::CustomToolCallOutput { output: output2, .. },
        ) => {
            lemma_equal_outputs(output, output2);
        },
        _ => {},
    }
}

/// Two outputs with the same success and the same texts and images.
pub open spec fn same_output(a: FunctionCallOutputPayload, b: FunctionCallOutputPayload) -> bool {
    &&& a.success == b.success
    &&& match (a.body, b.body) {
        (FunctionCallOutputBody::Text(text), FunctionCallOutputBody::Text(text2)) => text@
            == text2@,
        (
            FunctionCallOutputBody::ContentItems(parts),
            FunctionCallOutputBody::ContentItems(parts2),
        ) => {
            &&& parts@.len() == parts2@.len()
            &&& forall|k: int|
                0 <= k < parts@.len() ==> match (#[trigger] parts@[k], parts2@[k]) {
                    (
                        FunctionCallOutputContentItem::InputText { text },
                        FunctionCallOutputContentItem::InputText { text: text2 },
                    ) => text@ == text2@,
                    (
                        FunctionCallOutputContentItem::InputImage { image_url, detail },
                        FunctionCallOutputContentItem::InputImage {
                            image_url: image_url2,
                            detail: detail2,
                        },
                    ) => image_url@ == image_url2@ && text::view_option(detail)
                        == text::view_option(detail2),
                    _ => false,
                }
        },
        _ => false,
    }
}

/// Outputs whose views are equal are the same.
proof fn lemma_equal_outputs(a: FunctionCallOutputPayload, b: FunctionCallOutputPayload)
    requires
        a@ == b@,
    ensures
        same_output(a, b),
{
    match (a.body, b.body) {
        (
            FunctionCallOutputBody::ContentItems(parts),
            FunctionCallOutputBody::ContentItems(parts2),
        ) => {
            assert(output_part_views(parts@).len() == parts@.len());
            assert(output_part_views(parts2@).len() == parts2@.len());
            assert forall|k: int| 0 <= k < parts@.len() implies (#[trigger] parts@[k])@
                == parts2@[k]@ by {
                assert(output_part_views(parts@)[k] == parts@[k]@);
                assert(output_part_views(parts2@)[k] == parts2@[k]@);
            }
        },
        _ => {},
    }
}

} // verus!
