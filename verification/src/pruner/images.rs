//! Removal of images.
use crate::item;
use crate::item::{
    ContentItem, ContentView, FunctionCallOutputBody, FunctionCallOutputContentItem,
    FunctionCallOutputPayload, ItemView, OutputPartView, OutputView, ResponseItem,
};
use crate::pruner::cutoff;
use vstd::prelude::*;

verus! {

/// A part of a message, with a placeholder where it is an image.
pub open spec fn part_without_image(part: ContentView, placeholder: Seq<char>) -> ContentView {
    match part {
        ContentView::InputImage { .. } => ContentView::InputText { text: placeholder },
        _ => part,
    }
}

/// The parts of a message, with placeholders for images.
pub open spec fn content_without_images(
    content: Seq<ContentView>,
    placeholder: Seq<char>,
) -> Seq<ContentView> {
    content.map_values(|part: ContentView| part_without_image(part, placeholder))
}

/// A part of a tool output, with a placeholder where it is an image.
pub open spec fn output_part_without_image(
    part: OutputPartView,
    placeholder: Seq<char>,
) -> OutputPartView {
    match part {
        OutputPartView::InputImage { .. } => OutputPartView::InputText { text: placeholder },
        _ => part,
    }
}

/// The parts of a tool output, with placeholders for images.
pub open spec fn output_parts_without_images(
    parts: Seq<OutputPartView>,
    placeholder: Seq<char>,
) -> Seq<OutputPartView> {
    parts.map_values(|part: OutputPartView| output_part_without_image(part, placeholder))
}

/// A tool output, with placeholders for images.
pub open spec fn output_without_images(output: OutputView, placeholder: Seq<char>) -> OutputView {
    match output.body {
        item::BodyView::Text(_) => output,
        item::BodyView::ContentItems(parts) => OutputView {
            body: item::BodyView::ContentItems(output_parts_without_images(parts, placeholder)),
            success: output.success,
        },
    }
}

/// An item, with placeholders for images.
pub open spec fn item_without_images(item: ItemView, placeholder: Seq<char>) -> ItemView {
    match item {
        ItemView::Message { id, role, content, phase } => ItemView::Message {
            id,
            role,
            content: content_without_images(content, placeholder),
            phase,
        },
        ItemView::FunctionCallOutput { output, .. } => item.with_output(
            output_without_images(output, placeholder),
        ),
        ItemView::CustomToolCallOutput { output, .. } => item.with_output(
            output_without_images(output, placeholder),
        ),
        ItemView::ImageGenerationCall { id, status, revised_prompt, result } => {
            ItemView::ImageGenerationCall {
                id,
                status,
                revised_prompt,
                result: if result.len() > 0 {
                    placeholder
                } else {
                    result
                },
            }
        },
        _ => item,
    }
}

/// A conversation, with placeholders for the images before the cutoff.
pub open spec fn without_images(
    items: Seq<ItemView>,
    cutoff: int,
    placeholder: Seq<char>,
) -> Seq<ItemView> {
    Seq::new(
        items.len(),
        |i: int|
            if i < cutoff {
                item_without_images(items[i], placeholder)
            } else {
                items[i]
            },
    )
}

/// Removing images leaves no image in messages and in tool outputs, and in the place of the result
/// of image generation the placeholder.
pub proof fn law_no_image_is_left(item: ItemView, placeholder: Seq<char>)
    ensures
        match item_without_images(item, placeholder) {
            ItemView::ImageGenerationCall { result, .. } => result.len() == 0 || result
                == placeholder,
            pruned => !cutoff::has_image(pruned),
        },
{
}

/// An item without an image is left as it is.
pub proof fn law_items_without_images_are_left_alone(item: ItemView, placeholder: Seq<char>)
    requires
        !cutoff::has_image(item),
    ensures
        item_without_images(item, placeholder) == item,
{
    match item {
        ItemView::Message { content, .. } => {
            assert(content_without_images(content, placeholder) =~= content) by {
                assert forall|i: int| 0 <= i < content.len() implies part_without_image(
                    content[i],
                    placeholder,
                ) == content[i] by {
                    assert(!cutoff::is_image(content[i]));
                }
            }
        },
        ItemView::FunctionCallOutput { output, .. } => {
            lemma_output_without_images_is_left_alone(output, placeholder);
        },
        ItemView::CustomToolCallOutput { output, .. } => {
            lemma_output_without_images_is_left_alone(output, placeholder);
        },
        _ => {},
    }
}

/// A tool output without an image is left as it is.
proof fn lemma_output_without_images_is_left_alone(output: OutputView, placeholder: Seq<char>)
    requires
        !cutoff::output_has_image(output),
    ensures
        output_without_images(output, placeholder) == output,
{
    if let item::BodyView::ContentItems(parts) = output.body {
        assert(output_parts_without_images(parts, placeholder) =~= parts) by {
            assert forall|i: int| 0 <= i < parts.len() implies output_part_without_image(
                parts[i],
                placeholder,
            ) == parts[i] by {
                assert(!cutoff::is_output_image(parts[i]));
            }
        }
    }
}

/// Puts a placeholder for an image that is a part of a message.
fn prune_part_image(part: &mut ContentItem, image_placeholder: &str)
    ensures
        final(part)@ == part_without_image(old(part)@, image_placeholder@),
{
    let is_image = match part {
        ContentItem::InputImage { .. } => true,
        _ => false,
    };
    if is_image {
        *part = ContentItem::InputText { text: image_placeholder.to_owned() };
    }
}

/// Puts placeholders for the images of a message.
fn prune_content_images(content: &mut Vec<ContentItem>, image_placeholder: &str)
    ensures
        item::content_views(final(content)@) == content_without_images(
            item::content_views(old(content)@),
            image_placeholder@,
        ),
{
    let n: usize = content.len();
    let mut i: usize = 0;
    while i < n
        invariant
            i <= n == content@.len() == old(content)@.len(),
            forall|j: int|
                0 <= j < n ==> #[trigger] content@[j]@ == if j < i {
                    part_without_image(old(content)@[j]@, image_placeholder@)
                } else {
                    old(content)@[j]@
                },
        decreases n - i,
    {
        prune_part_image(&mut content[i], image_placeholder);
        i += 1;
    }
    assert(item::content_views(content@) =~= content_without_images(
        item::content_views(old(content)@),
        image_placeholder@,
    ));
}

/// Puts a placeholder for an image that is a part of a tool output.
fn prune_output_part_image(part: &mut FunctionCallOutputContentItem, image_placeholder: &str)
    ensures
        final(part)@ == output_part_without_image(old(part)@, image_placeholder@),
{
    let is_image = match part {
        FunctionCallOutputContentItem::InputImage { .. } => true,
        _ => false,
    };
    if is_image {
        *part = FunctionCallOutputContentItem::InputText { text: image_placeholder.to_owned() };
    }
}

/// Puts placeholders for the images among the parts of a tool output.
fn prune_output_part_images(
    parts: &mut Vec<FunctionCallOutputContentItem>,
    image_placeholder: &str,
)
    ensures
        item::output_part_views(final(parts)@) == output_parts_without_images(
            item::output_part_views(old(parts)@),
            image_placeholder@,
        ),
{
    let n: usize = parts.len();
    let mut i: usize = 0;
    while i < n
        invariant
            i <= n == parts@.len() == old(parts)@.len(),
            forall|j: int|
                0 <= j < n ==> #[trigger] parts@[j]@ == if j < i {
                    output_part_without_image(old(parts)@[j]@, image_placeholder@)
                } else {
                    old(parts)@[j]@
                },
        decreases n - i,
    {
        prune_output_part_image(&mut parts[i], image_placeholder);
        i += 1;
    }
    assert(item::output_part_views(parts@) =~= output_parts_without_images(
        item::output_part_views(old(parts)@),
        image_placeholder@,
    ));
}

/// Puts placeholders for the images of a tool output.
pub fn prune_function_output_images(
    output: &mut FunctionCallOutputPayload,
    image_placeholder: &str,
)
    ensures
        final(output)@ == output_without_images(old(output)@, image_placeholder@),
{
    match &mut output.body {
        FunctionCallOutputBody::Text(_) => {},
        FunctionCallOutputBody::ContentItems(parts) => {
            prune_output_part_images(parts, image_placeholder);
        },
    }
}

/// Puts placeholders for the images of an item.
pub fn prune_item_images(item: &mut ResponseItem, image_placeholder: &str)
    ensures
        final(item)@ == item_without_images(old(item)@, image_placeholder@),
{
    match item {
        ResponseItem::Message { content, .. } => {
            prune_content_images(content, image_placeholder);
        },
        ResponseItem::FunctionCallOutput { output, .. } => {
            prune_function_output_images(output, image_placeholder);
        },
        ResponseItem::CustomToolCallOutput { output, .. } => {
            prune_function_output_images(output, image_placeholder);
        },
        ResponseItem::ImageGenerationCall { result, .. } => {
            if !result.as_str().is_empty() {
                *result = image_placeholder.to_owned();
            }
        },
        _ => {},
    }
}

/// Puts placeholders for the images before the cutoff.
pub fn prune_images(items: &mut [ResponseItem], cutoff: usize, image_placeholder: &str)
    requires
        cutoff <= old(items)@.len(),
    ensures
        item::item_views(final(items)@) == without_images(
            item::item_views(old(items)@),
            cutoff as int,
            image_placeholder@,
        ),
{
    let mut i: usize = 0;
    while i < cutoff
        invariant
            i <= cutoff <= items@.len() == old(items)@.len(),
            forall|j: int|
                0 <= j < items@.len() ==> #[trigger] items@[j]@ == if j < i {
                    item_without_images(old(items)@[j]@, image_placeholder@)
                } else {
                    old(items)@[j]@
                },
        decreases cutoff - i,
    {
        prune_item_images(&mut items[i], image_placeholder);
        i += 1;
    }
    assert(item::item_views(items@) =~= without_images(
        item::item_views(old(items)@),
        cutoff as int,
        image_placeholder@,
    ));
}

/// `after` has the parts of the message `before`, each text as it was and in its place, and for each
/// image the text `placeholder`.
pub open spec fn only_images_differ(
    before: Seq<ContentView>,
    after: Seq<ContentView>,
    placeholder: Seq<char>,
) -> bool {
    &&& after.len() == before.len()
    &&& forall|k: int|
        0 <= k < before.len() ==> match #[trigger] before[k] {
            ContentView::InputText { text } => after[k] == (ContentView::InputText { text }),
            ContentView::OutputText { text } => after[k] == (ContentView::OutputText { text }),
            ContentView::InputImage { .. } => after[k] == (ContentView::InputText {
                text: placeholder,
            }),
        }
}

/// `after` is the tool output `before`, with the same success, each text as it was and in its place,
/// and for each image the text `placeholder`.
pub open spec fn only_output_images_differ(
    before: OutputView,
    after: OutputView,
    placeholder: Seq<char>,
) -> bool {
    &&& after.success == before.success
    &&& match (before.body, after.body) {
        (item::BodyView::Text(text), item::BodyView::Text(kept)) => kept == text,
        (item::BodyView::ContentItems(parts), item::BodyView::ContentItems(kept)) => {
            &&& kept.len() == parts.len()
            &&& forall|k: int|
                0 <= k < parts.len() ==> match #[trigger] parts[k] {
                    OutputPartView::InputText { text } => kept[k] == (OutputPartView::InputText {
                        text,
                    }),
                    OutputPartView::InputImage { .. } => kept[k] == (OutputPartView::InputText {
                        text: placeholder,
                    }),
                }
        },
        _ => false,
    }
}

/// Removing images changes nothing but images: before the cutoff, each image of a message or of the
/// output of a function or of a custom tool becomes the placeholder, in its place among the other
/// parts, which stay as they are, and so does the result of image generation, if there is one;
/// everything else, and everything from the cutoff on, stays as it is.
pub proof fn law_only_images_are_replaced(
    items: Seq<ItemView>,
    cutoff: int,
    placeholder: Seq<char>,
    i: int,
)
    requires
        0 <= i < items.len(),
    ensures
        without_images(items, cutoff, placeholder).len() == items.len(),
        ({
            let after = without_images(items, cutoff, placeholder)[i];
            if i >= cutoff {
                after == items[i]
            } else {
                match (items[i], after) {
                    (
                        ItemView::Message { id, role, content, phase },
                        ItemView::Message { id: id2, role: role2, content: content2, phase: phase2 },
                    ) => {
                        &&& id2 == id
                        &&& role2 == role
                        &&& phase2 == phase
                        &&& only_images_differ(content, content2, placeholder)
                    },
                    (
                        ItemView::FunctionCallOutput { call_id, output },
                        ItemView::FunctionCallOutput { call_id: call_id2, output: output2 },
                    ) => {
                        &&& call_id2 == call_id
                        &&& only_output_images_differ(output, output2, placeholder)
                    },
                    (
                        ItemView::CustomToolCallOutput { call_id, name, output },
                        ItemView::CustomToolCallOutput {
                            call_id: call_id2,
                            name: name2,
                            output: output2,
                        },
                    ) => {
                        &&& call_id2 == call_id
                        &&& name2 == name
                        &&& only_output_images_differ(output, output2, placeholder)
                    },
                    (
                        ItemView::ImageGenerationCall { id, status, revised_prompt, result },
                        ItemView::ImageGenerationCall {
                            id: id2,
                            status: status2,
                            revised_prompt: revised_prompt2,
                            result: result2,
                        },
                    ) => {
                        &&& id2 == id
                        &&& status2 == status
                        &&& revised_prompt2 == revised_prompt
                        &&& result.len() == 0 ==> result2.len() == 0
                        &&& result.len() > 0 ==> result2 == placeholder
                    },
                    (ItemView::Message { .. }, _) => false,
                    (ItemView::FunctionCallOutput { .. }, _) => false,
                    (ItemView::CustomToolCallOutput { .. }, _) => false,
                    (ItemView::ImageGenerationCall { .. }, _) => false,
                    (item, after) => after == item,
                }
            }
        }),
{
}

} // verus!
