//! The pruning of a whole conversation.
//!
//! A conversation is pruned in this order: the newest directive is read and every directive is
//! removed; the cutoffs are set; then, before the cutoffs, the outputs of repeated calls, the
//! inputs and outputs of failed calls, heavy payloads and images are replaced by placeholders.
use crate::item;
use crate::item::{ContentView, ItemView, ResponseItem};
use crate::pruner::config::{ContextPrunerConfig, PrunerEnv};
use crate::pruner::cutoff;
use crate::pruner::directive;
use crate::pruner::directive::{CheckpointDirective, DirectiveView};
use crate::pruner::duplicates;
use crate::pruner::failures;
use crate::pruner::heavy;
use crate::pruner::images;
use crate::pruner::placeholder;
use crate::pruner::placeholder::IMAGE_PLACEHOLDER;
use crate::text;
use vstd::prelude::*;

verus! {

/// The larger of two numbers.
pub open spec fn larger(a: int, b: int) -> int {
    if a < b {
        b
    } else {
        a
    }
}

/// The cutoffs for images and for heavy payloads: that of automatic pruning, or further where a
/// directive asks for more.
pub open spec fn cutoffs_of(
    items: Seq<ItemView>,
    boundaries: Seq<bool>,
    checkpoint: Option<DirectiveView>,
    config: ContextPrunerConfig,
) -> (int, int) {
    let automatic = cutoff::automatic_cutoff(
        boundaries,
        config.keep_recent_turns as int,
        config.segment_turns as int,
    );
    match checkpoint {
        Some(checkpoint) => {
            let (image, heavy) = cutoff::checkpoint_cutoffs_of(
                items,
                boundaries,
                checkpoint.target,
                config,
            );
            (larger(automatic, image), larger(automatic, heavy))
        },
        None => (automatic, automatic),
    }
}

/// A conversation with its older items pruned.
pub open spec fn pruned_items(
    items: Seq<ItemView>,
    boundaries: Seq<bool>,
    checkpoint: Option<DirectiveView>,
    config: ContextPrunerConfig,
) -> Seq<ItemView> {
    let (image_cutoff, heavy_cutoff) = cutoffs_of(items, boundaries, checkpoint, config);
    let maintenance_cutoff = larger(image_cutoff, heavy_cutoff);
    let unique = duplicates::deduplicated(items, maintenance_cutoff);
    let sound = failures::without_failures(unique, maintenance_cutoff);
    let light = heavy::without_heavy_payloads(
        sound,
        heavy_cutoff,
        config.heavy_tool_chars as int,
    );
    images::without_images(light, image_cutoff, placeholder::image_placeholder_of(checkpoint))
}

/// A conversation as the model sees it before pruning: without directives, where they are obeyed.
pub open spec fn visible_items(items: Seq<ItemView>, config: ContextPrunerConfig) -> Seq<ItemView> {
    if config.enable_directives {
        directive::stripped_items(items)
    } else {
        items
    }
}

/// The directive that is obeyed.
pub open spec fn obeyed_directive(
    items: Seq<ItemView>,
    config: ContextPrunerConfig,
) -> Option<DirectiveView> {
    if config.enable_directives {
        directive::latest_directive(items)
    } else {
        None
    }
}

/// The prompt that is made of a conversation.
pub open spec fn prompt_of(items: Seq<ItemView>, config: ContextPrunerConfig) -> Seq<ItemView> {
    let visible = visible_items(items, config);
    pruned_items(
        visible,
        item::turn_boundaries_of(visible),
        obeyed_directive(items, config),
        config,
    )
}

/// Whether a part of a message is kept as it is, or was an image.
pub open spec fn keeps_text(part: ContentView, pruned: ContentView) -> bool {
    pruned == part || part is InputImage && pruned is InputText
}

/// Whether an item keeps everything but its payload: its kind, ids, names, roles and states, the
/// texts of a message, and the number of its parts.
pub open spec fn keeps_structure(item: ItemView, pruned: ItemView) -> bool {
    match (item, pruned) {
        (
            ItemView::Message { id, role, content, phase },
            ItemView::Message { id: id2, role: role2, content: content2, phase: phase2 },
        ) => {
            &&& id == id2
            &&& role == role2
            &&& phase == phase2
            &&& content.len() == content2.len()
            &&& forall|i: int|
                0 <= i < content.len() ==> keeps_text(#[trigger] content[i], content2[i])
        },
        (ItemView::FunctionCall { .. }, ItemView::FunctionCall { arguments, .. }) => {
            pruned == item.with_input(arguments)
        },
        (ItemView::CustomToolCall { .. }, ItemView::CustomToolCall { input, .. }) => {
            pruned == item.with_input(input)
        },
        (ItemView::FunctionCallOutput { .. }, ItemView::FunctionCallOutput { output, .. }) => {
            pruned == item.with_output(output)
        },
        (ItemView::CustomToolCallOutput { .. }, ItemView::CustomToolCallOutput { output, .. }) => {
            pruned == item.with_output(output)
        },
        (
            ItemView::ImageGenerationCall { id, status, revised_prompt, .. },
            ItemView::ImageGenerationCall {
                id: id2,
                status: status2,
                revised_prompt: revised_prompt2,
                ..
            },
        ) => id == id2 && status == status2 && revised_prompt == revised_prompt2,
        _ => pruned == item,
    }
}

/// The cutoffs lie before the newest turns.
proof fn lemma_cutoffs_within_guard(
    items: Seq<ItemView>,
    boundaries: Seq<bool>,
    checkpoint: Option<DirectiveView>,
    config: ContextPrunerConfig,
)
    requires
        items.len() == boundaries.len(),
    ensures
        ({
            let (image, heavy) = cutoffs_of(items, boundaries, checkpoint, config);
            let guard = cutoff::recent_turn_guard(boundaries, config.keep_recent_turns as int);
            &&& 0 <= image <= guard <= items.len()
            &&& 0 <= heavy <= guard
        }),
{
    cutoff::law_automatic_cutoff_spares_recent_turns(
        boundaries,
        config.keep_recent_turns as int,
        config.segment_turns as int,
    );
    if let Some(checkpoint) = checkpoint {
        cutoff::law_directive_cutoffs_spare_recent_turns(
            items,
            boundaries,
            checkpoint.target,
            config,
        );
    }
}

/// The newest turns are left as they are, whatever a directive asks for and wherever turns begin.
pub proof fn law_recent_turns_are_never_pruned(
    items: Seq<ItemView>,
    boundaries: Seq<bool>,
    checkpoint: Option<DirectiveView>,
    config: ContextPrunerConfig,
    i: int,
)
    requires
        items.len() == boundaries.len(),
        cutoff::recent_turn_guard(boundaries, config.keep_recent_turns as int) <= i < items.len(),
    ensures
        pruned_items(items, boundaries, checkpoint, config)[i] == items[i],
{
    lemma_cutoffs_within_guard(items, boundaries, checkpoint, config);
}

/// A conversation of no more turns than are kept is not pruned at all.
pub proof fn law_short_conversations_are_not_pruned(
    items: Seq<ItemView>,
    boundaries: Seq<bool>,
    checkpoint: Option<DirectiveView>,
    config: ContextPrunerConfig,
)
    requires
        items.len() == boundaries.len(),
        0 < config.keep_recent_turns,
        cutoff::turn_positions_of(boundaries).len() <= config.keep_recent_turns,
    ensures
        pruned_items(items, boundaries, checkpoint, config) == items,
{
    lemma_cutoffs_within_guard(items, boundaries, checkpoint, config);
    assert(pruned_items(items, boundaries, checkpoint, config) =~= items);
}

/// Pruning keeps every item in its place, with all but its payload: what a message says, who
/// called which tool, and which output answers which call.
pub proof fn law_pruning_keeps_structure(
    items: Seq<ItemView>,
    boundaries: Seq<bool>,
    checkpoint: Option<DirectiveView>,
    config: ContextPrunerConfig,
    i: int,
)
    requires
        0 <= i < items.len(),
    ensures
        pruned_items(items, boundaries, checkpoint, config).len() == items.len(),
        keeps_structure(items[i], pruned_items(items, boundaries, checkpoint, config)[i]),
{
}

/// No message and no tool output before the cutoff for images holds an image.
pub proof fn law_older_images_are_removed(
    items: Seq<ItemView>,
    boundaries: Seq<bool>,
    checkpoint: Option<DirectiveView>,
    config: ContextPrunerConfig,
    i: int,
)
    requires
        0 <= i < items.len(),
        i < cutoffs_of(items, boundaries, checkpoint, config).0,
    ensures
        match pruned_items(items, boundaries, checkpoint, config)[i] {
            ItemView::ImageGenerationCall { result, .. } => result.len() == 0 || result
                == placeholder::image_placeholder_of(checkpoint),
            pruned => !cutoff::has_image(pruned),
        },
{
    let (image_cutoff, heavy_cutoff) = cutoffs_of(items, boundaries, checkpoint, config);
    let maintenance_cutoff = larger(image_cutoff, heavy_cutoff);
    let light = heavy::without_heavy_payloads(
        failures::without_failures(
            duplicates::deduplicated(items, maintenance_cutoff),
            maintenance_cutoff,
        ),
        heavy_cutoff,
        config.heavy_tool_chars as int,
    );
    images::law_no_image_is_left(light[i], placeholder::image_placeholder_of(checkpoint));
}

/// No output that reports a failure is left before the cutoffs.
pub proof fn law_older_failures_are_removed(
    items: Seq<ItemView>,
    boundaries: Seq<bool>,
    checkpoint: Option<DirectiveView>,
    config: ContextPrunerConfig,
    i: int,
)
    requires
        0 <= i < items.len(),
        ({
            let (image, heavy) = cutoffs_of(items, boundaries, checkpoint, config);
            i < image || i < heavy
        }),
    ensures
        failures::failed_call_id(pruned_items(items, boundaries, checkpoint, config)[i]) is None,
{
    let (image_cutoff, heavy_cutoff) = cutoffs_of(items, boundaries, checkpoint, config);
    let maintenance_cutoff = larger(image_cutoff, heavy_cutoff);
    let unique = duplicates::deduplicated(items, maintenance_cutoff);
    failures::law_no_failed_output_is_left(unique, maintenance_cutoff, i);
}

/// A checkpoint for images does not move the cutoff for heavy payloads, and one for heavy payloads
/// does not move the cutoff for images.
pub proof fn law_checkpoint_scopes_are_separate(
    items: Seq<ItemView>,
    boundaries: Seq<bool>,
    checkpoint: DirectiveView,
    config: ContextPrunerConfig,
)
    requires
        items.len() == boundaries.len(),
    ensures
        checkpoint.target is OlderImages ==> cutoffs_of(
            items,
            boundaries,
            Some(checkpoint),
            config,
        ).1 == cutoff::automatic_cutoff(
            boundaries,
            config.keep_recent_turns as int,
            config.segment_turns as int,
        ),
        checkpoint.target is OlderHeavy ==> cutoffs_of(
            items,
            boundaries,
            Some(checkpoint),
            config,
        ).0 == cutoff::automatic_cutoff(
            boundaries,
            config.keep_recent_turns as int,
            config.segment_turns as int,
        ),
{
    cutoff::law_automatic_cutoff_spares_recent_turns(
        boundaries,
        config.keep_recent_turns as int,
        config.segment_turns as int,
    );
}

/// The placeholder of an image is one line.
proof fn lemma_image_placeholder_is_one_line()
    ensures
        text::newline_free(IMAGE_PLACEHOLDER@),
        text::newline_free("; checkpoint summary: "@),
        IMAGE_PLACEHOLDER@.len() > 30,
{
    reveal_strlit(
        "[codelink-context-pruned: image payload removed from older history; use local files, visual QA verdicts, or continuity ledger if needed]",
    );
    reveal_strlit("; checkpoint summary: ");
    reveal_with_fuel(directive::newline_free_up_to, 36);
    let n = IMAGE_PLACEHOLDER@.len();
    assert(directive::newline_free_up_to(IMAGE_PLACEHOLDER@, 35));
    assert(directive::newline_free_up_to(IMAGE_PLACEHOLDER@, 70));
    assert(directive::newline_free_up_to(IMAGE_PLACEHOLDER@, 105));
    assert(directive::newline_free_up_to(IMAGE_PLACEHOLDER@, 136));
    directive::lemma_newline_free_up_to(IMAGE_PLACEHOLDER@, n);
    assert(directive::newline_free_up_to("; checkpoint summary: "@, 22));
    directive::lemma_newline_free_up_to("; checkpoint summary: "@, 22);
}

/// The placeholder of an image holds no directive.
proof fn lemma_image_placeholder_holds_no_directive(checkpoint: Option<DirectiveView>)
    requires
        checkpoint matches Some(checkpoint) ==> directive::summary_is_one_line(checkpoint),
    ensures
        directive::text_directive(placeholder::image_placeholder_of(checkpoint)) is None,
{
    let line = placeholder::image_placeholder_of(checkpoint);
    lemma_image_placeholder_is_one_line();
    assert(text::newline_free(line)) by {
        assert forall|i: int| 0 <= i < line.len() implies #[trigger] line[i] != '\n' by {
            let n = IMAGE_PLACEHOLDER@.len() as int;
            let m = "; checkpoint summary: "@.len() as int;
            if i < n {
                assert(line[i] == IMAGE_PLACEHOLDER@[i]);
            } else if i < n + m {
                assert(line[i] == "; checkpoint summary: "@[i - n]);
            }
        }
    }
    reveal_strlit(
        "[codelink-context-pruned: image payload removed from older history; use local files, visual QA verdicts, or continuity ledger if needed]",
    );
    reveal_strlit("[codelink-context-checkpoint ");
    reveal_strlit("[manga-context-checkpoint ");
    assert(line[0] == '[');
    assert(line[1] == 'c');
    assert(line[18] == 'p');
    assert(directive::after_checkpoint_prefix(line) is None) by {
        let current = directive::CHECKPOINT_PREFIX@;
        let legacy = directive::LEGACY_CHECKPOINT_PREFIX@;
        assert(line.take(current.len() as int)[18] == 'p');
        assert(current[18] == 'c');
        assert(line.take(legacy.len() as int)[1] == 'c');
        assert(legacy[1] == 'm');
    }
    directive::lemma_other_opening_holds_no_directive(line);
}

/// Where directives are obeyed, the prompt shows none: not the one that was obeyed, and none that
/// pruning brings in with a placeholder.
pub proof fn law_prompt_shows_no_directive(items: Seq<ItemView>, config: ContextPrunerConfig)
    requires
        config.enable_directives,
    ensures
        directive::latest_directive(prompt_of(items, config)) is None,
{
    let visible = visible_items(items, config);
    let prompt = prompt_of(items, config);
    let checkpoint = obeyed_directive(items, config);
    directive::law_summary_is_one_line(items);
    lemma_image_placeholder_holds_no_directive(checkpoint);
    assert forall|i: int| 0 <= i < prompt.len() implies directive::item_directive(
        #[trigger] prompt[i],
    ) is None by {
        if let ItemView::Message { content, .. } = prompt[i] {
            assert forall|k: int| 0 <= k < content.len() implies directive::part_directive(
                #[trigger] content[k],
            ) is None by {
                if let ItemView::Message { content: original, .. } = items[i] {
                    directive::lemma_stripped_part_holds_no_directive(original[k]);
                    let stripped = directive::stripped_part(original[k]);
                    assert(visible[i] == directive::stripped_item(items[i]));
                    assert(content[k] == stripped || content[k] == images::part_without_image(
                        stripped,
                        placeholder::image_placeholder_of(checkpoint),
                    ));
                }
            }
            directive::lemma_no_directive_in_content(content);
        }
    }
    directive::lemma_no_directive_in_items(prompt);
}

/// The conversation after the outputs of repeated calls and the payloads of failed calls are gone,
/// before heavy payloads and images are replaced.
pub open spec fn sound_items(
    items: Seq<ItemView>,
    boundaries: Seq<bool>,
    checkpoint: Option<DirectiveView>,
    config: ContextPrunerConfig,
) -> Seq<ItemView> {
    let (image_cutoff, heavy_cutoff) = cutoffs_of(items, boundaries, checkpoint, config);
    let maintenance_cutoff = larger(image_cutoff, heavy_cutoff);
    failures::without_failures(
        duplicates::deduplicated(items, maintenance_cutoff),
        maintenance_cutoff,
    )
}

/// A heavy input before the cutoff of a tool that is not protected becomes a placeholder that
/// tells the tool, the call, the size and how the input begins, unless the call failed.
pub proof fn law_older_heavy_inputs_are_replaced(
    items: Seq<ItemView>,
    boundaries: Seq<bool>,
    checkpoint: Option<DirectiveView>,
    config: ContextPrunerConfig,
    i: int,
)
    requires
        0 <= i < items.len(),
        i < cutoffs_of(items, boundaries, checkpoint, config).1,
        items[i] is FunctionCall || items[i] is CustomToolCall,
        cutoff::has_heavy_payload(items[i], config.heavy_tool_chars as int),
        sound_items(items, boundaries, checkpoint, config)[i] == items[i],
    ensures
        match items[i] {
            ItemView::FunctionCall { name, arguments, call_id, .. } => pruned_items(
                items,
                boundaries,
                checkpoint,
                config,
            )[i] == items[i].with_input(
                placeholder::heavy_input_placeholder_of(
                    name,
                    call_id,
                    arguments.len() as int,
                    arguments,
                ),
            ),
            ItemView::CustomToolCall { name, input, call_id, .. } => pruned_items(
                items,
                boundaries,
                checkpoint,
                config,
            )[i] == items[i].with_input(
                placeholder::heavy_input_placeholder_of(
                    name,
                    call_id,
                    input.len() as int,
                    input,
                ),
            ),
            _ => false,
        },
{
}

/// A heavy output before the cutoff of a tool that is not protected becomes a placeholder that
/// tells the tool, the call, the size, whether the call succeeded, its exit code, what its input
/// was and how the output begins, unless the call failed or was repeated.
pub proof fn law_older_heavy_outputs_are_replaced(
    items: Seq<ItemView>,
    boundaries: Seq<bool>,
    checkpoint: Option<DirectiveView>,
    config: ContextPrunerConfig,
    i: int,
    output_name: Option<Seq<char>>,
)
    requires
        0 <= i < items.len(),
        i < cutoffs_of(items, boundaries, checkpoint, config).1,
        items[i] is FunctionCallOutput && output_name is None || (
        items[i] matches ItemView::CustomToolCallOutput { name, .. } && output_name == name),
        cutoff::has_heavy_payload(items[i], config.heavy_tool_chars as int),
        sound_items(items, boundaries, checkpoint, config)[i] == items[i],
        !cutoff::is_heavy_protected(
            heavy::output_tool_name(
                output_name,
                heavy::metadata_of(
                    sound_items(items, boundaries, checkpoint, config),
                    items[i].output_call_id()->0,
                ),
            ),
        ),
    ensures
        ({
            let call_id = items[i].output_call_id()->0;
            let output = items[i].output()->0;
            let text = output.body.to_text()->0;
            let metadata = heavy::metadata_of(
                sound_items(items, boundaries, checkpoint, config),
                call_id,
            );
            pruned_items(items, boundaries, checkpoint, config)[i] == items[i].with_output(
                item::text_output(
                    placeholder::heavy_output_placeholder_of(
                        heavy::output_tool_name(output_name, metadata),
                        call_id,
                        text.len() as int,
                        output.success,
                        text,
                        metadata,
                    ),
                ),
            )
        }),
{
}

/// In a prompt, the newest turns stand as the conversation has them, but for the directives: an item
/// without any stands there unchanged.
pub proof fn law_prompt_shows_recent_turns_in_full(
    items: Seq<ItemView>,
    config: ContextPrunerConfig,
    i: int,
)
    requires
        cutoff::recent_turn_guard(
            item::turn_boundaries_of(items),
            config.keep_recent_turns as int,
        ) <= i < items.len(),
    ensures
        prompt_of(items, config).len() == items.len(),
        prompt_of(items, config)[i] == visible_items(items, config)[i],
        !config.enable_directives || !directive::item_has_directive_line(items[i]) ==> prompt_of(
            items,
            config,
        )[i] == items[i],
{
    cutoff::lemma_turn_positions(item::turn_boundaries_of(items));
    if !directive::item_has_directive_line(items[i]) {
        directive::law_item_without_directives_is_left_alone(items[i]);
    }
    let visible = visible_items(items, config);
    assert(item::turn_boundaries_of(visible) =~= item::turn_boundaries_of(items));
    law_recent_turns_are_never_pruned(
        visible,
        item::turn_boundaries_of(visible),
        obeyed_directive(items, config),
        config,
        i,
    );
}

/// Prunes the older items of a conversation, given where turns begin.
pub fn prune_older_items(
    items: &mut [ResponseItem],
    boundaries: &[bool],
    checkpoint: Option<&CheckpointDirective>,
    config: &ContextPrunerConfig,
)
    requires
        boundaries@.len() == old(items)@.len(),
    ensures
        item::item_views(final(items)@) == pruned_items(
            item::item_views(old(items)@),
            boundaries@,
            match checkpoint {
                Some(checkpoint) => Some(checkpoint@),
                None => None,
            },
            *config,
        ),
{
    let ghost views = item::item_views(items@);
    let ghost checkpoint_view = match checkpoint {
        Some(checkpoint) => Some(checkpoint@),
        None => None,
    };
    proof {
        lemma_cutoffs_within_guard(views, boundaries@, checkpoint_view, *config);
    }
    let automatic_cutoff = cutoff::pruning_cutoff(
        boundaries,
        config.keep_recent_turns,
        config.segment_turns,
    );
    let mut image_cutoff: usize = automatic_cutoff;
    let mut heavy_cutoff: usize = automatic_cutoff;
    if let Some(checkpoint) = checkpoint {
        let (image, heavy) = cutoff::checkpoint_cutoffs(items, boundaries, checkpoint, config);
        if image_cutoff < image {
            image_cutoff = image;
        }
        if heavy_cutoff < heavy {
            heavy_cutoff = heavy;
        }
    }
    let maintenance_cutoff: usize = if image_cutoff < heavy_cutoff {
        heavy_cutoff
    } else {
        image_cutoff
    };
    assert((image_cutoff as int, heavy_cutoff as int) == cutoffs_of(
        views,
        boundaries@,
        checkpoint_view,
        *config,
    ));
    if maintenance_cutoff == 0 {
        assert(pruned_items(views, boundaries@, checkpoint_view, *config) =~= views);
        return;
    }
    let image_placeholder = placeholder::image_placeholder(checkpoint);
    duplicates::prune_duplicate_tool_outputs(items, maintenance_cutoff);
    failures::purge_old_failed_tool_payloads(items, maintenance_cutoff);
    heavy::prune_heavy_tool_payloads(items, heavy_cutoff, config.heavy_tool_chars);
    assert(item::item_views(items@).len() == views.len());
    images::prune_images(items, image_cutoff, image_placeholder.as_str());
}

/// Reads the newest directive of a conversation and removes every directive from it, where
/// directives are obeyed.
pub fn take_checkpoint(items: &mut [ResponseItem], config: &ContextPrunerConfig) -> (checkpoint:
    Option<CheckpointDirective>)
    ensures
        item::item_views(final(items)@) == visible_items(item::item_views(old(items)@), *config),
        directive::view_directive(checkpoint) == obeyed_directive(
            item::item_views(old(items)@),
            *config,
        ),
{
    if config.enable_directives {
        let checkpoint = directive::latest_checkpoint_directive(items);
        directive::strip_checkpoint_directives_from_prompt(items);
        checkpoint
    } else {
        None
    }
}

/// Makes a prompt of a conversation.
pub fn prune_items_for_prompt(items: &mut [ResponseItem], config: ContextPrunerConfig)
    ensures
        item::item_views(final(items)@) == prompt_of(item::item_views(old(items)@), config),
{
    let checkpoint = take_checkpoint(items, &config);
    let boundaries = item::turn_boundaries(items);
    prune_older_items(items, boundaries.as_slice(), checkpoint.as_ref(), &config);
}

/// Makes a prompt of a conversation, unless the environment switches the pruner off: the conversation
/// is then left as it is.
pub fn prune_items_for_prompt_from_env(items: &mut [ResponseItem], env: &PrunerEnv)
    ensures
        match env@.config() {
            Some(config) => item::item_views(final(items)@) == prompt_of(
                item::item_views(old(items)@),
                config,
            ),
            None => final(items)@ == old(items)@,
        },
{
    if let Some(config) = ContextPrunerConfig::from_env(env) {
        prune_items_for_prompt(items, config);
    }
}

/// Images and heavy payloads are pruned as far as automatic pruning or the directive reaches, whichever
/// reaches further.
pub proof fn law_cutoffs_are_the_further_ones(
    items: Seq<ItemView>,
    boundaries: Seq<bool>,
    checkpoint: DirectiveView,
    config: ContextPrunerConfig,
)
    ensures
        ({
            let (image, heavy) = cutoffs_of(items, boundaries, Some(checkpoint), config);
            let automatic = cutoff::automatic_cutoff(
                boundaries,
                config.keep_recent_turns as int,
                config.segment_turns as int,
            );
            let (asked_image, asked_heavy) = cutoff::checkpoint_cutoffs_of(
                items,
                boundaries,
                checkpoint.target,
                config,
            );
            &&& cutoffs_of(items, boundaries, None, config) == (automatic, automatic)
            &&& image >= automatic && image >= asked_image
            &&& image == automatic || image == asked_image
            &&& heavy >= automatic && heavy >= asked_heavy
            &&& heavy == automatic || heavy == asked_heavy
        }),
{
}

/// An item with no image and no heavy payload, whose call neither failed nor was repeated, is left as it
/// is, wherever it stands.
pub proof fn law_harmless_items_are_left_alone(
    items: Seq<ItemView>,
    boundaries: Seq<bool>,
    checkpoint: Option<DirectiveView>,
    config: ContextPrunerConfig,
    i: int,
)
    requires
        items.len() == boundaries.len(),
        0 <= i < items.len(),
        !cutoff::has_image(items[i]),
        !cutoff::has_heavy_payload(items[i], config.heavy_tool_chars as int),
        duplicates::deduplicated(items, items.len() as int)[i] == items[i],
        failures::without_failures(items, items.len() as int)[i] == items[i],
    ensures
        pruned_items(items, boundaries, checkpoint, config)[i] == items[i],
{
    let (image_cutoff, heavy_cutoff) = cutoffs_of(items, boundaries, checkpoint, config);
    let reach = larger(image_cutoff, heavy_cutoff);
    lemma_cutoffs_within_guard(items, boundaries, checkpoint, config);
    let unique = duplicates::deduplicated(items, reach);
    let sound = failures::without_failures(unique, reach);
    assert(unique[i] == items[i]);
    assert(sound[i] == items[i]) by {
        if let Some(id) = failures::call_or_output_id(items[i]) {
            if failures::has_failed(unique, reach, id) {
                let j = choose|j: int|
                    0 <= j < reach && j < unique.len() && #[trigger] failures::failed_call_id(
                        unique[j],
                    ) == Some(id);
                assert(failures::failed_call_id(items[j]) == Some(id));
                assert(failures::has_failed(items, items.len() as int, id));
            }
        }
    }
    heavy::law_light_payloads_are_left_alone(sound, items[i], config.heavy_tool_chars as int);
    images::law_items_without_images_are_left_alone(
        items[i],
        placeholder::image_placeholder_of(checkpoint),
    );
}

/// Whether an output is a text that says that something was pruned.
pub open spec fn says_pruned(text: Seq<char>) -> bool {
    text::starts_with(text, "[codelink-context-pruned: "@)
}

/// The texts that stand in the place of what was pruned say so.
proof fn lemma_placeholders_say_pruned()
    ensures
        says_pruned(placeholder::DUPLICATE_TOOL_OUTPUT_PLACEHOLDER@),
        says_pruned(placeholder::ERROR_TOOL_OUTPUT_PLACEHOLDER@),
        says_pruned(placeholder::ERROR_TOOL_INPUT_PLACEHOLDER@),
        says_pruned(placeholder::HEAVY_TOOL_OUTPUT_PREFIX@),
        says_pruned(placeholder::HEAVY_TOOL_INPUT_PREFIX@),
{
    let opening = "[codelink-context-pruned: "@;
    reveal_strlit("[codelink-context-pruned: ");
    reveal_strlit(
        "[codelink-context-pruned: duplicate tool output removed; newer identical call is preserved]",
    );
    reveal_strlit("[codelink-context-pruned: failed tool output removed from older history]");
    reveal_strlit(
        "[codelink-context-pruned: failed tool call input removed; error output is preserved]",
    );
    reveal_strlit("[codelink-context-pruned: old heavy tool output removed");
    reveal_strlit("[codelink-context-pruned: old heavy tool input removed");
    assert(placeholder::DUPLICATE_TOOL_OUTPUT_PLACEHOLDER@.take(26) =~= opening);
    assert(placeholder::ERROR_TOOL_OUTPUT_PLACEHOLDER@.take(26) =~= opening);
    assert(placeholder::ERROR_TOOL_INPUT_PLACEHOLDER@.take(26) =~= opening);
    assert(placeholder::HEAVY_TOOL_OUTPUT_PREFIX@.take(26) =~= opening);
    assert(placeholder::HEAVY_TOOL_INPUT_PREFIX@.take(26) =~= opening);
}

/// A longer text says so too.
proof fn lemma_longer_text_says_pruned(start: Seq<char>, text: Seq<char>)
    requires
        says_pruned(start),
        start.len() <= text.len(),
        text.take(start.len() as int) == start,
    ensures
        says_pruned(text),
{
    let n = "[codelink-context-pruned: "@.len() as int;
    assert(text.take(n) =~= start.take(n));
}

/// What stands in the place of a heavy input says that it was pruned.
proof fn lemma_input_placeholder_says_pruned(
    name: Seq<char>,
    call_id: Seq<char>,
    chars: int,
    input: Seq<char>,
)
    ensures
        says_pruned(placeholder::heavy_input_placeholder_of(name, call_id, chars, input)),
{
    lemma_placeholders_say_pruned();
    let told = placeholder::heavy_input_placeholder_of(name, call_id, chars, input);
    assert(told.take(placeholder::HEAVY_TOOL_INPUT_PREFIX@.len() as int)
        =~= placeholder::HEAVY_TOOL_INPUT_PREFIX@);
    lemma_longer_text_says_pruned(placeholder::HEAVY_TOOL_INPUT_PREFIX@, told);
}

/// What stands in the place of a heavy output says that it was pruned.
proof fn lemma_output_placeholder_says_pruned(
    name: Seq<char>,
    call_id: Seq<char>,
    chars: int,
    success: Option<bool>,
    output: Seq<char>,
    metadata: Option<placeholder::MetadataView>,
)
    ensures
        says_pruned(
            placeholder::heavy_output_placeholder_of(
                name,
                call_id,
                chars,
                success,
                output,
                metadata,
            ),
        ),
{
    lemma_placeholders_say_pruned();
    let told = placeholder::heavy_output_placeholder_of(
        name,
        call_id,
        chars,
        success,
        output,
        metadata,
    );
    assert(told.take(placeholder::HEAVY_TOOL_OUTPUT_PREFIX@.len() as int)
        =~= placeholder::HEAVY_TOOL_OUTPUT_PREFIX@);
    lemma_longer_text_says_pruned(placeholder::HEAVY_TOOL_OUTPUT_PREFIX@, told);
}

/// The output of a call that was repeated, before the cutoffs, is gone from the prompt: a text stands
/// there that says that it was pruned.
pub proof fn law_older_repeated_outputs_are_removed(
    items: Seq<ItemView>,
    boundaries: Seq<bool>,
    checkpoint: Option<DirectiveView>,
    config: ContextPrunerConfig,
    i: int,
)
    requires
        0 <= i < items.len(),
        ({
            let (image, heavy) = cutoffs_of(items, boundaries, checkpoint, config);
            i < image || i < heavy
        }),
        duplicates::deduplicated(items, items.len() as int)[i] != items[i],
    ensures
        match pruned_items(items, boundaries, checkpoint, config)[i] {
            ItemView::FunctionCallOutput { output, .. } => output.body matches item::BodyView::Text(
                text,
            ) && says_pruned(text),
            ItemView::CustomToolCallOutput { output, .. } => {
                output.body matches item::BodyView::Text(text) && says_pruned(text)
            },
            _ => false,
        },
{
    let (image_cutoff, heavy_cutoff) = cutoffs_of(items, boundaries, checkpoint, config);
    let reach = larger(image_cutoff, heavy_cutoff);
    let unique = duplicates::deduplicated(items, reach);
    let sound = failures::without_failures(unique, reach);
    lemma_placeholders_say_pruned();
    assert(unique[i] == items[i].with_output(
        item::text_output(placeholder::DUPLICATE_TOOL_OUTPUT_PLACEHOLDER@),
    ));
    let id = items[i].output_call_id()->0;
    let output = sound[i].output()->0;
    let text = output.body->Text_0;
    assert(output.body == item::BodyView::Text(text) && says_pruned(text));
    let metadata = heavy::metadata_of(sound, id);
    let name = match sound[i] {
        ItemView::CustomToolCallOutput { name, .. } => heavy::output_tool_name(name, metadata),
        _ => heavy::output_tool_name(None, metadata),
    };
    lemma_output_placeholder_says_pruned(
        name,
        id,
        text.len() as int,
        output.success,
        text,
        metadata,
    );
}

/// Every call and every answer of a call that failed, before the cutoffs, has lost its payload in the
/// prompt, of a function as of a custom tool: a text stands there that says that it was pruned.
pub proof fn law_older_failed_payloads_are_removed(
    items: Seq<ItemView>,
    boundaries: Seq<bool>,
    checkpoint: Option<DirectiveView>,
    config: ContextPrunerConfig,
    report: int,
    i: int,
    id: Seq<char>,
)
    requires
        0 <= i < items.len(),
        0 <= report < items.len(),
        ({
            let (image, heavy) = cutoffs_of(items, boundaries, checkpoint, config);
            (i < image || i < heavy) && (report < image || report < heavy)
        }),
        failures::reports_failure(items[report], id),
        failures::belongs_to_call(items[i], id),
        // the report was not replaced as that of a repeated call
        duplicates::deduplicated(items, items.len() as int)[report] == items[report],
    ensures
        match pruned_items(items, boundaries, checkpoint, config)[i] {
            ItemView::FunctionCall { arguments, .. } => says_pruned(arguments),
            ItemView::CustomToolCall { input, .. } => says_pruned(input),
            ItemView::FunctionCallOutput { output, .. } => output.body matches item::BodyView::Text(
                text,
            ) && says_pruned(text),
            ItemView::CustomToolCallOutput { output, .. } => {
                output.body matches item::BodyView::Text(text) && says_pruned(text)
            },
            _ => false,
        },
{
    let (image_cutoff, heavy_cutoff) = cutoffs_of(items, boundaries, checkpoint, config);
    let reach = larger(image_cutoff, heavy_cutoff);
    let unique = duplicates::deduplicated(items, reach);
    let sound = failures::without_failures(unique, reach);
    lemma_placeholders_say_pruned();
    assert(unique[report] == items[report]);
    assert(failures::belongs_to_call(unique[i], id));
    failures::law_failed_calls_lose_their_payloads(unique, reach, report, i, id);
    match sound[i] {
        ItemView::FunctionCall { name, arguments, call_id, .. } => {
            lemma_input_placeholder_says_pruned(name, call_id, arguments.len() as int, arguments);
        },
        ItemView::CustomToolCall { name, input, call_id, .. } => {
            lemma_input_placeholder_says_pruned(name, call_id, input.len() as int, input);
        },
        _ => {
            let output = sound[i].output()->0;
            let text = output.body->Text_0;
            let metadata = heavy::metadata_of(sound, id);
            let name = match sound[i] {
                ItemView::CustomToolCallOutput { name, .. } => heavy::output_tool_name(
                    name,
                    metadata,
                ),
                _ => heavy::output_tool_name(None, metadata),
            };
            lemma_output_placeholder_says_pruned(
                name,
                id,
                text.len() as int,
                output.success,
                text,
                metadata,
            );
        },
    }
}

/// Where directives are not obeyed, they have no effect: they are not stripped, and the prompt is that
/// of automatic pruning alone.
pub proof fn law_disabled_directives_have_no_effect(
    items: Seq<ItemView>,
    config: ContextPrunerConfig,
    checkpoint: Option<DirectiveView>,
)
    requires
        !config.enable_directives,
        checkpoint is None,
    ensures
        prompt_of(items, config) == pruned_items(
            items,
            item::turn_boundaries_of(items),
            checkpoint,
            config,
        ),
{
}

/// Stripping changes neither where turns open nor which items hold images.
proof fn lemma_stripping_keeps_turns_and_images(items: Seq<ItemView>)
    ensures
        directive::stripped_items(items).len() == items.len(),
        item::turn_boundaries_of(directive::stripped_items(items)) == item::turn_boundaries_of(
            items,
        ),
        forall|i: int|
            0 <= i < items.len() ==> cutoff::has_image(
                #[trigger] directive::stripped_items(items)[i],
            ) == cutoff::has_image(items[i]),
{
    let stripped = directive::stripped_items(items);
    assert(item::turn_boundaries_of(stripped) =~= item::turn_boundaries_of(items));
    assert forall|i: int| 0 <= i < items.len() implies cutoff::has_image(#[trigger] stripped[i])
        == cutoff::has_image(items[i]) by {
        directive::law_only_texts_of_messages_are_stripped(items, i);
        cutoff::law_images_count_wherever_they_stand(items[i]);
        cutoff::law_images_count_wherever_they_stand(stripped[i]);
        if let ItemView::Message { content, .. } = items[i] {
            if let ItemView::Message { content: content2, .. } = stripped[i] {
                assert forall|k: int| 0 <= k < content.len() implies (#[trigger] content[k])
                    is InputImage == content2[k] is InputImage by {}
                if cutoff::has_image(items[i]) {
                    let k = choose|k: int|
                        0 <= k < content.len() && (#[trigger] content[k]) is InputImage;
                    assert(content2[k] is InputImage);
                }
                if cutoff::has_image(stripped[i]) {
                    let k = choose|k: int|
                        0 <= k < content2.len() && (#[trigger] content2[k]) is InputImage;
                    assert(content[k] is InputImage);
                }
            }
        }
    }
}

/// What stands in the place of an image says that it was pruned.
proof fn lemma_image_placeholder_says_pruned(checkpoint: Option<DirectiveView>)
    ensures
        says_pruned(placeholder::image_placeholder_of(checkpoint)),
{
    let told = placeholder::image_placeholder_of(checkpoint);
    reveal_strlit("[codelink-context-pruned: ");
    reveal_strlit(
        "[codelink-context-pruned: image payload removed from older history; use local files, visual QA verdicts, or continuity ledger if needed]",
    );
    assert(IMAGE_PLACEHOLDER@.take(26) =~= "[codelink-context-pruned: "@);
    assert(told.take(IMAGE_PLACEHOLDER@.len() as int) =~= IMAGE_PLACEHOLDER@);
    lemma_longer_text_says_pruned(IMAGE_PLACEHOLDER@, told);
}

/// Where the newest directive asks for older images, no image before the newest turns is left in the
/// prompt, whatever segment it is in.
pub proof fn law_directive_for_images_is_obeyed(
    items: Seq<ItemView>,
    config: ContextPrunerConfig,
    i: int,
)
    requires
        config.enable_directives,
        directive::latest_directive(items) is Some,
        directive::latest_directive(items)->0.target is OlderImages,
        0 <= i < cutoff::recent_turn_guard(
            item::turn_boundaries_of(items),
            config.keep_recent_turns as int,
        ),
        cutoff::has_image(items[i]),
    ensures
        match prompt_of(items, config)[i] {
            ItemView::ImageGenerationCall { result, .. } => says_pruned(result),
            pruned => !cutoff::has_image(pruned),
        },
{
    let visible = directive::stripped_items(items);
    let boundaries = item::turn_boundaries_of(items);
    let checkpoint = directive::latest_directive(items);
    lemma_stripping_keeps_turns_and_images(items);
    lemma_cutoffs_within_guard(visible, boundaries, checkpoint, config);
    cutoff::law_directive_scope_is_complete_and_separate(visible, boundaries, config, i);
    law_older_images_are_removed(visible, boundaries, checkpoint, config, i);
    lemma_image_placeholder_says_pruned(checkpoint);
}

/// Where the newest directive asks for older heavy payloads, no heavy input before the newest turns, of
/// a tool whose payloads are not kept, is left in the prompt, whatever segment it is in.
pub proof fn law_directive_for_heavy_payloads_is_obeyed(
    items: Seq<ItemView>,
    config: ContextPrunerConfig,
    i: int,
)
    requires
        config.enable_directives,
        directive::latest_directive(items) is Some,
        directive::latest_directive(items)->0.target is OlderHeavy,
        0 <= i < cutoff::recent_turn_guard(
            item::turn_boundaries_of(items),
            config.keep_recent_turns as int,
        ),
        match items[i] {
            ItemView::FunctionCall { name, arguments, .. } => arguments.len()
                > config.heavy_tool_chars && !cutoff::tools_that_are_kept().contains(name),
            ItemView::CustomToolCall { name, input, .. } => input.len() > config.heavy_tool_chars
                && !cutoff::tools_that_are_kept().contains(name),
            _ => false,
        },
    ensures
        match prompt_of(items, config)[i] {
            ItemView::FunctionCall { arguments, .. } => says_pruned(arguments),
            ItemView::CustomToolCall { input, .. } => says_pruned(input),
            _ => false,
        },
{
    let visible = directive::stripped_items(items);
    let boundaries = item::turn_boundaries_of(items);
    let checkpoint = directive::latest_directive(items);
    lemma_stripping_keeps_turns_and_images(items);
    lemma_cutoffs_within_guard(visible, boundaries, checkpoint, config);
    directive::law_only_texts_of_messages_are_stripped(items, i);
    cutoff::law_payloads_are_weighed_in_characters(visible[i], config.heavy_tool_chars as int);
    cutoff::law_directive_scope_is_complete_and_separate(visible, boundaries, config, i);
    let (image_cutoff, heavy_cutoff) = cutoffs_of(visible, boundaries, checkpoint, config);
    let reach = larger(image_cutoff, heavy_cutoff);
    let sound = failures::without_failures(duplicates::deduplicated(visible, reach), reach);
    lemma_placeholders_say_pruned();
    match sound[i] {
        ItemView::FunctionCall { name, arguments, call_id, .. } => {
            lemma_input_placeholder_says_pruned(name, call_id, arguments.len() as int, arguments);
        },
        ItemView::CustomToolCall { name, input, call_id, .. } => {
            lemma_input_placeholder_says_pruned(name, call_id, input.len() as int, input);
        },
        _ => {},
    }
}

/// Where the newest directive asks for a number of turns, no image is left in the prompt in that many of
/// the oldest turns, as far as these are not among the newest.
pub proof fn law_directive_for_turns_is_obeyed(
    items: Seq<ItemView>,
    config: ContextPrunerConfig,
    turns: usize,
    i: int,
)
    requires
        config.enable_directives,
        directive::latest_directive(items) is Some,
        directive::latest_directive(items)->0.target == (
        directive::CheckpointTarget::LegacyTurns(turns)),
        0 <= i < cutoff::requested_cutoff(
            item::turn_boundaries_of(items),
            turns as int,
            config.keep_recent_turns as int,
        ),
        cutoff::has_image(items[i]),
    ensures
        match prompt_of(items, config)[i] {
            ItemView::ImageGenerationCall { result, .. } => says_pruned(result),
            pruned => !cutoff::has_image(pruned),
        },
{
    let visible = directive::stripped_items(items);
    let boundaries = item::turn_boundaries_of(items);
    let checkpoint = directive::latest_directive(items);
    lemma_stripping_keeps_turns_and_images(items);
    lemma_cutoffs_within_guard(visible, boundaries, checkpoint, config);
    cutoff::law_directive_reaches_what_it_names(visible, boundaries, turns, config);
    cutoff::law_requested_cutoff_counts_turns(
        boundaries,
        turns as int,
        config.keep_recent_turns as int,
    );
    law_older_images_are_removed(visible, boundaries, checkpoint, config, i);
    lemma_image_placeholder_says_pruned(checkpoint);
}

} // verus!
