//! Where pruning stops: cutoffs that never reach into the newest turns.
//!
//! A cutoff is an index into the conversation; the items before it may be pruned. Where a turn
//! begins is given by one flag for each item.
use crate::item;
use crate::item::{
    ContentItem, ContentView, FunctionCallOutputContentItem, FunctionCallOutputPayload, ItemView,
    OutputPartView, OutputView, ResponseItem,
};
use crate::pruner::config::ContextPrunerConfig;
use crate::pruner::directive::{CheckpointDirective, CheckpointTarget};
use crate::text;
use vstd::prelude::*;
use vstd::string::*;

verus! {

/// The indices at which turns begin, in order.
pub open spec fn turn_positions_of(boundaries: Seq<bool>) -> Seq<int>
    decreases boundaries.len(),
{
    if boundaries.len() == 0 {
        Seq::empty()
    } else if boundaries.last() {
        turn_positions_of(boundaries.drop_last()).push(boundaries.len() - 1)
    } else {
        turn_positions_of(boundaries.drop_last())
    }
}

/// How many turns are older than the newest `keep_recent_turns`.
pub open spec fn eligible_turns(boundaries: Seq<bool>, keep_recent_turns: int) -> int {
    let turns = turn_positions_of(boundaries).len();
    if turns > keep_recent_turns {
        turns - keep_recent_turns
    } else {
        0
    }
}

/// The index up to which the oldest `turns` turns reach.
pub open spec fn cutoff_after_turns(boundaries: Seq<bool>, turns: int) -> int {
    let positions = turn_positions_of(boundaries);
    if turns <= 0 {
        0
    } else if turns >= positions.len() {
        boundaries.len() as int
    } else {
        positions[turns]
    }
}

/// The number of turns that automatic pruning covers: the eligible ones, in whole segments.
pub open spec fn segmented_turns(
    boundaries: Seq<bool>,
    keep_recent_turns: int,
    segment_turns: int,
) -> int {
    let segment = if segment_turns < 1 {
        1
    } else {
        segment_turns
    };
    eligible_turns(boundaries, keep_recent_turns) / segment * segment
}

/// The cutoff of automatic pruning.
pub open spec fn automatic_cutoff(
    boundaries: Seq<bool>,
    keep_recent_turns: int,
    segment_turns: int,
) -> int {
    cutoff_after_turns(
        boundaries,
        segmented_turns(boundaries, keep_recent_turns, segment_turns),
    )
}

/// The cutoff for a request to prune the oldest `requested_turns` turns.
pub open spec fn requested_cutoff(
    boundaries: Seq<bool>,
    requested_turns: int,
    keep_recent_turns: int,
) -> int {
    let eligible = eligible_turns(boundaries, keep_recent_turns);
    cutoff_after_turns(
        boundaries,
        if requested_turns < eligible {
            requested_turns
        } else {
            eligible
        },
    )
}

/// The index at which the newest `keep_recent_turns` turns begin. Nothing at or after it is
/// pruned.
pub open spec fn recent_turn_guard(boundaries: Seq<bool>, keep_recent_turns: int) -> int {
    let positions = turn_positions_of(boundaries);
    if keep_recent_turns <= 0 {
        boundaries.len() as int
    } else if keep_recent_turns >= positions.len() {
        0
    } else {
        positions[positions.len() - keep_recent_turns]
    }
}

/// Whether a part of a message is an image.
pub open spec fn is_image(part: ContentView) -> bool {
    part is InputImage
}

/// Whether a part of a tool output is an image.
pub open spec fn is_output_image(part: OutputPartView) -> bool {
    part is InputImage
}

/// Whether one of the parts of a message is an image.
pub open spec fn content_has_image(content: Seq<ContentView>) -> bool {
    exists|i: int| 0 <= i < content.len() && is_image(#[trigger] content[i])
}

/// Whether one of the parts of a tool output is an image.
pub open spec fn parts_have_image(parts: Seq<OutputPartView>) -> bool {
    exists|i: int| 0 <= i < parts.len() && is_output_image(#[trigger] parts[i])
}

/// Whether a tool output holds an image.
pub open spec fn output_has_image(output: OutputView) -> bool {
    match output.body {
        item::BodyView::Text(_) => false,
        item::BodyView::ContentItems(parts) => parts_have_image(parts),
    }
}

/// Whether an item holds an image: in a message, in a tool output, or as the result of image
/// generation.
pub open spec fn has_image(item: ItemView) -> bool {
    match item {
        ItemView::Message { content, .. } => content_has_image(content),
        ItemView::FunctionCallOutput { output, .. } => output_has_image(output),
        ItemView::CustomToolCallOutput { output, .. } => output_has_image(output),
        ItemView::ImageGenerationCall { result, .. } => result.len() > 0,
        _ => false,
    }
}

/// Tools whose payloads are kept however large they are.
pub open spec fn is_heavy_protected(name: Seq<char>) -> bool {
    ||| name == "task"@
    ||| name == "skill"@
    ||| name == "todowrite"@
    ||| name == "todoread"@
    ||| name == "compress"@
    ||| name == "batch"@
    ||| name == "plan_enter"@
    ||| name == "plan_exit"@
}

/// Whether a tool output, as text, has more than `limit` characters.
pub open spec fn output_is_heavy(output: OutputView, limit: int) -> bool {
    output.body.to_text() matches Some(text) && text.len() > limit
}

/// Whether an item holds a heavy tool payload: the input of a call of a tool that is not
/// protected, or an output.
pub open spec fn has_heavy_payload(item: ItemView, limit: int) -> bool {
    match item {
        ItemView::FunctionCall { name, arguments, .. } => !is_heavy_protected(name)
            && arguments.len() > limit,
        ItemView::CustomToolCall { name, input, .. } => !is_heavy_protected(name) && input.len()
            > limit,
        ItemView::FunctionCallOutput { output, .. } => output_is_heavy(output, limit),
        ItemView::CustomToolCallOutput { output, .. } => output_is_heavy(output, limit),
        _ => false,
    }
}

/// The length of the shortest beginning of `items` that holds every image of it.
pub open spec fn after_last_image(items: Seq<ItemView>) -> int
    decreases items.len(),
{
    if items.len() == 0 {
        0
    } else if has_image(items.last()) {
        items.len() as int
    } else {
        after_last_image(items.drop_last())
    }
}

/// The length of the shortest beginning of `items` that holds every heavy payload of it.
pub open spec fn after_last_heavy(items: Seq<ItemView>, limit: int) -> int
    decreases items.len(),
{
    if items.len() == 0 {
        0
    } else if has_heavy_payload(items.last(), limit) {
        items.len() as int
    } else {
        after_last_heavy(items.drop_last(), limit)
    }
}

/// The items before an index.
pub open spec fn before(items: Seq<ItemView>, index: int) -> Seq<ItemView> {
    if index < items.len() {
        items.take(index)
    } else {
        items
    }
}

/// The cutoffs for images and for heavy payloads that a directive asks for.
pub open spec fn checkpoint_cutoffs_of(
    items: Seq<ItemView>,
    boundaries: Seq<bool>,
    target: CheckpointTarget,
    config: ContextPrunerConfig,
) -> (int, int) {
    let keep = config.keep_recent_turns as int;
    let guard = recent_turn_guard(boundaries, keep);
    match target {
        CheckpointTarget::OlderImages => (after_last_image(before(items, guard)), 0),
        CheckpointTarget::OlderHeavy => (
            0,
            after_last_heavy(before(items, guard), config.heavy_tool_chars as int),
        ),
        CheckpointTarget::LegacyTurns(turns) => (
            requested_cutoff(boundaries, turns as int, keep),
            requested_cutoff(boundaries, turns as int, keep),
        ),
    }
}

/// Turn positions are indices of boundaries, in ascending order, and each boundary is among them.
pub proof fn lemma_turn_positions(boundaries: Seq<bool>)
    ensures
        turn_positions_of(boundaries).len() <= boundaries.len(),
        forall|i: int|
            0 <= i < turn_positions_of(boundaries).len() ==> 0 <= #[trigger] turn_positions_of(
                boundaries,
            )[i] < boundaries.len() && boundaries[turn_positions_of(boundaries)[i]],
        forall|i: int, j: int|
            0 <= i < j < turn_positions_of(boundaries).len() ==> #[trigger] turn_positions_of(
                boundaries,
            )[i] < #[trigger] turn_positions_of(boundaries)[j],
        forall|p: int|
            0 <= p < boundaries.len() && #[trigger] boundaries[p] ==> turn_positions_of(
                boundaries,
            ).contains(p),
    decreases boundaries.len(),
{
    if boundaries.len() > 0 {
        let shorter = boundaries.drop_last();
        let positions = turn_positions_of(boundaries);
        lemma_turn_positions(shorter);
        assert forall|p: int| 0 <= p < boundaries.len() && #[trigger] boundaries[p] implies
            positions.contains(p) by {
            if p < shorter.len() {
                assert(shorter[p]);
                assert(turn_positions_of(shorter).contains(p));
                let k = choose|k: int|
                    0 <= k < turn_positions_of(shorter).len() && turn_positions_of(shorter)[k] == p;
                assert(positions[k] == p);
            } else {
                assert(positions[positions.len() - 1] == p);
            }
        }
    }
}

/// Whole segments are no more than what they are taken from.
proof fn lemma_whole_segments(turns: int, segment: int)
    requires
        turns >= 0,
        segment >= 1,
    ensures
        0 <= turns / segment * segment <= turns,
        (turns / segment * segment) % segment == 0,
{
    assert(0 <= turns / segment * segment <= turns && (turns / segment * segment) % segment == 0)
        by (nonlinear_arith)
        requires
            turns >= 0,
            segment >= 1,
    {
        vstd::arithmetic::div_mod::lemma_fundamental_div_mod(turns, segment);
        vstd::arithmetic::div_mod::lemma_mod_multiples_basic(turns / segment, segment);
        vstd::arithmetic::div_mod::lemma_mod_bound(turns, segment);
        vstd::arithmetic::div_mod::lemma_div_pos_is_pos(turns, segment);
        assert(segment * (turns / segment) == turns / segment * segment);
    }
}

/// A cutoff after no more than the eligible turns stays before the guard.
proof fn lemma_cutoff_within_guard(boundaries: Seq<bool>, turns: int, keep_recent_turns: int)
    requires
        0 <= turns <= eligible_turns(boundaries, keep_recent_turns),
        0 <= keep_recent_turns,
    ensures
        0 <= cutoff_after_turns(boundaries, turns) <= recent_turn_guard(
            boundaries,
            keep_recent_turns,
        ) <= boundaries.len(),
{
    lemma_turn_positions(boundaries);
}

/// The beginning that holds every image of `items` is a beginning of it.
proof fn lemma_after_last_image(items: Seq<ItemView>)
    ensures
        0 <= after_last_image(items) <= items.len(),
        forall|i: int|
            after_last_image(items) <= i < items.len() ==> !has_image(#[trigger] items[i]),
    decreases items.len(),
{
    if items.len() > 0 && !has_image(items.last()) {
        lemma_after_last_image(items.drop_last());
        assert forall|i: int| after_last_image(items) <= i < items.len() implies !has_image(
            #[trigger] items[i],
        ) by {
            if i < items.len() - 1 {
                assert(items.drop_last()[i] == items[i]);
            }
        }
    }
}

/// The beginning that holds every heavy payload of `items` is a beginning of it.
proof fn lemma_after_last_heavy(items: Seq<ItemView>, limit: int)
    ensures
        0 <= after_last_heavy(items, limit) <= items.len(),
        forall|i: int|
            after_last_heavy(items, limit) <= i < items.len() ==> !has_heavy_payload(
                #[trigger] items[i],
                limit,
            ),
    decreases items.len(),
{
    if items.len() > 0 && !has_heavy_payload(items.last(), limit) {
        lemma_after_last_heavy(items.drop_last(), limit);
        assert forall|i: int|
            after_last_heavy(items, limit) <= i < items.len() implies !has_heavy_payload(
            #[trigger] items[i],
            limit,
        ) by {
            if i < items.len() - 1 {
                assert(items.drop_last()[i] == items[i]);
            }
        }
    }
}

/// Automatic pruning never reaches into the newest turns.
pub proof fn law_automatic_cutoff_spares_recent_turns(
    boundaries: Seq<bool>,
    keep_recent_turns: int,
    segment_turns: int,
)
    requires
        0 <= keep_recent_turns,
    ensures
        0 <= automatic_cutoff(boundaries, keep_recent_turns, segment_turns) <= recent_turn_guard(
            boundaries,
            keep_recent_turns,
        ) <= boundaries.len(),
{
    let segment = if segment_turns < 1 {
        1
    } else {
        segment_turns
    };
    lemma_whole_segments(eligible_turns(boundaries, keep_recent_turns), segment);
    lemma_cutoff_within_guard(
        boundaries,
        segmented_turns(boundaries, keep_recent_turns, segment_turns),
        keep_recent_turns,
    );
}

/// A directive, whatever it asks for, never reaches into the newest turns.
pub proof fn law_directive_cutoffs_spare_recent_turns(
    items: Seq<ItemView>,
    boundaries: Seq<bool>,
    target: CheckpointTarget,
    config: ContextPrunerConfig,
)
    requires
        items.len() == boundaries.len(),
    ensures
        ({
            let (image, heavy) = checkpoint_cutoffs_of(items, boundaries, target, config);
            let guard = recent_turn_guard(boundaries, config.keep_recent_turns as int);
            &&& 0 <= image <= guard
            &&& 0 <= heavy <= guard
        }),
{
    let keep = config.keep_recent_turns as int;
    let guard = recent_turn_guard(boundaries, keep);
    lemma_cutoff_within_guard(boundaries, 0, keep);
    match target {
        CheckpointTarget::OlderImages => {
            lemma_after_last_image(before(items, guard));
        },
        CheckpointTarget::OlderHeavy => {
            lemma_after_last_heavy(before(items, guard), config.heavy_tool_chars as int);
        },
        CheckpointTarget::LegacyTurns(turns) => {
            let eligible = eligible_turns(boundaries, keep);
            lemma_cutoff_within_guard(
                boundaries,
                if turns < eligible {
                    turns as int
                } else {
                    eligible
                },
                keep,
            );
        },
    }
}

/// A directive for images covers every image before the guard and no heavy payload; one for heavy
/// payloads covers every heavy payload before the guard and no image.
pub proof fn law_directive_scope_is_complete_and_separate(
    items: Seq<ItemView>,
    boundaries: Seq<bool>,
    config: ContextPrunerConfig,
    i: int,
)
    requires
        items.len() == boundaries.len(),
        0 <= i < recent_turn_guard(boundaries, config.keep_recent_turns as int),
    ensures
        has_image(items[i]) ==> i < checkpoint_cutoffs_of(
            items,
            boundaries,
            CheckpointTarget::OlderImages,
            config,
        ).0,
        checkpoint_cutoffs_of(items, boundaries, CheckpointTarget::OlderImages, config).1 == 0,
        has_heavy_payload(items[i], config.heavy_tool_chars as int) ==> i < checkpoint_cutoffs_of(
            items,
            boundaries,
            CheckpointTarget::OlderHeavy,
            config,
        ).1,
        checkpoint_cutoffs_of(items, boundaries, CheckpointTarget::OlderHeavy, config).0 == 0,
{
    let guard = recent_turn_guard(boundaries, config.keep_recent_turns as int);
    lemma_cutoff_within_guard(boundaries, 0, config.keep_recent_turns as int);
    let older = before(items, guard);
    assert(older[i] == items[i]);
    lemma_after_last_image(older);
    lemma_after_last_heavy(older, config.heavy_tool_chars as int);
}

/// Turn positions of the beginning of a conversation are the first ones of the whole; the others
/// come after it.
proof fn lemma_turn_positions_of_beginning(earlier: Seq<bool>, later: Seq<bool>)
    requires
        earlier.len() <= later.len(),
        later.take(earlier.len() as int) == earlier,
    ensures
        turn_positions_of(earlier).len() <= turn_positions_of(later).len(),
        turn_positions_of(later).take(turn_positions_of(earlier).len() as int)
            == turn_positions_of(earlier),
        forall|t: int|
            turn_positions_of(earlier).len() <= t < turn_positions_of(later).len() ==> earlier.len()
                <= #[trigger] turn_positions_of(later)[t],
    decreases later.len(),
{
    if earlier.len() == later.len() {
        assert(later.take(earlier.len() as int) =~= later);
        assert(turn_positions_of(later).take(turn_positions_of(later).len() as int)
            =~= turn_positions_of(later));
    } else {
        assert(later.drop_last().take(earlier.len() as int) =~= earlier);
        lemma_turn_positions_of_beginning(earlier, later.drop_last());
        let shorter = turn_positions_of(later.drop_last());
        assert(turn_positions_of(later).take(turn_positions_of(earlier).len() as int)
            =~= shorter.take(turn_positions_of(earlier).len() as int));
    }
}

/// As a conversation grows, the automatic cutoff stays where it is until another whole segment of
/// turns has become eligible, so what the model has seen before keeps its form.
pub proof fn law_automatic_cutoff_moves_by_segments(
    earlier: Seq<bool>,
    later: Seq<bool>,
    keep_recent_turns: int,
    segment_turns: int,
)
    requires
        keep_recent_turns >= 1,
        earlier.len() <= later.len(),
        later.take(earlier.len() as int) == earlier,
        segmented_turns(earlier, keep_recent_turns, segment_turns) == segmented_turns(
            later,
            keep_recent_turns,
            segment_turns,
        ),
    ensures
        automatic_cutoff(earlier, keep_recent_turns, segment_turns) == automatic_cutoff(
            later,
            keep_recent_turns,
            segment_turns,
        ),
{
    let segment = if segment_turns < 1 {
        1
    } else {
        segment_turns
    };
    lemma_whole_segments(eligible_turns(earlier, keep_recent_turns), segment);
    lemma_turn_positions_of_beginning(earlier, later);
    let turns = segmented_turns(earlier, keep_recent_turns, segment_turns);
    let positions = turn_positions_of(earlier);
    if turns > 0 {
        assert(turns < positions.len());
        assert(turn_positions_of(later).take(positions.len() as int)[turns] == positions[turns]);
    }
}

/// As a conversation grows, the automatic cutoff never moves back: what was pruned stays pruned.
pub proof fn law_automatic_cutoff_never_moves_back(
    earlier: Seq<bool>,
    later: Seq<bool>,
    keep_recent_turns: int,
    segment_turns: int,
)
    requires
        earlier.len() <= later.len(),
        later.take(earlier.len() as int) == earlier,
    ensures
        automatic_cutoff(earlier, keep_recent_turns, segment_turns) <= automatic_cutoff(
            later,
            keep_recent_turns,
            segment_turns,
        ),
{
    let segment = if segment_turns < 1 {
        1
    } else {
        segment_turns
    };
    let eligible = eligible_turns(earlier, keep_recent_turns);
    let later_eligible = eligible_turns(later, keep_recent_turns);
    lemma_turn_positions_of_beginning(earlier, later);
    lemma_turn_positions(earlier);
    lemma_turn_positions(later);
    lemma_whole_segments(eligible, segment);
    lemma_whole_segments(later_eligible, segment);
    vstd::arithmetic::div_mod::lemma_div_is_ordered(eligible, later_eligible, segment);
    vstd::arithmetic::mul::lemma_mul_inequality(
        eligible / segment,
        later_eligible / segment,
        segment,
    );
    let turns = segmented_turns(earlier, keep_recent_turns, segment_turns);
    let later_turns = segmented_turns(later, keep_recent_turns, segment_turns);
    let positions = turn_positions_of(earlier);
    let later_positions = turn_positions_of(later);
    assert(turns <= later_turns);
    if 0 < turns < positions.len() {
        assert(later_positions.take(positions.len() as int)[turns] == positions[turns]);
    }
}

/// Automatic pruning covers a whole number of segments.
pub proof fn law_automatic_pruning_covers_whole_segments(
    boundaries: Seq<bool>,
    keep_recent_turns: int,
    segment_turns: int,
)
    requires
        segment_turns >= 1,
    ensures
        segmented_turns(boundaries, keep_recent_turns, segment_turns) % segment_turns == 0,
        0 <= segmented_turns(boundaries, keep_recent_turns, segment_turns) <= eligible_turns(
            boundaries,
            keep_recent_turns,
        ),
        eligible_turns(boundaries, keep_recent_turns) - segmented_turns(
            boundaries,
            keep_recent_turns,
            segment_turns,
        ) < segment_turns,
{
    let eligible = eligible_turns(boundaries, keep_recent_turns);
    lemma_whole_segments(eligible, segment_turns);
    assert(eligible - eligible / segment_turns * segment_turns < segment_turns) by {
        vstd::arithmetic::div_mod::lemma_fundamental_div_mod(eligible, segment_turns);
        vstd::arithmetic::div_mod::lemma_mod_bound(eligible, segment_turns);
        vstd::arithmetic::mul::lemma_mul_is_commutative(eligible / segment_turns, segment_turns);
    }
}

/// Finds the indices at which turns begin.
fn turn_positions(boundaries: &[bool]) -> (positions: Vec<usize>)
    ensures
        positions@.map_values(|p: usize| p as int) == turn_positions_of(boundaries@),
        positions@.len() == turn_positions_of(boundaries@).len(),
        forall|i: int|
            0 <= i < positions@.len() ==> #[trigger] positions@[i] == turn_positions_of(
                boundaries@,
            )[i],
{
    let mut positions: Vec<usize> = Vec::new();
    let mut i: usize = 0;
    while i < boundaries.len()
        invariant
            i <= boundaries@.len(),
            positions@.map_values(|p: usize| p as int) == turn_positions_of(
                boundaries@.take(i as int),
            ),
        decreases boundaries@.len() - i,
    {
        assert(boundaries@.take(i + 1).drop_last() =~= boundaries@.take(i as int));
        let ghost earlier = positions@.map_values(|p: usize| p as int);
        if boundaries[i] {
            positions.push(i);
            assert(positions@.map_values(|p: usize| p as int) =~= earlier.push(i as int));
        }
        i += 1;
    }
    assert(boundaries@.take(i as int) =~= boundaries@);
    assert forall|i: int| 0 <= i < positions@.len() implies #[trigger] positions@[i]
        == turn_positions_of(boundaries@)[i] by {
        assert(positions@.map_values(|p: usize| p as int)[i] == positions@[i]);
    }
    positions
}

/// The index up to which the oldest `turns` turns reach.
fn cutoff_after(boundaries: &[bool], positions: &Vec<usize>, turns: usize) -> (cutoff: usize)
    requires
        positions@.len() == turn_positions_of(boundaries@).len(),
        forall|i: int|
            0 <= i < positions@.len() ==> #[trigger] positions@[i] == turn_positions_of(
                boundaries@,
            )[i],
    ensures
        cutoff == cutoff_after_turns(boundaries@, turns as int),
{
    if turns == 0 {
        0
    } else if turns >= positions.len() {
        boundaries.len()
    } else {
        positions[turns]
    }
}

/// The cutoff of automatic pruning.
pub fn pruning_cutoff(boundaries: &[bool], keep_recent_turns: usize, segment_turns: usize) -> (cutoff:
    usize)
    ensures
        cutoff == automatic_cutoff(boundaries@, keep_recent_turns as int, segment_turns as int),
        cutoff <= boundaries@.len(),
{
    let positions = turn_positions(boundaries);
    let turns: usize = positions.len();
    let eligible: usize = if turns > keep_recent_turns {
        turns - keep_recent_turns
    } else {
        0
    };
    let segment: usize = if segment_turns < 1 {
        1
    } else {
        segment_turns
    };
    proof {
        lemma_whole_segments(eligible as int, segment as int);
        law_automatic_cutoff_spares_recent_turns(
            boundaries@,
            keep_recent_turns as int,
            segment_turns as int,
        );
    }
    let pruned: usize = eligible / segment * segment;
    cutoff_after(boundaries, &positions, pruned)
}

/// The cutoff for a request to prune the oldest `requested_turns` turns.
pub fn pruning_cutoff_for_requested_turns(
    boundaries: &[bool],
    requested_turns: usize,
    keep_recent_turns: usize,
) -> (cutoff: usize)
    ensures
        cutoff == requested_cutoff(
            boundaries@,
            requested_turns as int,
            keep_recent_turns as int,
        ),
{
    let positions = turn_positions(boundaries);
    let turns: usize = positions.len();
    let eligible: usize = if turns > keep_recent_turns {
        turns - keep_recent_turns
    } else {
        0
    };
    let pruned: usize = if requested_turns < eligible {
        requested_turns
    } else {
        eligible
    };
    cutoff_after(boundaries, &positions, pruned)
}

/// The index at which the newest `keep_recent_turns` turns begin.
pub fn recent_turn_guard_index(boundaries: &[bool], keep_recent_turns: usize) -> (guard: usize)
    ensures
        guard == recent_turn_guard(boundaries@, keep_recent_turns as int),
{
    let positions = turn_positions(boundaries);
    if keep_recent_turns == 0 {
        boundaries.len()
    } else if keep_recent_turns >= positions.len() {
        0
    } else {
        positions[positions.len() - keep_recent_turns]
    }
}

/// Whether one of the parts of a tool output is an image.
fn parts_have_prunable_image(parts: &Vec<FunctionCallOutputContentItem>) -> (found: bool)
    ensures
        found == parts_have_image(item::output_part_views(parts@)),
{
    let ghost all = item::output_part_views(parts@);
    let mut i: usize = 0;
    while i < parts.len()
        invariant
            i <= parts@.len(),
            all == item::output_part_views(parts@),
            forall|j: int| 0 <= j < i ==> !is_output_image(#[trigger] all[j]),
        decreases parts@.len() - i,
    {
        assert(all[i as int] == parts@[i as int]@);
        if let FunctionCallOutputContentItem::InputImage { .. } = &parts[i] {
            assert(is_output_image(all[i as int]));
            return true;
        }
        i += 1;
    }
    false
}

/// Whether one of the parts of a message is an image.
fn content_has_prunable_image(content: &Vec<ContentItem>) -> (found: bool)
    ensures
        found == content_has_image(item::content_views(content@)),
{
    let ghost all = item::content_views(content@);
    let mut i: usize = 0;
    while i < content.len()
        invariant
            i <= content@.len(),
            all == item::content_views(content@),
            forall|j: int| 0 <= j < i ==> !is_image(#[trigger] all[j]),
        decreases content@.len() - i,
    {
        assert(all[i as int] == content@[i as int]@);
        if let ContentItem::InputImage { .. } = &content[i] {
            assert(is_image(all[i as int]));
            return true;
        }
        i += 1;
    }
    false
}

/// Whether a tool output holds an image.
fn output_has_prunable_image(output: &FunctionCallOutputPayload) -> (found: bool)
    ensures
        found == output_has_image(output@),
{
    match output.content_items() {
        Some(parts) => parts_have_prunable_image(parts),
        None => false,
    }
}

/// Whether an item holds an image.
pub fn item_has_prunable_image(item: &ResponseItem) -> (found: bool)
    ensures
        found == has_image(item@),
{
    match item {
        ResponseItem::Message { content, .. } => content_has_prunable_image(content),
        ResponseItem::FunctionCallOutput { output, .. } => output_has_prunable_image(output),
        ResponseItem::CustomToolCallOutput { output, .. } => output_has_prunable_image(output),
        ResponseItem::ImageGenerationCall { result, .. } => !result.as_str().is_empty(),
        _ => false,
    }
}

/// Whether a tool's payloads are kept however large they are.
pub fn is_heavy_tool_prune_protected(name: &str) -> (protected: bool)
    ensures
        protected == is_heavy_protected(name@),
{
    text::text_eq(name, "task") || text::text_eq(name, "skill") || text::text_eq(name, "todowrite")
        || text::text_eq(name, "todoread") || text::text_eq(name, "compress") || text::text_eq(
        name,
        "batch",
    ) || text::text_eq(name, "plan_enter") || text::text_eq(name, "plan_exit")
}

/// The number of characters of a tool output, as text.
pub fn output_text_len(output: &FunctionCallOutputPayload) -> (len: Option<usize>)
    ensures
        match len {
            Some(len) => output@.body.to_text() matches Some(text) && text.len() == len,
            None => output@.body.to_text() is None,
        },
{
    match output.body.to_text() {
        Some(text) => Some(text.as_str().unicode_len()),
        None => None,
    }
}

/// Whether a tool output, as text, has more than `limit` characters.
fn output_is_heavier(output: &FunctionCallOutputPayload, limit: usize) -> (heavy: bool)
    ensures
        heavy == output_is_heavy(output@, limit as int),
{
    match output_text_len(output) {
        Some(len) => len > limit,
        None => false,
    }
}

/// Whether an item holds a heavy tool payload.
pub fn item_has_prunable_heavy_tool_payload(item: &ResponseItem, heavy_tool_chars: usize) -> (found:
    bool)
    ensures
        found == has_heavy_payload(item@, heavy_tool_chars as int),
{
    match item {
        ResponseItem::FunctionCall { name, arguments, .. } => !is_heavy_tool_prune_protected(
            name.as_str(),
        ) && arguments.as_str().unicode_len() > heavy_tool_chars,
        ResponseItem::CustomToolCall { name, input, .. } => !is_heavy_tool_prune_protected(
            name.as_str(),
        ) && input.as_str().unicode_len() > heavy_tool_chars,
        ResponseItem::FunctionCallOutput { output, .. } => output_is_heavier(
            output,
            heavy_tool_chars,
        ),
        ResponseItem::CustomToolCallOutput { output, .. } => output_is_heavier(
            output,
            heavy_tool_chars,
        ),
        _ => false,
    }
}

/// The cutoff behind the newest image that stands before the guard.
pub fn pruning_cutoff_after_latest_prunable_image(
    items: &[ResponseItem],
    recent_turn_guard_index: usize,
) -> (cutoff: usize)
    ensures
        cutoff == after_last_image(
            before(item::item_views(items@), recent_turn_guard_index as int),
        ),
{
    let ghost all = item::item_views(items@);
    let mut n: usize = if recent_turn_guard_index < items.len() {
        recent_turn_guard_index
    } else {
        items.len()
    };
    assert(all.take(n as int) =~= before(all, recent_turn_guard_index as int));
    while n > 0
        invariant
            n <= items@.len(),
            all == item::item_views(items@),
            after_last_image(all.take(n as int)) == after_last_image(
                before(all, recent_turn_guard_index as int),
            ),
        decreases n,
    {
        assert(all.take(n as int).last() == items@[n - 1]@);
        assert(all.take(n as int).drop_last() =~= all.take(n - 1));
        if item_has_prunable_image(&items[n - 1]) {
            return n;
        }
        n -= 1;
    }
    0
}

/// The cutoff behind the newest heavy tool payload that stands before the guard.
pub fn pruning_cutoff_after_latest_prunable_heavy_tool(
    items: &[ResponseItem],
    recent_turn_guard_index: usize,
    heavy_tool_chars: usize,
) -> (cutoff: usize)
    ensures
        cutoff == after_last_heavy(
            before(item::item_views(items@), recent_turn_guard_index as int),
            heavy_tool_chars as int,
        ),
{
    let ghost all = item::item_views(items@);
    let mut n: usize = if recent_turn_guard_index < items.len() {
        recent_turn_guard_index
    } else {
        items.len()
    };
    assert(all.take(n as int) =~= before(all, recent_turn_guard_index as int));
    while n > 0
        invariant
            n <= items@.len(),
            all == item::item_views(items@),
            after_last_heavy(all.take(n as int), heavy_tool_chars as int) == after_last_heavy(
                before(all, recent_turn_guard_index as int),
                heavy_tool_chars as int,
            ),
        decreases n,
    {
        assert(all.take(n as int).last() == items@[n - 1]@);
        assert(all.take(n as int).drop_last() =~= all.take(n - 1));
        if item_has_prunable_heavy_tool_payload(&items[n - 1], heavy_tool_chars) {
            return n;
        }
        n -= 1;
    }
    0
}

/// The cutoffs for images and for heavy payloads that a directive asks for.
pub fn checkpoint_cutoffs(
    items: &[ResponseItem],
    boundaries: &[bool],
    checkpoint: &CheckpointDirective,
    config: &ContextPrunerConfig,
) -> (cutoffs: (usize, usize))
    ensures
        (cutoffs.0 as int, cutoffs.1 as int) == checkpoint_cutoffs_of(
            item::item_views(items@),
            boundaries@,
            checkpoint.target,
            *config,
        ),
{
    match checkpoint.target {
        CheckpointTarget::OlderImages => {
            let guard = recent_turn_guard_index(boundaries, config.keep_recent_turns);
            (pruning_cutoff_after_latest_prunable_image(items, guard), 0)
        },
        CheckpointTarget::OlderHeavy => {
            let guard = recent_turn_guard_index(boundaries, config.keep_recent_turns);
            (
                0,
                pruning_cutoff_after_latest_prunable_heavy_tool(
                    items,
                    guard,
                    config.heavy_tool_chars,
                ),
            )
        },
        CheckpointTarget::LegacyTurns(requested_turns) => {
            let cutoff = pruning_cutoff_for_requested_turns(
                boundaries,
                requested_turns,
                config.keep_recent_turns,
            );
            (cutoff, cutoff)
        },
    }
}

/// The number of turns that open among these items.
pub open spec fn turns_in(boundaries: Seq<bool>) -> int {
    boundaries.filter(|opens: bool| opens).len() as int
}

/// The number of turns is the number of turn positions, and before each of these lie as many turns as
/// positions.
proof fn lemma_turns_in(boundaries: Seq<bool>)
    ensures
        turns_in(boundaries) == turn_positions_of(boundaries).len(),
        forall|t: int|
            0 <= t < turn_positions_of(boundaries).len() ==> turns_in(
                boundaries.take(#[trigger] turn_positions_of(boundaries)[t]),
            ) == t,
    decreases boundaries.len(),
{
    reveal(Seq::filter);
    lemma_turn_positions(boundaries);
    if boundaries.len() > 0 {
        let shorter = boundaries.drop_last();
        lemma_turns_in(shorter);
        lemma_turn_positions(shorter);
        let positions = turn_positions_of(boundaries);
        assert forall|t: int| 0 <= t < positions.len() implies turns_in(
            boundaries.take(#[trigger] positions[t]),
        ) == t by {
            if t < turn_positions_of(shorter).len() {
                assert(positions[t] == turn_positions_of(shorter)[t]);
                assert(boundaries.take(positions[t]) =~= shorter.take(positions[t]));
            } else {
                assert(boundaries.take(positions[t]) =~= shorter);
            }
        }
    }
}

/// A cutoff after some turns has that many turns before it, and lies where the next turn opens, or at
/// the end where none follows.
proof fn lemma_cutoff_counts_turns(boundaries: Seq<bool>, turns: int)
    requires
        0 <= turns <= turns_in(boundaries),
    ensures
        ({
            let cutoff = cutoff_after_turns(boundaries, turns);
            &&& 0 <= cutoff <= boundaries.len()
            &&& turns_in(boundaries.take(cutoff)) == turns
            &&& turns == 0 ==> cutoff == 0
            &&& 0 < turns < turns_in(boundaries) ==> cutoff < boundaries.len() && boundaries[cutoff]
            &&& 0 < turns == turns_in(boundaries) ==> cutoff == boundaries.len()
        }),
{
    lemma_turns_in(boundaries);
    lemma_turn_positions(boundaries);
    reveal(Seq::filter);
    assert(boundaries.take(0) =~= Seq::<bool>::empty());
    assert(boundaries.take(boundaries.len() as int) =~= boundaries);
    if turns == 0 {
        assert(turns_in(Seq::<bool>::empty()) == 0);
    }
}

/// Automatic pruning covers as many turns as there are whole segments among the turns before the
/// newest `keep_recent_turns`, and ends where a turn opens.
pub proof fn law_automatic_cutoff_counts_turns(
    boundaries: Seq<bool>,
    keep_recent_turns: int,
    segment_turns: int,
)
    requires
        0 <= keep_recent_turns,
        1 <= segment_turns,
    ensures
        ({
            let cutoff = automatic_cutoff(boundaries, keep_recent_turns, segment_turns);
            let covered = turns_in(boundaries.take(cutoff));
            let older = turns_in(boundaries) - keep_recent_turns;
            &&& 0 <= cutoff <= boundaries.len()
            &&& covered % segment_turns == 0
            &&& older <= 0 ==> covered == 0
            &&& older > 0 ==> covered <= older < covered + segment_turns
            &&& covered == 0 ==> cutoff == 0
            &&& 0 < covered < turns_in(boundaries) ==> boundaries[cutoff]
            &&& 0 < covered == turns_in(boundaries) ==> cutoff == boundaries.len()
        }),
{
    lemma_turns_in(boundaries);
    law_automatic_pruning_covers_whole_segments(boundaries, keep_recent_turns, segment_turns);
    let turns = segmented_turns(boundaries, keep_recent_turns, segment_turns);
    lemma_cutoff_counts_turns(boundaries, turns);
}

/// A segment of no turns is taken for one of a single turn.
pub proof fn law_empty_segments_are_single_turns(boundaries: Seq<bool>, keep_recent_turns: int)
    ensures
        automatic_cutoff(boundaries, keep_recent_turns, 0) == automatic_cutoff(
            boundaries,
            keep_recent_turns,
            1,
        ),
{
}

/// A request for turns covers as many as it asks for, or all before the newest `keep_recent_turns`
/// where it asks for more, and ends where a turn opens.
pub proof fn law_requested_cutoff_counts_turns(
    boundaries: Seq<bool>,
    requested_turns: int,
    keep_recent_turns: int,
)
    requires
        0 <= requested_turns,
        0 <= keep_recent_turns,
    ensures
        ({
            let cutoff = requested_cutoff(boundaries, requested_turns, keep_recent_turns);
            let covered = turns_in(boundaries.take(cutoff));
            let older = turns_in(boundaries) - keep_recent_turns;
            &&& 0 <= cutoff <= boundaries.len()
            &&& older <= 0 ==> covered == 0
            &&& 0 < older <= requested_turns ==> covered == older
            &&& requested_turns < older ==> covered == requested_turns
            &&& covered == 0 ==> cutoff == 0
            &&& 0 < covered < turns_in(boundaries) ==> boundaries[cutoff]
            &&& 0 < covered == turns_in(boundaries) ==> cutoff == boundaries.len()
        }),
{
    lemma_turns_in(boundaries);
    let eligible = eligible_turns(boundaries, keep_recent_turns);
    lemma_cutoff_counts_turns(
        boundaries,
        if requested_turns < eligible {
            requested_turns
        } else {
            eligible
        },
    );
}

/// The guard stands where the newest `keep_recent_turns` turns open: at the start where there are no
/// more turns than that, and at the end where none is kept.
pub proof fn law_guard_keeps_the_newest_turns(boundaries: Seq<bool>, keep_recent_turns: int)
    requires
        0 <= keep_recent_turns,
    ensures
        ({
            let guard = recent_turn_guard(boundaries, keep_recent_turns);
            &&& 0 <= guard <= boundaries.len()
            &&& keep_recent_turns == 0 ==> guard == boundaries.len()
            &&& 0 < keep_recent_turns && turns_in(boundaries) <= keep_recent_turns ==> guard == 0
            &&& 0 < keep_recent_turns < turns_in(boundaries) ==> {
                &&& guard < boundaries.len()
                &&& boundaries[guard]
                &&& turns_in(boundaries) - turns_in(boundaries.take(guard)) == keep_recent_turns
            }
        }),
{
    lemma_turns_in(boundaries);
    lemma_turn_positions(boundaries);
}

/// What a directive asks for, by its scope: images up to the last one before the guard and no payload,
/// heavy payloads up to the last one before the guard and no image, or both for the oldest turns.
pub proof fn law_directive_reaches_what_it_names(
    items: Seq<ItemView>,
    boundaries: Seq<bool>,
    turns: usize,
    config: ContextPrunerConfig,
)
    requires
        items.len() == boundaries.len(),
    ensures
        ({
            let (image, none) = checkpoint_cutoffs_of(
                items,
                boundaries,
                CheckpointTarget::OlderImages,
                config,
            );
            &&& none == 0
            &&& image > 0 ==> has_image(items[image - 1])
        }),
        ({
            let (none, heavy) = checkpoint_cutoffs_of(
                items,
                boundaries,
                CheckpointTarget::OlderHeavy,
                config,
            );
            &&& none == 0
            &&& heavy > 0 ==> has_heavy_payload(items[heavy - 1], config.heavy_tool_chars as int)
        }),
        ({
            let (image, heavy) = checkpoint_cutoffs_of(
                items,
                boundaries,
                CheckpointTarget::LegacyTurns(turns),
                config,
            );
            &&& image == heavy
            &&& image == requested_cutoff(
                boundaries,
                turns as int,
                config.keep_recent_turns as int,
            )
        }),
{
    let guard = recent_turn_guard(boundaries, config.keep_recent_turns as int);
    lemma_cutoff_within_guard(boundaries, 0, config.keep_recent_turns as int);
    let older = before(items, guard);
    lemma_last_image(older);
    lemma_last_heavy(older, config.heavy_tool_chars as int);
}

/// The beginning that holds every image ends with one.
proof fn lemma_last_image(items: Seq<ItemView>)
    ensures
        0 <= after_last_image(items) <= items.len(),
        after_last_image(items) > 0 ==> has_image(items[after_last_image(items) - 1]),
    decreases items.len(),
{
    if items.len() > 0 {
        lemma_last_image(items.drop_last());
    }
}

/// The beginning that holds every heavy payload ends with one.
proof fn lemma_last_heavy(items: Seq<ItemView>, limit: int)
    ensures
        0 <= after_last_heavy(items, limit) <= items.len(),
        after_last_heavy(items, limit) > 0 ==> has_heavy_payload(
            items[after_last_heavy(items, limit) - 1],
            limit,
        ),
    decreases items.len(),
{
    if items.len() > 0 {
        lemma_last_heavy(items.drop_last(), limit);
    }
}

/// An image counts in whatever part of a message or of the output of a function or of a custom tool it
/// stands, and so does the result of image generation.
pub proof fn law_images_count_wherever_they_stand(item: ItemView)
    ensures
        match item {
            ItemView::Message { content, .. } => has_image(item) <==> exists|k: int|
                0 <= k < content.len() && (#[trigger] content[k]) is InputImage,
            ItemView::FunctionCallOutput { output, .. } => has_image(item) <==> (
            output.body matches item::BodyView::ContentItems(parts) && exists|k: int|
                0 <= k < parts.len() && (#[trigger] parts[k]) is InputImage),
            ItemView::CustomToolCallOutput { output, .. } => has_image(item) <==> (
            output.body matches item::BodyView::ContentItems(parts) && exists|k: int|
                0 <= k < parts.len() && (#[trigger] parts[k]) is InputImage),
            ItemView::ImageGenerationCall { result, .. } => has_image(item) <==> result.len() > 0,
            _ => !has_image(item),
        },
{
    match item {
        ItemView::Message { content, .. } => {
            if exists|k: int| 0 <= k < content.len() && (#[trigger] content[k]) is InputImage {
                let k = choose|k: int|
                    0 <= k < content.len() && (#[trigger] content[k]) is InputImage;
                assert(is_image(content[k]));
            }
        },
        ItemView::FunctionCallOutput { output, .. } => {
            lemma_output_images(output);
        },
        ItemView::CustomToolCallOutput { output, .. } => {
            lemma_output_images(output);
        },
        _ => {},
    }
}

/// An image counts in whatever part of an output it stands.
proof fn lemma_output_images(output: OutputView)
    ensures
        output_has_image(output) <==> (output.body matches item::BodyView::ContentItems(parts)
            && exists|k: int| 0 <= k < parts.len() && (#[trigger] parts[k]) is InputImage),
{
    if let item::BodyView::ContentItems(parts) = output.body {
        if exists|k: int| 0 <= k < parts.len() && (#[trigger] parts[k]) is InputImage {
            let k = choose|k: int| 0 <= k < parts.len() && (#[trigger] parts[k]) is InputImage;
            assert(is_output_image(parts[k]));
        }
    }
}

/// The tools whose payloads are kept however large they are.
pub open spec fn tools_that_are_kept() -> Seq<Seq<char>> {
    seq![
        "task"@,
        "skill"@,
        "todowrite"@,
        "todoread"@,
        "compress"@,
        "batch"@,
        "plan_enter"@,
        "plan_exit"@,
    ]
}

/// The tools whose payloads are kept are these, and no others.
pub proof fn lemma_kept_tools(name: Seq<char>)
    ensures
        is_heavy_protected(name) <==> tools_that_are_kept().contains(name),
{
    let tools = tools_that_are_kept();
    assert(tools[0] == "task"@ && tools[1] == "skill"@ && tools[2] == "todowrite"@ && tools[3]
        == "todoread"@ && tools[4] == "compress"@ && tools[5] == "batch"@ && tools[6]
        == "plan_enter"@ && tools[7] == "plan_exit"@);
}

/// A payload is heavy if it has more characters than the limit: the arguments of a function and the
/// input of a custom tool, unless the tool is one of those whose payloads are kept, and the text of the
/// output of either.
pub proof fn law_payloads_are_weighed_in_characters(item: ItemView, limit: int)
    ensures
        match item {
            ItemView::FunctionCall { name, arguments, .. } => has_heavy_payload(item, limit)
                <==> arguments.len() > limit && !tools_that_are_kept().contains(name),
            ItemView::CustomToolCall { name, input, .. } => has_heavy_payload(item, limit)
                <==> input.len() > limit && !tools_that_are_kept().contains(name),
            ItemView::FunctionCallOutput { output, .. } => has_heavy_payload(item, limit) <==> (
            output.body.to_text() matches Some(text) && text.len() > limit),
            ItemView::CustomToolCallOutput { output, .. } => has_heavy_payload(item, limit) <==> (
            output.body.to_text() matches Some(text) && text.len() > limit),
            _ => !has_heavy_payload(item, limit),
        },
{
    match item {
        ItemView::FunctionCall { name, .. } => {
            lemma_kept_tools(name);
        },
        ItemView::CustomToolCall { name, .. } => {
            lemma_kept_tools(name);
        },
        _ => {},
    }
}

} // verus!
