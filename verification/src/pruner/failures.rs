//! Removal of the inputs and outputs of failed calls.
use crate::item;
use crate::item::{FunctionCallOutputPayload, ItemView, ResponseItem};
use crate::pruner::placeholder::{ERROR_TOOL_INPUT_PLACEHOLDER, ERROR_TOOL_OUTPUT_PLACEHOLDER};
use vstd::hash_set::StringHashSet;
use vstd::prelude::*;

verus! {

/// The id of the call that an item answers, where the answer says that the call failed.
pub open spec fn failed_call_id(item: ItemView) -> Option<Seq<char>> {
    match item.output() {
        Some(output) => if output.success == Some(false) {
            item.output_call_id()
        } else {
            None
        },
        None => None,
    }
}

/// Whether an answer before the cutoff says that the call with this id failed.
pub open spec fn has_failed(items: Seq<ItemView>, cutoff: int, call_id: Seq<char>) -> bool {
    exists|i: int|
        0 <= i < cutoff && i < items.len() && #[trigger] failed_call_id(items[i]) == Some(call_id)
}

/// An item of a failed call: a call without its input, an answer without its output.
pub open spec fn purged_item(item: ItemView) -> ItemView {
    match item {
        ItemView::FunctionCall { .. } => item.with_input(ERROR_TOOL_INPUT_PLACEHOLDER@),
        ItemView::CustomToolCall { .. } => item.with_input(ERROR_TOOL_INPUT_PLACEHOLDER@),
        ItemView::FunctionCallOutput { .. } => item.with_output(
            item::text_output(ERROR_TOOL_OUTPUT_PLACEHOLDER@),
        ),
        ItemView::CustomToolCallOutput { .. } => item.with_output(
            item::text_output(ERROR_TOOL_OUTPUT_PLACEHOLDER@),
        ),
        _ => item,
    }
}

/// The id of the call that an item makes or answers.
pub open spec fn call_or_output_id(item: ItemView) -> Option<Seq<char>> {
    if item.call_id() is Some {
        item.call_id()
    } else {
        item.output_call_id()
    }
}

/// A conversation without the inputs and outputs before the cutoff of calls that failed there.
pub open spec fn without_failures(items: Seq<ItemView>, cutoff: int) -> Seq<ItemView> {
    Seq::new(
        items.len(),
        |i: int|
            if i < cutoff && (call_or_output_id(items[i]) matches Some(id) && has_failed(
                items,
                cutoff,
                id,
            )) {
                purged_item(items[i])
            } else {
                items[i]
            },
    )
}

/// No answer before the cutoff is left that says that its call failed.
pub proof fn law_no_failed_output_is_left(items: Seq<ItemView>, cutoff: int, i: int)
    requires
        0 <= i < items.len(),
        i < cutoff,
    ensures
        failed_call_id(without_failures(items, cutoff)[i]) is None,
{
    if failed_call_id(items[i]) is Some {
        assert(has_failed(items, cutoff, failed_call_id(items[i])->0));
    }
}

/// The id of the call that an item answers, where the answer says that the call failed.
pub fn failed_tool_output_call_id(item: &ResponseItem) -> (call_id: Option<String>)
    ensures
        match call_id {
            Some(call_id) => failed_call_id(item@) == Some(call_id@),
            None => failed_call_id(item@) is None,
        },
{
    match item {
        ResponseItem::FunctionCallOutput { call_id, output } => match output.success {
            Some(false) => Some(call_id.clone()),
            _ => None,
        },
        ResponseItem::CustomToolCallOutput { call_id, output, .. } => match output.success {
            Some(false) => Some(call_id.clone()),
            _ => None,
        },
        _ => None,
    }
}

/// The ids of the calls that failed, as the answers before the cutoff say.
fn failed_call_ids(items: &[ResponseItem], cutoff: usize) -> (ids: StringHashSet)
    requires
        cutoff <= items@.len(),
    ensures
        forall|id: Seq<char>| #[trigger]
            ids@.contains(id) <==> has_failed(item::item_views(items@), cutoff as int, id),
{
    let ghost all = item::item_views(items@);
    let mut ids = StringHashSet::new();
    let mut n: usize = 0;
    while n < cutoff
        invariant
            n <= cutoff <= items@.len(),
            all == item::item_views(items@),
            forall|id: Seq<char>| #[trigger]
                ids@.contains(id) <==> has_failed(all, n as int, id),
        decreases cutoff - n,
    {
        let ghost earlier = ids@;
        assert(all[n as int] == items@[n as int]@);
        if let Some(call_id) = failed_tool_output_call_id(&items[n]) {
            ids.insert(call_id);
        }
        proof {
            assert forall|id: Seq<char>| #[trigger] ids@.contains(id) <==> has_failed(
                all,
                n + 1,
                id,
            ) by {
                assert(earlier.contains(id) <==> has_failed(all, n as int, id));
                if has_failed(all, n as int, id) {
                    let i = choose|i: int|
                        0 <= i < n && i < all.len() && #[trigger] failed_call_id(all[i]) == Some(
                            id,
                        );
                    assert(failed_call_id(all[i]) == Some(id));
                }
                if failed_call_id(all[n as int]) == Some(id) {
                    assert(has_failed(all, n + 1, id));
                }
            }
        }
        n += 1;
    }
    ids
}

/// Removes the input or output that an item holds, where it belongs to one of these calls.
fn purge_item(item: &mut ResponseItem, ids: &StringHashSet)
    ensures
        final(item)@ == if call_or_output_id(old(item)@) matches Some(id) && ids@.contains(id) {
            purged_item(old(item)@)
        } else {
            old(item)@
        },
{
    match item {
        ResponseItem::FunctionCall { call_id, arguments, .. } => {
            if ids.contains(call_id.as_str()) {
                *arguments = ERROR_TOOL_INPUT_PLACEHOLDER.to_owned();
            }
        },
        ResponseItem::CustomToolCall { call_id, input, .. } => {
            if ids.contains(call_id.as_str()) {
                *input = ERROR_TOOL_INPUT_PLACEHOLDER.to_owned();
            }
        },
        ResponseItem::FunctionCallOutput { call_id, output } => {
            if ids.contains(call_id.as_str()) {
                *output = FunctionCallOutputPayload::from_text(
                    ERROR_TOOL_OUTPUT_PLACEHOLDER.to_owned(),
                );
            }
        },
        ResponseItem::CustomToolCallOutput { call_id, output, .. } => {
            if ids.contains(call_id.as_str()) {
                *output = FunctionCallOutputPayload::from_text(
                    ERROR_TOOL_OUTPUT_PLACEHOLDER.to_owned(),
                );
            }
        },
        _ => {},
    }
}

/// Removes the inputs and outputs before the cutoff of calls that failed there.
pub fn purge_old_failed_tool_payloads(items: &mut [ResponseItem], cutoff: usize)
    requires
        cutoff <= old(items)@.len(),
    ensures
        item::item_views(final(items)@) == without_failures(
            item::item_views(old(items)@),
            cutoff as int,
        ),
{
    let ids = failed_call_ids(items, cutoff);
    let ghost all = item::item_views(items@);
    let mut i: usize = 0;
    while i < cutoff
        invariant
            i <= cutoff <= items@.len() == old(items)@.len(),
            all == item::item_views(old(items)@),
            forall|id: Seq<char>| #[trigger]
                ids@.contains(id) <==> has_failed(all, cutoff as int, id),
            forall|j: int|
                0 <= j < items@.len() ==> #[trigger] items@[j]@ == if j < i {
                    without_failures(all, cutoff as int)[j]
                } else {
                    all[j]
                },
        decreases cutoff - i,
    {
        purge_item(&mut items[i], &ids);
        i += 1;
    }
    assert(item::item_views(items@) =~= without_failures(all, cutoff as int));
}

/// The item is an answer to the call with this id, and says that the call failed.
pub open spec fn reports_failure(item: ItemView, id: Seq<char>) -> bool {
    match item {
        ItemView::FunctionCallOutput { call_id, output } => call_id == id && output.success == Some(
            false,
        ),
        ItemView::CustomToolCallOutput { call_id, output, .. } => call_id == id && output.success
            == Some(false),
        _ => false,
    }
}

/// The output of a failed call after it is purged: a fixed text, of a call of which nothing is known.
pub open spec fn is_purged_output(output: item::OutputView) -> bool {
    &&& output.success is None
    &&& output.body == item::BodyView::Text(
        "[codelink-context-pruned: failed tool output removed from older history]"@,
    )
}

/// What is known of `after`, which stands where `before` stood, if its call failed: the same call with
/// a fixed text for its input, the same answer with a fixed text for its output, or the same item.
pub open spec fn only_payload_is_purged(before: ItemView, after: ItemView) -> bool {
    match (before, after) {
        (
            ItemView::FunctionCall { id, name, namespace, call_id, .. },
            ItemView::FunctionCall {
                id: id2,
                name: name2,
                namespace: namespace2,
                arguments,
                call_id: call_id2,
            },
        ) => {
            &&& id2 == id && name2 == name && namespace2 == namespace && call_id2 == call_id
            &&& arguments
                == "[codelink-context-pruned: failed tool call input removed; error output is preserved]"@
        },
        (
            ItemView::CustomToolCall { id, status, call_id, name, .. },
            ItemView::CustomToolCall {
                id: id2,
                status: status2,
                call_id: call_id2,
                name: name2,
                input,
            },
        ) => {
            &&& id2 == id && status2 == status && call_id2 == call_id && name2 == name
            &&& input
                == "[codelink-context-pruned: failed tool call input removed; error output is preserved]"@
        },
        (
            ItemView::FunctionCallOutput { call_id, .. },
            ItemView::FunctionCallOutput { call_id: call_id2, output },
        ) => call_id2 == call_id && is_purged_output(output),
        (
            ItemView::CustomToolCallOutput { call_id, name, .. },
            ItemView::CustomToolCallOutput { call_id: call_id2, name: name2, output },
        ) => call_id2 == call_id && name2 == name && is_purged_output(output),
        _ => false,
    }
}

/// The item is a call with this id, or an answer to it, of a function or of a custom tool.
pub open spec fn belongs_to_call(item: ItemView, id: Seq<char>) -> bool {
    match item {
        ItemView::FunctionCall { call_id, .. } => call_id == id,
        ItemView::CustomToolCall { call_id, .. } => call_id == id,
        ItemView::FunctionCallOutput { call_id, .. } => call_id == id,
        ItemView::CustomToolCallOutput { call_id, .. } => call_id == id,
        _ => false,
    }
}

/// Where an answer before the cutoff says that a call failed, every call and every answer with its id
/// before the cutoff, of a function or of a custom tool, loses its payload and keeps everything else.
pub proof fn law_failed_calls_lose_their_payloads(
    items: Seq<ItemView>,
    cutoff: int,
    report: int,
    i: int,
    id: Seq<char>,
)
    requires
        0 <= report < items.len(),
        report < cutoff,
        reports_failure(items[report], id),
        0 <= i < items.len(),
        i < cutoff,
        belongs_to_call(items[i], id),
    ensures
        only_payload_is_purged(items[i], without_failures(items, cutoff)[i]),
{
    assert(failed_call_id(items[report]) == Some(id));
    assert(has_failed(items, cutoff, id));
}

/// An item is left as it is where it stands at or after the cutoff, and where no answer before the
/// cutoff says that its call failed.
pub proof fn law_other_calls_keep_their_payloads(items: Seq<ItemView>, cutoff: int, i: int)
    requires
        0 <= i < items.len(),
        i >= cutoff || (forall|report: int, id: Seq<char>|
            0 <= report < cutoff && report < items.len() && #[trigger] reports_failure(
                items[report],
                id,
            ) ==> !belongs_to_call(items[i], id)),
    ensures
        without_failures(items, cutoff).len() == items.len(),
        without_failures(items, cutoff)[i] == items[i],
{
    if i < cutoff {
        if let Some(id) = call_or_output_id(items[i]) {
            if has_failed(items, cutoff, id) {
                let report = choose|report: int|
                    0 <= report < cutoff && report < items.len() && #[trigger] failed_call_id(
                        items[report],
                    ) == Some(id);
                assert(reports_failure(items[report], id));
            }
        }
    }
}

} // verus!
