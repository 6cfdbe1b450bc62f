//! Removal of heavy tool inputs and outputs.
use crate::item;
use crate::item::{FunctionCallOutputPayload, ItemView, OutputView, ResponseItem};
use crate::number;
use crate::pruner::cutoff;
use crate::pruner::placeholder;
use crate::pruner::placeholder::{MetadataView, ToolCallMetadata};
use vstd::hash_map::StringHashMap;
use vstd::prelude::*;
use vstd::string::*;

verus! {

/// What is kept of a call of a tool.
pub open spec fn item_metadata(item: ItemView) -> Option<MetadataView> {
    match item {
        ItemView::FunctionCall { name, arguments, .. } => Some(
            MetadataView {
                name,
                input_preview: placeholder::preview_of(arguments),
                input_chars: arguments.len() as int,
            },
        ),
        ItemView::CustomToolCall { name, input, .. } => Some(
            MetadataView {
                name,
                input_preview: placeholder::preview_of(input),
                input_chars: input.len() as int,
            },
        ),
        _ => None,
    }
}

/// What is kept of the last call with this id.
pub open spec fn metadata_of(items: Seq<ItemView>, call_id: Seq<char>) -> Option<MetadataView>
    decreases items.len(),
{
    if items.len() == 0 {
        None
    } else if items.last().call_id() == Some(call_id) {
        item_metadata(items.last())
    } else {
        metadata_of(items.drop_last(), call_id)
    }
}

/// The name of the tool that gave an output: its own, else that of the call, else `unknown`.
pub open spec fn output_tool_name(
    output_name: Option<Seq<char>>,
    metadata: Option<MetadataView>,
) -> Seq<char> {
    match output_name {
        Some(name) => name,
        None => match metadata {
            Some(metadata) => metadata.name,
            None => "unknown"@,
        },
    }
}

/// A tool output, with a placeholder where it is heavy and its tool is not protected.
pub open spec fn lightened_output(
    call_id: Seq<char>,
    output_name: Option<Seq<char>>,
    output: OutputView,
    metadata: Option<MetadataView>,
    limit: int,
) -> OutputView {
    match output.body.to_text() {
        Some(text) => {
            let tool_name = output_tool_name(output_name, metadata);
            if text.len() <= limit || cutoff::is_heavy_protected(tool_name) {
                output
            } else {
                item::text_output(
                    placeholder::heavy_output_placeholder_of(
                        tool_name,
                        call_id,
                        text.len() as int,
                        output.success,
                        text,
                        metadata,
                    ),
                )
            }
        },
        None => output,
    }
}

/// The input of a call, with a placeholder where it is heavy and the tool is not protected.
pub open spec fn lightened_input(
    name: Seq<char>,
    call_id: Seq<char>,
    input: Seq<char>,
    limit: int,
) -> Seq<char> {
    if cutoff::is_heavy_protected(name) || input.len() <= limit {
        input
    } else {
        placeholder::heavy_input_placeholder_of(name, call_id, input.len() as int, input)
    }
}

/// An item of `items`, with a placeholder for a heavy payload.
pub open spec fn lightened_item(items: Seq<ItemView>, item: ItemView, limit: int) -> ItemView {
    match item {
        ItemView::FunctionCall { name, arguments, call_id, .. } => item.with_input(
            lightened_input(name, call_id, arguments, limit),
        ),
        ItemView::CustomToolCall { name, input, call_id, .. } => item.with_input(
            lightened_input(name, call_id, input, limit),
        ),
        ItemView::FunctionCallOutput { call_id, output } => item.with_output(
            lightened_output(call_id, None, output, metadata_of(items, call_id), limit),
        ),
        ItemView::CustomToolCallOutput { call_id, name, output } => item.with_output(
            lightened_output(call_id, name, output, metadata_of(items, call_id), limit),
        ),
        _ => item,
    }
}

/// A conversation, with placeholders for the heavy payloads before the cutoff.
pub open spec fn without_heavy_payloads(items: Seq<ItemView>, cutoff: int, limit: int) -> Seq<
    ItemView,
> {
    Seq::new(
        items.len(),
        |i: int|
            if i < cutoff {
                lightened_item(items, items[i], limit)
            } else {
                items[i]
            },
    )
}

/// Whether a map from call ids holds what is kept of the calls of a conversation.
pub open spec fn holds_metadata(
    map: Map<Seq<char>, ToolCallMetadata>,
    items: Seq<ItemView>,
) -> bool {
    forall|id: Seq<char>|
        metadata_of(items, id) == if #[trigger] map.contains_key(id) {
            Some(map[id]@)
        } else {
            None
        }
}

/// An item without a heavy payload is left as it is.
pub proof fn law_light_payloads_are_left_alone(items: Seq<ItemView>, item: ItemView, limit: int)
    requires
        !cutoff::has_heavy_payload(item, limit),
    ensures
        lightened_item(items, item, limit) == item,
{
}

/// The payloads of protected tools are left as they are, however large they are.
pub proof fn law_protected_payloads_are_left_alone(
    items: Seq<ItemView>,
    item: ItemView,
    limit: int,
)
    requires
        match item {
            ItemView::FunctionCall { name, .. } => cutoff::is_heavy_protected(name),
            ItemView::CustomToolCall { name, .. } => cutoff::is_heavy_protected(name),
            ItemView::FunctionCallOutput { call_id, .. } => cutoff::is_heavy_protected(
                output_tool_name(None, metadata_of(items, call_id)),
            ),
            ItemView::CustomToolCallOutput { call_id, name, .. } => cutoff::is_heavy_protected(
                output_tool_name(name, metadata_of(items, call_id)),
            ),
            _ => false,
        },
    ensures
        lightened_item(items, item, limit) == item,
{
    match item {
        ItemView::FunctionCallOutput { output, .. } => {
            assert(output.body.to_text() is None || output.body.to_text() is Some);
        },
        ItemView::CustomToolCallOutput { output, .. } => {
            assert(output.body.to_text() is None || output.body.to_text() is Some);
        },
        _ => {},
    }
}

/// What is kept of a call of a tool.
fn call_metadata(name: &String, input: &str) -> (metadata: ToolCallMetadata)
    ensures
        metadata@ == (MetadataView {
            name: name@,
            input_preview: placeholder::preview_of(input@),
            input_chars: input@.len() as int,
        }),
{
    ToolCallMetadata {
        name: name.clone(),
        input_preview: placeholder::preview(input),
        input_chars: input.unicode_len(),
    }
}

/// Collects what is kept of the calls of a conversation, by their ids.
pub fn tool_call_metadata_by_id(items: &[ResponseItem]) -> (map: StringHashMap<ToolCallMetadata>)
    ensures
        holds_metadata(map@, item::item_views(items@)),
{
    let ghost all = item::item_views(items@);
    let mut map: StringHashMap<ToolCallMetadata> = StringHashMap::new();
    let mut n: usize = 0;
    while n < items.len()
        invariant
            n <= items@.len(),
            all == item::item_views(items@),
            holds_metadata(map@, all.take(n as int)),
        decreases items@.len() - n,
    {
        let ghost earlier = map@;
        proof {
            assert(all[n as int] == items@[n as int]@);
            assert(all.take(n + 1).drop_last() =~= all.take(n as int));
            assert(all.take(n + 1).last() == all[n as int]);
        }
        match &items[n] {
            ResponseItem::FunctionCall { name, arguments, call_id, .. } => {
                map.insert(call_id.clone(), call_metadata(name, arguments.as_str()));
            },
            ResponseItem::CustomToolCall { name, input, call_id, .. } => {
                map.insert(call_id.clone(), call_metadata(name, input.as_str()));
            },
            _ => {},
        }
        proof {
            assert forall|id: Seq<char>|
                metadata_of(all.take(n + 1), id) == if #[trigger] map@.contains_key(id) {
                    Some(map@[id]@)
                } else {
                    None
                } by {
                assert(metadata_of(all.take(n as int), id) == if earlier.contains_key(id) {
                    Some(earlier[id]@)
                } else {
                    None
                });
            }
        }
        n += 1;
    }
    assert(all.take(n as int) =~= all);
    map
}

/// Puts a placeholder for a heavy tool output.
pub fn prune_heavy_tool_output(
    call_id: &str,
    output_name: Option<&str>,
    output: &mut FunctionCallOutputPayload,
    metadata_by_call_id: &StringHashMap<ToolCallMetadata>,
    heavy_tool_chars: usize,
)
    ensures
        final(output)@ == lightened_output(
            call_id@,
            match output_name {
                Some(name) => Some(name@),
                None => None,
            },
            old(output)@,
            if metadata_by_call_id@.contains_key(call_id@) {
                Some(metadata_by_call_id@[call_id@]@)
            } else {
                None
            },
            heavy_tool_chars as int,
        ),
{
    let output_text = match output.body.to_text() {
        Some(output_text) => output_text,
        None => {
            return;
        },
    };
    let output_chars: usize = output_text.as_str().unicode_len();
    if output_chars <= heavy_tool_chars {
        return;
    }
    let metadata = metadata_by_call_id.get(call_id);
    let tool_name = match output_name {
        Some(name) => name,
        None => match metadata {
            Some(metadata) => metadata.name.as_str(),
            None => "unknown",
        },
    };
    if cutoff::is_heavy_tool_prune_protected(tool_name) {
        return;
    }
    let success = output.success;
    let pruned = placeholder::heavy_tool_output_placeholder(
        tool_name,
        call_id,
        output_chars,
        success,
        output_text.as_str(),
        metadata,
    );
    *output = FunctionCallOutputPayload::from_text(pruned);
}

/// Puts a placeholder for a heavy tool input.
fn prune_heavy_tool_input(name: &str, call_id: &str, input: &mut String, heavy_tool_chars: usize)
    ensures
        final(input)@ == lightened_input(
            name@,
            call_id@,
            old(input)@,
            heavy_tool_chars as int,
        ),
{
    if cutoff::is_heavy_tool_prune_protected(name) {
        return;
    }
    let input_chars: usize = input.as_str().unicode_len();
    if input_chars <= heavy_tool_chars {
        return;
    }
    *input = placeholder::heavy_tool_input_placeholder(
        name,
        call_id,
        input_chars,
        input.as_str(),
    );
}

/// Puts a placeholder for the heavy payload of an item.
fn prune_heavy_item(
    item: &mut ResponseItem,
    metadata: &StringHashMap<ToolCallMetadata>,
    heavy_tool_chars: usize,
    Ghost(items): Ghost<Seq<ItemView>>,
)
    requires
        holds_metadata(metadata@, items),
    ensures
        final(item)@ == lightened_item(items, old(item)@, heavy_tool_chars as int),
{
    match item {
        ResponseItem::FunctionCall { name, arguments, call_id, .. } => {
            prune_heavy_tool_input(name.as_str(), call_id.as_str(), arguments, heavy_tool_chars);
        },
        ResponseItem::CustomToolCall { name, input, call_id, .. } => {
            prune_heavy_tool_input(name.as_str(), call_id.as_str(), input, heavy_tool_chars);
        },
        ResponseItem::FunctionCallOutput { call_id, output } => {
            assert(metadata@.contains_key(call_id@) || !metadata@.contains_key(call_id@));
            prune_heavy_tool_output(call_id.as_str(), None, output, metadata, heavy_tool_chars);
        },
        ResponseItem::CustomToolCallOutput { call_id, name, output } => {
            assert(metadata@.contains_key(call_id@) || !metadata@.contains_key(call_id@));
            let output_name = match name {
                Some(name) => Some(name.as_str()),
                None => None,
            };
            prune_heavy_tool_output(
                call_id.as_str(),
                output_name,
                output,
                metadata,
                heavy_tool_chars,
            );
        },
        _ => {},
    }
}

/// Puts placeholders for the heavy payloads before the cutoff.
pub fn prune_heavy_tool_payloads(
    items: &mut [ResponseItem],
    cutoff: usize,
    heavy_tool_chars: usize,
)
    requires
        cutoff <= old(items)@.len(),
    ensures
        item::item_views(final(items)@) == without_heavy_payloads(
            item::item_views(old(items)@),
            cutoff as int,
            heavy_tool_chars as int,
        ),
{
    let ghost all = item::item_views(items@);
    if cutoff == 0 {
        assert(all =~= without_heavy_payloads(all, 0, heavy_tool_chars as int));
        return;
    }
    let metadata = tool_call_metadata_by_id(items);
    let mut i: usize = 0;
    while i < cutoff
        invariant
            i <= cutoff <= items@.len() == old(items)@.len(),
            all == item::item_views(old(items)@),
            holds_metadata(metadata@, all),
            forall|j: int|
                0 <= j < items@.len() ==> #[trigger] items@[j]@ == if j < i {
                    lightened_item(all, all[j], heavy_tool_chars as int)
                } else {
                    all[j]
                },
        decreases cutoff - i,
    {
        prune_heavy_item(&mut items[i], &metadata, heavy_tool_chars, Ghost(all));
        i += 1;
    }
    assert(item::item_views(items@) =~= without_heavy_payloads(
        all,
        cutoff as int,
        heavy_tool_chars as int,
    ));
}

/// The item calls the tool `name` under this id.
pub open spec fn calls_tool(item: ItemView, id: Seq<char>, name: Seq<char>) -> bool {
    match item {
        ItemView::FunctionCall { call_id, name: called, .. } => call_id == id && called == name,
        ItemView::CustomToolCall { call_id, name: called, .. } => call_id == id && called == name,
        _ => false,
    }
}

/// The item calls some tool under this id.
pub open spec fn calls_under(item: ItemView, id: Seq<char>) -> bool {
    match item {
        ItemView::FunctionCall { call_id, .. } => call_id == id,
        ItemView::CustomToolCall { call_id, .. } => call_id == id,
        _ => false,
    }
}

/// The call at `at` is the last one under this id.
pub open spec fn is_last_call(items: Seq<ItemView>, at: int, id: Seq<char>) -> bool {
    &&& 0 <= at < items.len()
    &&& calls_under(items[at], id)
    &&& forall|k: int| at < k < items.len() ==> !calls_under(#[trigger] items[k], id)
}

/// What is known of a call is what the last call under its id says: its tool, how its input begins
/// and how many characters the input has.
pub proof fn law_last_call_is_what_is_known(items: Seq<ItemView>, at: int, id: Seq<char>)
    requires
        is_last_call(items, at, id),
    ensures
        metadata_of(items, id) is Some,
        match items[at] {
            ItemView::FunctionCall { name, arguments, .. } => {
                &&& metadata_of(items, id)->0.name == name
                &&& metadata_of(items, id)->0.input_chars == arguments.len()
                &&& metadata_of(items, id)->0.input_preview == placeholder::preview_of(arguments)
            },
            ItemView::CustomToolCall { name, input, .. } => {
                &&& metadata_of(items, id)->0.name == name
                &&& metadata_of(items, id)->0.input_chars == input.len()
                &&& metadata_of(items, id)->0.input_preview == placeholder::preview_of(input)
            },
            _ => false,
        },
    decreases items.len(),
{
    if at < items.len() - 1 {
        assert(!calls_under(items[items.len() - 1], id));
        let earlier = items.drop_last();
        assert forall|k: int| at < k < earlier.len() implies !calls_under(
            #[trigger] earlier[k],
            id,
        ) by {
            assert(earlier[k] == items[k]);
        }
        law_last_call_is_what_is_known(earlier, at, id);
    }
}

/// Nothing is known of a call that no item makes.
pub proof fn law_nothing_is_known_of_missing_calls(items: Seq<ItemView>, id: Seq<char>)
    requires
        forall|k: int| 0 <= k < items.len() ==> !calls_under(#[trigger] items[k], id),
    ensures
        metadata_of(items, id) is None,
    decreases items.len(),
{
    if items.len() > 0 {
        assert(!calls_under(items[items.len() - 1], id));
        let earlier = items.drop_last();
        assert forall|k: int| 0 <= k < earlier.len() implies !calls_under(
            #[trigger] earlier[k],
            id,
        ) by {
            assert(earlier[k] == items[k]);
        }
        law_nothing_is_known_of_missing_calls(earlier, id);
    }
}

/// The calls and outputs of `task`, `skill`, `todowrite`, `todoread`, `compress`, `batch`,
/// `plan_enter` and `plan_exit` are left as they are, however large they are: a call of such a tool, an
/// output under such a name, and an output without a name whose last call is of such a tool.
pub proof fn law_kept_tools_keep_their_payloads(
    items: Seq<ItemView>,
    cutoff: int,
    limit: int,
    i: int,
    tool: Seq<char>,
    call: int,
)
    requires
        0 <= i < items.len(),
        seq![
            "task"@,
            "skill"@,
            "todowrite"@,
            "todoread"@,
            "compress"@,
            "batch"@,
            "plan_enter"@,
            "plan_exit"@,
        ].contains(tool),
        match items[i] {
            ItemView::FunctionCall { name, .. } => name == tool,
            ItemView::CustomToolCall { name, .. } => name == tool,
            ItemView::FunctionCallOutput { call_id, .. } => is_last_call(items, call, call_id)
                && calls_tool(items[call], call_id, tool),
            ItemView::CustomToolCallOutput { call_id, name, .. } => name == Some(tool) || (name
                is None && is_last_call(items, call, call_id) && calls_tool(
                items[call],
                call_id,
                tool,
            )),
            _ => false,
        },
    ensures
        without_heavy_payloads(items, cutoff, limit)[i] == items[i],
{
    cutoff::lemma_kept_tools(tool);
    assert(cutoff::tools_that_are_kept().contains(tool));
    match items[i] {
        ItemView::FunctionCallOutput { call_id, output } => {
            law_last_call_is_what_is_known(items, call, call_id);
            assert(output.body.to_text() is None || output.body.to_text() is Some);
        },
        ItemView::CustomToolCallOutput { call_id, name, output } => {
            if name is None {
                law_last_call_is_what_is_known(items, call, call_id);
            }
            assert(output.body.to_text() is None || output.body.to_text() is Some);
        },
        _ => {},
    }
}

/// Nothing is changed at or after the cutoff, and before it nothing of at most `limit` characters, nor
/// anything that is neither a call of a tool nor an output.
pub proof fn law_small_payloads_stay(items: Seq<ItemView>, cutoff: int, limit: int, i: int)
    requires
        0 <= i < items.len(),
        i >= cutoff || match items[i] {
            ItemView::FunctionCall { arguments, .. } => arguments.len() <= limit,
            ItemView::CustomToolCall { input, .. } => input.len() <= limit,
            ItemView::FunctionCallOutput { output, .. } => output.body.to_text() matches Some(text)
                ==> text.len() <= limit,
            ItemView::CustomToolCallOutput { output, .. } => output.body.to_text() matches Some(
                text,
            ) ==> text.len() <= limit,
            _ => true,
        },
    ensures
        without_heavy_payloads(items, cutoff, limit).len() == items.len(),
        without_heavy_payloads(items, cutoff, limit)[i] == items[i],
{
}

/// What is told in the place of an input: the tool, the call, the size and how the input begins.
pub open spec fn tells_of_input(
    placeholder: Seq<char>,
    name: Seq<char>,
    id: Seq<char>,
    input: Seq<char>,
) -> bool {
    placeholder == "[codelink-context-pruned: old heavy tool input removed"@ + "; tool="@ + name
        + "; call_id="@ + id + "; chars="@ + number::decimal_of(input.len() as int)
        + "; preview=\""@ + placeholder::preview_of(input) + "\"]"@
}

/// A call before the cutoff with an input of more than `limit` characters, of a tool whose payloads are
/// not kept, keeps everything but its input, in whose place the tool, the call, the size and how the
/// input begins are told.
pub proof fn law_heavy_inputs_are_replaced(items: Seq<ItemView>, cutoff: int, limit: int, i: int)
    requires
        0 <= i < items.len(),
        i < cutoff,
        match items[i] {
            ItemView::FunctionCall { name, arguments, .. } => arguments.len() > limit
                && !cutoff::tools_that_are_kept().contains(name),
            ItemView::CustomToolCall { name, input, .. } => input.len() > limit
                && !cutoff::tools_that_are_kept().contains(name),
            _ => false,
        },
    ensures
        match (items[i], without_heavy_payloads(items, cutoff, limit)[i]) {
            (
                ItemView::FunctionCall { id, name, namespace, arguments, call_id },
                ItemView::FunctionCall {
                    id: id2,
                    name: name2,
                    namespace: namespace2,
                    arguments: arguments2,
                    call_id: call_id2,
                },
            ) => {
                &&& id2 == id && name2 == name && namespace2 == namespace && call_id2 == call_id
                &&& tells_of_input(arguments2, name, call_id, arguments)
            },
            (
                ItemView::CustomToolCall { id, status, call_id, name, input },
                ItemView::CustomToolCall {
                    id: id2,
                    status: status2,
                    call_id: call_id2,
                    name: name2,
                    input: input2,
                },
            ) => {
                &&& id2 == id && status2 == status && call_id2 == call_id && name2 == name
                &&& tells_of_input(input2, name, call_id, input)
            },
            _ => false,
        },
{
    match items[i] {
        ItemView::FunctionCall { name, .. } => {
            cutoff::lemma_kept_tools(name);
        },
        ItemView::CustomToolCall { name, .. } => {
            cutoff::lemma_kept_tools(name);
        },
        _ => {},
    }
}

/// What is told in the place of an output: the tool, the call, the size, whether the call succeeded,
/// its exit code where it is known, what is known of its input, and how the output begins.
pub open spec fn tells_of_output(
    placeholder: Seq<char>,
    name: Seq<char>,
    id: Seq<char>,
    success: Seq<char>,
    exit_code: Seq<char>,
    input: Seq<char>,
    text: Seq<char>,
) -> bool {
    placeholder == "[codelink-context-pruned: old heavy tool output removed"@ + "; tool="@ + name
        + "; call_id="@ + id + "; chars="@ + number::decimal_of(text.len() as int) + "; success="@
        + success + exit_code + input + "; preview=\""@ + placeholder::preview_of(text) + "\"]"@
}

/// An output before the cutoff with a text of more than `limit` characters, of a tool whose payloads
/// are not kept, is replaced by a text that tells of it. The tool is the one that the output names, else
/// that of the last call under its id, else unknown.
pub proof fn law_heavy_outputs_are_replaced(
    items: Seq<ItemView>,
    cutoff: int,
    limit: int,
    i: int,
    call: Option<int>,
    name: Seq<char>,
)
    requires
        0 <= i < items.len(),
        i < cutoff,
        !cutoff::tools_that_are_kept().contains(name),
        match items[i] {
            ItemView::FunctionCallOutput { call_id, output } => {
                &&& output.body.to_text() matches Some(text) && text.len() > limit
                &&& match call {
                    Some(call) => is_last_call(items, call, call_id) && calls_tool(
                        items[call],
                        call_id,
                        name,
                    ),
                    None => name == "unknown"@ && forall|k: int|
                        0 <= k < items.len() ==> !calls_under(#[trigger] items[k], call_id),
                }
            },
            ItemView::CustomToolCallOutput { call_id, name: output_name, output } => {
                &&& output.body.to_text() matches Some(text) && text.len() > limit
                &&& output_name == Some(name) || output_name is None
                &&& match call {
                    Some(call) => is_last_call(items, call, call_id) && (output_name is None
                        ==> calls_tool(items[call], call_id, name)),
                    None => (output_name is None ==> name == "unknown"@) && forall|k: int|
                        0 <= k < items.len() ==> !calls_under(#[trigger] items[k], call_id),
                }
            },
            _ => false,
        },
    ensures
        ({
            let before = items[i].output()->0;
            let after = without_heavy_payloads(items, cutoff, limit)[i];
            let text = before.body.to_text()->0;
            let id = items[i].output_call_id()->0;
            let success = match before.success {
                Some(true) => "true"@,
                Some(false) => "false"@,
                None => "unknown"@,
            };
            let exit_code = match placeholder::exit_code_of(text) {
                Some(code) => "; exit_code="@ + number::decimal_of(code),
                None => Seq::empty(),
            };
            let input = match call {
                Some(call) => match items[call] {
                    ItemView::FunctionCall { arguments, .. } => "; input_chars="@
                        + number::decimal_of(arguments.len() as int) + "; input_preview=\""@
                        + placeholder::preview_of(arguments) + "\""@,
                    ItemView::CustomToolCall { input, .. } => "; input_chars="@
                        + number::decimal_of(input.len() as int) + "; input_preview=\""@
                        + placeholder::preview_of(input) + "\""@,
                    _ => Seq::empty(),
                },
                None => Seq::empty(),
            };
            match (items[i], after) {
                (
                    ItemView::FunctionCallOutput { call_id, .. },
                    ItemView::FunctionCallOutput { call_id: call_id2, output },
                ) => {
                    &&& call_id2 == call_id
                    &&& output.success is None
                    &&& output.body matches item::BodyView::Text(told)
                    &&& tells_of_output(told, name, id, success, exit_code, input, text)
                },
                (
                    ItemView::CustomToolCallOutput { call_id, name: output_name, .. },
                    ItemView::CustomToolCallOutput {
                        call_id: call_id2,
                        name: output_name2,
                        output,
                    },
                ) => {
                    &&& call_id2 == call_id && output_name2 == output_name
                    &&& output.success is None
                    &&& output.body matches item::BodyView::Text(told)
                    &&& tells_of_output(told, name, id, success, exit_code, input, text)
                },
                _ => false,
            }
        }),
{
    cutoff::lemma_kept_tools(name);
    let id = items[i].output_call_id()->0;
    match call {
        Some(call) => {
            law_last_call_is_what_is_known(items, call, id);
        },
        None => {
            law_nothing_is_known_of_missing_calls(items, id);
        },
    }
}

} // verus!
