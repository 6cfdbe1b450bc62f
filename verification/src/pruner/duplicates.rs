//! Removal of outputs that a newer identical call has made superfluous.
use crate::item;
use crate::item::{FunctionCallOutputPayload, ItemView, ResponseItem};
use crate::number;
use crate::pruner::placeholder::DUPLICATE_TOOL_OUTPUT_PLACEHOLDER;
use crate::text;
use vstd::hash_map::StringHashMap;
use vstd::hash_set::StringHashSet;
use vstd::prelude::*;
use vstd::string::*;

verus! {

/// Tools whose calls are never taken for repetitions of each other.
pub open spec fn is_protected(name: Seq<char>) -> bool {
    ||| name == "apply_patch"@
    ||| name == "edit"@
    ||| name == "write"@
    ||| name == "task"@
    ||| name == "skill"@
    ||| name == "todowrite"@
    ||| name == "todoread"@
    ||| name == "compress"@
    ||| name == "batch"@
    ||| name == "plan_enter"@
    ||| name == "plan_exit"@
}

/// The namespace of a call: that of a call without one is empty.
pub open spec fn namespace_of(namespace: Option<Seq<char>>) -> Seq<char> {
    match namespace {
        Some(namespace) => namespace,
        None => Seq::empty(),
    }
}

/// Whether two items are identical calls of a tool that is not protected: of one kind, with the same
/// namespace, name and arguments or input.
pub open spec fn same_call(a: ItemView, b: ItemView) -> bool {
    match (a, b) {
        (
            ItemView::FunctionCall { name, namespace, arguments, .. },
            ItemView::FunctionCall {
                name: other_name,
                namespace: other_namespace,
                arguments: other_arguments,
                ..
            },
        ) => {
            &&& !is_protected(name)
            &&& namespace_of(namespace) == namespace_of(other_namespace)
            &&& name == other_name
            &&& arguments == other_arguments
        },
        (
            ItemView::CustomToolCall { name, input, .. },
            ItemView::CustomToolCall { name: other_name, input: other_input, .. },
        ) => {
            &&& !is_protected(name)
            &&& name == other_name
            &&& input == other_input
        },
        _ => false,
    }
}

/// A field of a signature, with its length in front.
pub open spec fn field(s: Seq<char>) -> Seq<char> {
    number::decimal_of(s.len() as int) + ":"@ + s
}

/// The signature of a function call: calls with equal signatures are identical.
pub open spec fn function_signature(
    namespace: Option<Seq<char>>,
    name: Seq<char>,
    arguments: Seq<char>,
) -> Seq<char> {
    "function:"@ + field(namespace_of(namespace)) + field(name) + arguments
}

/// The signature of a call of a custom tool.
pub open spec fn custom_signature(name: Seq<char>, input: Seq<char>) -> Seq<char> {
    "custom:"@ + field(name) + input
}

/// The signature of an item, where it is a call of a tool that is not protected.
pub open spec fn signature_of(item: ItemView) -> Option<Seq<char>> {
    match item {
        ItemView::FunctionCall { name, namespace, arguments, .. } => if is_protected(name) {
            None
        } else {
            Some(function_signature(namespace, name, arguments))
        },
        ItemView::CustomToolCall { name, input, .. } => if is_protected(name) {
            None
        } else {
            Some(custom_signature(name, input))
        },
        _ => None,
    }
}

/// Whether the call at `i` is repeated by the call at `j`.
pub open spec fn is_repeated(items: Seq<ItemView>, i: int, j: int) -> bool {
    &&& 0 <= i < j < items.len()
    &&& same_call(items[i], items[j])
}

/// Whether a call with this id is repeated by a later call.
pub open spec fn is_superseded(items: Seq<ItemView>, call_id: Seq<char>) -> bool {
    exists|i: int, j: int| #[trigger]
        is_repeated(items, i, j) && items[i].call_id() == Some(call_id)
}

/// A conversation, with a placeholder for each output before the cutoff that answers a call which
/// is repeated later.
pub open spec fn deduplicated(items: Seq<ItemView>, cutoff: int) -> Seq<ItemView> {
    Seq::new(
        items.len(),
        |i: int|
            if i < cutoff && (items[i].output_call_id() matches Some(id) && is_superseded(
                items,
                id,
            )) {
                items[i].with_output(item::text_output(DUPLICATE_TOOL_OUTPUT_PLACEHOLDER@))
            } else {
                items[i]
            },
    )
}

/// The id of the last call with this signature.
spec fn newest_call(items: Seq<ItemView>, signature: Seq<char>) -> Option<Seq<char>>
    decreases items.len(),
{
    if items.len() == 0 {
        None
    } else if signature_of(items.last()) == Some(signature) {
        items.last().call_id()
    } else {
        newest_call(items.drop_last(), signature)
    }
}

/// The last call with a signature is one of the calls with it, and none later has it.
proof fn lemma_newest_call(items: Seq<ItemView>, signature: Seq<char>) -> (at: int)
    ensures
        newest_call(items, signature) is Some ==> 0 <= at < items.len() && signature_of(items[at])
            == Some(signature) && items[at].call_id() == newest_call(items, signature),
        newest_call(items, signature) is None ==> at == -1,
        forall|k: int|
            at < k < items.len() ==> signature_of(#[trigger] items[k]) != Some(signature),
    decreases items.len(),
{
    if items.len() == 0 {
        -1
    } else if signature_of(items.last()) == Some(signature) {
        items.len() - 1
    } else {
        let at = lemma_newest_call(items.drop_last(), signature);
        assert forall|k: int| at < k < items.len() implies signature_of(#[trigger] items[k])
            != Some(signature) by {
            if k < items.len() - 1 {
                assert(items.drop_last()[k] == items[k]);
            }
        }
        at
    }
}

/// One more call supersedes the newest earlier call with its signature, and no other that was not
/// superseded already.
proof fn lemma_superseded_step(items: Seq<ItemView>, n: int, call_id: Seq<char>)
    requires
        0 <= n < items.len(),
    ensures
        is_superseded(items.take(n + 1), call_id) <==> is_superseded(items.take(n), call_id) || (
        signature_of(items[n]) matches Some(signature) && newest_call(items.take(n), signature)
            == Some(call_id)),
{
    let now = items.take(n + 1);
    let earlier = items.take(n);
    if is_superseded(earlier, call_id) {
        let (i, j) = choose|i: int, j: int| #[trigger]
            is_repeated(earlier, i, j) && earlier[i].call_id() == Some(call_id);
        assert(now[i] == earlier[i] && now[j] == earlier[j]);
        assert(is_repeated(now, i, j));
    }
    if let Some(signature) = signature_of(items[n]) {
        let at = lemma_newest_call(earlier, signature);
        if newest_call(earlier, signature) == Some(call_id) {
            assert(now[at] == earlier[at]);
            law_signature_identifies_the_call(now[at], now[n]);
            assert(is_repeated(now, at, n));
        }
    }
    if is_superseded(now, call_id) {
        let (i, j) = choose|i: int, j: int| #[trigger]
            is_repeated(now, i, j) && now[i].call_id() == Some(call_id);
        assert(now[i] == earlier[i]);
        law_signature_identifies_the_call(now[i], now[j]);
        if j < n {
            assert(now[j] == earlier[j]);
            assert(is_repeated(earlier, i, j));
        } else {
            let signature = signature_of(items[n])->0;
            let at = lemma_newest_call(earlier, signature);
            assert(signature_of(earlier[i]) == Some(signature));
            if i < at {
                law_signature_identifies_the_call(earlier[i], earlier[at]);
                assert(is_repeated(earlier, i, at));
            }
        }
    }
}

/// Whether a tool's calls are never taken for repetitions of each other.
pub fn is_protected_tool(name: &str) -> (protected: bool)
    ensures
        protected == is_protected(name@),
{
    text::text_eq(name, "apply_patch") || text::text_eq(name, "edit") || text::text_eq(
        name,
        "write",
    ) || text::text_eq(name, "task") || text::text_eq(name, "skill") || text::text_eq(
        name,
        "todowrite",
    ) || text::text_eq(name, "todoread") || text::text_eq(name, "compress") || text::text_eq(
        name,
        "batch",
    ) || text::text_eq(name, "plan_enter") || text::text_eq(name, "plan_exit")
}

/// Appends a field to a signature.
fn push_field(signature: &mut String, s: &str)
    ensures
        final(signature)@ == old(signature)@ + field(s@),
{
    signature.append(number::decimal(s.unicode_len() as u128).as_str());
    signature.append(":");
    signature.append(s);
    assert(signature@ =~= old(signature)@ + field(s@));
}

/// The id and the signature of a call of a tool that is not protected.
pub fn tool_call_signature(item: &ResponseItem) -> (call: Option<(String, String)>)
    ensures
        match call {
            Some((call_id, signature)) => {
                &&& item@.call_id() == Some(call_id@)
                &&& signature_of(item@) == Some(signature@)
            },
            None => signature_of(item@) is None,
        },
{
    match item {
        ResponseItem::FunctionCall { name, namespace, arguments, call_id, .. } => {
            if is_protected_tool(name.as_str()) {
                return None;
            }
            let empty = String::new();
            let namespace = match namespace {
                Some(namespace) => namespace,
                None => &empty,
            };
            let mut signature = "function:".to_owned();
            push_field(&mut signature, namespace.as_str());
            push_field(&mut signature, name.as_str());
            signature.append(arguments.as_str());
            Some((call_id.clone(), signature))
        },
        ResponseItem::CustomToolCall { name, input, call_id, .. } => {
            if is_protected_tool(name.as_str()) {
                return None;
            }
            let mut signature = "custom:".to_owned();
            push_field(&mut signature, name.as_str());
            signature.append(input.as_str());
            Some((call_id.clone(), signature))
        },
        _ => None,
    }
}

/// The ids of the calls that later calls repeat.
fn superseded_call_ids(items: &[ResponseItem]) -> (ids: StringHashSet)
    ensures
        forall|id: Seq<char>| #[trigger]
            ids@.contains(id) <==> is_superseded(item::item_views(items@), id),
{
    let ghost all = item::item_views(items@);
    let mut newest: StringHashMap<String> = StringHashMap::new();
    let mut ids = StringHashSet::new();
    let mut n: usize = 0;
    while n < items.len()
        invariant
            n <= items@.len(),
            all == item::item_views(items@),
            forall|signature: Seq<char>| #[trigger]
                newest@.contains_key(signature) <==> newest_call(all.take(n as int), signature)
                    is Some,
            forall|signature: Seq<char>| #[trigger]
                newest@.contains_key(signature) ==> newest_call(all.take(n as int), signature)
                    == Some(newest@[signature]@),
            forall|id: Seq<char>| #[trigger]
                ids@.contains(id) <==> is_superseded(all.take(n as int), id),
        decreases items@.len() - n,
    {
        let ghost earlier_newest = newest@;
        let ghost earlier_ids = ids@;
        proof {
            assert(all[n as int] == items@[n as int]@);
            assert(all.take(n + 1).drop_last() =~= all.take(n as int));
            assert(all.take(n + 1).last() == all[n as int]);
            assert forall|id: Seq<char>| #[trigger]
                is_superseded(all.take(n + 1), id) <==> is_superseded(all.take(n as int), id) || (
                signature_of(all[n as int]) matches Some(signature) && newest_call(
                    all.take(n as int),
                    signature,
                ) == Some(id)) by {
                lemma_superseded_step(all, n as int, id);
            }
        }
        if let Some((call_id, signature)) = tool_call_signature(&items[n]) {
            if let Some(previous) = newest.get(signature.as_str()) {
                ids.insert(previous.clone());
            }
            newest.insert(signature, call_id);
            proof {
                assert forall|s: Seq<char>| #[trigger] newest@.contains_key(s) <==> newest_call(
                    all.take(n + 1),
                    s,
                ) is Some by {
                    assert(earlier_newest.contains_key(s) <==> newest_call(
                        all.take(n as int),
                        s,
                    ) is Some);
                }
                assert forall|s: Seq<char>| #[trigger] newest@.contains_key(s) implies newest_call(
                    all.take(n + 1),
                    s,
                ) == Some(newest@[s]@) by {
                    if s != signature@ {
                        assert(earlier_newest.contains_key(s));
                    }
                }
            }
        }
        n += 1;
    }
    assert(all.take(n as int) =~= all);
    ids
}

/// Puts a placeholder for the output that an item holds, where it answers one of these calls.
fn prune_duplicate_output(item: &mut ResponseItem, ids: &StringHashSet)
    ensures
        final(item)@ == if old(item)@.output_call_id() matches Some(id) && ids@.contains(id) {
            old(item)@.with_output(item::text_output(DUPLICATE_TOOL_OUTPUT_PLACEHOLDER@))
        } else {
            old(item)@
        },
{
    match item {
        ResponseItem::FunctionCallOutput { call_id, output } => {
            if ids.contains(call_id.as_str()) {
                *output = FunctionCallOutputPayload::from_text(
                    DUPLICATE_TOOL_OUTPUT_PLACEHOLDER.to_owned(),
                );
            }
        },
        ResponseItem::CustomToolCallOutput { call_id, output, .. } => {
            if ids.contains(call_id.as_str()) {
                *output = FunctionCallOutputPayload::from_text(
                    DUPLICATE_TOOL_OUTPUT_PLACEHOLDER.to_owned(),
                );
            }
        },
        _ => {},
    }
}

/// Puts placeholders for outputs before the cutoff that a newer identical call has made
/// superfluous.
pub fn prune_duplicate_tool_outputs(items: &mut [ResponseItem], cutoff: usize)
    requires
        cutoff <= old(items)@.len(),
    ensures
        item::item_views(final(items)@) == deduplicated(
            item::item_views(old(items)@),
            cutoff as int,
        ),
{
    let ids = superseded_call_ids(items);
    let ghost all = item::item_views(items@);
    let mut i: usize = 0;
    while i < cutoff
        invariant
            i <= cutoff <= items@.len() == old(items)@.len(),
            all == item::item_views(old(items)@),
            forall|id: Seq<char>| #[trigger] ids@.contains(id) <==> is_superseded(all, id),
            forall|j: int|
                0 <= j < items@.len() ==> #[trigger] items@[j]@ == if j < i {
                    deduplicated(all, cutoff as int)[j]
                } else {
                    all[j]
                },
        decreases cutoff - i,
    {
        prune_duplicate_output(&mut items[i], &ids);
        i += 1;
    }
    assert(item::item_views(items@) =~= deduplicated(all, cutoff as int));
}

/// Where call ids are unique, the output of the newest of several identical calls is kept.
pub proof fn law_newest_identical_call_keeps_its_output(
    items: Seq<ItemView>,
    cutoff: int,
    call: int,
    answer: int,
)
    requires
        0 <= call < items.len(),
        0 <= answer < items.len(),
        items[call].call_id() is Some,
        items[answer].output_call_id() == items[call].call_id(),
        // the call is the newest of its kind
        forall|j: int| !is_repeated(items, call, j),
        // no other call has its id
        forall|j: int|
            0 <= j < items.len() && j != call ==> #[trigger] items[j].call_id()
                != items[call].call_id(),
    ensures
        deduplicated(items, cutoff)[answer] == items[answer],
{
    let id = items[call].call_id()->0;
    if is_superseded(items, id) {
        let (i, j) = choose|i: int, j: int| #[trigger]
            is_repeated(items, i, j) && items[i].call_id() == Some(id);
        assert(items[i].call_id() == items[call].call_id());
        assert(i == call);
    }
}

/// The outputs before the cutoff of calls that are repeated later are replaced.
pub proof fn law_older_identical_calls_lose_their_outputs(
    items: Seq<ItemView>,
    cutoff: int,
    call: int,
    repetition: int,
    answer: int,
)
    requires
        is_repeated(items, call, repetition),
        0 <= answer < cutoff,
        answer < items.len(),
        items[answer].output_call_id() == items[call].call_id(),
        items[answer].output_call_id() is Some,
    ensures
        deduplicated(items, cutoff)[answer] == items[answer].with_output(
            item::text_output(DUPLICATE_TOOL_OUTPUT_PLACEHOLDER@),
        ),
{
    assert(is_superseded(items, items[answer].output_call_id()->0));
}

/// A numeral holds no colon.
proof fn lemma_numeral_has_no_colon(n: nat)
    ensures
        text::free_of(number::decimal_of(n as int), ':'),
{
    number::lemma_decimal_round_trip(n);
    let s = number::decimal_of(n as int);
    assert forall|i: int| 0 <= i < s.len() implies #[trigger] s[i] != ':' by {
        assert(number::is_digit(s[i]));
    }
}

/// What starts with a field tells the field, and what follows it.
proof fn lemma_field_is_unique(
    s: Seq<char>,
    rest: Seq<char>,
    other: Seq<char>,
    other_rest: Seq<char>,
)
    requires
        field(s) + rest == field(other) + other_rest,
    ensures
        s == other,
        rest == other_rest,
{
    reveal_strlit(":");
    assert(":"@ =~= seq![':']);
    let length = number::decimal_of(s.len() as int);
    let other_length = number::decimal_of(other.len() as int);
    assert(field(s) + rest =~= length + seq![':'] + (s + rest));
    assert(field(other) + other_rest =~= other_length + seq![':'] + (other + other_rest));
    lemma_numeral_has_no_colon(s.len());
    lemma_numeral_has_no_colon(other.len());
    text::lemma_split_is_unique(length, s + rest, other_length, other + other_rest, ':');
    number::lemma_decimal_round_trip(s.len());
    number::lemma_decimal_round_trip(other.len());
    assert(s =~= (s + rest).take(s.len() as int));
    assert(other =~= (other + other_rest).take(s.len() as int));
    assert(rest =~= (s + rest).skip(s.len() as int));
    assert(other_rest =~= (other + other_rest).skip(s.len() as int));
}

/// Function calls have one signature only where namespace, name and arguments are the same.
pub proof fn law_function_signature_identifies_the_call(
    namespace: Option<Seq<char>>,
    name: Seq<char>,
    arguments: Seq<char>,
    other_namespace: Option<Seq<char>>,
    other_name: Seq<char>,
    other_arguments: Seq<char>,
)
    requires
        function_signature(namespace, name, arguments) == function_signature(
            other_namespace,
            other_name,
            other_arguments,
        ),
    ensures
        namespace_of(namespace) == namespace_of(other_namespace),
        name == other_name,
        arguments == other_arguments,
{
    let space = namespace_of(namespace);
    let other_space = namespace_of(other_namespace);
    let rest = field(name) + arguments;
    let other_rest = field(other_name) + other_arguments;
    let n = "function:"@.len() as int;
    assert(function_signature(namespace, name, arguments).skip(n) =~= field(space) + rest);
    assert(function_signature(other_namespace, other_name, other_arguments).skip(n) =~= field(
        other_space,
    ) + other_rest);
    lemma_field_is_unique(space, rest, other_space, other_rest);
    lemma_field_is_unique(name, arguments, other_name, other_arguments);
}

/// Calls of custom tools have one signature only where name and input are the same.
pub proof fn law_custom_signature_identifies_the_call(
    name: Seq<char>,
    input: Seq<char>,
    other_name: Seq<char>,
    other_input: Seq<char>,
)
    requires
        custom_signature(name, input) == custom_signature(other_name, other_input),
    ensures
        name == other_name,
        input == other_input,
{
    let n = "custom:"@.len() as int;
    assert(custom_signature(name, input).skip(n) =~= field(name) + input);
    assert(custom_signature(other_name, other_input).skip(n) =~= field(other_name) + other_input);
    lemma_field_is_unique(name, input, other_name, other_input);
}

/// Two items have one signature exactly if they are identical calls of a tool that is not protected.
pub proof fn law_signature_identifies_the_call(a: ItemView, b: ItemView)
    ensures
        same_call(a, b) <==> signature_of(a) is Some && signature_of(a) == signature_of(b),
{
    if signature_of(a) is Some && signature_of(a) == signature_of(b) {
        match (a, b) {
            (
                ItemView::FunctionCall { name, namespace, arguments, .. },
                ItemView::FunctionCall {
                    name: other_name,
                    namespace: other_namespace,
                    arguments: other_arguments,
                    ..
                },
            ) => {
                law_function_signature_identifies_the_call(
                    namespace,
                    name,
                    arguments,
                    other_namespace,
                    other_name,
                    other_arguments,
                );
            },
            (
                ItemView::CustomToolCall { name, input, .. },
                ItemView::CustomToolCall { name: other_name, input: other_input, .. },
            ) => {
                law_custom_signature_identifies_the_call(name, input, other_name, other_input);
            },
            (
                ItemView::FunctionCall { name, namespace, arguments, .. },
                ItemView::CustomToolCall { name: other_name, input, .. },
            ) => {
                law_kinds_of_calls_do_not_repeat_each_other(
                    namespace,
                    name,
                    arguments,
                    other_name,
                    input,
                );
            },
            (
                ItemView::CustomToolCall { name, input, .. },
                ItemView::FunctionCall { name: other_name, namespace, arguments, .. },
            ) => {
                law_kinds_of_calls_do_not_repeat_each_other(
                    namespace,
                    other_name,
                    arguments,
                    name,
                    input,
                );
            },
            _ => {},
        }
    }
}

/// A function call and a call of a custom tool never repeat each other.
pub proof fn law_kinds_of_calls_do_not_repeat_each_other(
    namespace: Option<Seq<char>>,
    name: Seq<char>,
    arguments: Seq<char>,
    custom_name: Seq<char>,
    input: Seq<char>,
)
    ensures
        function_signature(namespace, name, arguments) != custom_signature(custom_name, input),
{
    reveal_strlit("function:");
    reveal_strlit("custom:");
    assert(function_signature(namespace, name, arguments)[0] == 'f');
    assert(custom_signature(custom_name, input)[0] == 'c');
}

/// The tools whose calls are never taken for repetitions of each other.
pub open spec fn tools_that_change_things() -> Seq<Seq<char>> {
    seq![
        "apply_patch"@,
        "edit"@,
        "write"@,
        "task"@,
        "skill"@,
        "todowrite"@,
        "todoread"@,
        "compress"@,
        "batch"@,
        "plan_enter"@,
        "plan_exit"@,
    ]
}

/// The protected tools are these, and no others.
proof fn lemma_protected_tools(name: Seq<char>)
    ensures
        is_protected(name) <==> tools_that_change_things().contains(name),
{
    let tools = tools_that_change_things();
    assert(tools[0] == "apply_patch"@ && tools[1] == "edit"@ && tools[2] == "write"@ && tools[3]
        == "task"@ && tools[4] == "skill"@ && tools[5] == "todowrite"@ && tools[6] == "todoread"@
        && tools[7] == "compress"@ && tools[8] == "batch"@ && tools[9] == "plan_enter"@ && tools[10]
        == "plan_exit"@);
}

/// The output of a call that was repeated, after it is replaced: a fixed text, of a call of which
/// nothing is known.
pub open spec fn is_replaced_output(output: item::OutputView) -> bool {
    &&& output.success is None
    &&& output.body == item::BodyView::Text(
        "[codelink-context-pruned: duplicate tool output removed; newer identical call is preserved]"@,
    )
}

/// `after` is the answer `before`, but for its output, which is replaced.
pub open spec fn only_output_is_replaced(before: ItemView, after: ItemView) -> bool {
    match (before, after) {
        (
            ItemView::FunctionCallOutput { call_id, .. },
            ItemView::FunctionCallOutput { call_id: call_id2, output },
        ) => call_id2 == call_id && is_replaced_output(output),
        (
            ItemView::CustomToolCallOutput { call_id, name, .. },
            ItemView::CustomToolCallOutput { call_id: call_id2, name: name2, output },
        ) => call_id2 == call_id && name2 == name && is_replaced_output(output),
        _ => false,
    }
}

/// The item is an answer to the call with this id.
pub open spec fn answers(item: ItemView, id: Seq<char>) -> bool {
    match item {
        ItemView::FunctionCallOutput { call_id, .. } => call_id == id,
        ItemView::CustomToolCallOutput { call_id, .. } => call_id == id,
        _ => false,
    }
}

/// Where a function is called twice with the same namespace, name and arguments, and is not one of the
/// tools that change things, every answer to the first call before the cutoff is replaced.
pub proof fn law_repeated_function_calls_lose_their_outputs(
    items: Seq<ItemView>,
    cutoff: int,
    first: int,
    second: int,
    answer: int,
)
    requires
        0 <= first < second < items.len(),
        0 <= answer < items.len(),
        answer < cutoff,
        items[first] is FunctionCall,
        items[second] is FunctionCall,
        items[first]->FunctionCall_name == items[second]->FunctionCall_name,
        items[first]->FunctionCall_namespace == items[second]->FunctionCall_namespace,
        items[first]->FunctionCall_arguments == items[second]->FunctionCall_arguments,
        !tools_that_change_things().contains(items[first]->FunctionCall_name),
        answers(items[answer], items[first]->FunctionCall_call_id),
    ensures
        only_output_is_replaced(items[answer], deduplicated(items, cutoff)[answer]),
{
    lemma_protected_tools(items[first]->FunctionCall_name);
    assert(is_repeated(items, first, second));
    assert(is_superseded(items, items[first]->FunctionCall_call_id));
}

/// Where a custom tool is called twice with the same name and input, and is not one of the tools that
/// change things, every answer to the first call before the cutoff is replaced.
pub proof fn law_repeated_custom_calls_lose_their_outputs(
    items: Seq<ItemView>,
    cutoff: int,
    first: int,
    second: int,
    answer: int,
)
    requires
        0 <= first < second < items.len(),
        0 <= answer < items.len(),
        answer < cutoff,
        items[first] is CustomToolCall,
        items[second] is CustomToolCall,
        items[first]->CustomToolCall_name == items[second]->CustomToolCall_name,
        items[first]->CustomToolCall_input == items[second]->CustomToolCall_input,
        !tools_that_change_things().contains(items[first]->CustomToolCall_name),
        answers(items[answer], items[first]->CustomToolCall_call_id),
    ensures
        only_output_is_replaced(items[answer], deduplicated(items, cutoff)[answer]),
{
    lemma_protected_tools(items[first]->CustomToolCall_name);
    assert(is_repeated(items, first, second));
    assert(is_superseded(items, items[first]->CustomToolCall_call_id));
}

/// The item calls a tool under this id, with this namespace, name and arguments or input.
pub open spec fn is_call(
    item: ItemView,
    custom: bool,
    id: Seq<char>,
    namespace: Seq<char>,
    name: Seq<char>,
    input: Seq<char>,
) -> bool {
    match item {
        ItemView::FunctionCall { name: called, namespace: space, arguments, call_id, .. } => {
            &&& !custom
            &&& call_id == id
            &&& called == name
            &&& arguments == input
            &&& (space == Some(namespace) || space is None && namespace.len() == 0)
        },
        ItemView::CustomToolCall { name: called, input: given, call_id, .. } => {
            &&& custom
            &&& call_id == id
            &&& called == name
            &&& given == input
        },
        _ => false,
    }
}

/// An item is changed only if it is an answer before the cutoff to a call of a tool that changes
/// nothing, and a later call of the same kind has the same namespace, name and arguments or input.
pub proof fn law_only_outputs_of_repeated_calls_are_replaced(
    items: Seq<ItemView>,
    cutoff: int,
    answer: int,
)
    requires
        0 <= answer < items.len(),
    ensures
        deduplicated(items, cutoff).len() == items.len(),
        deduplicated(items, cutoff)[answer] != items[answer] ==> {
            &&& answer < cutoff
            &&& only_output_is_replaced(items[answer], deduplicated(items, cutoff)[answer])
            &&& exists|
                first: int,
                second: int,
                custom: bool,
                id: Seq<char>,
                other_id: Seq<char>,
                namespace: Seq<char>,
                name: Seq<char>,
                input: Seq<char>,
            |
                0 <= first < second < items.len() && answers(items[answer], id)
                    && !tools_that_change_things().contains(name) && #[trigger] is_call(
                    items[first],
                    custom,
                    id,
                    namespace,
                    name,
                    input,
                ) && #[trigger] is_call(items[second], custom, other_id, namespace, name, input)
        },
{
    if deduplicated(items, cutoff)[answer] != items[answer] {
        let id = items[answer].output_call_id()->0;
        let (i, j) = choose|i: int, j: int| #[trigger]
            is_repeated(items, i, j) && items[i].call_id() == Some(id);
        match (items[i], items[j]) {
            (
                ItemView::FunctionCall { name, namespace, arguments, .. },
                ItemView::FunctionCall { call_id: other_id, .. },
            ) => {
                lemma_protected_tools(name);
                let space = namespace_of(namespace);
                assert(namespace is Some || space =~= Seq::<char>::empty());
                assert(is_call(items[i], false, id, space, name, arguments));
                assert(is_call(items[j], false, other_id, space, name, arguments));
            },
            (
                ItemView::CustomToolCall { name, input, .. },
                ItemView::CustomToolCall { call_id: other_id, .. },
            ) => {
                lemma_protected_tools(name);
                let space = Seq::<char>::empty();
                assert(is_call(items[i], true, id, space, name, input));
                assert(is_call(items[j], true, other_id, space, name, input));
            },
            _ => {},
        }
    }
}

} // verus!
