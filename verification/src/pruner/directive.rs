//! Checkpoint directives: lines of a message by which the model asks for pruning.
//!
//! A directive is a line of the form `[codelink-context-checkpoint <target>] <summary>`.
use crate::item;
use crate::item::{ContentItem, ContentView, ItemView, ResponseItem};
use crate::number;
use crate::text;
use vstd::prelude::*;

verus! {

pub const CHECKPOINT_PREFIX: &'static str = "[codelink-context-checkpoint ";
pub const LEGACY_CHECKPOINT_PREFIX: &'static str = "[manga-context-checkpoint ";
pub const CHECKPOINT_SCOPE_OLDER_IMAGES: &'static str = "scope=older-images";
pub const CHECKPOINT_SCOPE_OLDER_HEAVY: &'static str = "scope=older-heavy";
pub const LEGACY_TURNS_PREFIX: &'static str = "turns=";
pub const CHECKPOINT_APPLIED_PLACEHOLDER: &'static str = "[codelink-context-checkpoint applied]";
pub const MAX_CHECKPOINT_SUMMARY_CHARS: usize = 800;

/// What a directive asks to be pruned.
#[derive(Debug, Clone, PartialEq, Eq)]
pub enum CheckpointTarget {
    /// The images of older turns.
    OlderImages,
    /// The heavy tool payloads of older turns.
    OlderHeavy,
    /// Images and heavy payloads of this many of the oldest turns.
    LegacyTurns(usize),
}

/// A checkpoint directive.
#[derive(Debug, Clone, PartialEq, Eq)]
pub struct CheckpointDirective {
    pub target: CheckpointTarget,
    pub summary: Option<String>,
}

/// The view of a checkpoint directive.
#[verifier::ext_equal]
pub struct DirectiveView {
    pub target: CheckpointTarget,
    pub summary: Option<Seq<char>>,
}

impl View for CheckpointDirective {
    type V = DirectiveView;

    open spec fn view(&self) -> DirectiveView {
        DirectiveView { target: self.target, summary: text::view_option(self.summary) }
    }
}

/// The view of an optional directive.
pub open spec fn view_directive(directive: Option<CheckpointDirective>) -> Option<DirectiveView> {
    match directive {
        Some(directive) => Some(directive@),
        None => None,
    }
}

/// What follows the opening of a directive, under its current or its legacy name.
pub open spec fn after_checkpoint_prefix(line: Seq<char>) -> Option<Seq<char>> {
    match text::after_prefix(line, CHECKPOINT_PREFIX@) {
        Some(rest) => Some(rest),
        None => text::after_prefix(line, LEGACY_CHECKPOINT_PREFIX@),
    }
}

/// What the words between the opening and the closing bracket ask for.
pub open spec fn target_of(words: Seq<char>) -> Option<CheckpointTarget> {
    if words == CHECKPOINT_SCOPE_OLDER_IMAGES@ {
        Some(CheckpointTarget::OlderImages)
    } else if words == CHECKPOINT_SCOPE_OLDER_HEAVY@ {
        Some(CheckpointTarget::OlderHeavy)
    } else {
        match text::after_prefix(words, LEGACY_TURNS_PREFIX@) {
            Some(turns) => match number::parse_unsigned_of(
                text::trim_of(turns),
                usize::MAX as int,
            ) {
                Some(n) => Some(CheckpointTarget::LegacyTurns(n as usize)),
                None => None,
            },
            None => None,
        }
    }
}

/// A summary without white space around it and cut to its first characters, if anything is left.
pub open spec fn summary_of(summary: Seq<char>) -> Option<Seq<char>> {
    let trimmed = text::trim_of(summary);
    if trimmed.len() == 0 {
        None
    } else if trimmed.len() <= MAX_CHECKPOINT_SUMMARY_CHARS {
        Some(trimmed)
    } else {
        Some(trimmed.take(MAX_CHECKPOINT_SUMMARY_CHARS as int))
    }
}

/// The directive that a line holds, where it holds one.
pub open spec fn line_directive(line: Seq<char>) -> Option<DirectiveView> {
    match after_checkpoint_prefix(text::trim_of(line)) {
        Some(rest) => {
            let close = text::find_char(rest, ']', 0);
            if close < rest.len() {
                match target_of(text::trim_of(rest.take(close))) {
                    Some(target) => Some(
                        DirectiveView { target, summary: summary_of(rest.skip(close + 1)) },
                    ),
                    None => None,
                }
            } else {
                None
            }
        },
        None => None,
    }
}

/// The first directive among lines.
pub open spec fn first_directive(lines: Seq<Seq<char>>) -> Option<DirectiveView>
    decreases lines.len(),
{
    if lines.len() == 0 {
        None
    } else if line_directive(lines[0]) is Some {
        line_directive(lines[0])
    } else {
        first_directive(lines.skip(1))
    }
}

/// The directive of a text: the first that its lines hold.
pub open spec fn text_directive(s: Seq<char>) -> Option<DirectiveView> {
    first_directive(text::lines_of(s))
}

/// The text of a part of a message, where it is text.
pub open spec fn part_text(part: ContentView) -> Option<Seq<char>> {
    match part {
        ContentView::InputText { text } => Some(text),
        ContentView::OutputText { text } => Some(text),
        ContentView::InputImage { .. } => None,
    }
}

/// The directive of a part of a message.
pub open spec fn part_directive(part: ContentView) -> Option<DirectiveView> {
    match part_text(part) {
        Some(text) => text_directive(text),
        None => None,
    }
}

/// The directive of the last part of a message that holds one.
pub open spec fn latest_in_content(content: Seq<ContentView>) -> Option<DirectiveView>
    decreases content.len(),
{
    if content.len() == 0 {
        None
    } else if part_directive(content.last()) is Some {
        part_directive(content.last())
    } else {
        latest_in_content(content.drop_last())
    }
}

/// The directive of an item: only messages hold any.
pub open spec fn item_directive(item: ItemView) -> Option<DirectiveView> {
    match item {
        ItemView::Message { content, .. } => latest_in_content(content),
        _ => None,
    }
}

/// The newest directive of a conversation.
pub open spec fn latest_directive(items: Seq<ItemView>) -> Option<DirectiveView>
    decreases items.len(),
{
    if items.len() == 0 {
        None
    } else if item_directive(items.last()) is Some {
        item_directive(items.last())
    } else {
        latest_directive(items.drop_last())
    }
}

/// Whether a line opens like a directive; such lines are not shown to the model.
pub open spec fn is_directive_line(line: Seq<char>) -> bool {
    after_checkpoint_prefix(text::trim_start_of(line)) is Some
}

/// The lines that do not open like a directive.
pub open spec fn kept_lines(lines: Seq<Seq<char>>) -> Seq<Seq<char>>
    decreases lines.len(),
{
    if lines.len() == 0 {
        Seq::empty()
    } else if is_directive_line(lines.last()) {
        kept_lines(lines.drop_last())
    } else {
        kept_lines(lines.drop_last()).push(lines.last())
    }
}

/// Whether one of these lines opens like a directive.
pub open spec fn has_directive_line(lines: Seq<Seq<char>>) -> bool {
    exists|i: int| 0 <= i < lines.len() && is_directive_line(#[trigger] lines[i])
}

/// A text without the lines that open like a directive, or a placeholder where no line is left. A
/// text that has no such line is left as it is.
pub open spec fn stripped_text(s: Seq<char>) -> Seq<char> {
    let kept = kept_lines(text::lines_of(s));
    if !has_directive_line(text::lines_of(s)) {
        s
    } else if kept.len() == 0 {
        CHECKPOINT_APPLIED_PLACEHOLDER@
    } else {
        text::join_of(kept, "\n"@)
    }
}

/// A part of a message with its text stripped.
pub open spec fn stripped_part(part: ContentView) -> ContentView {
    match part {
        ContentView::InputText { text } => ContentView::InputText { text: stripped_text(text) },
        ContentView::OutputText { text } => ContentView::OutputText { text: stripped_text(text) },
        ContentView::InputImage { .. } => part,
    }
}

/// An item with the texts of its parts stripped, where it is a message.
pub open spec fn stripped_item(item: ItemView) -> ItemView {
    match item {
        ItemView::Message { id, role, content, phase } => ItemView::Message {
            id,
            role,
            content: content.map_values(|part: ContentView| stripped_part(part)),
            phase,
        },
        _ => item,
    }
}

/// A conversation with every message stripped.
pub open spec fn stripped_items(items: Seq<ItemView>) -> Seq<ItemView> {
    items.map_values(|item: ItemView| stripped_item(item))
}

/// What follows the opening of a directive, where a line begins with one.
pub fn strip_checkpoint_prefix<'a>(line: &'a str) -> (rest: Option<&'a str>)
    ensures
        match rest {
            Some(rest) => after_checkpoint_prefix(line@) == Some(rest@),
            None => after_checkpoint_prefix(line@) is None,
        },
{
    match text::strip_prefix(line, CHECKPOINT_PREFIX) {
        Some(rest) => Some(rest),
        None => text::strip_prefix(line, LEGACY_CHECKPOINT_PREFIX),
    }
}

/// Reads what a directive asks for.
pub fn parse_checkpoint_target(directive: &str) -> (target: Option<CheckpointTarget>)
    ensures
        target == target_of(directive@),
{
    if text::text_eq(directive, CHECKPOINT_SCOPE_OLDER_IMAGES) {
        return Some(CheckpointTarget::OlderImages);
    }
    if text::text_eq(directive, CHECKPOINT_SCOPE_OLDER_HEAVY) {
        return Some(CheckpointTarget::OlderHeavy);
    }
    match text::strip_prefix(directive, LEGACY_TURNS_PREFIX) {
        Some(turns) => match number::parse_usize(text::trim(turns)) {
            Some(n) => Some(CheckpointTarget::LegacyTurns(n)),
            None => None,
        },
        None => None,
    }
}

/// Trims a summary and cuts it to its first characters.
pub fn trim_checkpoint_summary(summary: &str) -> (trimmed: Option<String>)
    ensures
        text::view_option(trimmed) == summary_of(summary@),
{
    let summary = text::trim(summary);
    if summary.is_empty() {
        return None;
    }
    let chars = text::chars_of(summary);
    let n: usize = if chars.len() <= MAX_CHECKPOINT_SUMMARY_CHARS {
        chars.len()
    } else {
        MAX_CHECKPOINT_SUMMARY_CHARS
    };
    assert(summary@.subrange(0, n as int) =~= summary@.take(n as int));
    assert(summary@.take(summary@.len() as int) =~= summary@);
    Some(text::string_of(&chars, 0, n))
}

/// Reads the directive of a text.
pub fn extract_checkpoint_directive(s: &str) -> (directive: Option<CheckpointDirective>)
    ensures
        view_directive(directive) == text_directive(s@),
{
    let lines = text::lines(s);
    let mut i: usize = 0;
    let ghost all = text::lines_of(s@);
    assert(all.skip(0) =~= all);
    while i < lines.len()
        invariant
            i <= lines@.len(),
            all == text::lines_of(s@),
            all == text::views(lines@),
            first_directive(all) == first_directive(all.skip(i as int)),
        decreases lines@.len() - i,
    {
        let ghost rest_lines = all.skip(i as int);
        assert(rest_lines[0] == lines@[i as int]@);
        assert(rest_lines.skip(1) =~= all.skip(i + 1));
        let line = text::trim(lines[i].as_str());
        i += 1;
        let rest = match strip_checkpoint_prefix(line) {
            Some(rest) => rest,
            None => {
                continue;
            },
        };
        let (words, summary) = match text::split_once(rest, ']') {
            Some(parts) => parts,
            None => {
                continue;
            },
        };
        let target = match parse_checkpoint_target(text::trim(words)) {
            Some(target) => target,
            None => {
                continue;
            },
        };
        return Some(CheckpointDirective { target, summary: trim_checkpoint_summary(summary) });
    }
    None
}

/// Removes from a text the lines that open like a directive. A text that has none is left as it is.
pub fn strip_checkpoint_directive_lines(s: &str) -> (stripped: String)
    ensures
        stripped@ == stripped_text(s@),
        (forall|i: int|
            0 <= i < text::lines_of(s@).len() ==> !is_directive_line(
                #[trigger] text::lines_of(s@)[i],
            )) ==> stripped@ == s@,
{
    let lines = text::lines(s);
    let mut removed = false;
    let mut kept: Vec<String> = Vec::new();
    let mut i: usize = 0;
    let ghost all = text::lines_of(s@);
    while i < lines.len()
        invariant
            i <= lines@.len(),
            all == text::views(lines@),
            text::views(kept@) == kept_lines(all.take(i as int)),
            removed == has_directive_line(all.take(i as int)),
        decreases lines@.len() - i,
    {
        assert(all.take(i + 1).drop_last() =~= all.take(i as int));
        proof {
            lemma_has_directive_line_step(all, i as int);
        }
        let ghost before = text::views(kept@);
        if strip_checkpoint_prefix(text::trim_start(lines[i].as_str())).is_none() {
            kept.push(lines[i].clone());
            assert(text::views(kept@) =~= before.push(lines@[i as int]@));
        } else {
            removed = true;
        }
        i += 1;
    }
    assert(all.take(i as int) =~= all);
    if !removed {
        s.to_owned()
    } else if kept.len() == 0 {
        CHECKPOINT_APPLIED_PLACEHOLDER.to_owned()
    } else {
        text::join(&kept, "\n")
    }
}

/// One more line.
proof fn lemma_has_directive_line_step(lines: Seq<Seq<char>>, n: int)
    requires
        0 <= n < lines.len(),
    ensures
        has_directive_line(lines.take(n + 1)) <==> has_directive_line(lines.take(n))
            || is_directive_line(lines[n]),
{
    let now = lines.take(n + 1);
    let earlier = lines.take(n);
    if has_directive_line(earlier) {
        let i = choose|i: int| 0 <= i < earlier.len() && is_directive_line(#[trigger] earlier[i]);
        assert(now[i] == earlier[i]);
    }
    if is_directive_line(lines[n]) {
        assert(now[n] == lines[n]);
    }
    if has_directive_line(now) {
        let i = choose|i: int| 0 <= i < now.len() && is_directive_line(#[trigger] now[i]);
        if i < n {
            assert(earlier[i] == now[i]);
        }
    }
}

/// The parts of a message.
pub fn message_content_items(item: &ResponseItem) -> (content: Option<&Vec<ContentItem>>)
    ensures
        match *item {
            ResponseItem::Message { content: parts, .. } => content == Some(&parts),
            _ => content is None,
        },
{
    match item {
        ResponseItem::Message { content, .. } => Some(content),
        _ => None,
    }
}

/// The text of a part of a message.
pub fn content_item_text(part: &ContentItem) -> (text: Option<&str>)
    ensures
        match text {
            Some(text) => part_text(part@) == Some(text@),
            None => part_text(part@) is None,
        },
{
    match part {
        ContentItem::InputText { text } => Some(text.as_str()),
        ContentItem::OutputText { text } => Some(text.as_str()),
        ContentItem::InputImage { .. } => None,
    }
}

/// The directive of the last part of a message that holds one.
fn latest_directive_in(content: &Vec<ContentItem>) -> (directive: Option<CheckpointDirective>)
    ensures
        view_directive(directive) == latest_in_content(item::content_views(content@)),
{
    let ghost all = item::content_views(content@);
    let mut n: usize = content.len();
    assert(all.take(n as int) =~= all);
    while n > 0
        invariant
            n <= content@.len(),
            all == item::content_views(content@),
            latest_in_content(all) == latest_in_content(all.take(n as int)),
        decreases n,
    {
        assert(all.take(n as int).drop_last() =~= all.take(n - 1));
        n -= 1;
        if let Some(text) = content_item_text(&content[n]) {
            let directive = extract_checkpoint_directive(text);
            if directive.is_some() {
                return directive;
            }
        }
    }
    None
}

/// Finds the newest directive of a conversation.
pub fn latest_checkpoint_directive(items: &[ResponseItem]) -> (directive: Option<
    CheckpointDirective,
>)
    ensures
        view_directive(directive) == latest_directive(item::item_views(items@)),
{
    let ghost all = item::item_views(items@);
    let mut n: usize = items.len();
    assert(all.take(n as int) =~= all);
    while n > 0
        invariant
            n <= items@.len(),
            all == item::item_views(items@),
            latest_directive(all) == latest_directive(all.take(n as int)),
        decreases n,
    {
        assert(all.take(n as int).drop_last() =~= all.take(n - 1));
        n -= 1;
        if let Some(content) = message_content_items(&items[n]) {
            let directive = latest_directive_in(content);
            if directive.is_some() {
                return directive;
            }
        }
    }
    None
}

/// Strips the text of a part of a message.
fn strip_part(part: &mut ContentItem)
    ensures
        final(part)@ == stripped_part(old(part)@),
{
    match part {
        ContentItem::InputText { text } => {
            *text = strip_checkpoint_directive_lines(text.as_str());
        },
        ContentItem::OutputText { text } => {
            *text = strip_checkpoint_directive_lines(text.as_str());
        },
        ContentItem::InputImage { .. } => {},
    }
}

/// Strips the texts of the parts of a message.
fn strip_content(content: &mut Vec<ContentItem>)
    ensures
        item::content_views(final(content)@) == item::content_views(old(content)@).map_values(
            |part: ContentView| stripped_part(part),
        ),
{
    let mut i: usize = 0;
    let n: usize = content.len();
    while i < n
        invariant
            i <= n == content@.len() == old(content)@.len(),
            forall|j: int|
                0 <= j < n ==> #[trigger] content@[j]@ == if j < i {
                    stripped_part(old(content)@[j]@)
                } else {
                    old(content)@[j]@
                },
        decreases n - i,
    {
        strip_part(&mut content[i]);
        i += 1;
    }
    assert(item::content_views(content@) =~= item::content_views(old(content)@).map_values(
        |part: ContentView| stripped_part(part),
    ));
}

/// Strips the texts of an item, where it is a message.
fn strip_item(item: &mut ResponseItem)
    ensures
        final(item)@ == stripped_item(old(item)@),
{
    match item {
        ResponseItem::Message { content, .. } => {
            strip_content(content);
        },
        _ => {},
    }
}

/// Removes every directive from a conversation.
pub fn strip_checkpoint_directives_from_prompt(items: &mut [ResponseItem])
    ensures
        item::item_views(final(items)@) == stripped_items(item::item_views(old(items)@)),
{
    let mut i: usize = 0;
    let n: usize = items.len();
    while i < n
        invariant
            i <= n == items@.len() == old(items)@.len(),
            forall|j: int|
                0 <= j < n ==> #[trigger] items@[j]@ == if j < i {
                    stripped_item(old(items)@[j]@)
                } else {
                    old(items)@[j]@
                },
        decreases n - i,
    {
        strip_item(&mut items[i]);
        i += 1;
    }
    assert(item::item_views(items@) =~= stripped_items(item::item_views(old(items)@)));
}

/// Kept lines do not open like a directive, and are among the lines.
proof fn lemma_kept_lines(lines: Seq<Seq<char>>)
    ensures
        forall|i: int|
            0 <= i < kept_lines(lines).len() ==> !is_directive_line(#[trigger] kept_lines(lines)[i])
                && lines.contains(kept_lines(lines)[i]),
    decreases lines.len(),
{
    if lines.len() > 0 {
        let earlier = lines.drop_last();
        lemma_kept_lines(earlier);
        assert forall|i: int| 0 <= i < kept_lines(lines).len() implies !is_directive_line(
            #[trigger] kept_lines(lines)[i],
        ) && lines.contains(kept_lines(lines)[i]) by {
            if i < kept_lines(earlier).len() {
                let line = kept_lines(earlier)[i];
                assert(earlier.contains(line));
                let k = choose|k: int| 0 <= k < earlier.len() && earlier[k] == line;
                assert(lines[k] == line);
            } else {
                assert(lines[lines.len() - 1] == lines.last());
            }
        }
    }
}

/// The openings of a directive are not empty.
proof fn lemma_prefixes_not_empty()
    ensures
        CHECKPOINT_PREFIX@.len() > 0,
        LEGACY_CHECKPOINT_PREFIX@.len() > 0,
{
    reveal_strlit("[codelink-context-checkpoint ");
    reveal_strlit("[manga-context-checkpoint ");
}

/// A line that does not open like a directive holds none, with or without its carriage return.
proof fn lemma_other_lines_hold_no_directive(line: Seq<char>)
    requires
        !is_directive_line(line),
    ensures
        line_directive(line) is None,
        !is_directive_line(text::without_cr(line)),
{
    let started = text::trim_start_of(line);
    text::lemma_trim_end_is_beginning(started);
    let n = text::trim_end_of(started).len() as int;
    if text::starts_with(text::trim_of(line), CHECKPOINT_PREFIX@) {
        text::lemma_starts_with_longer(started, n, CHECKPOINT_PREFIX@);
    }
    if text::starts_with(text::trim_of(line), LEGACY_CHECKPOINT_PREFIX@) {
        text::lemma_starts_with_longer(started, n, LEGACY_CHECKPOINT_PREFIX@);
    }
    let shorter = text::without_cr(line);
    if shorter != line && is_directive_line(shorter) {
        lemma_prefixes_not_empty();
        let end = seq!['\r'];
        assert(shorter + end =~= line);
        text::lemma_trim_start_of_longer(shorter, end);
        let m = text::trim_start_of(shorter).len() as int;
        assert(started.take(m) =~= text::trim_start_of(shorter));
        if text::starts_with(text::trim_start_of(shorter), CHECKPOINT_PREFIX@) {
            text::lemma_starts_with_longer(started, m, CHECKPOINT_PREFIX@);
        } else {
            text::lemma_starts_with_longer(started, m, LEGACY_CHECKPOINT_PREFIX@);
        }
    }
}

/// Lines of which none holds a directive hold no first one.
proof fn lemma_no_first_directive(lines: Seq<Seq<char>>)
    requires
        forall|i: int| 0 <= i < lines.len() ==> line_directive(#[trigger] lines[i]) is None,
    ensures
        first_directive(lines) is None,
    decreases lines.len(),
{
    if lines.len() > 0 {
        let rest = lines.skip(1);
        assert forall|i: int| 0 <= i < rest.len() implies line_directive(#[trigger] rest[i])
            is None by {
            assert(rest[i] == lines[i + 1]);
        }
        assert(line_directive(lines[0]) is None);
        lemma_no_first_directive(rest);
    }
}

/// The placeholder for a text of directives is no directive itself.
proof fn lemma_applied_placeholder_holds_no_directive()
    ensures
        text_directive(CHECKPOINT_APPLIED_PLACEHOLDER@) is None,
{
    reveal_strlit("[codelink-context-checkpoint applied]");
    reveal_strlit("[codelink-context-checkpoint ");
    reveal_strlit("[manga-context-checkpoint ");
    reveal_strlit("scope=older-images");
    reveal_strlit("scope=older-heavy");
    reveal_strlit("turns=");
    let all = CHECKPOINT_APPLIED_PLACEHOLDER@;
    let rest = seq!['a', 'p', 'p', 'l', 'i', 'e', 'd', ']'];
    let words = seq!['a', 'p', 'p', 'l', 'i', 'e', 'd'];
    assert(all =~= CHECKPOINT_PREFIX@ + rest);
    text::lemma_find_char(all, '\n', 0);
    let end = text::find_char(all, '\n', 0);
    assert(text::lines_of(all) =~= seq![all]) by {
        lemma_applied_placeholder_is_one_line();
        text::lemma_find_char_is(all, '\n', 0, all.len() as int);
    }
    assert(text::trim_of(all) == all);
    assert(text::starts_with(all, CHECKPOINT_PREFIX@)) by {
        assert(all.take(CHECKPOINT_PREFIX@.len() as int) =~= CHECKPOINT_PREFIX@);
    }
    assert(all.skip(CHECKPOINT_PREFIX@.len() as int) =~= rest);
    text::lemma_find_char_is(rest, ']', 0, 7);
    assert(rest.take(7) =~= words);
    assert(text::trim_of(words) == words);
    assert(words.len() != CHECKPOINT_SCOPE_OLDER_IMAGES@.len());
    assert(words.len() != CHECKPOINT_SCOPE_OLDER_HEAVY@.len());
    assert(words.take(LEGACY_TURNS_PREFIX@.len() as int)[0] == 'a');
    assert(LEGACY_TURNS_PREFIX@[0] == 't');
    assert(line_directive(all) is None);
    lemma_no_first_directive(text::lines_of(all));
}

/// Whether the first `n` characters of `s` hold no line feed.
pub open spec fn newline_free_up_to(s: Seq<char>, n: nat) -> bool
    decreases n,
{
    n == 0 || s[n - 1] != '\n' && newline_free_up_to(s, (n - 1) as nat)
}

/// What holds of every beginning holds of the whole.
pub proof fn lemma_newline_free_up_to(s: Seq<char>, n: nat)
    requires
        n <= s.len(),
        newline_free_up_to(s, n),
    ensures
        forall|i: int| 0 <= i < n ==> #[trigger] s[i] != '\n',
    decreases n,
{
    if n > 0 {
        lemma_newline_free_up_to(s, (n - 1) as nat);
    }
}

/// The placeholder for a text of directives is one line.
proof fn lemma_applied_placeholder_is_one_line()
    ensures
        text::newline_free(CHECKPOINT_APPLIED_PLACEHOLDER@),
{
    reveal_strlit("[codelink-context-checkpoint applied]");
    reveal_with_fuel(newline_free_up_to, 40);
    assert(CHECKPOINT_APPLIED_PLACEHOLDER@.len() == 37);
    assert(newline_free_up_to(CHECKPOINT_APPLIED_PLACEHOLDER@, 37));
    lemma_newline_free_up_to(CHECKPOINT_APPLIED_PLACEHOLDER@, 37);
}

/// A stripped text holds no directive: a directive is never shown to the model, and never obeyed
/// a second time.
pub proof fn law_stripped_text_holds_no_directive(s: Seq<char>)
    ensures
        text_directive(stripped_text(s)) is None,
{
    let lines = text::lines_of(s);
    let kept = kept_lines(lines);
    if !has_directive_line(lines) {
        assert forall|i: int| 0 <= i < lines.len() implies line_directive(#[trigger] lines[i])
            is None by {
            assert(!is_directive_line(lines[i]));
            lemma_other_lines_hold_no_directive(lines[i]);
        }
        lemma_no_first_directive(lines);
    } else if kept.len() == 0 {
        lemma_applied_placeholder_holds_no_directive();
    } else {
        lemma_kept_lines(lines);
        text::lemma_lines_are_newline_free(s);
        assert forall|i: int| 0 <= i < kept.len() implies text::newline_free(#[trigger] kept[i]) by {
            assert(lines.contains(kept[i]));
            let k = choose|k: int| 0 <= k < lines.len() && lines[k] == kept[i];
            assert(text::newline_free(lines[k]));
        }
        text::lemma_lines_of_join(kept);
        let left = text::lines_of(stripped_text(s));
        assert forall|i: int| 0 <= i < left.len() implies line_directive(#[trigger] left[i])
            is None by {
            assert(!is_directive_line(kept[i]));
            lemma_other_lines_hold_no_directive(kept[i]);
            lemma_other_lines_hold_no_directive(text::without_cr(kept[i]));
        }
        lemma_no_first_directive(left);
    }
}

/// A text none of whose lines opens like a directive is left as it is, to the last character.
pub proof fn law_text_without_directives_is_left_alone(s: Seq<char>)
    requires
        forall|i: int|
            0 <= i < text::lines_of(s).len() ==> !is_directive_line(#[trigger] text::lines_of(s)[i]),
    ensures
        stripped_text(s) == s,
{
}

/// Whether a line of a text of an item opens like a directive.
pub open spec fn item_has_directive_line(item: ItemView) -> bool {
    item matches ItemView::Message { content, .. } && exists|i: int|
        0 <= i < content.len() && (part_text(#[trigger] content[i]) matches Some(text)
            && has_directive_line(text::lines_of(text)))
}

/// An item none of whose lines opens like a directive is left as it is.
pub proof fn law_item_without_directives_is_left_alone(item: ItemView)
    requires
        !item_has_directive_line(item),
    ensures
        stripped_item(item) == item,
{
    if let ItemView::Message { content, .. } = item {
        let stripped = content.map_values(|part: ContentView| stripped_part(part));
        assert forall|i: int| 0 <= i < content.len() implies #[trigger] stripped[i] == content[i] by {
            let part = content[i];
            assert(!(part_text(content[i]) matches Some(text) && has_directive_line(
                text::lines_of(text),
            )));
        }
        assert(stripped =~= content);
    }
}

/// A message whose parts hold no directive holds none.
pub proof fn lemma_no_directive_in_content(content: Seq<ContentView>)
    requires
        forall|i: int| 0 <= i < content.len() ==> part_directive(#[trigger] content[i]) is None,
    ensures
        latest_in_content(content) is None,
    decreases content.len(),
{
    if content.len() > 0 {
        let earlier = content.drop_last();
        assert forall|i: int| 0 <= i < earlier.len() implies part_directive(#[trigger] earlier[i])
            is None by {
            assert(earlier[i] == content[i]);
        }
        assert(part_directive(content[content.len() - 1]) is None);
        lemma_no_directive_in_content(earlier);
    }
}

/// A conversation whose items hold no directive holds none.
pub proof fn lemma_no_directive_in_items(items: Seq<ItemView>)
    requires
        forall|i: int| 0 <= i < items.len() ==> item_directive(#[trigger] items[i]) is None,
    ensures
        latest_directive(items) is None,
    decreases items.len(),
{
    if items.len() > 0 {
        let earlier = items.drop_last();
        assert forall|i: int| 0 <= i < earlier.len() implies item_directive(#[trigger] earlier[i])
            is None by {
            assert(earlier[i] == items[i]);
        }
        assert(item_directive(items[items.len() - 1]) is None);
        lemma_no_directive_in_items(earlier);
    }
}

/// A stripped part of a message holds no directive.
pub proof fn lemma_stripped_part_holds_no_directive(part: ContentView)
    ensures
        part_directive(stripped_part(part)) is None,
{
    match part {
        ContentView::InputText { text } => {
            law_stripped_text_holds_no_directive(text);
        },
        ContentView::OutputText { text } => {
            law_stripped_text_holds_no_directive(text);
        },
        ContentView::InputImage { .. } => {},
    }
}

/// Trimming keeps a line a line.
proof fn lemma_trim_is_newline_free(s: Seq<char>)
    requires
        text::newline_free(s),
    ensures
        text::newline_free(text::trim_of(s)),
{
    text::lemma_trim_start_is_ending(s);
    let started = text::trim_start_of(s);
    let k = s.len() - started.len();
    assert forall|i: int| 0 <= i < started.len() implies #[trigger] started[i] != '\n' by {
        assert(s.skip(k)[i] == s[k + i]);
    }
    text::lemma_trim_end_is_beginning(started);
    let trimmed = text::trim_of(s);
    assert forall|i: int| 0 <= i < trimmed.len() implies #[trigger] trimmed[i] != '\n' by {
        assert(started.take(trimmed.len() as int)[i] == started[i]);
    }
}

/// The summary of a directive is one line.
pub open spec fn summary_is_one_line(directive: DirectiveView) -> bool {
    directive.summary matches Some(summary) ==> text::newline_free(summary)
}

/// The summary of a directive that stands on a line is one line.
proof fn lemma_line_summary(line: Seq<char>)
    requires
        text::newline_free(line),
    ensures
        line_directive(line) matches Some(directive) ==> summary_is_one_line(directive),
{
    if let Some(directive) = line_directive(line) {
        lemma_trim_is_newline_free(line);
        let trimmed = text::trim_of(line);
        let rest = after_checkpoint_prefix(trimmed)->0;
        let k = trimmed.len() - rest.len();
        assert(rest =~= trimmed.skip(k));
        let close = text::find_char(rest, ']', 0);
        text::lemma_find_char(rest, ']', 0);
        let tail = rest.skip(close + 1);
        assert forall|i: int| 0 <= i < tail.len() implies #[trigger] tail[i] != '\n' by {
            assert(tail[i] == trimmed[k + close + 1 + i]);
        }
        lemma_trim_is_newline_free(tail);
        let summary = text::trim_of(tail);
        assert(text::newline_free(summary));
    }
}

/// The summary of the first directive among lines is one line.
proof fn lemma_first_summary(lines: Seq<Seq<char>>)
    requires
        forall|i: int| 0 <= i < lines.len() ==> text::newline_free(#[trigger] lines[i]),
    ensures
        first_directive(lines) matches Some(directive) ==> summary_is_one_line(directive),
    decreases lines.len(),
{
    if lines.len() > 0 {
        assert(text::newline_free(lines[0]));
        lemma_line_summary(lines[0]);
        let rest = lines.skip(1);
        assert forall|i: int| 0 <= i < rest.len() implies text::newline_free(#[trigger] rest[i]) by {
            assert(rest[i] == lines[i + 1]);
        }
        lemma_first_summary(rest);
    }
}

/// The summary of the directive of a message is one line.
proof fn lemma_content_summary(content: Seq<ContentView>)
    ensures
        latest_in_content(content) matches Some(directive) ==> summary_is_one_line(directive),
    decreases content.len(),
{
    if content.len() > 0 {
        if let Some(text) = part_text(content.last()) {
            text::lemma_lines_are_newline_free(text);
            lemma_first_summary(text::lines_of(text));
        }
        lemma_content_summary(content.drop_last());
    }
}

/// The summary of the newest directive of a conversation is one line.
pub proof fn law_summary_is_one_line(items: Seq<ItemView>)
    ensures
        latest_directive(items) matches Some(directive) ==> summary_is_one_line(directive),
    decreases items.len(),
{
    if items.len() > 0 {
        if let ItemView::Message { content, .. } = items.last() {
            lemma_content_summary(content);
        }
        law_summary_is_one_line(items.drop_last());
    }
}

/// A line that begins with something else than the opening of a directive holds none.
pub proof fn lemma_other_opening_holds_no_directive(line: Seq<char>)
    requires
        text::newline_free(line),
        line.len() > 0,
        !text::is_white_space(line[0]),
        after_checkpoint_prefix(line) is None,
    ensures
        text_directive(line) is None,
{
    text::lemma_find_char_is(line, '\n', 0, line.len() as int);
    assert(text::lines_of(line) =~= seq![line]);
    assert(text::trim_start_of(line) == line);
    lemma_other_lines_hold_no_directive(line);
    lemma_no_first_directive(text::lines_of(line));
}

/// White space, then `opening`, then anything.
pub open spec fn opens_with(line: Seq<char>, opening: Seq<char>) -> bool {
    exists|front: Seq<char>, rest: Seq<char>|
        text::all_white(front) && line == #[trigger] (front + opening + rest)
}

/// What follows an opening that is not white space, after white space.
proof fn lemma_opens_with(line: Seq<char>, opening: Seq<char>)
    requires
        opening.len() > 0,
        !text::is_white_space(opening[0]),
    ensures
        opens_with(line, opening) <==> text::starts_with(text::trim_start_of(line), opening),
{
    let started = text::trim_start_of(line);
    let n = opening.len() as int;
    if opens_with(line, opening) {
        let (front, rest) = choose|front: Seq<char>, rest: Seq<char>|
            text::all_white(front) && line == #[trigger] (front + opening + rest);
        assert(front + opening + rest =~= front + (opening + rest));
        text::lemma_trim_start_of_padded(front, opening + rest);
        assert((opening + rest).take(n) =~= opening);
    }
    if text::starts_with(started, opening) {
        text::lemma_trim_start_takes_white(line);
        let front = choose|front: Seq<char>|
            line == #[trigger] (front + started) && text::all_white(front);
        assert(started =~= opening + started.skip(n));
        assert(line =~= front + opening + started.skip(n));
    }
}

/// A line opens like a directive exactly if it starts, after white space, with
/// `[codelink-context-checkpoint ` or `[manga-context-checkpoint `.
pub proof fn law_directive_lines_open_with_their_names(line: Seq<char>)
    ensures
        is_directive_line(line) <==> opens_with(line, "[codelink-context-checkpoint "@)
            || opens_with(line, "[manga-context-checkpoint "@),
{
    reveal_strlit("[codelink-context-checkpoint ");
    reveal_strlit("[manga-context-checkpoint ");
    lemma_opens_with(line, "[codelink-context-checkpoint "@);
    lemma_opens_with(line, "[manga-context-checkpoint "@);
}

/// Keeping lines is filtering them.
proof fn lemma_kept_lines_are_filtered(lines: Seq<Seq<char>>)
    ensures
        kept_lines(lines) == lines.filter(|line: Seq<char>| !is_directive_line(line)),
    decreases lines.len(),
{
    reveal(Seq::filter);
    if lines.len() > 0 {
        lemma_kept_lines_are_filtered(lines.drop_last());
    }
}

/// Stripping a text of its directives keeps every other line as it is, in order, whatever it is
/// indented by, and drops no other; where no other line is left, a fixed text says that a directive was
/// applied.
pub proof fn law_stripping_keeps_every_other_line(s: Seq<char>, at: int)
    requires
        0 <= at < text::lines_of(s).len(),
        is_directive_line(text::lines_of(s)[at]),
    ensures
        ({
            let others = text::lines_of(s).filter(|line: Seq<char>| !is_directive_line(line));
            let stripped = stripped_text(s);
            &&& others.len() == 0 ==> stripped == "[codelink-context-checkpoint applied]"@
            &&& others.len() > 0 ==> stripped == text::join_of(others, seq!['\n'])
            &&& others.len() > 0 && others.last().len() > 0 && (forall|i: int|
                0 <= i < others.len() ==> (#[trigger] others[i]).len() == 0 || others[i].last()
                    != '\r') ==> text::lines_of(stripped) == others
        }),
{
    reveal_strlit("\n");
    assert("\n"@ =~= seq!['\n']);
    let lines = text::lines_of(s);
    lemma_kept_lines_are_filtered(lines);
    assert(has_directive_line(lines));
    let others = lines.filter(|line: Seq<char>| !is_directive_line(line));
    lemma_kept_lines(lines);
    text::lemma_lines_are_newline_free(s);
    if others.len() > 0 && others.last().len() > 0 && (forall|i: int|
        0 <= i < others.len() ==> (#[trigger] others[i]).len() == 0 || others[i].last() != '\r') {
        assert forall|i: int| 0 <= i < others.len() implies text::newline_free(
            #[trigger] others[i],
        ) && (others[i].len() == 0 || others[i].last() != '\r') by {
            assert(lines.contains(kept_lines(lines)[i]));
            let k = choose|k: int| 0 <= k < lines.len() && lines[k] == others[i];
            assert(text::newline_free(lines[k]));
        }
        text::law_joined_lines_read_back(others);
    }
}

/// Stripping a conversation changes nothing but the texts of its messages: who says them, their
/// images, the number of their parts and all other items stay as they are.
pub proof fn law_only_texts_of_messages_are_stripped(items: Seq<ItemView>, i: int)
    requires
        0 <= i < items.len(),
    ensures
        stripped_items(items).len() == items.len(),
        match (items[i], stripped_items(items)[i]) {
            (
                ItemView::Message { id, role, content, phase },
                ItemView::Message { id: id2, role: role2, content: content2, phase: phase2 },
            ) => {
                &&& id2 == id && role2 == role && phase2 == phase
                &&& content2.len() == content.len()
                &&& forall|k: int|
                    0 <= k < content.len() ==> match #[trigger] content[k] {
                        ContentView::InputText { text } => content2[k] == (ContentView::InputText {
                            text: stripped_text(text),
                        }),
                        ContentView::OutputText { text } => content2[k]
                            == (ContentView::OutputText { text: stripped_text(text) }),
                        ContentView::InputImage { .. } => content2[k] == content[k],
                    }
            },
            (ItemView::Message { .. }, _) => false,
            (item, stripped) => stripped == item,
        },
{
}

/// A directive is read from a line under either name: what stands before the first closing bracket is
/// what it asks for, and what follows is its summary. White space around the line does not matter.
pub proof fn law_directive_is_read(
    line: Seq<char>,
    opening: Seq<char>,
    words: Seq<char>,
    tail: Seq<char>,
)
    requires
        opening == "[codelink-context-checkpoint "@ || opening == "[manga-context-checkpoint "@,
        text::free_of(words, ']'),
        text::trim_of(line) == opening + words + seq![']'] + tail,
    ensures
        match target_of(text::trim_of(words)) {
            Some(target) => line_directive(line) == Some(
                DirectiveView { target, summary: summary_of(tail) },
            ),
            None => line_directive(line) is None,
        },
{
    reveal_strlit("[codelink-context-checkpoint ");
    reveal_strlit("[manga-context-checkpoint ");
    let trimmed = text::trim_of(line);
    let rest = words + seq![']'] + tail;
    let n = opening.len() as int;
    assert(trimmed =~= opening + rest);
    assert(trimmed.take(n) =~= opening);
    assert(trimmed.skip(n) =~= rest);
    if opening == "[manga-context-checkpoint "@ {
        assert(trimmed[1] == 'm');
        if text::starts_with(trimmed, CHECKPOINT_PREFIX@) {
            assert(trimmed.take(CHECKPOINT_PREFIX@.len() as int)[1] == 'm');
        }
    }
    assert(after_checkpoint_prefix(trimmed) == Some(rest));
    let close = words.len() as int;
    assert forall|i: int| 0 <= i < close implies rest[i] != ']' by {
        assert(rest[i] == words[i]);
    }
    text::lemma_find_char_is(rest, ']', 0, close);
    assert(rest.take(close) =~= words);
    assert(rest.skip(close + 1) =~= tail);
}

/// A directive asks for older images, for older heavy payloads, or for a number of turns, in these
/// words and no others.
pub proof fn law_directives_ask_in_these_words(words: Seq<char>, turns: usize)
    ensures
        target_of(words) == Some(CheckpointTarget::OlderImages) <==> words == "scope=older-images"@,
        target_of(words) == Some(CheckpointTarget::OlderHeavy) <==> words == "scope=older-heavy"@,
        target_of("turns="@ + number::decimal_of(turns as int)) == Some(
            CheckpointTarget::LegacyTurns(turns),
        ),
        (target_of(words) matches Some(CheckpointTarget::LegacyTurns(_))) ==> text::starts_with(
            words,
            "turns="@,
        ),
{
    reveal_strlit("scope=older-images");
    reveal_strlit("scope=older-heavy");
    reveal_strlit("turns=");
    assert("scope=older-images"@[6] == 'o');
    assert("scope=older-images"@.len() != "scope=older-heavy"@.len());
    let numeral = number::decimal_of(turns as int);
    let asked = "turns="@ + numeral;
    assert(asked[0] == 't');
    text::law_prefix_is_taken_off(asked, "turns="@, numeral);
    number::law_unsigned_numeral_reads_back(turns as nat, usize::MAX as int);
    number::lemma_decimal_round_trip(turns as nat);
    assert(number::is_digit(numeral[0]));
    assert(number::is_digit(numeral.last()));
    assert(text::trim_of(numeral) == numeral);
}

/// A summary is what is left when white space around it is taken off, or its first 800 characters.
pub proof fn law_summary_is_trimmed_and_cut(tail: Seq<char>)
    ensures
        text::all_white(tail) <==> summary_of(tail) is None,
        summary_of(tail) matches Some(summary) ==> {
            &&& text::trim_of(tail).len() <= 800 ==> summary == text::trim_of(tail)
            &&& text::trim_of(tail).len() > 800 ==> summary == text::trim_of(tail).take(800)
        },
{
    text::lemma_blank_is_white(tail);
}

/// Among the lines of a text the first directive counts; among the parts of a message, and among the
/// messages of a conversation, the last. Only texts of messages hold any.
pub proof fn law_newest_directive_counts(
    items: Seq<ItemView>,
    item: ItemView,
    content: Seq<ContentView>,
    part: ContentView,
    line: Seq<char>,
    rest: Seq<char>,
)
    requires
        text::newline_free(line),
        line.len() == 0 || line.last() != '\r',
    ensures
        latest_directive(Seq::empty()) is None,
        latest_directive(items.push(item)) == if item_directive(item) is Some {
            item_directive(item)
        } else {
            latest_directive(items)
        },
        !(item is Message) ==> item_directive(item) is None,
        item matches ItemView::Message { content, .. } ==> item_directive(item)
            == latest_in_content(content),
        latest_in_content(Seq::empty()) is None,
        latest_in_content(content.push(part)) == if part_directive(part) is Some {
            part_directive(part)
        } else {
            latest_in_content(content)
        },
        match part {
            ContentView::InputText { text } => part_directive(part) == text_directive(text),
            ContentView::OutputText { text } => part_directive(part) == text_directive(text),
            ContentView::InputImage { .. } => part_directive(part) is None,
        },
        text_directive(Seq::empty()) is None,
        text_directive(line + seq!['\n'] + rest) == if line_directive(line) is Some {
            line_directive(line)
        } else {
            text_directive(rest)
        },
        line.len() > 0 ==> text_directive(line) == line_directive(line),
{
    assert(items.push(item).drop_last() =~= items);
    assert(content.push(part).drop_last() =~= content);
    text::law_lines_end_at_line_feeds(line, rest);
    let lines = seq![line] + text::lines_of(rest);
    assert(lines.skip(1) =~= text::lines_of(rest));
    assert(lines[0] == line);
    assert(seq![line].skip(1) =~= Seq::<Seq<char>>::empty());
}

/// A directive asks for turns by a number behind `turns=`, with white space around it or not, and for
/// nothing by other words.
pub proof fn law_turns_are_asked_for_by_number(words: Seq<char>, asked: Seq<char>)
    ensures
        match number::parse_unsigned_of(text::trim_of(asked), usize::MAX as int) {
            Some(n) => target_of("turns="@ + asked) == Some(
                CheckpointTarget::LegacyTurns(n as usize),
            ),
            None => target_of("turns="@ + asked) is None,
        },
        words != "scope=older-images"@ && words != "scope=older-heavy"@ && !text::starts_with(
            words,
            "turns="@,
        ) ==> target_of(words) is None,
{
    reveal_strlit("scope=older-images");
    reveal_strlit("scope=older-heavy");
    reveal_strlit("turns=");
    assert(("turns="@ + asked)[0] == 't');
    assert("scope=older-images"@[0] == 's' && "scope=older-heavy"@[0] == 's');
    text::law_prefix_is_taken_off("turns="@ + asked, "turns="@, asked);
}

} // verus!
