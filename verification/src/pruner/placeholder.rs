//! What stands in the place of a pruned payload.
use crate::number;
use crate::pruner::directive::{CheckpointDirective, DirectiveView};
use crate::text;
use vstd::prelude::*;
use vstd::string::*;

verus! {

pub const IMAGE_PLACEHOLDER: &'static str = "[codelink-context-pruned: image payload removed from older history; use local files, visual QA verdicts, or continuity ledger if needed]";
pub const DUPLICATE_TOOL_OUTPUT_PLACEHOLDER: &'static str = "[codelink-context-pruned: duplicate tool output removed; newer identical call is preserved]";
pub const ERROR_TOOL_INPUT_PLACEHOLDER: &'static str = "[codelink-context-pruned: failed tool call input removed; error output is preserved]";
pub const ERROR_TOOL_OUTPUT_PLACEHOLDER: &'static str = "[codelink-context-pruned: failed tool output removed from older history]";
pub const HEAVY_TOOL_INPUT_PREFIX: &'static str = "[codelink-context-pruned: old heavy tool input removed";
pub const HEAVY_TOOL_OUTPUT_PREFIX: &'static str = "[codelink-context-pruned: old heavy tool output removed";
pub const PREVIEW_CHARS: usize = 160;
pub const EXIT_CODE_MARKER: &'static str = "Process exited with code ";

/// What is kept of a tool call for the placeholder of its output.
#[derive(Debug, Clone, PartialEq, Eq)]
pub struct ToolCallMetadata {
    pub name: String,
    pub input_preview: String,
    pub input_chars: usize,
}

/// The view of what is kept of a tool call.
#[verifier::ext_equal]
pub struct MetadataView {
    pub name: Seq<char>,
    pub input_preview: Seq<char>,
    pub input_chars: int,
}

impl View for ToolCallMetadata {
    type V = MetadataView;

    open spec fn view(&self) -> MetadataView {
        MetadataView {
            name: self.name@,
            input_preview: self.input_preview@,
            input_chars: self.input_chars as int,
        }
    }
}

/// A character of a preview: a space for any white space.
pub open spec fn normalized(c: char) -> char {
    if text::is_white_space(c) {
        ' '
    } else {
        c
    }
}

/// A text on one line, with a single space for each run of white space.
pub open spec fn collapsed(s: Seq<char>) -> Seq<char>
    decreases s.len(),
{
    if s.len() == 0 {
        s
    } else {
        let before = collapsed(s.drop_last());
        let c = normalized(s.last());
        if c == ' ' && before.len() > 0 && before.last() == ' ' {
            before
        } else {
            before.push(c)
        }
    }
}

/// How many characters of `s`, from `k` on, a preview reads: until it is full or `s` ends.
pub open spec fn preview_reach(s: Seq<char>, k: int) -> int
    decreases s.len() - k,
{
    if k >= s.len() || collapsed(s.take(k)).len() >= PREVIEW_CHARS {
        k
    } else {
        preview_reach(s, k + 1)
    }
}

/// Single quotes in the place of double quotes.
pub open spec fn requoted(s: Seq<char>) -> Seq<char> {
    s.map_values(
        |c: char|
            if c == '"' {
                '\''
            } else {
                c
            },
    )
}

/// The beginning of a text on one line, with an ellipsis where the text goes on.
pub open spec fn preview_of(s: Seq<char>) -> Seq<char> {
    let reach = preview_reach(s, 0);
    let shown = collapsed(s.take(reach));
    requoted(
        if shown.len() >= PREVIEW_CHARS && reach < s.len() {
            shown.push('…')
        } else {
            shown
        },
    )
}

/// The digits and minus signs with which `s` begins.
pub open spec fn leading_code(s: Seq<char>) -> Seq<char>
    decreases s.len(),
{
    if s.len() > 0 && (number::is_digit(s[0]) || s[0] == '-') {
        seq![s[0]] + leading_code(s.skip(1))
    } else {
        Seq::empty()
    }
}

/// The exit code that the output of a command reports.
pub open spec fn exit_code_of(output: Seq<char>) -> Option<int> {
    match text::find_text_of(output, EXIT_CODE_MARKER@, 0) {
        Some(at) => number::parse_signed_of(
            leading_code(output.skip(at + EXIT_CODE_MARKER@.len())),
            i32::MIN as int,
            i32::MAX as int,
        ),
        None => None,
    }
}

/// The placeholder of an image, with the summary of the directive that asked for pruning.
pub open spec fn image_placeholder_of(checkpoint: Option<DirectiveView>) -> Seq<char> {
    match checkpoint {
        Some(DirectiveView { summary: Some(summary), .. }) => IMAGE_PLACEHOLDER@
            + "; checkpoint summary: "@ + summary,
        _ => IMAGE_PLACEHOLDER@,
    }
}

/// The placeholder of a heavy tool input.
pub open spec fn heavy_input_placeholder_of(
    tool_name: Seq<char>,
    call_id: Seq<char>,
    input_chars: int,
    input: Seq<char>,
) -> Seq<char> {
    HEAVY_TOOL_INPUT_PREFIX@ + "; tool="@ + tool_name + "; call_id="@ + call_id + "; chars="@
        + number::decimal_of(input_chars) + "; preview=\""@ + preview_of(input) + "\"]"@
}

/// Whether a call succeeded, in words.
pub open spec fn success_text_of(success: Option<bool>) -> Seq<char> {
    match success {
        Some(true) => "true"@,
        Some(false) => "false"@,
        None => "unknown"@,
    }
}

/// The exit code of an output, in words, where it reports one.
pub open spec fn exit_code_text_of(output: Seq<char>) -> Seq<char> {
    match exit_code_of(output) {
        Some(code) => "; exit_code="@ + number::decimal_of(code),
        None => Seq::empty(),
    }
}

/// What is known of the input of a call, in words.
pub open spec fn input_text_of(metadata: Option<MetadataView>) -> Seq<char> {
    match metadata {
        Some(metadata) => "; input_chars="@ + number::decimal_of(metadata.input_chars)
            + "; input_preview=\""@ + metadata.input_preview + "\""@,
        None => Seq::empty(),
    }
}

/// The placeholder of a heavy tool output.
pub open spec fn heavy_output_placeholder_of(
    tool_name: Seq<char>,
    call_id: Seq<char>,
    output_chars: int,
    success: Option<bool>,
    output: Seq<char>,
    metadata: Option<MetadataView>,
) -> Seq<char> {
    HEAVY_TOOL_OUTPUT_PREFIX@ + "; tool="@ + tool_name + "; call_id="@ + call_id + "; chars="@
        + number::decimal_of(output_chars) + "; success="@ + success_text_of(success)
        + exit_code_text_of(output) + input_text_of(metadata) + "; preview=\""@ + preview_of(output)
        + "\"]"@
}

/// The view of what is kept of a tool call, where it is known.
pub open spec fn view_metadata(metadata: Option<&ToolCallMetadata>) -> Option<MetadataView> {
    match metadata {
        Some(metadata) => Some(metadata@),
        None => None,
    }
}

/// Whether `s` is on one line without two spaces side by side.
pub open spec fn single_spaced(s: Seq<char>) -> bool {
    &&& forall|i: int|
        0 <= i < s.len() ==> (text::is_white_space(#[trigger] s[i]) ==> s[i] == ' ')
    &&& forall|i: int| 0 <= i < s.len() - 1 ==> !(#[trigger] s[i] == ' ' && s[i + 1] == ' ')
}

/// Collapsing leaves one line without two spaces side by side, and no more characters than before.
proof fn lemma_collapsed(s: Seq<char>)
    ensures
        collapsed(s).len() <= s.len(),
        single_spaced(collapsed(s)),
    decreases s.len(),
{
    if s.len() > 0 {
        lemma_collapsed(s.drop_last());
    }
}

/// A preview reads no further than to the character that fills it.
proof fn lemma_preview_reach(s: Seq<char>, k: int)
    requires
        0 <= k <= s.len(),
        collapsed(s.take(k)).len() <= PREVIEW_CHARS,
    ensures
        k <= preview_reach(s, k) <= s.len(),
        collapsed(s.take(preview_reach(s, k))).len() <= PREVIEW_CHARS,
    decreases s.len() - k,
{
    if k < s.len() && collapsed(s.take(k)).len() < PREVIEW_CHARS {
        assert(s.take(k + 1).drop_last() =~= s.take(k));
        lemma_preview_reach(s, k + 1);
    }
}

/// A preview is short, stands on one line without two spaces side by side, and holds no double
/// quote, so that it can stand between double quotes.
pub proof fn law_preview_is_one_short_line(s: Seq<char>)
    ensures
        preview_of(s).len() <= PREVIEW_CHARS + 1,
        single_spaced(preview_of(s)),
        forall|i: int| 0 <= i < preview_of(s).len() ==> #[trigger] preview_of(s)[i] != '"',
{
    let reach = preview_reach(s, 0);
    assert(s.take(0) =~= Seq::<char>::empty());
    lemma_preview_reach(s, 0);
    let shown = collapsed(s.take(reach));
    lemma_collapsed(s.take(reach));
    let unquoted = if shown.len() >= PREVIEW_CHARS && reach < s.len() {
        shown.push('…')
    } else {
        shown
    };
    assert(single_spaced(unquoted));
    assert forall|i: int| 0 <= i < preview_of(s).len() - 1 implies !(#[trigger] preview_of(s)[i]
        == ' ' && preview_of(s)[i + 1] == ' ') by {
        assert(!(unquoted[i] == ' ' && unquoted[i + 1] == ' '));
    }
    assert forall|i: int| 0 <= i < preview_of(s).len() implies (text::is_white_space(
        #[trigger] preview_of(s)[i],
    ) ==> preview_of(s)[i] == ' ') by {
        assert(text::is_white_space(unquoted[i]) ==> unquoted[i] == ' ');
    }
}

/// A text that fits, once its white space is collapsed, is previewed in full.
pub proof fn law_short_text_is_previewed_in_full(s: Seq<char>)
    requires
        collapsed(s).len() < PREVIEW_CHARS,
    ensures
        preview_of(s) == requoted(collapsed(s)),
{
    lemma_preview_reads_all(s, 0);
    assert(s.take(s.len() as int) =~= s);
}

/// A beginning of a text collapses to no more than the text does.
proof fn lemma_collapsed_beginning(s: Seq<char>, k: int)
    requires
        0 <= k <= s.len(),
    ensures
        collapsed(s.take(k)).len() <= collapsed(s).len(),
    decreases s.len(),
{
    if k == s.len() {
        assert(s.take(k) =~= s);
    } else {
        assert(s.drop_last().take(k) =~= s.take(k));
        lemma_collapsed_beginning(s.drop_last(), k);
    }
}

/// A preview of a text that fits reads all of it.
proof fn lemma_preview_reads_all(s: Seq<char>, k: int)
    requires
        collapsed(s).len() < PREVIEW_CHARS,
        0 <= k <= s.len(),
    ensures
        preview_reach(s, k) == s.len(),
    decreases s.len() - k,
{
    lemma_collapsed_beginning(s, k);
    if k < s.len() {
        lemma_preview_reads_all(s, k + 1);
    }
}

/// Replaces double quotes by single quotes.
fn requote(s: &str) -> (quoted: String)
    ensures
        quoted@ == requoted(s@),
{
    let mut quoted = String::new();
    let chars = text::chars_of(s);
    let mut i: usize = 0;
    while i < chars.len()
        invariant
            i <= chars@.len(),
            chars@ == s@,
            quoted@ == requoted(s@.take(i as int)),
        decreases chars@.len() - i,
    {
        let c: char = chars[i];
        quoted.push(
            if c == '"' {
                '\''
            } else {
                c
            },
        );
        assert(quoted@ =~= requoted(s@.take(i + 1)));
        i += 1;
    }
    assert(s@.take(i as int) =~= s@);
    quoted
}

/// The beginning of a text on one line.
pub fn preview(s: &str) -> (shown: String)
    ensures
        shown@ == preview_of(s@),
{
    let chars = text::chars_of(s);
    let n: usize = chars.len();
    let mut shown = String::new();
    let mut len: usize = 0;
    let mut ends_with_space = false;
    let mut i: usize = 0;
    proof {
        assert(s@.take(0) =~= Seq::<char>::empty());
    }
    while i < n && len < PREVIEW_CHARS
        invariant
            i <= n == chars@.len(),
            chars@ == s@,
            shown@ == collapsed(s@.take(i as int)),
            len == shown@.len() <= PREVIEW_CHARS,
            ends_with_space == (shown@.len() > 0 && shown@.last() == ' '),
            preview_reach(s@, 0) == preview_reach(s@, i as int),
        decreases n - i,
    {
        assert(s@.take(i + 1).drop_last() =~= s@.take(i as int));
        let c: char = if text::is_whitespace(chars[i]) {
            ' '
        } else {
            chars[i]
        };
        if !(c == ' ' && ends_with_space) {
            shown.push(c);
            len += 1;
            ends_with_space = c == ' ';
        }
        i += 1;
    }
    if len >= PREVIEW_CHARS && i < n {
        shown.push('…');
    }
    requote(shown.as_str())
}

/// The exit code that the output of a command reports.
pub fn extract_exit_code(output: &str) -> (code: Option<i32>)
    ensures
        match code {
            Some(code) => exit_code_of(output@) == Some(code as int),
            None => exit_code_of(output@) is None,
        },
{
    let chars = text::chars_of(output);
    let n: usize = chars.len();
    let marker_len: usize = EXIT_CODE_MARKER.unicode_len();
    let start: usize = match text::find_text(&chars, EXIT_CODE_MARKER) {
        Some(at) => at + marker_len,
        None => {
            return None;
        },
    };
    let mut end: usize = start;
    let ghost tail = output@.skip(start as int);
    proof {
        assert(tail.skip(0) =~= tail);
        assert(tail.take(0) + leading_code(tail) =~= leading_code(tail));
    }
    while end < n && (('0' <= chars[end] && chars[end] <= '9') || chars[end] == '-')
        invariant
            start <= end <= n == chars@.len(),
            chars@ == output@,
            tail == output@.skip(start as int),
            tail.take(end - start) + leading_code(tail.skip(end - start)) == leading_code(tail),
        decreases n - end,
    {
        proof {
            let k = end - start;
            assert(tail.skip(k)[0] == chars@[end as int]);
            assert(tail.skip(k).skip(1) =~= tail.skip(k + 1));
            assert(tail.take(k + 1) + leading_code(tail.skip(k + 1)) =~= tail.take(k) + (
            seq![tail.skip(k)[0]] + leading_code(tail.skip(k + 1))));
        }
        end += 1;
    }
    proof {
        let k = end - start;
        assert(leading_code(tail.skip(k)) =~= Seq::<char>::empty());
        assert(output@.subrange(start as int, end as int) =~= leading_code(tail));
    }
    let code = text::string_of(&chars, start, end);
    number::parse_i32(code.as_str())
}

/// The placeholder of an image.
pub fn image_placeholder(checkpoint: Option<&CheckpointDirective>) -> (placeholder: String)
    ensures
        placeholder@ == image_placeholder_of(
            match checkpoint {
                Some(checkpoint) => Some(checkpoint@),
                None => None,
            },
        ),
{
    let mut placeholder = IMAGE_PLACEHOLDER.to_owned();
    if let Some(checkpoint) = checkpoint {
        if let Some(summary) = &checkpoint.summary {
            placeholder.append("; checkpoint summary: ");
            placeholder.append(summary.as_str());
        }
    }
    placeholder
}

/// The placeholder of a heavy tool input.
pub fn heavy_tool_input_placeholder(
    tool_name: &str,
    call_id: &str,
    input_chars: usize,
    input: &str,
) -> (placeholder: String)
    ensures
        placeholder@ == heavy_input_placeholder_of(
            tool_name@,
            call_id@,
            input_chars as int,
            input@,
        ),
{
    let mut placeholder = HEAVY_TOOL_INPUT_PREFIX.to_owned();
    placeholder.append("; tool=");
    placeholder.append(tool_name);
    placeholder.append("; call_id=");
    placeholder.append(call_id);
    placeholder.append("; chars=");
    placeholder.append(number::decimal(input_chars as u128).as_str());
    placeholder.append("; preview=\"");
    placeholder.append(preview(input).as_str());
    placeholder.append("\"]");
    placeholder
}

/// The placeholder of a heavy tool output.
pub fn heavy_tool_output_placeholder(
    tool_name: &str,
    call_id: &str,
    output_chars: usize,
    success: Option<bool>,
    output: &str,
    metadata: Option<&ToolCallMetadata>,
) -> (placeholder: String)
    ensures
        placeholder@ == heavy_output_placeholder_of(
            tool_name@,
            call_id@,
            output_chars as int,
            success,
            output@,
            view_metadata(metadata),
        ),
{
    let success_text = match success {
        Some(true) => "true",
        Some(false) => "false",
        None => "unknown",
    };
    let mut exit_code_text = String::new();
    if let Some(code) = extract_exit_code(output) {
        exit_code_text.append("; exit_code=");
        exit_code_text.append(number::decimal_signed(code as i64).as_str());
    }
    let mut input_text = String::new();
    if let Some(metadata) = metadata {
        input_text.append("; input_chars=");
        input_text.append(number::decimal(metadata.input_chars as u128).as_str());
        input_text.append("; input_preview=\"");
        input_text.append(metadata.input_preview.as_str());
        input_text.append("\"");
    }
    assert(exit_code_text@ =~= exit_code_text_of(output@));
    assert(input_text@ =~= input_text_of(view_metadata(metadata)));
    let mut placeholder = HEAVY_TOOL_OUTPUT_PREFIX.to_owned();
    placeholder.append("; tool=");
    placeholder.append(tool_name);
    placeholder.append("; call_id=");
    placeholder.append(call_id);
    placeholder.append("; chars=");
    placeholder.append(number::decimal(output_chars as u128).as_str());
    placeholder.append("; success=");
    placeholder.append(success_text);
    placeholder.append(exit_code_text.as_str());
    placeholder.append(input_text.as_str());
    placeholder.append("; preview=\"");
    placeholder.append(preview(output).as_str());
    placeholder.append("\"]");
    placeholder
}

/// In the place of an image stands a fixed text, and after it the summary of the directive that asked
/// for pruning, where it has one.
pub proof fn law_image_placeholder_tells_the_summary(checkpoint: Option<DirectiveView>)
    ensures
        ({
            let told = image_placeholder_of(checkpoint);
            let fixed =
                "[codelink-context-pruned: image payload removed from older history; use local files, visual QA verdicts, or continuity ledger if needed]"@;
            match checkpoint {
                Some(checkpoint) => match checkpoint.summary {
                    Some(summary) => told == fixed + "; checkpoint summary: "@ + summary,
                    None => told == fixed,
                },
                None => told == fixed,
            }
        }),
{
}

/// The digits and minus signs in front of another text are all that is read.
proof fn lemma_leading_code(code: Seq<char>, after: Seq<char>)
    requires
        forall|i: int|
            0 <= i < code.len() ==> number::is_digit(#[trigger] code[i]) || code[i] == '-',
        after.len() > 0 ==> !number::is_digit(after[0]) && after[0] != '-',
    ensures
        leading_code(code + after) == code,
    decreases code.len(),
{
    let whole = code + after;
    if code.len() == 0 {
        assert(whole =~= after);
        assert(leading_code(whole) =~= code);
    } else {
        let rest = code.skip(1);
        assert(number::is_digit(code[0]) || code[0] == '-');
        assert(whole.skip(1) =~= rest + after);
        assert forall|i: int| 0 <= i < rest.len() implies number::is_digit(#[trigger] rest[i])
            || rest[i] == '-' by {
            assert(rest[i] == code[i + 1]);
        }
        lemma_leading_code(rest, after);
        assert(seq![code[0]] + rest =~= code);
    }
}

/// The exit code is the number that follows the first `Process exited with code ` of an output.
pub proof fn law_exit_code_is_read(before: Seq<char>, code: i32, after: Seq<char>)
    requires
        after.len() > 0 ==> !number::is_digit(after[0]) && after[0] != '-',
        forall|k: int|
            0 <= k < before.len() ==> !text::starts_with(
                #[trigger] (before + "Process exited with code "@ + number::decimal_of(code as int)
                    + after).skip(k),
                "Process exited with code "@,
            ),
    ensures
        exit_code_of(
            before + "Process exited with code "@ + number::decimal_of(code as int) + after,
        ) == Some(code as int),
{
    let marker = "Process exited with code "@;
    let numeral = number::decimal_of(code as int);
    let output = before + marker + numeral + after;
    let n = before.len() as int;
    assert(output.skip(n).take(marker.len() as int) =~= marker);
    assert(text::starts_with(output.skip(n), marker));
    text::law_text_is_found_where_it_occurs_first(output, marker, 0);
    let at = text::find_text_of(output, marker, 0)->0;
    if at > n {
        assert(!text::starts_with(output.skip(n), marker));
    }
    if at < n {
        assert(!text::starts_with(output.skip(at), marker));
    }
    assert(output.skip(n + marker.len()) =~= numeral + after);
    let magnitude = (if code < 0 {
        -(code as int)
    } else {
        code as int
    }) as nat;
    number::lemma_decimal_round_trip(magnitude);
    assert forall|i: int| 0 <= i < numeral.len() implies number::is_digit(#[trigger] numeral[i])
        || numeral[i] == '-' by {
        let k = if code < 0 {
            i - 1
        } else {
            i
        };
        if k >= 0 {
            assert(number::is_digit(number::decimal_of_nat(magnitude)[k]));
        }
    }
    lemma_leading_code(numeral, after);
    number::law_signed_numeral_reads_back(code as int, i32::MIN as int, i32::MAX as int);
}

/// An output that does not say `Process exited with code ` has no exit code.
pub proof fn law_no_exit_code_without_its_words(output: Seq<char>)
    requires
        forall|k: int|
            0 <= k <= output.len() ==> !text::starts_with(
                #[trigger] output.skip(k),
                "Process exited with code "@,
            ),
    ensures
        exit_code_of(output) is None,
{
    text::law_text_is_found_where_it_occurs_first(output, "Process exited with code "@, 0);
}

/// On one line, each character but white space stands as it is, and each run of white space is a
/// single space.
pub proof fn law_white_space_is_collapsed(s: Seq<char>, c: char)
    ensures
        collapsed(Seq::empty()).len() == 0,
        !text::is_white_space(c) ==> collapsed(s.push(c)) == collapsed(s).push(c),
        text::is_white_space(c) && s.len() > 0 && text::is_white_space(s.last()) ==> collapsed(
            s.push(c),
        ) == collapsed(s),
        text::is_white_space(c) && (s.len() == 0 || !text::is_white_space(s.last())) ==> collapsed(
            s.push(c),
        ) == collapsed(s).push(' '),
{
    assert(s.push(c).drop_last() =~= s);
    if s.len() > 0 {
        lemma_collapsed_ends_alike(s);
    }
}

/// A text that is not empty ends in white space exactly if it does so on one line.
proof fn lemma_collapsed_ends_alike(s: Seq<char>)
    requires
        s.len() > 0,
    ensures
        collapsed(s).len() > 0,
        text::is_white_space(s.last()) ==> collapsed(s).last() == ' ',
        !text::is_white_space(s.last()) ==> collapsed(s).last() == s.last(),
{
}

/// A beginning of a text, on one line, begins what the text is on one line.
proof fn lemma_collapsed_begins(s: Seq<char>, k: int)
    requires
        0 <= k <= s.len(),
    ensures
        collapsed(s.take(k)).len() <= collapsed(s).len(),
        collapsed(s).take(collapsed(s.take(k)).len() as int) == collapsed(s.take(k)),
    decreases s.len(),
{
    if k == s.len() {
        assert(s.take(k) =~= s);
        assert(collapsed(s).take(collapsed(s).len() as int) =~= collapsed(s));
    } else {
        assert(s.drop_last().take(k) =~= s.take(k));
        lemma_collapsed_begins(s.drop_last(), k);
        let n = collapsed(s.take(k)).len() as int;
        assert(collapsed(s).take(n) =~= collapsed(s.drop_last()).take(n));
    }
}

/// A preview of a text that does not fit, once its white space is collapsed, shows its first 160
/// characters and an ellipsis, with single quotes for double quotes.
pub proof fn law_long_text_is_cut(s: Seq<char>)
    requires
        collapsed(s).len() > 160,
    ensures
        preview_of(s).len() == 161,
        preview_of(s)[160] == '…',
        forall|i: int|
            0 <= i < 160 ==> #[trigger] preview_of(s)[i] == if collapsed(s)[i] == '"' {
                '\''
            } else {
                collapsed(s)[i]
            },
{
    let reach = preview_reach(s, 0);
    assert(s.take(0) =~= Seq::<char>::empty());
    lemma_preview_reach(s, 0);
    lemma_preview_stops_full(s, 0);
    lemma_collapsed_begins(s, reach);
    let shown = collapsed(s.take(reach));
    if reach == s.len() {
        assert(s.take(reach) =~= s);
    }
    assert(shown.len() == 160);
    assert forall|i: int| 0 <= i < 160 implies shown[i] == #[trigger] collapsed(s)[i] by {
        assert(collapsed(s).take(160)[i] == collapsed(s)[i]);
    }
}

/// A preview stops where it is full, or at the end.
proof fn lemma_preview_stops_full(s: Seq<char>, k: int)
    requires
        0 <= k <= s.len(),
    ensures
        preview_reach(s, k) >= s.len() || collapsed(s.take(preview_reach(s, k))).len()
            >= PREVIEW_CHARS,
    decreases s.len() - k,
{
    if k < s.len() && collapsed(s.take(k)).len() < PREVIEW_CHARS {
        lemma_preview_stops_full(s, k + 1);
    }
}

/// Requoting keeps a text, but for its double quotes, which become single ones.
pub proof fn law_double_quotes_become_single(s: Seq<char>, i: int)
    requires
        0 <= i < s.len(),
    ensures
        requoted(s).len() == s.len(),
        requoted(s)[i] == if s[i] == '"' {
            '\''
        } else {
            s[i]
        },
{
}

} // verus!
