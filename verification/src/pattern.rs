//! Regular expressions that a watcher looks for in a log.
use crate::error::CodeLinkError;
use crate::text;
use vstd::prelude::*;
use vstd::string::*;

verus! {

/// Why `pattern` is refused as a regular expression on a machine whose words have `word_bits` bits,
/// or `None` where it is accepted.
pub uninterp spec fn regex_error(pattern: Seq<char>, word_bits: u32) -> Option<Seq<char>>;

/// Whether the regular expression `pattern` matches somewhere in `text`.
pub uninterp spec fn regex_matches(pattern: Seq<char>, text: Seq<char>) -> bool;

/// What the regular expression `pattern` captures in `text`: for each of its successive matches,
/// from the start of the text to its end, the whole match and then each group, in order.
pub uninterp spec fn regex_captures(pattern: Seq<char>, text: Seq<char>) -> Seq<
    Seq<Option<Seq<char>>>,
>;

/// `regex_lite::Regex::new`: says whether a pattern is accepted, or what the error displays. It is
/// taken on trust that this depends only on the pattern and on the size of a machine word, which
/// the limit on the size of a compiled pattern counts in.
#[verifier::external_body]
fn regex_new(pattern: &str) -> (outcome: Result<(), String>)
    ensures
        match outcome {
            Ok(_) => regex_error(pattern@, usize::BITS) is None,
            Err(cause) => regex_error(pattern@, usize::BITS) == Some(cause@),
        },
{
    match regex_lite::Regex::new(pattern) {
        Ok(_) => Ok(()),
        Err(error) => Err(error.to_string()),
    }
}

/// `regex_lite::Regex::is_match`, for a pattern that is accepted: says whether it matches in a
/// text. It is taken on trust that this depends only on the pattern and the text.
#[verifier::external_body]
fn regex_is_match(pattern: &str, text: &str) -> (found: bool)
    requires
        regex_error(pattern@, usize::BITS) is None,
    ensures
        found == regex_matches(pattern@, text@),
{
    regex_lite::Regex::new(pattern).expect("an accepted pattern").is_match(text)
}

/// `regex_lite::Regex::captures_iter`, for a pattern that is accepted: the texts that its groups
/// capture, match by match. It is taken on trust that this depends only on the pattern and the
/// text, and that the matches come in the order of the text.
#[verifier::external_body]
fn regex_capture_all(pattern: &str, text: &str) -> (captures: Vec<Vec<Option<String>>>)
    requires
        regex_error(pattern@, usize::BITS) is None,
    ensures
        captures.deep_view() == regex_captures(pattern@, text@),
{
    regex_lite::Regex::new(pattern)
        .expect("an accepted pattern")
        .captures_iter(text)
        .map(|found| found.iter().map(|group| group.map(|m| m.as_str().to_owned())).collect())
        .collect()
}

/// A pattern that is accepted as a regular expression.
#[derive(Debug)]
pub struct CompiledRegex {
    source: String,
}

impl CompiledRegex {
    /// The pattern.
    pub closed spec fn source(self) -> Seq<char> {
        self.source@
    }

    #[verifier::type_invariant]
    spec fn accepted(self) -> bool {
        regex_error(self.source@, usize::BITS) is None
    }

    /// Whether the pattern matches somewhere in `text`.
    pub fn is_match(&self, text: &str) -> (found: bool)
        ensures
            found == regex_matches(self.source(), text@),
    {
        proof {
            use_type_invariant(self);
        }
        regex_is_match(self.source.as_str(), text)
    }

    /// What the pattern captures in `text`, match by match.
    pub fn captures(&self, text: &str) -> (captures: Vec<Vec<Option<String>>>)
        ensures
            captures.deep_view() == regex_captures(self.source(), text@),
    {
        proof {
            use_type_invariant(self);
        }
        regex_capture_all(self.source.as_str(), text)
    }
}

/// What is said of the pattern `raw` of the flag `name`, given why it is refused, if it is.
pub fn refusal(raw: &str, name: &str, cause: Option<String>) -> (refusal: Option<CodeLinkError>)
    ensures
        match cause {
            Some(cause) => {
                &&& refusal matches Some(
                    CodeLinkError::InvalidPattern { flag, pattern, cause: kept },
                )
                &&& flag@ == name@
                &&& pattern@ == raw@
                &&& kept == cause
            },
            None => refusal is None,
        },
{
    match cause {
        Some(cause) => Some(
            CodeLinkError::InvalidPattern { flag: name.to_owned(), pattern: raw.to_owned(), cause },
        ),
        None => None,
    }
}

/// Whether `error` refuses the pattern `raw` of the flag `name`, and says why.
pub open spec fn refuses(error: CodeLinkError, raw: Seq<char>, name: Seq<char>) -> bool {
    &&& error matches CodeLinkError::InvalidPattern { flag, pattern, cause }
    &&& flag@ == name
    &&& pattern@ == raw
    &&& regex_error(raw, usize::BITS) == Some(cause@)
}

/// Reads the pattern `raw` of the flag `name`.
pub fn compile_required_regex(raw: &str, name: &str) -> (compiled: Result<
    CompiledRegex,
    CodeLinkError,
>)
    ensures
        match compiled {
            Ok(compiled) => {
                &&& regex_error(raw@, usize::BITS) is None
                &&& compiled.source() == raw@
            },
            Err(error) => refuses(error, raw@, name@),
        },
{
    let cause = match regex_new(raw) {
        Ok(_) => None,
        Err(cause) => Some(cause),
    };
    match refusal(raw, name, cause) {
        Some(error) => Err(error),
        None => Ok(CompiledRegex { source: raw.to_owned() }),
    }
}

/// Reads the pattern `raw` of the flag `name`, if there is one.
pub fn compile_optional_regex(raw: &Option<String>, name: &str) -> (compiled: Result<
    Option<CompiledRegex>,
    CodeLinkError,
>)
    ensures
        match (*raw, compiled) {
            (None, Ok(None)) => true,
            (Some(raw), Ok(Some(compiled))) => {
                &&& regex_error(raw@, usize::BITS) is None
                &&& compiled.source() == raw@
            },
            (Some(raw), Err(error)) => refuses(error, raw@, name@),
            _ => false,
        },
{
    match raw {
        Some(raw) => match compile_required_regex(raw.as_str(), name) {
            Ok(compiled) => Ok(Some(compiled)),
            Err(error) => Err(error),
        },
        None => Ok(None),
    }
}

/// The pattern of a count of finished pieces of work, such as `12 / 40 segments`.
pub const PROGRESS_PATTERN: &'static str = "(?m)(\\d+)\\s*/\\s*(\\d+)(?:\\s+segments)?";

/// How far the work is, given the counts that a log shows: the last of them, as `done/total`.
pub open spec fn progress_of(captures: Seq<Seq<Option<Seq<char>>>>) -> Option<Seq<char>> {
    if captures.len() > 0 && captures.last().len() > 2 {
        match (captures.last()[1], captures.last()[2]) {
            (Some(done), Some(total)) => Some(done + "/"@ + total),
            _ => None,
        }
    } else {
        None
    }
}

/// How far the work is, given the counts that a log shows.
pub fn latest_progress(captures: &Vec<Vec<Option<String>>>) -> (progress: Option<String>)
    ensures
        text::view_option(progress) == progress_of(captures.deep_view()),
{
    let n: usize = captures.len();
    if n == 0 {
        return None;
    }
    let last = &captures[n - 1];
    assert(captures.deep_view().last() == last.deep_view());
    if last.len() <= 2 {
        return None;
    }
    assert(last.deep_view()[1] == last@[1].deep_view());
    assert(last.deep_view()[2] == last@[2].deep_view());
    match (&last[1], &last[2]) {
        (Some(done), Some(total)) => {
            Some(done.clone().concat("/").concat(total.as_str()))
        },
        _ => None,
    }
}

/// How far the work is, as far as a log shows it: what the last count in it says.
pub open spec fn log_progress(log_tail: Seq<char>) -> Option<Seq<char>> {
    if regex_error(PROGRESS_PATTERN@, usize::BITS) is None {
        progress_of(regex_captures(PROGRESS_PATTERN@, log_tail))
    } else {
        None
    }
}

/// How far the work is, as far as a log shows it.
pub fn parse_progress(log_tail: &str) -> (progress: Option<String>)
    ensures
        text::view_option(progress) == log_progress(log_tail@),
{
    match compile_required_regex(PROGRESS_PATTERN, "progress") {
        Ok(compiled) => latest_progress(&compiled.captures(log_tail)),
        Err(_) => None,
    }
}

/// The progress is what the last count says, whatever came before: what was done, a slash, and what there
/// is to do; a count without either says nothing.
pub proof fn law_last_count_is_the_progress(
    captures: Seq<Seq<Option<Seq<char>>>>,
    last: Seq<Option<Seq<char>>>,
)
    ensures
        progress_of(Seq::empty()) is None,
        last.len() >= 3 && last[1] is Some && last[2] is Some ==> progress_of(captures.push(last))
            == Some(last[1]->0 + seq!['/'] + last[2]->0),
        last.len() < 3 || last[1] is None || last[2] is None ==> progress_of(captures.push(last))
            is None,
{
    reveal_strlit("/");
    assert("/"@ =~= seq!['/']);
    assert(captures.push(last).last() == last);
}

} // verus!
