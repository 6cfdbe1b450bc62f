//! Words of a shell command.
use crate::text;
use vstd::prelude::*;
use vstd::string::*;

verus! {

/// A character that a shell takes as it stands.
pub open spec fn is_plain(c: char) -> bool {
    ||| '0' <= c <= '9'
    ||| 'A' <= c <= 'Z'
    ||| 'a' <= c <= 'z'
    ||| c == '+' || c == '-' || c == '.' || c == '/' || c == ':' || c == '@' || c == ']' || c == '_'
}

/// A word that needs no quotes.
pub open spec fn is_plain_word(word: Seq<char>) -> bool {
    word.len() > 0 && forall|i: int| 0 <= i < word.len() ==> is_plain(#[trigger] word[i])
}

/// A word that can stand between single quotes, whatever shell reads it.
pub open spec fn fits_single_quotes(word: Seq<char>) -> bool {
    &&& text::free_of(word, '\'')
    &&& text::free_of(word, '^')
    &&& text::free_of(word, '\\')
    &&& text::free_of(word, '\0')
}

/// Between which quotes a shell is while it reads a word.
pub enum Quotes {
    Unquoted,
    Single,
    Double,
}

/// The word that a shell reads, where `text` is what is left to read of it. Plain characters stand for
/// themselves; so does everything between single quotes; so does everything between double quotes but
/// for `$` and a backquote, and but for a backslash, which stands before `$`, a backquote, `"` or
/// another backslash. Other text is no single word, or not one that stands for itself.
pub open spec fn shell_reads(text: Seq<char>, quotes: Quotes) -> Option<Seq<char>>
    decreases text.len(),
{
    if text.len() == 0 {
        if quotes is Unquoted {
            Some(text)
        } else {
            None
        }
    } else {
        let c = text[0];
        let rest = text.skip(1);
        match quotes {
            Quotes::Unquoted => if c == '\'' {
                shell_reads(rest, Quotes::Single)
            } else if c == '"' {
                shell_reads(rest, Quotes::Double)
            } else if is_plain(c) {
                with_first(c, shell_reads(rest, Quotes::Unquoted))
            } else {
                None
            },
            Quotes::Single => if c == '\'' {
                shell_reads(rest, Quotes::Unquoted)
            } else {
                with_first(c, shell_reads(rest, Quotes::Single))
            },
            Quotes::Double => if c == '"' {
                shell_reads(rest, Quotes::Unquoted)
            } else if c == '$' || c == '`' {
                None
            } else if c == '\\' {
                if rest.len() > 0 && (rest[0] == '$' || rest[0] == '`' || rest[0] == '"' || rest[0]
                    == '\\') {
                    with_first(rest[0], shell_reads(rest.skip(1), Quotes::Double))
                } else {
                    None
                }
            } else {
                with_first(c, shell_reads(rest, Quotes::Double))
            },
        }
    }
}

/// A word with one more character in front.
pub open spec fn with_first(c: char, word: Option<Seq<char>>) -> Option<Seq<char>> {
    match word {
        Some(word) => Some(seq![c] + word),
        None => None,
    }
}

/// The text that a shell reads as the word `word`, for a word without the character NUL.
pub uninterp spec fn quoted(word: Seq<char>) -> Seq<char>;

/// `shlex::try_quote`: the text that a shell reads as the given word. It fails exactly on a word
/// that holds the character NUL. It is taken on trust that the text depends only on the word, that
/// a shell reads the word back from it, that a word of plain characters stays as it is, and that
/// another word that fits between single quotes, the empty one too, is put between them. Which quotes
/// other words get is not stated.
#[verifier::external_body]
fn try_quote(word: &str) -> (outcome: Option<String>)
    ensures
        match outcome {
            Some(text) => {
                &&& text::free_of(word@, '\0')
                &&& text@ == quoted(word@)
                &&& shell_reads(text@, Quotes::Unquoted) == Some(word@)
                &&& is_plain_word(word@) ==> text@ == word@
                &&& !is_plain_word(word@) && fits_single_quotes(word@) ==> text@ == seq!['\'']
                    + word@ + seq!['\'']
            },
            None => !text::free_of(word@, '\0'),
        },
{
    match shlex::try_quote(word) {
        Ok(text) => Some(text.into_owned()),
        Err(_) => None,
    }
}

/// What stands for a word in a command: the empty word in place of one that cannot be quoted.
pub open spec fn shell_word(word: Seq<char>) -> Seq<char> {
    if text::free_of(word, '\0') {
        quoted(word)
    } else {
        "''"@
    }
}

/// What stands for a word in a command, given its quoted form, if it has one.
pub fn quoted_or_empty(text: Option<String>) -> (word: String)
    ensures
        match text {
            Some(text) => word == text,
            None => word@ == "''"@,
        },
{
    match text {
        Some(text) => text,
        None => "''".to_owned(),
    }
}

/// A pair of single quotes is read as the empty word.
proof fn lemma_empty_word()
    ensures
        shell_reads("''"@, Quotes::Unquoted) == Some(Seq::<char>::empty()),
{
    reveal_strlit("''");
    reveal_with_fuel(shell_reads, 3);
    assert("''"@.skip(1).skip(1) =~= Seq::<char>::empty());
}

/// Quotes a word for a shell command: a shell reads the word back, or the empty word in place of one
/// that cannot be quoted.
pub fn shell_quote(value: &str) -> (word: String)
    ensures
        word@ == shell_word(value@),
        shell_reads(word@, Quotes::Unquoted) == Some(
            if text::free_of(value@, '\0') {
                value@
            } else {
                Seq::empty()
            },
        ),
        is_plain_word(value@) ==> word@ == value@,
        !is_plain_word(value@) && fits_single_quotes(value@) ==> word@ == seq!['\''] + value@
            + seq!['\''],
{
    let text = try_quote(value);
    proof {
        lemma_empty_word();
        if is_plain_word(value@) {
            assert forall|i: int| 0 <= i < value@.len() implies #[trigger] value@[i] != '\0' by {
                assert(is_plain(value@[i]));
            }
        }
    }
    quoted_or_empty(text)
}

} // verus!
