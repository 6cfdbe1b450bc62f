//! Text as sequences of characters: white space, lines, prefixes, searching and joining.
//!
//! Every operation is specified over the `Seq<char>` view of a string, so that a contract
//! elsewhere in the crate can say what a piece of text is without speaking of bytes.
use vstd::prelude::*;
use vstd::string::*;

verus! {

/// `String::push` appends one character to the end of a string.
pub assume_specification[ std::string::String::push ](s: &mut std::string::String, c: char)
    ensures
        final(s)@ == old(s)@.push(c),
;

/// Characters with the Unicode property `White_Space`.
pub open spec fn is_white_space(c: char) -> bool {
    let n = c as int;
    ||| 0x09 <= n <= 0x0d
    ||| n == 0x20
    ||| n == 0x85
    ||| n == 0xa0
    ||| n == 0x1680
    ||| 0x2000 <= n <= 0x200a
    ||| n == 0x2028
    ||| n == 0x2029
    ||| n == 0x202f
    ||| n == 0x205f
    ||| n == 0x3000
}

/// `s` without its leading white space.
pub open spec fn trim_start_of(s: Seq<char>) -> Seq<char>
    decreases s.len(),
{
    if s.len() > 0 && is_white_space(s[0]) {
        trim_start_of(s.skip(1))
    } else {
        s
    }
}

/// `s` without its trailing white space.
pub open spec fn trim_end_of(s: Seq<char>) -> Seq<char>
    decreases s.len(),
{
    if s.len() > 0 && is_white_space(s.last()) {
        trim_end_of(s.drop_last())
    } else {
        s
    }
}

/// `s` without white space at either end.
pub open spec fn trim_of(s: Seq<char>) -> Seq<char> {
    trim_end_of(trim_start_of(s))
}

/// The first index of `c` in `s` at or after `from`, or the length of `s` where there is none.
pub open spec fn find_char(s: Seq<char>, c: char, from: int) -> int
    decreases s.len() - from,
{
    if from >= s.len() {
        s.len() as int
    } else if s[from] == c {
        from
    } else {
        find_char(s, c, from + 1)
    }
}

/// A line without the carriage return of a `\r\n` ending.
pub open spec fn without_cr(line: Seq<char>) -> Seq<char> {
    if line.len() > 0 && line.last() == '\r' {
        line.drop_last()
    } else {
        line
    }
}

/// The lines of `s`. A line ends with `\n` or `\r\n`; the ending of the last line is optional,
/// and a carriage return that no line feed follows belongs to its line.
pub open spec fn lines_of(s: Seq<char>) -> Seq<Seq<char>>
    decreases s.len(),
{
    if s.len() == 0 {
        Seq::empty()
    } else {
        let end = find_char(s, '\n', 0);
        if 0 <= end < s.len() {
            seq![without_cr(s.take(end))] + lines_of(s.skip(end + 1))
        } else {
            seq![s]
        }
    }
}

/// The parts, with `sep` between each two of them.
pub open spec fn join_of(parts: Seq<Seq<char>>, sep: Seq<char>) -> Seq<char>
    decreases parts.len(),
{
    if parts.len() == 0 {
        Seq::empty()
    } else if parts.len() == 1 {
        parts[0]
    } else {
        join_of(parts.drop_last(), sep) + sep + parts.last()
    }
}

/// Whether `s` begins with `prefix`.
pub open spec fn starts_with(s: Seq<char>, prefix: Seq<char>) -> bool {
    prefix.len() <= s.len() && s.take(prefix.len() as int) == prefix
}

/// What follows `prefix` in `s`, where `s` begins with it.
pub open spec fn after_prefix(s: Seq<char>, prefix: Seq<char>) -> Option<Seq<char>> {
    if starts_with(s, prefix) {
        Some(s.skip(prefix.len() as int))
    } else {
        None
    }
}

/// The first index at or after `from` at which `needle` occurs in `s`.
pub open spec fn find_text_of(s: Seq<char>, needle: Seq<char>, from: int) -> Option<int>
    decreases s.len() + 1 - from,
{
    if from < 0 || from > s.len() {
        None
    } else if starts_with(s.skip(from), needle) {
        Some(from)
    } else {
        find_text_of(s, needle, from + 1)
    }
}

/// The views of a list of strings.
pub open spec fn views(strings: Seq<String>) -> Seq<Seq<char>> {
    strings.map_values(|s: String| s@)
}

/// The view of an optional string.
pub open spec fn view_option(s: Option<String>) -> Option<Seq<char>> {
    match s {
        Some(s) => Some(s@),
        None => None,
    }
}

/// Whether a character has the Unicode property `White_Space`.
pub fn is_whitespace(c: char) -> (b: bool)
    ensures
        b == is_white_space(c),
{
    let n: u32 = c as u32;
    (0x09 <= n && n <= 0x0d) || n == 0x20 || n == 0x85 || n == 0xa0 || n == 0x1680 || (0x2000 <= n
        && n <= 0x200a) || n == 0x2028 || n == 0x2029 || n == 0x202f || n == 0x205f || n == 0x3000
}

/// The characters of a string.
pub fn chars_of(s: &str) -> (chars: Vec<char>)
    ensures
        chars@ == s@,
{
    let mut chars: Vec<char> = Vec::new();
    for c in it: s.chars()
        invariant
            it.seq() == s@,
            chars@ == s@.take(it.index() as int),
    {
        chars.push(c);
        assert(chars@ =~= s@.take(it.index() as int + 1));
    }
    assert(s@.take(s@.len() as int) =~= s@);
    chars
}

/// The string made of the characters of `chars` from `from` up to `to`.
pub fn string_of(chars: &Vec<char>, from: usize, to: usize) -> (s: String)
    requires
        from <= to <= chars@.len(),
    ensures
        s@ == chars@.subrange(from as int, to as int),
{
    let mut s = String::new();
    let mut i: usize = from;
    while i < to
        invariant
            from <= i <= to <= chars@.len(),
            s@ == chars@.subrange(from as int, i as int),
        decreases to - i,
    {
        s.push(chars[i]);
        assert(chars@.subrange(from as int, i + 1) =~= chars@.subrange(from as int, i as int).push(
            chars@[i as int],
        ));
        i += 1;
    }
    s
}

/// Whether two strings hold the same characters.
pub fn text_eq(a: &str, b: &str) -> (equal: bool)
    ensures
        equal == (a@ == b@),
{
    a.to_owned() == b.to_owned()
}

/// A copy of an optional string.
pub fn clone_option(s: &Option<String>) -> (copy: Option<String>)
    ensures
        copy == *s,
{
    match s {
        Some(s) => Some(s.clone()),
        None => None,
    }
}

/// Removes leading white space.
pub fn trim_start(s: &str) -> (trimmed: &str)
    ensures
        trimmed@ == trim_start_of(s@),
{
    let chars = chars_of(s);
    let n: usize = chars.len();
    let mut i: usize = 0;
    assert(s@.skip(0) =~= s@);
    while i < n && is_whitespace(chars[i])
        invariant
            i <= n == s@.len(),
            chars@ == s@,
            trim_start_of(s@) == trim_start_of(s@.skip(i as int)),
        decreases n - i,
    {
        assert(s@.skip(i as int).skip(1) =~= s@.skip(i + 1));
        i += 1;
    }
    assert(s@.subrange(i as int, n as int) =~= s@.skip(i as int));
    s.substring_char(i, n)
}

/// Removes leading and trailing white space.
pub fn trim(s: &str) -> (trimmed: &str)
    ensures
        trimmed@ == trim_of(s@),
{
    let rest = trim_start(s);
    let chars = chars_of(rest);
    let mut n: usize = chars.len();
    assert(rest@.take(n as int) =~= rest@);
    while n > 0 && is_whitespace(chars[n - 1])
        invariant
            n <= rest@.len(),
            chars@ == rest@,
            trim_end_of(rest@) == trim_end_of(rest@.take(n as int)),
        decreases n,
    {
        assert(rest@.take(n as int).drop_last() =~= rest@.take(n - 1));
        n -= 1;
    }
    assert(rest@.subrange(0, n as int) =~= rest@.take(n as int));
    rest.substring_char(0, n)
}

/// Whether a string holds nothing but white space.
pub fn is_blank(s: &str) -> (blank: bool)
    ensures
        blank == (trim_of(s@).len() == 0),
{
    trim(s).is_empty()
}

/// `find_char` gives an index at which `c` stands, with no `c` between it and `from`, or the
/// length of the text where no `c` follows.
pub proof fn lemma_find_char(s: Seq<char>, c: char, from: int)
    requires
        0 <= from <= s.len(),
    ensures
        from <= find_char(s, c, from) <= s.len(),
        find_char(s, c, from) < s.len() ==> s[find_char(s, c, from)] == c,
        forall|i: int| from <= i < find_char(s, c, from) ==> s[i] != c,
    decreases s.len() - from,
{
    if from < s.len() && s[from] != c {
        lemma_find_char(s, c, from + 1);
    }
}

/// What `find_char` gives is determined by those facts.
pub proof fn lemma_find_char_is(s: Seq<char>, c: char, from: int, at: int)
    requires
        0 <= from <= at <= s.len(),
        at < s.len() ==> s[at] == c,
        forall|i: int| from <= i < at ==> s[i] != c,
    ensures
        find_char(s, c, from) == at,
    decreases at - from,
{
    if from < at {
        lemma_find_char_is(s, c, from + 1, at);
    }
}

/// The index of the first `c` in `chars` at or after `from`.
pub fn find_in(chars: &Vec<char>, c: char, from: usize) -> (at: usize)
    requires
        from <= chars@.len(),
    ensures
        at == find_char(chars@, c, from as int),
        from <= at <= chars@.len(),
{
    let mut at: usize = from;
    while at < chars.len() && chars[at] != c
        invariant
            from <= at <= chars@.len(),
            forall|i: int| from <= i < at ==> chars@[i] != c,
        decreases chars@.len() - at,
    {
        at += 1;
    }
    proof {
        lemma_find_char_is(chars@, c, from as int, at as int);
    }
    at
}

/// Splits text into its lines.
pub fn lines(s: &str) -> (lines: Vec<String>)
    ensures
        views(lines@) == lines_of(s@),
{
    let chars = chars_of(s);
    let n: usize = chars.len();
    let mut lines: Vec<String> = Vec::new();
    let mut start: usize = 0;
    assert(s@.skip(0) =~= s@);
    assert(views(lines@) + lines_of(s@) =~= lines_of(s@));
    while start < n
        invariant
            start <= n == s@.len(),
            chars@ == s@,
            views(lines@) + lines_of(s@.skip(start as int)) == lines_of(s@),
        decreases n - start,
    {
        let end = find_in(&chars, '\n', start);
        let ghost rest = s@.skip(start as int);
        let ghost before = views(lines@);
        proof {
            lemma_find_char(s@, '\n', start as int);
            lemma_find_char_is(rest, '\n', 0, end - start);
        }
        if end < n {
            let to: usize = if end > start && chars[end - 1] == '\r' {
                end - 1
            } else {
                end
            };
            let line = string_of(&chars, start, to);
            proof {
                assert(rest.take(end - start) =~= s@.subrange(start as int, end as int));
                assert(line@ =~= without_cr(rest.take(end - start)));
                assert(rest.skip(end - start + 1) =~= s@.skip(end + 1));
            }
            lines.push(line);
            assert(views(lines@) =~= before.push(line@));
            assert(views(lines@) + lines_of(s@.skip(end + 1)) =~= before + (seq![line@] + lines_of(
                s@.skip(end + 1),
            )));
            start = end + 1;
        } else {
            let line = string_of(&chars, start, n);
            assert(line@ =~= rest);
            lines.push(line);
            assert(views(lines@) =~= before.push(line@));
            assert(s@.skip(n as int) =~= Seq::<char>::empty());
            assert(views(lines@) + lines_of(s@.skip(n as int)) =~= before + seq![line@]);
            start = n;
        }
    }
    assert(s@.skip(start as int) =~= Seq::<char>::empty());
    assert(views(lines@) + Seq::<Seq<char>>::empty() =~= views(lines@));
    lines
}

/// Joins strings with a separator.
pub fn join(parts: &Vec<String>, sep: &str) -> (joined: String)
    ensures
        joined@ == join_of(views(parts@), sep@),
{
    let mut joined = String::new();
    let mut i: usize = 0;
    let ghost all = views(parts@);
    while i < parts.len()
        invariant
            i <= parts@.len(),
            all == views(parts@),
            joined@ == join_of(all.take(i as int), sep@),
        decreases parts@.len() - i,
    {
        if i > 0 {
            joined.append(sep);
        }
        joined.append(parts[i].as_str());
        proof {
            let next = all.take(i + 1);
            assert(next.drop_last() =~= all.take(i as int));
            assert(next.last() == parts@[i as int]@);
            if i == 0 {
                assert(joined@ =~= next[0]);
            }
        }
        i += 1;
    }
    assert(all.take(i as int) =~= all);
    joined
}

/// What follows `prefix` in `s`, where `s` begins with it.
pub fn strip_prefix<'a>(s: &'a str, prefix: &str) -> (rest: Option<&'a str>)
    ensures
        match rest {
            Some(rest) => after_prefix(s@, prefix@) == Some(rest@),
            None => after_prefix(s@, prefix@) is None,
        },
{
    let n: usize = s.unicode_len();
    let k: usize = prefix.unicode_len();
    if k > n {
        return None;
    }
    assert(s@.subrange(0, k as int) =~= s@.take(k as int));
    assert(s@.subrange(k as int, n as int) =~= s@.skip(k as int));
    if text_eq(s.substring_char(0, k), prefix) {
        Some(s.substring_char(k, n))
    } else {
        None
    }
}

/// The parts of `s` before and after its first `c`.
pub fn split_once<'a>(s: &'a str, c: char) -> (parts: Option<(&'a str, &'a str)>)
    ensures
        match parts {
            Some((before, after)) => {
                let at = find_char(s@, c, 0);
                &&& at < s@.len()
                &&& before@ == s@.take(at)
                &&& after@ == s@.skip(at + 1)
            },
            None => find_char(s@, c, 0) == s@.len(),
        },
{
    let chars = chars_of(s);
    let n: usize = chars.len();
    let at = find_in(&chars, c, 0);
    if at < n {
        assert(s@.subrange(0, at as int) =~= s@.take(at as int));
        assert(s@.subrange(at + 1, n as int) =~= s@.skip(at + 1));
        Some((s.substring_char(0, at), s.substring_char(at + 1, n)))
    } else {
        None
    }
}

/// Whether `needle` stands in `chars` at index `at`.
fn occurs_at(chars: &Vec<char>, needle: &Vec<char>, at: usize) -> (occurs: bool)
    requires
        at <= chars@.len(),
    ensures
        occurs == starts_with(chars@.skip(at as int), needle@),
{
    let n: usize = chars.len();
    if needle.len() > n - at {
        return false;
    }
    let mut i: usize = 0;
    while i < needle.len()
        invariant
            i <= needle@.len() <= n - at,
            at <= n == chars@.len(),
            forall|j: int| 0 <= j < i ==> chars@[at + j] == needle@[j],
        decreases needle@.len() - i,
    {
        if chars[at + i] != needle[i] {
            assert(chars@.skip(at as int).take(needle@.len() as int)[i as int] != needle@[i as int]);
            return false;
        }
        i += 1;
    }
    assert(chars@.skip(at as int).take(needle@.len() as int) =~= needle@);
    true
}

/// The first index at which `needle` occurs in `chars`.
pub fn find_text(chars: &Vec<char>, needle: &str) -> (at: Option<usize>)
    ensures
        match at {
            Some(at) => find_text_of(chars@, needle@, 0) == Some(at as int) && at + needle@.len()
                <= chars@.len(),
            None => find_text_of(chars@, needle@, 0) is None,
        },
{
    let needle_chars = chars_of(needle);
    let n: usize = chars.len();
    let mut at: usize = 0;
    while at <= n
        invariant
            at <= n + 1,
            n == chars@.len(),
            needle_chars@ == needle@,
            find_text_of(chars@, needle@, 0) == find_text_of(chars@, needle@, at as int),
        decreases n + 1 - at,
    {
        if occurs_at(chars, &needle_chars, at) {
            return Some(at);
        }
        if at == n {
            assert(find_text_of(chars@, needle@, n + 1) is None);
            return None;
        }
        at += 1;
    }
    None
}

/// No line feed occurs in `s`.
pub open spec fn newline_free(s: Seq<char>) -> bool {
    forall|i: int| 0 <= i < s.len() ==> #[trigger] s[i] != '\n'
}

/// Lines hold no line feed.
pub proof fn lemma_lines_are_newline_free(s: Seq<char>)
    ensures
        forall|i: int| 0 <= i < lines_of(s).len() ==> newline_free(#[trigger] lines_of(s)[i]),
    decreases s.len(),
{
    if s.len() > 0 {
        lemma_find_char(s, '\n', 0);
        let end = find_char(s, '\n', 0);
        if end < s.len() {
            lemma_lines_are_newline_free(s.skip(end + 1));
            let rest = lines_of(s.skip(end + 1));
            assert forall|i: int| 0 <= i < lines_of(s).len() implies newline_free(
                #[trigger] lines_of(s)[i],
            ) by {
                if i > 0 {
                    assert(lines_of(s)[i] == rest[i - 1]);
                }
            }
        }
    }
}

/// Joining to one part more at the front.
pub proof fn lemma_join_front(first: Seq<char>, rest: Seq<Seq<char>>, sep: Seq<char>)
    requires
        rest.len() > 0,
    ensures
        join_of(seq![first] + rest, sep) == first + sep + join_of(rest, sep),
    decreases rest.len(),
{
    let all = seq![first] + rest;
    assert(all.last() == rest.last());
    if rest.len() == 1 {
        assert(all.drop_last() =~= seq![first]);
        assert(join_of(all.drop_last(), sep) == first);
    } else {
        assert(all.drop_last() =~= seq![first] + rest.drop_last());
        lemma_join_front(first, rest.drop_last(), sep);
        assert(first + sep + join_of(rest.drop_last(), sep) + sep + rest.last() =~= first + sep + (
        join_of(rest.drop_last(), sep) + sep + rest.last()));
    }
}

/// The lines of parts that were joined by line feeds: each is one of the parts, but for a carriage
/// return at its end.
pub proof fn lemma_lines_of_join(parts: Seq<Seq<char>>)
    requires
        forall|i: int| 0 <= i < parts.len() ==> newline_free(#[trigger] parts[i]),
    ensures
        lines_of(join_of(parts, "\n"@)).len() <= parts.len(),
        forall|i: int|
            0 <= i < lines_of(join_of(parts, "\n"@)).len() ==> {
                ||| #[trigger] lines_of(join_of(parts, "\n"@))[i] == parts[i]
                ||| lines_of(join_of(parts, "\n"@))[i] == without_cr(parts[i])
            },
    decreases parts.len(),
{
    reveal_strlit("\n");
    assert("\n"@ =~= seq!['\n']);
    if parts.len() == 1 {
        let only = parts[0];
        lemma_find_char_is(only, '\n', 0, only.len() as int);
    } else if parts.len() > 1 {
        let first = parts[0];
        let rest = parts.skip(1);
        assert(parts =~= seq![first] + rest);
        lemma_join_front(first, rest, "\n"@);
        let tail = join_of(rest, "\n"@);
        let whole = join_of(parts, "\n"@);
        let n = first.len() as int;
        assert(whole =~= first + seq!['\n'] + tail);
        assert forall|i: int| 0 <= i < n implies whole[i] != '\n' by {
            assert(whole[i] == first[i]);
        }
        lemma_find_char_is(whole, '\n', 0, n);
        assert(whole.take(n) =~= first);
        assert(whole.skip(n + 1) =~= tail);
        assert forall|i: int| 0 <= i < rest.len() implies newline_free(#[trigger] rest[i]) by {
            assert(rest[i] == parts[i + 1]);
        }
        lemma_lines_of_join(rest);
        assert forall|i: int| 0 <= i < lines_of(whole).len() implies {
            ||| #[trigger] lines_of(whole)[i] == parts[i]
            ||| lines_of(whole)[i] == without_cr(parts[i])
        } by {
            if i > 0 {
                assert(lines_of(whole)[i] == lines_of(tail)[i - 1]);
                assert(rest[i - 1] == parts[i]);
            }
        }
    }
}

/// The lines of a text that starts with a line of its own.
pub proof fn lemma_lines_front(first: Seq<char>, rest: Seq<char>)
    requires
        newline_free(first),
        first.len() > 0 ==> first.last() != '\r',
    ensures
        lines_of(first + "\n"@ + rest) == seq![first] + lines_of(rest),
{
    reveal_strlit("\n");
    assert("\n"@ =~= seq!['\n']);
    let whole = first + "\n"@ + rest;
    let n = first.len() as int;
    assert forall|i: int| 0 <= i < n implies whole[i] != '\n' by {
        assert(whole[i] == first[i]);
    }
    lemma_find_char_is(whole, '\n', 0, n);
    assert(whole.take(n) =~= first);
    assert(whole.skip(n + 1) =~= rest);
    assert(without_cr(first) == first);
}

/// Trimming the end leaves a beginning.
pub proof fn lemma_trim_end_is_beginning(s: Seq<char>)
    ensures
        trim_end_of(s).len() <= s.len(),
        s.take(trim_end_of(s).len() as int) == trim_end_of(s),
    decreases s.len(),
{
    if s.len() > 0 && is_white_space(s.last()) {
        lemma_trim_end_is_beginning(s.drop_last());
        let n = trim_end_of(s).len() as int;
        assert(s.take(n) =~= s.drop_last().take(n));
    } else {
        assert(s.take(s.len() as int) =~= s);
    }
}

/// Trimming the start leaves an ending.
pub proof fn lemma_trim_start_is_ending(s: Seq<char>)
    ensures
        trim_start_of(s).len() <= s.len(),
        s.skip(s.len() - trim_start_of(s).len()) == trim_start_of(s),
    decreases s.len(),
{
    if s.len() > 0 && is_white_space(s[0]) {
        lemma_trim_start_is_ending(s.skip(1));
        let rest = s.skip(1);
        let k = rest.len() - trim_start_of(rest).len();
        assert(rest.skip(k) =~= s.skip(k + 1));
    } else {
        assert(s.skip(0) =~= s);
    }
}

/// Trimming the start of a text that goes on after something that is not white space.
pub proof fn lemma_trim_start_of_longer(s: Seq<char>, more: Seq<char>)
    requires
        trim_start_of(s).len() > 0,
    ensures
        trim_start_of(s + more) == trim_start_of(s) + more,
    decreases s.len(),
{
    if s.len() > 0 && is_white_space(s[0]) {
        assert((s + more).skip(1) =~= s.skip(1) + more);
        lemma_trim_start_of_longer(s.skip(1), more);
    }
}

/// A text that begins with a beginning of which `prefix` is a beginning.
pub proof fn lemma_starts_with_longer(s: Seq<char>, n: int, prefix: Seq<char>)
    requires
        0 <= n <= s.len(),
        starts_with(s.take(n), prefix),
    ensures
        starts_with(s, prefix),
{
    assert(s.take(n).take(prefix.len() as int) =~= s.take(prefix.len() as int));
}

/// `c` does not occur in `s`.
pub open spec fn free_of(s: Seq<char>, c: char) -> bool {
    forall|i: int| 0 <= i < s.len() ==> #[trigger] s[i] != c
}

/// Two texts that are split at their first `c` are equal only where their parts are.
pub proof fn lemma_split_is_unique(
    a: Seq<char>,
    a_rest: Seq<char>,
    b: Seq<char>,
    b_rest: Seq<char>,
    c: char,
)
    requires
        free_of(a, c),
        free_of(b, c),
        a + seq![c] + a_rest == b + seq![c] + b_rest,
    ensures
        a == b,
        a_rest == b_rest,
{
    let whole = a + seq![c] + a_rest;
    let other = b + seq![c] + b_rest;
    assert(whole[a.len() as int] == c);
    assert(other[b.len() as int] == c);
    if a.len() < b.len() {
        assert(other[a.len() as int] == b[a.len() as int]);
    }
    if b.len() < a.len() {
        assert(whole[b.len() as int] == a[b.len() as int]);
    }
    assert(a =~= whole.take(a.len() as int));
    assert(b =~= other.take(b.len() as int));
    assert(a_rest =~= whole.skip(a.len() as int + 1));
    assert(b_rest =~= other.skip(b.len() as int + 1));
}

/// `part` stands somewhere in `s`.
pub open spec fn holds(s: Seq<char>, part: Seq<char>) -> bool {
    exists|before: Seq<char>, after: Seq<char>| s == #[trigger] (before + part + after)
}

/// A part of a text stands in it.
pub proof fn lemma_holds(s: Seq<char>, before: Seq<char>, part: Seq<char>, after: Seq<char>)
    requires
        s == before + part + after,
    ensures
        holds(s, part),
{
}

/// A text of nothing but white space.
pub open spec fn all_white(s: Seq<char>) -> bool {
    forall|i: int| 0 <= i < s.len() ==> is_white_space(#[trigger] s[i])
}

/// Trimming the start takes off white space, as much as there is.
pub proof fn lemma_trim_start_takes_white(s: Seq<char>)
    ensures
        exists|front: Seq<char>| s == #[trigger] (front + trim_start_of(s)) && all_white(front),
        trim_start_of(s).len() > 0 ==> !is_white_space(trim_start_of(s)[0]),
    decreases s.len(),
{
    if s.len() > 0 && is_white_space(s[0]) {
        lemma_trim_start_takes_white(s.skip(1));
        let front = choose|front: Seq<char>|
            s.skip(1) == #[trigger] (front + trim_start_of(s.skip(1))) && all_white(front);
        let longer = seq![s[0]] + front;
        assert(s =~= seq![s[0]] + s.skip(1));
        assert(seq![s[0]] + (front + trim_start_of(s)) =~= longer + trim_start_of(s));
        assert(all_white(longer)) by {
            assert forall|i: int| 0 <= i < longer.len() implies is_white_space(
                #[trigger] longer[i],
            ) by {
                if i > 0 {
                    assert(longer[i] == front[i - 1]);
                }
            }
        }
    } else {
        assert(s =~= Seq::<char>::empty() + trim_start_of(s));
    }
}

/// Trimming the end takes off white space, as much as there is.
proof fn lemma_trim_end_takes_white(s: Seq<char>)
    ensures
        exists|back: Seq<char>| s == #[trigger] (trim_end_of(s) + back) && all_white(back),
        trim_end_of(s).len() > 0 ==> !is_white_space(trim_end_of(s).last()),
    decreases s.len(),
{
    if s.len() > 0 && is_white_space(s.last()) {
        lemma_trim_end_takes_white(s.drop_last());
        let back = choose|back: Seq<char>|
            s.drop_last() == #[trigger] (trim_end_of(s.drop_last()) + back) && all_white(back);
        let longer = back.push(s.last());
        assert(s =~= s.drop_last().push(s.last()));
        assert((trim_end_of(s) + back).push(s.last()) =~= trim_end_of(s) + longer);
        assert(all_white(longer));
    } else {
        assert(s =~= trim_end_of(s) + Seq::<char>::empty());
    }
}

/// Trimming takes white space off both ends of a text, and nothing else, until other characters stand
/// there.
pub proof fn law_trimming_takes_off_white_space(s: Seq<char>)
    ensures
        exists|front: Seq<char>, back: Seq<char>|
            s == #[trigger] (front + trim_of(s) + back) && all_white(front) && all_white(back),
        trim_of(s).len() > 0 ==> !is_white_space(trim_of(s)[0]) && !is_white_space(
            trim_of(s).last(),
        ),
{
    lemma_trim_start_takes_white(s);
    let rest = trim_start_of(s);
    lemma_trim_end_takes_white(rest);
    let front = choose|front: Seq<char>| s == #[trigger] (front + rest) && all_white(front);
    let back = choose|back: Seq<char>|
        rest == #[trigger] (trim_end_of(rest) + back) && all_white(back);
    assert(s =~= front + trim_of(s) + back);
    if trim_of(s).len() > 0 {
        assert(trim_of(s)[0] == rest[0]);
    }
}

/// A text is cut into lines at its line feeds, and a carriage return before a line feed is cut off
/// with it.
pub proof fn law_lines_end_at_line_feeds(first: Seq<char>, rest: Seq<char>)
    requires
        newline_free(first),
    ensures
        lines_of(Seq::empty()).len() == 0,
        first.len() > 0 ==> lines_of(first) == seq![first],
        lines_of(first + seq!['\r', '\n'] + rest) == seq![first] + lines_of(rest),
        first.len() == 0 || first.last() != '\r' ==> lines_of(first + seq!['\n'] + rest)
            == seq![first] + lines_of(rest),
{
    reveal_strlit("\n");
    assert("\n"@ =~= seq!['\n']);
    if first.len() > 0 {
        lemma_find_char_is(first, '\n', 0, first.len() as int);
    }
    if first.len() == 0 || first.last() != '\r' {
        lemma_lines_front(first, rest);
    }
    let whole = first + seq!['\r', '\n'] + rest;
    let n = first.len() as int;
    assert forall|i: int| 0 <= i < n + 1 implies whole[i] != '\n' by {
        if i < n {
            assert(whole[i] == first[i]);
        }
    }
    lemma_find_char_is(whole, '\n', 0, n + 1);
    assert(whole.take(n + 1) =~= first.push('\r'));
    assert(first.push('\r').drop_last() =~= first);
    assert(whole.skip(n + 2) =~= rest);
}

/// Joining puts the separator between each two parts, and nothing else.
pub proof fn law_joining_separates_the_parts(
    first: Seq<char>,
    rest: Seq<Seq<char>>,
    sep: Seq<char>,
)
    ensures
        join_of(Seq::empty(), sep).len() == 0,
        join_of(seq![first], sep) == first,
        rest.len() > 0 ==> join_of(seq![first] + rest, sep) == first + sep + join_of(rest, sep),
{
    if rest.len() > 0 {
        lemma_join_front(first, rest, sep);
    }
    assert(seq![first].last() == first);
}

/// Lines that were joined are the lines of the text again, where none holds a line break of its own
/// and the last is not empty.
pub proof fn law_joined_lines_read_back(parts: Seq<Seq<char>>)
    requires
        parts.len() > 0,
        parts.last().len() > 0,
        forall|i: int|
            0 <= i < parts.len() ==> newline_free(#[trigger] parts[i]) && (parts[i].len() == 0
                || parts[i].last() != '\r'),
    ensures
        lines_of(join_of(parts, seq!['\n'])) == parts,
    decreases parts.len(),
{
    let first = parts[0];
    assert(newline_free(first));
    if parts.len() == 1 {
        assert(parts =~= seq![first]);
        law_lines_end_at_line_feeds(first, Seq::empty());
        law_joining_separates_the_parts(first, Seq::empty(), seq!['\n']);
    } else {
        let rest = parts.skip(1);
        assert(parts =~= seq![first] + rest);
        assert forall|i: int| 0 <= i < rest.len() implies newline_free(#[trigger] rest[i]) && (
        rest[i].len() == 0 || rest[i].last() != '\r') by {
            assert(rest[i] == parts[i + 1]);
        }
        assert(rest.last() == parts.last());
        law_joined_lines_read_back(rest);
        law_joining_separates_the_parts(first, rest, seq!['\n']);
        law_lines_end_at_line_feeds(first, join_of(rest, seq!['\n']));
    }
}

/// What follows a prefix is what is left when the prefix is taken off.
pub proof fn law_prefix_is_taken_off(s: Seq<char>, prefix: Seq<char>, rest: Seq<char>)
    ensures
        after_prefix(s, prefix) == Some(rest) <==> s == prefix + rest,
{
    let n = prefix.len() as int;
    if s == prefix + rest {
        assert(s.take(n) =~= prefix);
        assert(s.skip(n) =~= rest);
    }
    if after_prefix(s, prefix) == Some(rest) {
        assert(s =~= s.take(n) + s.skip(n));
    }
}

/// A text that nothing is left of when it is trimmed is all white space.
pub proof fn lemma_blank_is_white(s: Seq<char>)
    ensures
        trim_of(s).len() == 0 <==> all_white(s),
{
    law_trimming_takes_off_white_space(s);
    let (front, back) = choose|front: Seq<char>, back: Seq<char>|
        s == #[trigger] (front + trim_of(s) + back) && all_white(front) && all_white(back);
    if trim_of(s).len() == 0 {
        assert forall|i: int| 0 <= i < s.len() implies is_white_space(#[trigger] s[i]) by {
            if i < front.len() {
                assert(s[i] == front[i]);
            } else {
                assert(s[i] == back[i - front.len()]);
            }
        }
    } else {
        assert(s[front.len() as int] == trim_of(s)[0]);
    }
}

/// White space in front of a text that starts with something else is what trimming takes off.
pub proof fn lemma_trim_start_of_padded(front: Seq<char>, s: Seq<char>)
    requires
        all_white(front),
        s.len() > 0,
        !is_white_space(s[0]),
    ensures
        trim_start_of(front + s) == s,
    decreases front.len(),
{
    if front.len() == 0 {
        assert(front + s =~= s);
    } else {
        assert((front + s)[0] == front[0]);
        assert((front + s).skip(1) =~= front.skip(1) + s);
        assert forall|i: int| 0 <= i < front.skip(1).len() implies is_white_space(
            #[trigger] front.skip(1)[i],
        ) by {
            assert(front.skip(1)[i] == front[i + 1]);
        }
        lemma_trim_start_of_padded(front.skip(1), s);
    }
}

/// A text is found where it occurs first, and not found where it does not occur.
pub proof fn law_text_is_found_where_it_occurs_first(s: Seq<char>, needle: Seq<char>, from: int)
    requires
        0 <= from <= s.len(),
    ensures
        match find_text_of(s, needle, from) {
            Some(at) => {
                &&& from <= at <= s.len()
                &&& starts_with(s.skip(at), needle)
                &&& forall|k: int| from <= k < at ==> !starts_with(#[trigger] s.skip(k), needle)
            },
            None => forall|k: int|
                from <= k <= s.len() ==> !starts_with(#[trigger] s.skip(k), needle),
        },
    decreases s.len() - from,
{
    reveal_with_fuel(find_text_of, 2);
    if !starts_with(s.skip(from), needle) && from < s.len() {
        law_text_is_found_where_it_occurs_first(s, needle, from + 1);
    }
}

/// Texts with one beginning and one end are equal only where what stands between is.
pub proof fn lemma_middle_is_unique(
    before: Seq<char>,
    middle: Seq<char>,
    other: Seq<char>,
    after: Seq<char>,
)
    ensures
        before + middle + after == before + other + after ==> middle == other,
{
    let whole = before + middle + after;
    let second = before + other + after;
    if whole == second {
        let n = before.len() as int;
        assert(whole.len() == second.len());
        assert(middle.len() == other.len());
        assert(middle =~= whole.subrange(n, n + middle.len()));
        assert(other =~= second.subrange(n, n + other.len()));
    }
}

/// Whether a text ends with another.
pub open spec fn ends_with(s: Seq<char>, end: Seq<char>) -> bool {
    s.len() >= end.len() && s.skip(s.len() - end.len()) == end
}

} // verus!
