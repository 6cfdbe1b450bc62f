//! A log and a tmux session on another machine: what is asked of the machine, and how its answer is
//! read.
use crate::job::RemoteTmuxSpec;
use crate::number;
use crate::shell;
use crate::text;
use vstd::prelude::*;
use vstd::string::*;

verus! {

/// What the line with the exit status of tmux starts with.
pub const TMUX_STATUS_MARKER: &'static str = "__CODELINK_TMUX_STATUS__=";

/// What the line with the size of the log starts with.
pub const LOG_BYTES_MARKER: &'static str = "__CODELINK_LOG_BYTES__=";

/// The line that says that there is no log.
pub const LOG_MISSING_MARKER: &'static str = "__CODELINK_LOG_MISSING__=1";

/// The command that asks for the state of the session `session` and for the last `tail` lines of
/// the log `log`. Both are given as words of a shell.
pub open spec fn poll_command_of(session: Seq<char>, log: Seq<char>, tail: int) -> Seq<char> {
    "tmux has-session -t "@ + session
        + " >/dev/null 2>&1; tmux_status=$?; echo __CODELINK_TMUX_STATUS__=$tmux_status; if [ -e "@
        + log + " ]; then wc -c < "@ + log
        + " | awk '{print \"__CODELINK_LOG_BYTES__=\"$1}'; tail -n "@ + number::decimal_of(tail)
        + " "@ + log + "; else echo __CODELINK_LOG_MISSING__=1; fi"@
}

/// Makes the command that asks for the state of a watched session and log.
pub fn poll_command(spec: &RemoteTmuxSpec) -> (command: String)
    ensures
        command@ == poll_command_of(
            shell::shell_word(spec.tmux_session@),
            shell::shell_word(spec.log_path@),
            spec.tail_lines as int,
        ),
{
    let session = shell::shell_quote(spec.tmux_session.as_str());
    let log = shell::shell_quote(spec.log_path.as_str());
    let mut command = "tmux has-session -t ".to_owned();
    command.append(session.as_str());
    command.append(
        " >/dev/null 2>&1; tmux_status=$?; echo __CODELINK_TMUX_STATUS__=$tmux_status; if [ -e ",
    );
    command.append(log.as_str());
    command.append(" ]; then wc -c < ");
    command.append(log.as_str());
    command.append(" | awk '{print \"__CODELINK_LOG_BYTES__=\"$1}'; tail -n ");
    command.append(number::decimal(spec.tail_lines as u128).as_str());
    command.append(" ");
    command.append(log.as_str());
    command.append("; else echo __CODELINK_LOG_MISSING__=1; fi");
    command
}

/// What a watcher saw.
#[derive(Debug, Clone, PartialEq, Eq)]
pub struct RemoteSnapshot {
    /// The session exists.
    pub tmux_running: bool,
    /// There is no log.
    pub log_missing: bool,
    /// The size of the log.
    pub log_bytes: Option<i64>,
    /// The last lines of the log.
    pub log_tail: String,
    /// What the connection said.
    pub stderr: String,
}

/// What the lines of an answer say.
#[verifier::ext_equal]
pub struct Answer {
    pub tmux_running: bool,
    pub log_missing: bool,
    pub log_bytes: Option<i64>,
    pub log_lines: Seq<Seq<char>>,
}

/// The number that a text is, with white space around it, if it is one in range.
pub open spec fn size_of_text(text: Seq<char>) -> Option<i64> {
    match number::parse_signed_of(text::trim_of(text), i64::MIN as int, i64::MAX as int) {
        Some(n) => Some(n as i64),
        None => None,
    }
}

/// What an answer says with one more line.
pub open spec fn with_line(answer: Answer, line: Seq<char>) -> Answer {
    if let Some(status) = text::after_prefix(line, TMUX_STATUS_MARKER@) {
        Answer { tmux_running: text::trim_of(status) == "0"@, ..answer }
    } else if let Some(size) = text::after_prefix(line, LOG_BYTES_MARKER@) {
        Answer { log_bytes: size_of_text(size), ..answer }
    } else if line == LOG_MISSING_MARKER@ {
        Answer { log_missing: true, ..answer }
    } else {
        Answer { log_lines: answer.log_lines.push(line), ..answer }
    }
}

/// What the lines of an answer say: each line with a marker says what it marks, the last of a kind
/// counts, and the other lines are those of the log.
pub open spec fn answer_of(lines: Seq<Seq<char>>) -> Answer
    decreases lines.len(),
{
    if lines.len() == 0 {
        Answer { tmux_running: false, log_missing: false, log_bytes: None, log_lines: Seq::empty() }
    } else {
        with_line(answer_of(lines.drop_last()), lines.last())
    }
}

/// Whether a snapshot is what an answer says.
pub open spec fn is_snapshot_of(
    snapshot: RemoteSnapshot,
    stdout: Seq<char>,
    stderr: Seq<char>,
) -> bool {
    let answer = answer_of(text::lines_of(stdout));
    &&& snapshot.tmux_running == answer.tmux_running
    &&& snapshot.log_missing == answer.log_missing
    &&& snapshot.log_bytes == answer.log_bytes
    &&& snapshot.log_tail@ == text::join_of(answer.log_lines, "\n"@)
    &&& snapshot.stderr@ == stderr
}

/// Reads an answer.
pub fn parse_snapshot(stdout: String, stderr: String) -> (snapshot: RemoteSnapshot)
    ensures
        is_snapshot_of(snapshot, stdout@, stderr@),
{
    let lines = text::lines(stdout.as_str());
    let ghost all = text::lines_of(stdout@);
    let mut tmux_running = false;
    let mut log_missing = false;
    let mut log_bytes: Option<i64> = None;
    let mut log_lines: Vec<String> = Vec::new();
    let mut i: usize = 0;
    assert(text::views(log_lines@) =~= answer_of(all.take(0)).log_lines);
    while i < lines.len()
        invariant
            i <= lines@.len(),
            text::views(lines@) == all,
            ({
                let answer = answer_of(all.take(i as int));
                &&& tmux_running == answer.tmux_running
                &&& log_missing == answer.log_missing
                &&& log_bytes == answer.log_bytes
                &&& text::views(log_lines@) == answer.log_lines
            }),
        decreases lines@.len() - i,
    {
        let line = lines[i].as_str();
        proof {
            assert(all.len() == lines@.len());
            assert(line@ == all[i as int]);
            assert(all.take(i as int + 1).drop_last() =~= all.take(i as int));
            assert(text::views(log_lines@.push(lines@[i as int])) =~= text::views(log_lines@).push(
                line@,
            ));
        }
        match text::strip_prefix(line, TMUX_STATUS_MARKER) {
            Some(status) => {
                tmux_running = text::text_eq(text::trim(status), "0");
            },
            None => match text::strip_prefix(line, LOG_BYTES_MARKER) {
                Some(size) => {
                    log_bytes = number::parse_i64(text::trim(size));
                },
                None => {
                    if text::text_eq(line, LOG_MISSING_MARKER) {
                        log_missing = true;
                    } else {
                        log_lines.push(lines[i].clone());
                    }
                },
            },
        }
        i = i + 1;
    }
    assert(all.take(i as int) =~= all);
    RemoteSnapshot {
        tmux_running,
        log_missing,
        log_bytes,
        log_tail: text::join(&log_lines, "\n"),
        stderr,
    }
}

/// The text that bytes spell in UTF-8, with a replacement character for each part that spells
/// nothing.
pub uninterp spec fn lossy_text(bytes: Seq<u8>) -> Seq<char>;

/// `String::from_utf8_lossy`: the text that bytes spell. It is taken on trust that the text depends
/// only on the bytes, and that bytes that are UTF-8 are decoded. What stands in place of other bytes
/// is not stated.
#[verifier::external_body]
fn from_utf8_lossy(bytes: &[u8]) -> (text: String)
    ensures
        text@ == lossy_text(bytes@),
        vstd::utf8::valid_utf8(bytes@) ==> text@ == vstd::utf8::decode_utf8(bytes@),
{
    String::from_utf8_lossy(bytes).into_owned()
}

/// What is said of a poll that ended with an error.
pub open spec fn poll_error_of(code: Option<i32>, stderr: Seq<char>) -> Seq<char> {
    "ssh exited with status "@ + (match code {
        Some(code) => "Some("@ + number::decimal_of(code as int) + ")"@,
        None => "None"@,
    }) + ": "@ + text::trim_of(stderr)
}

/// Reads what the command of a poll left: its exit code, which is missing where a signal ended it,
/// and what it wrote.
pub fn read_poll_text(success: bool, code: Option<i32>, stdout: String, stderr: String) -> (poll:
    Result<RemoteSnapshot, String>)
    ensures
        match poll {
            Ok(snapshot) => success && is_snapshot_of(snapshot, stdout@, stderr@),
            Err(error) => !success && error@ == poll_error_of(code, stderr@),
        },
{
    if success {
        return Ok(parse_snapshot(stdout, stderr));
    }
    let code = match code {
        Some(code) => {
            "Some(".to_owned().concat(number::decimal_signed(code as i64).as_str()).concat(")")
        },
        None => "None".to_owned(),
    };
    Err(
        "ssh exited with status ".to_owned().concat(code.as_str()).concat(": ").concat(
            text::trim(stderr.as_str()),
        ),
    )
}

/// Reads what the command of a poll left, given the bytes that it wrote.
pub fn read_poll(success: bool, code: Option<i32>, stdout: &[u8], stderr: &[u8]) -> (poll: Result<
    RemoteSnapshot,
    String,
>)
    ensures
        match poll {
            Ok(snapshot) => success && is_snapshot_of(
                snapshot,
                lossy_text(stdout@),
                lossy_text(stderr@),
            ),
            Err(error) => !success && error@ == poll_error_of(code, lossy_text(stderr@)),
        },
{
    read_poll_text(success, code, from_utf8_lossy(stdout), from_utf8_lossy(stderr))
}

/// What is said of a poll that could not be started.
pub fn unstarted_poll(host: &str, cause: &str) -> (error: String)
    ensures
        error@ == "failed to run ssh "@ + host@ + ": "@ + cause@,
{
    "failed to run ssh ".to_owned().concat(host).concat(": ").concat(cause)
}

/// A line of an answer that is not one of the log.
pub open spec fn is_marker(line: Seq<char>) -> bool {
    ||| text::starts_with(line, TMUX_STATUS_MARKER@)
    ||| text::starts_with(line, LOG_BYTES_MARKER@)
    ||| line == LOG_MISSING_MARKER@
}

/// The log is read as it was sent: all of its lines in order, and no line with a marker.
pub proof fn law_log_lines_are_the_unmarked_lines(lines: Seq<Seq<char>>)
    ensures
        answer_of(lines).log_lines == lines.filter(|line: Seq<char>| !is_marker(line)),
    decreases lines.len(),
{
    reveal(Seq::filter);
    if lines.len() > 0 {
        law_log_lines_are_the_unmarked_lines(lines.drop_last());
    }
}

/// Lines of a log add nothing but themselves to what an answer says.
proof fn lemma_log_lines_are_kept(head: Seq<Seq<char>>, tail: Seq<Seq<char>>)
    requires
        forall|i: int| 0 <= i < tail.len() ==> !is_marker(#[trigger] tail[i]),
    ensures
        ({
            let answer = answer_of(head);
            answer_of(head + tail) == (Answer { log_lines: answer.log_lines + tail, ..answer })
        }),
    decreases tail.len(),
{
    let answer = answer_of(head);
    if tail.len() == 0 {
        assert(head + tail =~= head);
        assert(answer.log_lines + tail =~= answer.log_lines);
    } else {
        let rest = tail.drop_last();
        assert forall|i: int| 0 <= i < rest.len() implies !is_marker(#[trigger] rest[i]) by {
            assert(rest[i] == tail[i]);
        }
        lemma_log_lines_are_kept(head, rest);
        assert((head + tail).drop_last() =~= head + rest);
        assert((head + tail).last() == tail.last());
        assert(!is_marker(tail[tail.len() - 1]));
        assert((answer.log_lines + rest).push(tail.last()) =~= answer.log_lines + tail);
    }
}

/// A numeral stands on one line and has no white space around it.
proof fn lemma_numeral_is_trimmed(n: int)
    ensures
        text::trim_of(number::decimal_of(n)) == number::decimal_of(n),
        number::decimal_of(n).len() > 0,
        number::is_digit(number::decimal_of(n).last()),
        text::newline_free(number::decimal_of(n)),
{
    let s = number::decimal_of(n);
    let magnitude = number::decimal_of_nat((if n < 0 { -n } else { n }) as nat);
    number::lemma_decimal_round_trip((if n < 0 { -n } else { n }) as nat);
    assert(number::is_digit(magnitude[0]));
    assert(number::is_digit(magnitude.last()));
    assert(s.last() == magnitude.last());
    assert(!text::is_white_space(s[0]) && !text::is_white_space(s.last()));
    assert forall|i: int| 0 <= i < s.len() implies #[trigger] s[i] != '\n' by {
        let k = if n < 0 { i - 1 } else { i };
        if 0 <= k {
            assert(number::is_digit(magnitude[k]));
        }
    }
}

/// The line with the exit status of tmux.
pub open spec fn status_line(status: int) -> Seq<char> {
    TMUX_STATUS_MARKER@ + number::decimal_of(status)
}

/// The line with the size of the log.
pub open spec fn size_line(size: int) -> Seq<char> {
    LOG_BYTES_MARKER@ + number::decimal_of(size)
}

/// What the command of a poll prints is read back: the exit status of tmux, the size of the log and
/// the last lines of the log, as long as none of those lines looks like a marker.
pub proof fn law_answer_is_read_back(status: int, size: i64, log: Seq<char>)
    requires
        forall|i: int|
            0 <= i < text::lines_of(log).len() ==> !is_marker(#[trigger] text::lines_of(log)[i]),
    ensures
        answer_of(
            text::lines_of(
                status_line(status) + "\n"@ + (size_line(size as int) + "\n"@ + log),
            ),
        ) == (Answer {
            tmux_running: status == 0,
            log_missing: false,
            log_bytes: Some(size),
            log_lines: text::lines_of(log),
        }),
{
    let first = status_line(status);
    let second = size_line(size as int);
    let tail = text::lines_of(log);
    let head = seq![first, second];
    lemma_status_line(status);
    lemma_size_line(size);
    text::lemma_lines_front(second, log);
    text::lemma_lines_front(first, second + "\n"@ + log);
    assert(seq![first] + (seq![second] + tail) =~= head + tail);
    reveal_with_fuel(answer_of, 3);
    assert(head.drop_last() =~= seq![first]);
    assert(seq![first].drop_last() =~= Seq::<Seq<char>>::empty());
    lemma_log_lines_are_kept(head, tail);
    assert(Seq::<Seq<char>>::empty() + tail =~= tail);
}

/// An answer that there is no log is read back.
pub proof fn law_missing_log_is_read_back(status: int)
    ensures
        answer_of(
            text::lines_of(status_line(status) + "\n"@ + (LOG_MISSING_MARKER@ + "\n"@)),
        ) == (Answer {
            tmux_running: status == 0,
            log_missing: true,
            log_bytes: None,
            log_lines: Seq::empty(),
        }),
{
    let first = status_line(status);
    let head = seq![first, LOG_MISSING_MARKER@];
    lemma_status_line(status);
    reveal_strlit("__CODELINK_TMUX_STATUS__=");
    reveal_strlit("__CODELINK_LOG_BYTES__=");
    reveal_strlit("__CODELINK_LOG_MISSING__=1");
    let nothing = Seq::<char>::empty();
    assert(LOG_MISSING_MARKER@ + "\n"@ =~= LOG_MISSING_MARKER@ + "\n"@ + nothing);
    text::lemma_lines_front(LOG_MISSING_MARKER@, nothing);
    text::lemma_lines_front(first, LOG_MISSING_MARKER@ + "\n"@);
    assert(seq![first] + (seq![LOG_MISSING_MARKER@] + text::lines_of(nothing)) =~= head);
    reveal_with_fuel(answer_of, 3);
    assert(head.drop_last() =~= seq![first]);
    assert(seq![first].drop_last() =~= Seq::<Seq<char>>::empty());
    assert(LOG_MISSING_MARKER@.take(25)[11] == 'L' && TMUX_STATUS_MARKER@[11] == 'T');
    assert(LOG_MISSING_MARKER@.take(23)[15] == 'M' && LOG_BYTES_MARKER@[15] == 'B');
}

/// The line with the exit status of tmux says whether the session runs.
proof fn lemma_status_line(status: int)
    ensures
        ({
            let line = status_line(status);
            &&& text::newline_free(line)
            &&& line.last() != '\r'
            &&& text::after_prefix(line, TMUX_STATUS_MARKER@) == Some(number::decimal_of(status))
            &&& text::trim_of(number::decimal_of(status)) == "0"@ <==> status == 0
        }),
{
    let numeral = number::decimal_of(status);
    let line = TMUX_STATUS_MARKER@ + numeral;
    let n = TMUX_STATUS_MARKER@.len() as int;
    assert(line.take(n) =~= TMUX_STATUS_MARKER@);
    assert(line.skip(n) =~= numeral);
    lemma_numeral_is_trimmed(status);
    reveal_strlit("__CODELINK_TMUX_STATUS__=");
    assert(line.last() == numeral.last());
    assert forall|i: int| 0 <= i < line.len() implies #[trigger] line[i] != '\n' by {
        if i >= n {
            assert(line[i] == numeral[i - n]);
        }
    }
    reveal_strlit("0");
    assert(number::decimal_of(0) =~= "0"@);
    if numeral == "0"@ {
        number::lemma_decimal_round_trip(0);
        if status >= 0 {
            number::lemma_decimal_round_trip(status as nat);
        } else {
            assert(numeral[0] == '-');
        }
    }
}

/// The line with the size of the log says the size.
proof fn lemma_size_line(size: i64)
    ensures
        ({
            let line = size_line(size as int);
            &&& text::newline_free(line)
            &&& line.last() != '\r'
            &&& text::after_prefix(line, TMUX_STATUS_MARKER@) is None
            &&& text::after_prefix(line, LOG_BYTES_MARKER@) == Some(
                number::decimal_of(size as int),
            )
            &&& size_of_text(number::decimal_of(size as int)) == Some(size)
        }),
{
    let numeral = number::decimal_of(size as int);
    let line = LOG_BYTES_MARKER@ + numeral;
    let n = LOG_BYTES_MARKER@.len() as int;
    assert(line.take(n) =~= LOG_BYTES_MARKER@);
    assert(line.skip(n) =~= numeral);
    reveal_strlit("__CODELINK_TMUX_STATUS__=");
    reveal_strlit("__CODELINK_LOG_BYTES__=");
    assert(line[11] == 'L' && TMUX_STATUS_MARKER@[11] == 'T');
    if text::starts_with(line, TMUX_STATUS_MARKER@) {
        assert(line.take(25)[11] == 'L');
    }
    lemma_numeral_is_trimmed(size as int);
    assert(line.last() == numeral.last());
    assert forall|i: int| 0 <= i < line.len() implies #[trigger] line[i] != '\n' by {
        if i >= n {
            assert(line[i] == numeral[i - n]);
        }
    }
    number::law_signed_numeral_reads_back(size as int, i64::MIN as int, i64::MAX as int);
}

/// The command of a poll asks for the session by its word, and for the log by its word each time: whether
/// it is there, how large it is, and what its last lines are.
pub proof fn law_poll_names_session_and_log(session: Seq<char>, log: Seq<char>, tail: int)
    ensures
        ({
            let command = poll_command_of(session, log, tail);
            &&& exists|rest: Seq<char>|
                command == #[trigger] ("tmux has-session -t "@ + session
                    + " >/dev/null 2>&1; tmux_status=$?; echo __CODELINK_TMUX_STATUS__=$tmux_status; if [ -e "@
                    + log + " ]; then wc -c < "@ + rest)
            &&& text::holds(
                command,
                " ]; then wc -c < "@ + log
                    + " | awk '{print \"__CODELINK_LOG_BYTES__=\"$1}'; tail -n "@
                    + number::decimal_of(tail) + " "@ + log
                    + "; else echo __CODELINK_LOG_MISSING__=1; fi"@,
            )
        }),
{
    let command = poll_command_of(session, log, tail);
    let first = "tmux has-session -t "@ + session
        + " >/dev/null 2>&1; tmux_status=$?; echo __CODELINK_TMUX_STATUS__=$tmux_status; if [ -e "@
        + log;
    let rest = log + " | awk '{print \"__CODELINK_LOG_BYTES__=\"$1}'; tail -n "@
        + number::decimal_of(tail) + " "@ + log + "; else echo __CODELINK_LOG_MISSING__=1; fi"@;
    let second = " ]; then wc -c < "@ + rest;
    assert(command =~= first + " ]; then wc -c < "@ + rest);
    let nothing = Seq::<char>::empty();
    assert(second =~= " ]; then wc -c < "@ + log
        + " | awk '{print \"__CODELINK_LOG_BYTES__=\"$1}'; tail -n "@ + number::decimal_of(tail)
        + " "@ + log + "; else echo __CODELINK_LOG_MISSING__=1; fi"@);
    assert(command =~= first + second + nothing);
    text::lemma_holds(command, first, second, nothing);
}

/// An answer is read line by line. A line with a marker sets what it marks and nothing else; any other
/// line is added to those of the log.
pub proof fn law_answer_is_read_line_by_line(lines: Seq<Seq<char>>, line: Seq<char>)
    ensures
        ({
            let before = answer_of(lines);
            let after = answer_of(lines.push(line));
            if text::starts_with(line, "__CODELINK_TMUX_STATUS__="@) {
                &&& after.tmux_running == (text::trim_of(
                    line.skip("__CODELINK_TMUX_STATUS__="@.len() as int),
                ) == "0"@)
                &&& after.log_missing == before.log_missing
                &&& after.log_bytes == before.log_bytes
                &&& after.log_lines == before.log_lines
            } else if text::starts_with(line, "__CODELINK_LOG_BYTES__="@) {
                &&& after.tmux_running == before.tmux_running
                &&& after.log_missing == before.log_missing
                &&& (match number::parse_signed_of(
                    text::trim_of(line.skip("__CODELINK_LOG_BYTES__="@.len() as int)),
                    i64::MIN as int,
                    i64::MAX as int,
                ) {
                    Some(n) => after.log_bytes == Some(n as i64),
                    None => after.log_bytes is None,
                })
                &&& after.log_lines == before.log_lines
            } else {
                &&& after.tmux_running == before.tmux_running
                &&& after.log_bytes == before.log_bytes
                &&& line == "__CODELINK_LOG_MISSING__=1"@ ==> after.log_missing && after.log_lines
                    == before.log_lines
                &&& line != "__CODELINK_LOG_MISSING__=1"@ ==> after.log_missing
                    == before.log_missing && after.log_lines == before.log_lines.push(line)
            }
        }),
        !answer_of(Seq::empty()).tmux_running,
        !answer_of(Seq::empty()).log_missing,
        answer_of(Seq::empty()).log_bytes is None,
        answer_of(Seq::empty()).log_lines.len() == 0,
{
    assert(lines.push(line).drop_last() =~= lines);
}

/// What a snapshot keeps of the log are the lines of the answer without a marker, one to a line, and what
/// it keeps of the connection is what the connection said.
pub proof fn law_snapshot_shows_the_log(
    snapshot: RemoteSnapshot,
    stdout: Seq<char>,
    stderr: Seq<char>,
)
    requires
        is_snapshot_of(snapshot, stdout, stderr),
    ensures
        snapshot.log_tail@ == text::join_of(
            text::lines_of(stdout).filter(|line: Seq<char>| !is_marker(line)),
            seq!['\n'],
        ),
        snapshot.stderr@ == stderr,
        snapshot.tmux_running == answer_of(text::lines_of(stdout)).tmux_running,
        snapshot.log_missing == answer_of(text::lines_of(stdout)).log_missing,
        snapshot.log_bytes == answer_of(text::lines_of(stdout)).log_bytes,
{
    reveal_strlit("\n");
    assert("\n"@ =~= seq!['\n']);
    law_log_lines_are_the_unmarked_lines(text::lines_of(stdout));
}

/// What is said of a poll that failed tells its exit code, or that it has none, and ends with what the
/// connection said, without white space around it.
pub proof fn law_failed_poll_tells_why(code: i32, stderr: Seq<char>)
    ensures
        poll_error_of(Some(code), stderr) == "ssh exited with status "@ + ("Some("@
            + number::decimal_of(code as int) + ")"@) + ": "@ + text::trim_of(stderr),
        poll_error_of(None, stderr) == "ssh exited with status "@ + "None"@ + ": "@ + text::trim_of(
            stderr,
        ),
{
}

} // verus!
