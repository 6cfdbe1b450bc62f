//! Watching remote jobs.
use codelink::job::{JobKind, JobRecord, JobStatus, RemoteTmuxSpec};
use codelink::pattern::{
    compile_optional_regex, compile_required_regex, latest_progress, parse_progress, refusal,
};
use codelink::remote::{
    parse_snapshot, poll_command, read_poll, read_poll_text, unstarted_poll, RemoteSnapshot,
};
use codelink::shell::{quoted_or_empty, shell_quote};
use codelink::watch::{
    analyze_snapshot, next_status, poll_failure, snapshot_summary, snapshot_update, watch_step,
    SnapshotAnalysis, WatchStep,
};

fn spec() -> RemoteTmuxSpec {
    RemoteTmuxSpec {
        host: "school".to_string(),
        tmux_session: "mmsae-dry".to_string(),
        log_path: "/runs/a b.log".to_string(),
        interval_seconds: 60,
        tail_lines: 120,
        success_regex: Some("DONE".to_string()),
        failure_regex: "(?i)traceback".to_string(),
        stall_after_seconds: 100,
        note: None,
    }
}

fn job(last_log_bytes: Option<i64>, last_log_changed_at: Option<i64>) -> JobRecord {
    JobRecord {
        job_id: "phase".to_string(),
        kind: JobKind::RemoteTmux,
        status: JobStatus::Running,
        cwd: "/".to_string(),
        spec_json: String::new(),
        artifact_dir: "/jobs/phase".to_string(),
        last_summary: None,
        last_log_bytes,
        last_log_changed_at,
        child_pid: None,
    }
}

fn snapshot(tmux_running: bool, log_bytes: Option<i64>) -> RemoteSnapshot {
    RemoteSnapshot {
        tmux_running,
        log_missing: log_bytes.is_none(),
        log_bytes,
        log_tail: String::new(),
        stderr: String::new(),
    }
}

fn analysis(success: bool, failure: bool) -> SnapshotAnalysis {
    SnapshotAnalysis {
        progress: None,
        success,
        failure,
    }
}

#[test]
fn parse_progress_uses_latest_segment_count() {
    let log = "progress: 100 / 200 segments\nlater 1817 / 20656 segments";
    assert_eq!(parse_progress(log), Some("1817/20656".to_string()));
}

#[test]
fn progress_needs_a_count() {
    assert_eq!(parse_progress(""), None);
    assert_eq!(parse_progress("12 of 40"), None);
    assert_eq!(parse_progress("12/40 then 3 /\t7"), Some("3/7".to_string()));
}

#[test]
fn progress_of_captures_is_that_of_the_last() {
    let text = |s: &str| Some(s.to_string());
    assert_eq!(latest_progress(&vec![]), None);
    assert_eq!(
        latest_progress(&vec![
            vec![text("1/2"), text("1"), text("2")],
            vec![text("5 / 6"), text("5"), text("6")]
        ]),
        text("5/6")
    );
    assert_eq!(
        latest_progress(&vec![
            vec![text("1/2"), text("1"), text("2")],
            vec![text("5"), text("5"), None]
        ]),
        None
    );
    assert_eq!(latest_progress(&vec![vec![text("1/2"), text("1")]]), None);
}

#[test]
fn parse_snapshot_extracts_markers_and_tail() {
    let snapshot = parse_snapshot(
        "__CODELINK_TMUX_STATUS__=0\n__CODELINK_LOG_BYTES__=123\nhello\nworld\n".to_string(),
        String::new(),
    );
    assert_eq!(snapshot.tmux_running, true);
    assert_eq!(snapshot.log_bytes, Some(123));
    assert_eq!(snapshot.log_tail, "hello\nworld");
}

#[test]
fn answers_without_a_log_are_read() {
    let snapshot = parse_snapshot(
        "__CODELINK_TMUX_STATUS__=1\n__CODELINK_LOG_MISSING__=1\n".to_string(),
        "warning".to_string(),
    );
    assert_eq!(
        snapshot,
        RemoteSnapshot {
            tmux_running: false,
            log_missing: true,
            log_bytes: None,
            log_tail: String::new(),
            stderr: "warning".to_string(),
        }
    );
}

#[test]
fn last_marker_of_a_kind_counts() {
    let snapshot = parse_snapshot(
        "a\r\n__CODELINK_TMUX_STATUS__=1\n__CODELINK_LOG_BYTES__= 5 \nb\n__CODELINK_LOG_BYTES__=many\n__CODELINK_TMUX_STATUS__= 0 \n__CODELINK_LOG_MISSING__=10\n"
            .to_string(),
        String::new(),
    );
    assert!(snapshot.tmux_running);
    assert!(!snapshot.log_missing);
    assert_eq!(snapshot.log_bytes, None);
    assert_eq!(snapshot.log_tail, "a\nb\n__CODELINK_LOG_MISSING__=10");
}

#[test]
fn empty_answers_say_nothing() {
    let snapshot = parse_snapshot(String::new(), String::new());
    assert!(!snapshot.tmux_running);
    assert!(!snapshot.log_missing);
    assert_eq!(snapshot.log_bytes, None);
    assert_eq!(snapshot.log_tail, "");
}

#[test]
fn words_are_quoted_for_a_shell() {
    assert_eq!(shell_quote("mmsae-phaseA200-dry"), "mmsae-phaseA200-dry");
    assert_eq!(shell_quote("/runs/log_1.txt:2@x]"), "/runs/log_1.txt:2@x]");
    assert_eq!(shell_quote("a b"), "'a b'");
    assert_eq!(shell_quote("~/run.log"), "'~/run.log'");
    assert_eq!(shell_quote("$(x)"), "'$(x)'");
    assert_eq!(shell_quote("it's"), "\"it's\"");
    assert_eq!(shell_quote(""), "''");
    assert_eq!(shell_quote("a\0b"), "''");
    assert_eq!(shell_quote("ü"), "'ü'");
    assert_eq!(quoted_or_empty(None), "''");
    assert_eq!(quoted_or_empty(Some("x".to_string())), "x");
}

#[test]
fn quoted_words_are_read_back() {
    for word in [
        "plain", "a b", "", "it's", "\"x\"", "it's \"$HOME\" `ls` \\ !^", "^", "'^'", "a^b", "\n\t", "ü'é",
        "$'x'", "!!", "\\", "''",
    ] {
        assert_eq!(
            shlex::split(&shell_quote(word)),
            Some(vec![word.to_string()]),
            "{word:?}"
        );
    }
}

#[test]
fn poll_asks_for_session_and_log() {
    assert_eq!(
        poll_command(&spec()),
        "tmux has-session -t mmsae-dry >/dev/null 2>&1; tmux_status=$?; echo \
         __CODELINK_TMUX_STATUS__=$tmux_status; if [ -e '/runs/a b.log' ]; then wc -c < \
         '/runs/a b.log' | awk '{print \"__CODELINK_LOG_BYTES__=\"$1}'; tail -n 120 \
         '/runs/a b.log'; else echo __CODELINK_LOG_MISSING__=1; fi"
    );
}

#[test]
fn successful_poll_is_read() {
    let poll = read_poll(
        true,
        Some(0),
        "__CODELINK_TMUX_STATUS__=0\n\u{fc}".as_bytes(),
        b"bad \xff byte",
    )
    .unwrap();
    assert!(poll.tmux_running);
    assert_eq!(poll.log_tail, "\u{fc}");
    assert_eq!(poll.stderr, "bad \u{fffd} byte");
}

#[test]
fn failed_poll_tells_why() {
    assert_eq!(
        read_poll(false, Some(255), b"", b" no route \n"),
        Err("ssh exited with status Some(255): no route".to_string())
    );
    assert_eq!(
        read_poll_text(false, None, String::new(), String::new()),
        Err("ssh exited with status None: ".to_string())
    );
    assert_eq!(
        unstarted_poll("school", "No such file"),
        "failed to run ssh school: No such file"
    );
    assert_eq!(
        poll_failure("ssh exited"),
        (JobStatus::Stalled, "remote poll failed: ssh exited".to_string())
    );
}

#[test]
fn patterns_are_looked_for_in_the_log() {
    let success = compile_optional_regex(&Some("DONE".to_string()), "--success-regex").unwrap();
    let failure = compile_required_regex("(?i)(traceback|\\berror\\b)", "--failure-regex").unwrap();
    let mut seen = snapshot(true, Some(1));
    seen.log_tail = "3 / 4 segments\nERROR: x\nDONE".to_string();
    assert_eq!(
        analyze_snapshot(&seen, &success, &failure),
        SnapshotAnalysis {
            progress: Some("3/4".to_string()),
            success: true,
            failure: true,
        }
    );
    seen.log_tail = "errors: none".to_string();
    assert_eq!(
        analyze_snapshot(&seen, &success, &failure),
        analysis(false, false)
    );
    assert_eq!(
        analyze_snapshot(&seen, &None, &failure),
        analysis(false, false)
    );
}

#[test]
fn patterns_match_and_capture() {
    let words = compile_required_regex("(\\w)(x)?", "p").unwrap();
    assert!(words.is_match(" ax"));
    assert!(!words.is_match(" - "));
    let text = |s: &str| Some(s.to_string());
    assert_eq!(
        words.captures("ax b"),
        vec![
            vec![text("ax"), text("a"), text("x")],
            vec![text("b"), text("b"), None]
        ]
    );
}

#[test]
fn broken_patterns_are_refused() {
    assert!(compile_optional_regex(&None, "p").unwrap().is_none());
    let error = compile_optional_regex(&Some("(".to_string()), "--flag").unwrap_err();
    assert_eq!(error.message(), "invalid --flag: (");
    assert!(refusal("x", "p", None).is_none());
    assert_eq!(
        refusal("x", "p", Some("because".to_string())).map(|error| error.message()),
        Some("invalid p: x".to_string())
    );
}

#[test]
fn success_beats_failure_beats_the_session() {
    let latest = job(None, None);
    let at = |seen: &RemoteSnapshot, found: SnapshotAnalysis| {
        next_status(&latest, seen, &found, &spec(), 0)
    };
    assert_eq!(at(&snapshot(false, None), analysis(true, true)), JobStatus::Done);
    assert_eq!(at(&snapshot(true, None), analysis(false, true)), JobStatus::Failed);
    assert_eq!(at(&snapshot(false, None), analysis(false, false)), JobStatus::Failed);
    assert_eq!(at(&snapshot(true, None), analysis(false, false)), JobStatus::Running);
}

#[test]
fn log_that_does_not_grow_stalls() {
    let found = analysis(false, false);
    let at = |latest: &JobRecord, bytes: Option<i64>, spec: &RemoteTmuxSpec, now: i64| {
        next_status(latest, &snapshot(true, bytes), &found, spec, now)
    };
    let latest = job(Some(10), Some(1000));
    assert_eq!(at(&latest, Some(10), &spec(), 1099), JobStatus::Running);
    assert_eq!(at(&latest, Some(10), &spec(), 1100), JobStatus::Stalled);
    assert_eq!(at(&latest, Some(11), &spec(), 9999), JobStatus::Running);
    assert_eq!(at(&latest, None, &spec(), 9999), JobStatus::Running);
    assert_eq!(at(&job(Some(10), None), Some(10), &spec(), 9999), JobStatus::Running);
    assert_eq!(
        at(&job(Some(10), Some(i64::MIN)), Some(10), &spec(), i64::MAX),
        JobStatus::Stalled
    );
    assert_eq!(
        at(&job(Some(10), Some(i64::MAX)), Some(10), &spec(), i64::MIN),
        JobStatus::Running
    );
    let mut never = spec();
    never.stall_after_seconds = 0;
    assert_eq!(at(&latest, Some(10), &never, 9999), JobStatus::Running);
}

#[test]
fn summary_names_what_was_seen() {
    let found = SnapshotAnalysis {
        progress: Some("3/4".to_string()),
        success: false,
        failure: false,
    };
    assert_eq!(
        snapshot_summary(&snapshot(true, Some(-7)), JobStatus::Running, &found),
        "status=running; tmux_running=true; log_missing=false; log_bytes=-7; progress=3/4"
    );
    assert_eq!(
        snapshot_summary(&snapshot(false, None), JobStatus::Failed, &analysis(false, false)),
        "status=failed; tmux_running=false; log_missing=true; log_bytes=unknown; progress=unknown"
    );
}

#[test]
fn stall_counts_from_the_last_change() {
    let found = analysis(false, false);
    let mut latest = job(None, None);
    let mut seen = Vec::new();
    for (now, bytes) in [(0, 5), (50, 5), (99, 5), (100, 5), (150, 6), (249, 6), (250, 6)] {
        let update = snapshot_update(&latest, &snapshot(true, Some(bytes)), &found, &spec(), now);
        seen.push((update.status.as_str(), update.log_changed_at));
        latest.status = update.status;
        latest.last_log_bytes = update.log_bytes;
        latest.last_log_changed_at = update.log_changed_at;
    }
    assert_eq!(
        seen,
        vec![
            ("running", Some(0)),
            ("running", Some(0)),
            ("running", Some(0)),
            ("stalled", Some(0)),
            ("running", Some(150)),
            ("running", Some(150)),
            ("stalled", Some(150)),
        ]
    );
}

#[test]
fn update_keeps_what_the_connection_said() {
    let mut seen = snapshot(true, None);
    let found = analysis(false, false);
    let latest = job(Some(3), Some(9));
    let update = snapshot_update(&latest, &seen, &found, &spec(), 77);
    assert_eq!(update.log_bytes, None);
    assert_eq!(update.log_changed_at, Some(9));
    assert!(!update.keep_stderr);
    seen.stderr = " \n".to_string();
    assert!(!snapshot_update(&latest, &seen, &found, &spec(), 77).keep_stderr);
    seen.stderr = " x\n".to_string();
    assert!(snapshot_update(&latest, &seen, &found, &spec(), 77).keep_stderr);
    assert_eq!(
        update.summary,
        "status=running; tmux_running=true; log_missing=true; log_bytes=unknown; progress=unknown"
    );
}

#[test]
fn poll_that_sees_the_end_finishes_the_watch() {
    let latest = job(None, None);
    let finished = |seen: RemoteSnapshot, found: SnapshotAnalysis| {
        snapshot_update(&latest, &seen, &found, &spec(), 0).finished
    };
    assert!(finished(snapshot(true, Some(1)), analysis(true, false)));
    assert!(finished(snapshot(false, Some(1)), analysis(false, false)));
    assert!(!finished(snapshot(true, Some(1)), analysis(false, false)));
}

#[test]
fn watch_ends_with_the_job() {
    assert_eq!(watch_step(JobStatus::Running), WatchStep::Poll);
    assert_eq!(watch_step(JobStatus::Stalled), WatchStep::Poll);
    assert_eq!(watch_step(JobStatus::Done), WatchStep::Stop);
    assert_eq!(watch_step(JobStatus::Failed), WatchStep::Stop);
    assert_eq!(watch_step(JobStatus::Canceled), WatchStep::NotifyCanceled);
}
