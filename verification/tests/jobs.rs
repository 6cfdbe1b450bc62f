//! Jobs: their states, their ids, and how they are stored.
use codelink::cli::{
    agent_spec, watch_spec, BgArgs, WatchRemoteArgs, DEFAULT_CODEX_BIN, DEFAULT_FAILURE_REGEX,
    DEFAULT_INTERVAL_SECONDS, DEFAULT_STALL_AFTER_SECONDS, DEFAULT_TAIL_LINES,
};
use codelink::error::CodeLinkError;
use codelink::job::{
    default_job_id, history_line, now_seconds, timestamp_line, JobKind, JobRecord, JobRow,
    JobStatus,
};
use codelink::store::{
    add_column_statement, column_is_there, notification_rows, store_url, NotificationRow,
};

const STATUSES: [JobStatus; 5] = [
    JobStatus::Running,
    JobStatus::Done,
    JobStatus::Failed,
    JobStatus::Stalled,
    JobStatus::Canceled,
];

#[test]
fn default_job_ids_do_not_collide_in_a_burst() {
    let nanos = std::time::SystemTime::now()
        .duration_since(std::time::UNIX_EPOCH)
        .map(|duration| duration.as_nanos())
        .unwrap_or(0);
    let ids = (0..1000)
        .map(|sequence| default_job_id(nanos, 4242, sequence))
        .collect::<std::collections::BTreeSet<_>>();
    assert_eq!(ids.len(), 1000);
}

#[test]
fn job_ids_name_time_process_and_counter() {
    assert_eq!(
        default_job_id(1_700_000_000_123_456_789, 17, 3),
        "job-1700000000123456789-17-3"
    );
    assert_ne!(default_job_id(1, 23, 4), default_job_id(12, 3, 4));
}

#[test]
fn stored_statuses_read_back() {
    for status in STATUSES {
        assert_eq!(JobStatus::from_db(status.as_str()), Ok(status));
    }
    assert_eq!(JobStatus::Canceled.as_str(), "canceled");
}

#[test]
fn unknown_status_is_an_error() {
    let error = JobStatus::from_db("Running").unwrap_err();
    assert_eq!(error.message(), "unknown CodeLink job status `Running`");
    assert_eq!(
        error,
        CodeLinkError::UnknownStatus {
            value: "Running".to_string()
        }
    );
}

#[test]
fn finished_statuses_are_terminal() {
    let terminal: Vec<&str> = STATUSES
        .into_iter()
        .filter(|status| status.is_terminal())
        .map(|status| status.as_str())
        .collect();
    assert_eq!(terminal, vec!["done", "failed", "canceled"]);
}

#[test]
fn stored_kinds_read_back() {
    for kind in [JobKind::RemoteTmux, JobKind::CodexAgent] {
        assert_eq!(JobKind::from_db(kind.as_str()), Ok(kind));
    }
    assert_eq!(
        JobKind::from_db("local_shell").unwrap_err().message(),
        "unknown CodeLink job kind `local_shell`"
    );
}

fn row(kind: &str, status: &str) -> JobRow {
    JobRow {
        job_id: "phase".to_string(),
        kind: kind.to_string(),
        status: status.to_string(),
        cwd: "/work".to_string(),
        spec_json: "{}".to_string(),
        artifact_dir: "/jobs/phase".to_string(),
        last_summary: Some("fine".to_string()),
        last_log_bytes: Some(12),
        last_log_changed_at: None,
        child_pid: Some(7),
    }
}

#[test]
fn rows_are_read_field_by_field() {
    let job = JobRecord::from_row("phase", Some(row("remote_tmux", "stalled"))).unwrap();
    assert_eq!(
        job,
        JobRecord {
            job_id: "phase".to_string(),
            kind: JobKind::RemoteTmux,
            status: JobStatus::Stalled,
            cwd: "/work".to_string(),
            spec_json: "{}".to_string(),
            artifact_dir: "/jobs/phase".to_string(),
            last_summary: Some("fine".to_string()),
            last_log_bytes: Some(12),
            last_log_changed_at: None,
            child_pid: Some(7),
        }
    );
}

#[test]
fn broken_rows_are_errors() {
    let missing = JobRecord::from_row("gone", None).unwrap_err();
    assert_eq!(missing.message(), "CodeLink job `gone` not found");
    let kind = JobRecord::from_row("phase", Some(row("queue", "asleep"))).unwrap_err();
    assert_eq!(kind.message(), "unknown CodeLink job kind `queue`");
    let status = JobRecord::from_row("phase", Some(row("codex_agent", "asleep"))).unwrap_err();
    assert_eq!(status.message(), "unknown CodeLink job status `asleep`");
}

#[test]
fn times_are_seconds_since_the_epoch() {
    assert_eq!(now_seconds(None), 0);
    assert_eq!(now_seconds(Some(1_700_000_000)), 1_700_000_000);
    assert_eq!(now_seconds(Some(i64::MAX as u64)), i64::MAX);
    assert_eq!(now_seconds(Some(i64::MAX as u64 + 1)), i64::MIN);
    assert_eq!(now_seconds(Some(u64::MAX)), -1);
    assert_eq!(timestamp_line(-5), "[-5]");
    assert_eq!(history_line(12, "canceled by user"), "[12] canceled by user\n");
}

fn bg(prompt: &[&str]) -> BgArgs {
    BgArgs {
        job_id: None,
        cwd: None,
        codex_bin: DEFAULT_CODEX_BIN.to_string(),
        codex_args: vec!["--model".to_string(), "gpt-5.5".to_string()],
        prompt: prompt.iter().map(|word| word.to_string()).collect(),
    }
}

#[test]
fn prompt_words_are_joined() {
    let spec = agent_spec(bg(&["review", "README "])).unwrap();
    assert_eq!(spec.codex_bin, "codelink");
    assert_eq!(spec.codex_args, vec!["--model", "gpt-5.5"]);
    assert_eq!(spec.prompt, "review README ");
}

#[test]
fn blank_prompt_is_refused() {
    for words in [&[][..], &[""][..], &[" ", "\t"][..]] {
        let error = agent_spec(bg(words)).unwrap_err();
        assert_eq!(error, CodeLinkError::EmptyPrompt);
        assert_eq!(error.message(), "background agent prompt must not be empty");
    }
}

fn watch() -> WatchRemoteArgs {
    WatchRemoteArgs {
        job_id: Some("phase".to_string()),
        host: "school".to_string(),
        tmux_session: "run".to_string(),
        log_path: "~/run.log".to_string(),
        interval_seconds: DEFAULT_INTERVAL_SECONDS,
        tail_lines: DEFAULT_TAIL_LINES,
        success_regex: Some("STATUS: DONE|DONE|completed successfully".to_string()),
        failure_regex: DEFAULT_FAILURE_REGEX.to_string(),
        stall_after_seconds: DEFAULT_STALL_AFTER_SECONDS,
        note: Some("note".to_string()),
    }
}

#[test]
fn sound_watch_is_accepted_as_asked() {
    let spec = watch_spec(watch()).unwrap();
    assert_eq!(spec.host, "school");
    assert_eq!(spec.tmux_session, "run");
    assert_eq!(spec.log_path, "~/run.log");
    assert_eq!(spec.interval_seconds, 60);
    assert_eq!(spec.tail_lines, 120);
    assert_eq!(
        spec.success_regex.as_deref(),
        Some("STATUS: DONE|DONE|completed successfully")
    );
    assert_eq!(
        spec.failure_regex,
        "(?i)(traceback|\\berror\\b|failed|oom|killed)"
    );
    assert_eq!(spec.stall_after_seconds, 1800);
    assert_eq!(spec.note.as_deref(), Some("note"));
}

#[test]
fn watch_without_pause_is_refused() {
    let mut args = watch();
    args.interval_seconds = 0;
    args.tail_lines = 0;
    args.failure_regex = "(".to_string();
    let error = watch_spec(args).unwrap_err();
    assert_eq!(error, CodeLinkError::ZeroInterval);
    assert_eq!(
        error.message(),
        "--interval-seconds must be greater than zero"
    );
}

#[test]
fn watch_without_lines_is_refused() {
    let mut args = watch();
    args.tail_lines = 0;
    args.success_regex = Some("(".to_string());
    let error = watch_spec(args).unwrap_err();
    assert_eq!(error, CodeLinkError::ZeroTailLines);
    assert_eq!(error.message(), "--tail-lines must be greater than zero");
}

#[test]
fn watch_with_broken_patterns_is_refused() {
    let mut args = watch();
    args.success_regex = Some("(done".to_string());
    args.failure_regex = "[".to_string();
    let error = watch_spec(args).unwrap_err();
    assert_eq!(error.message(), "invalid --success-regex: (done");
    let mut args = watch();
    args.success_regex = None;
    args.failure_regex = "[".to_string();
    let error = watch_spec(args).unwrap_err();
    assert_eq!(error.message(), "invalid --failure-regex: [");
    match error {
        CodeLinkError::InvalidPattern { cause, .. } => assert!(!cause.is_empty()),
        other => panic!("{other:?}"),
    }
}

#[test]
fn store_is_created_only_where_it_is_asked_for() {
    assert_eq!(store_url("/x/jobs.sqlite", true), "sqlite:///x/jobs.sqlite?mode=rwc");
    assert_eq!(store_url("/x/jobs.sqlite", false), "sqlite:///x/jobs.sqlite?mode=rw");
}

#[test]
fn columns_that_are_there_are_no_error() {
    assert_eq!(
        add_column_statement("child_pid INTEGER"),
        "ALTER TABLE jobs ADD COLUMN child_pid INTEGER"
    );
    assert!(column_is_there(&None));
    assert!(column_is_there(&Some(
        "error returned from database: duplicate column name: child_pid".to_string()
    )));
    assert!(!column_is_there(&Some("no such table: jobs".to_string())));
}

#[test]
fn read_notifications_are_shown_only_on_request() {
    let notification = |job_id: &str, read_at: Option<i64>| NotificationRow {
        job_id: job_id.to_string(),
        notification_path: format!("/jobs/{job_id}/notification.md"),
        read_at,
    };
    let rows = vec![
        notification("c", None),
        notification("b", Some(5)),
        notification("a", None),
    ];
    assert_eq!(notification_rows(&rows, true), rows);
    let unread = notification_rows(&rows, false);
    assert_eq!(unread, vec![rows[0].clone(), rows[2].clone()]);
    let marked: Vec<NotificationRow> = rows
        .iter()
        .map(|row| NotificationRow {
            read_at: Some(row.read_at.unwrap_or(9)),
            ..row.clone()
        })
        .collect();
    assert!(notification_rows(&marked, false).is_empty());
}
