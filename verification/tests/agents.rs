//! Background agents, and what is shown of jobs.
use codelink::agent::{
    agent_args, agent_result, agent_step, agent_summary, may_start, started_summary, trim_for_result,
    worker_args, AgentEvent, AgentStep,
};
use codelink::job::{CodexAgentSpec, JobKind, JobRecord, JobStatus, RemoteTmuxSpec};
use codelink::report::{
    active_jobs, agent_started, attachment, is_active, job_canceled, job_header, jobs_table,
    log_names, log_section, no_notifications, notification_content, notification_section,
    watcher_started, CodeLinkJobSummary, CodeLinkNotification, JobListing,
};

fn job() -> JobRecord {
    JobRecord {
        job_id: "audit".to_string(),
        kind: JobKind::CodexAgent,
        status: JobStatus::Running,
        cwd: "/repo".to_string(),
        spec_json: String::new(),
        artifact_dir: "/jobs/audit".to_string(),
        last_summary: None,
        last_log_bytes: None,
        last_log_changed_at: None,
        child_pid: None,
    }
}

#[test]
fn agent_is_started_with_its_prompt() {
    let spec = CodexAgentSpec {
        codex_bin: "codex".to_string(),
        codex_args: vec!["--model".to_string(), "gpt-5.5".to_string()],
        prompt: "review README and write findings".to_string(),
    };
    assert_eq!(
        agent_args(&spec),
        vec!["--model", "gpt-5.5", "exec", "review README and write findings"]
    );
}

#[test]
fn other_programs_start_workers_by_name() {
    assert_eq!(
        worker_args(Some("codelink"), "a"),
        vec!["worker", "--job-id", "a"]
    );
    assert_eq!(worker_args(None, "a"), vec!["worker", "--job-id", "a"]);
    assert_eq!(
        worker_args(Some("codex"), "a"),
        vec!["codelink", "worker", "--job-id", "a"]
    );
}

#[test]
fn canceled_agents_are_not_started() {
    assert!(!may_start(JobStatus::Canceled));
    assert!(may_start(JobStatus::Running));
}

#[test]
fn agent_ends_by_itself_or_by_cancellation() {
    let finish = |status, kill| AgentStep::Finish { status, kill };
    assert_eq!(
        agent_step(AgentEvent::Exited { success: true }),
        finish(JobStatus::Done, false)
    );
    assert_eq!(
        agent_step(AgentEvent::Exited { success: false }),
        finish(JobStatus::Failed, false)
    );
    assert_eq!(
        agent_step(AgentEvent::StillRunning {
            status: JobStatus::Canceled
        }),
        finish(JobStatus::Canceled, true)
    );
    for status in [JobStatus::Running, JobStatus::Stalled, JobStatus::Done] {
        assert_eq!(
            agent_step(AgentEvent::StillRunning { status }),
            AgentStep::Wait
        );
    }
}

#[test]
fn agents_are_summed_up() {
    assert_eq!(started_summary(Some(42)), "background agent pid=42");
    assert_eq!(started_summary(None), "background agent pid=-1");
    assert_eq!(agent_summary(JobStatus::Done), "background agent completed");
    assert_eq!(agent_summary(JobStatus::Failed), "background agent failed");
    assert_eq!(agent_summary(JobStatus::Canceled), "background agent canceled");
    assert_eq!(agent_summary(JobStatus::Running), "background agent running");
    assert_eq!(agent_summary(JobStatus::Stalled), "background agent stalled");
}

#[test]
fn long_outputs_keep_their_end() {
    let short = "ü".repeat(16_000);
    assert_eq!(trim_for_result(&short), short);
    assert_eq!(trim_for_result(""), "");
    let long = format!("xy{}end", "ü".repeat(15_998));
    let kept = trim_for_result(&long);
    assert_eq!(
        kept,
        format!("[truncated to last 16000 chars]\n{}end", "ü".repeat(15_997))
    );
}

#[test]
fn result_holds_both_outputs() {
    assert_eq!(
        agent_result(&job(), JobStatus::Done, "exec alpha prompt\n", ""),
        "# CodeLink Background Agent Result\n\nstatus: done\njob_id: audit\ncwd: /repo\n\n## stdout\n\n```text\nexec alpha prompt\n\n```\n\n## stderr\n\n```text\n\n```\n"
    );
}

#[test]
fn notification_names_job_and_state() {
    assert_eq!(
        notification_content(&job(), JobStatus::Done, "test summary"),
        "[CodeLink] job audit done\nsummary: test summary\nartifact_dir: /jobs/audit\n"
    );
    let notification = CodeLinkNotification {
        job_id: "audit".to_string(),
        notification_path: "/jobs/audit/notification.md".to_string(),
        content: "done".to_string(),
    };
    assert_eq!(
        notification_section(
            &notification.job_id,
            &notification.notification_path,
            &notification.content
        ),
        "==> job audit: /jobs/audit/notification.md <==\ndone\n"
    );
    assert_eq!(no_notifications(), "No CodeLink notifications.\n");
}

fn summary(job_id: &str, status: &str) -> CodeLinkJobSummary {
    CodeLinkJobSummary {
        job_id: job_id.to_string(),
        kind: "codex_agent".to_string(),
        status: status.to_string(),
        artifact_dir: format!("/jobs/{job_id}"),
        last_summary: None,
    }
}

#[test]
fn jobs_that_are_over_are_not_active() {
    let jobs = vec![
        summary("done-job", "done"),
        summary("running-job", "running"),
        summary("failed-job", "failed"),
        summary("stalled-job", "stalled"),
        summary("canceled-job", "canceled"),
    ];
    assert_eq!(
        active_jobs(&jobs),
        vec![jobs[1].clone(), jobs[3].clone()]
    );
    assert!(is_active("running"));
    assert!(!is_active("queued"));
    assert!(active_jobs(&vec![]).is_empty());
}

#[test]
fn job_list_leaves_out_finished_jobs_unless_asked() {
    let listing = |job_id: &str, status: &str, last_summary: Option<&str>| JobListing {
        job_id: job_id.to_string(),
        kind: "remote_tmux".to_string(),
        status: status.to_string(),
        updated_at: 9,
        last_summary: last_summary.map(|summary| summary.to_string()),
    };
    let jobs = vec![listing("a", "stalled", Some("slow")), listing("b", "done", None)];
    let heading = "job_id\tkind\tstatus\tupdated_at\tsummary\n";
    assert_eq!(
        jobs_table(&jobs, false),
        format!("{heading}a\tremote_tmux\tstalled\t9\tslow\n")
    );
    assert_eq!(
        jobs_table(&jobs, true),
        format!("{heading}a\tremote_tmux\tstalled\t9\tslow\nb\tremote_tmux\tdone\t9\t\n")
    );
    assert_eq!(jobs_table(&jobs[1..].to_vec(), false), "No CodeLink jobs.\n");
    assert_eq!(jobs_table(&vec![], true), "No CodeLink jobs.\n");
}

#[test]
fn job_header_shows_what_is_known() {
    let mut shown = job();
    assert_eq!(
        job_header(&shown),
        "job_id: audit\nkind: codex_agent\nstatus: running\ncwd: /repo\nartifact_dir: /jobs/audit\n"
    );
    shown.child_pid = Some(5);
    shown.last_summary = Some("working".to_string());
    assert_eq!(
        job_header(&shown),
        "job_id: audit\nkind: codex_agent\nstatus: running\ncwd: /repo\nchild_pid: 5\nartifact_dir: /jobs/audit\nsummary: working\n"
    );
    assert_eq!(attachment("text"), "\ntext\n");
}

#[test]
fn logs_are_shown_by_name() {
    assert_eq!(
        log_names(),
        vec!["history.log", "log.tail", "agent.stdout", "agent.stderr", "worker.err"]
    );
    assert_eq!(
        log_section("/jobs/audit/log.tail", "tail"),
        "==> /jobs/audit/log.tail <==\ntail\n"
    );
}

#[test]
fn started_and_canceled_jobs_are_announced() {
    assert_eq!(
        agent_started("audit", "/repo", "codelink", "/jobs/audit"),
        "STATUS: STARTED — CodeLink background agent registered\njob_id: audit\ncwd: /repo\ncodex_bin: codelink\nartifact_dir: /jobs/audit\ncheck: codelink result audit; codelink logs audit\n"
    );
    let spec = RemoteTmuxSpec {
        host: "school".to_string(),
        tmux_session: "run".to_string(),
        log_path: "~/run.log".to_string(),
        interval_seconds: 60,
        tail_lines: 120,
        success_regex: None,
        failure_regex: "x".to_string(),
        stall_after_seconds: 1800,
        note: None,
    };
    assert_eq!(
        watcher_started("phase", &spec, "/jobs/phase"),
        "STATUS: STARTED — CodeLink background watcher registered\njob_id: phase\nhost: school\ntmux_session: run\nremote_log: ~/run.log\nartifact_dir: /jobs/phase\ncheck: codelink result phase; codelink logs phase\n"
    );
    assert_eq!(job_canceled("phase"), "STATUS: CANCELED — CodeLink job phase\n");
}
