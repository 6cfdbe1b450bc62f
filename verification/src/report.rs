//! What is shown of jobs and notifications.
use crate::job;
use crate::job::{JobRecord, JobStatus, RemoteTmuxSpec};
use crate::number;
use crate::text;
use vstd::prelude::*;
use vstd::string::*;

verus! {

/// A job that is not over, as it is shown to an agent.
#[derive(Debug, Clone, PartialEq, Eq)]
pub struct CodeLinkJobSummary {
    pub job_id: String,
    pub kind: String,
    pub status: String,
    pub artifact_dir: String,
    pub last_summary: Option<String>,
}

/// A notification, as it is shown to an agent.
#[derive(Debug, Clone, PartialEq, Eq)]
pub struct CodeLinkNotification {
    pub job_id: String,
    pub notification_path: String,
    pub content: String,
}

/// Whether a job whose state has the name `status` is not over.
pub fn is_active(status: &str) -> (active: bool)
    ensures
        active == job::is_active_name(status@),
{
    text::text_eq(status, JobStatus::Running.as_str()) || text::text_eq(
        status,
        JobStatus::Stalled.as_str(),
    )
}

/// Picks the jobs that are not over, in their order.
pub fn active_jobs(jobs: &Vec<CodeLinkJobSummary>) -> (active: Vec<CodeLinkJobSummary>)
    ensures
        active@ == jobs@.filter(|job: CodeLinkJobSummary| job::is_active_name(job.status@)),
{
    let ghost wanted = |job: CodeLinkJobSummary| job::is_active_name(job.status@);
    let mut active: Vec<CodeLinkJobSummary> = Vec::new();
    let mut i: usize = 0;
    proof {
        reveal(Seq::filter);
        assert(jobs@.take(0).filter(wanted) =~= Seq::empty());
    }
    while i < jobs.len()
        invariant
            i <= jobs@.len(),
            wanted == |job: CodeLinkJobSummary| job::is_active_name(job.status@),
            active@ == jobs@.take(i as int).filter(wanted),
        decreases jobs@.len() - i,
    {
        let job = &jobs[i];
        proof {
            reveal(Seq::filter);
            assert(jobs@.take(i as int + 1).drop_last() =~= jobs@.take(i as int));
        }
        if is_active(job.status.as_str()) {
            active.push(
                CodeLinkJobSummary {
                    job_id: job.job_id.clone(),
                    kind: job.kind.clone(),
                    status: job.status.clone(),
                    artifact_dir: job.artifact_dir.clone(),
                    last_summary: text::clone_option(&job.last_summary),
                },
            );
        }
        i = i + 1;
    }
    assert(jobs@.take(i as int) =~= jobs@);
    active
}

/// A job in the list of jobs.
#[derive(Debug, Clone, PartialEq, Eq)]
pub struct JobListing {
    pub job_id: String,
    pub kind: String,
    pub status: String,
    pub updated_at: i64,
    pub last_summary: Option<String>,
}

/// The line of a job in the list of jobs.
pub open spec fn listing_line(job: JobListing) -> Seq<char> {
    job.job_id@ + "\t"@ + job.kind@ + "\t"@ + job.status@ + "\t"@ + number::decimal_of(
        job.updated_at as int,
    ) + "\t"@ + (match job.last_summary {
        Some(summary) => summary@,
        None => Seq::empty(),
    }) + "\n"@
}

/// Which jobs are shown: all of them, or those that are not over.
pub open spec fn is_shown(all: bool) -> spec_fn(JobListing) -> bool {
    |job: JobListing| all || job::is_active_name(job.status@)
}

/// The jobs that are shown, in their order.
pub open spec fn shown_jobs(jobs: Seq<JobListing>, all: bool) -> Seq<JobListing> {
    jobs.filter(is_shown(all))
}

/// The lines of jobs, one after the other.
pub open spec fn listing_lines(jobs: Seq<JobListing>) -> Seq<char>
    decreases jobs.len(),
{
    if jobs.len() == 0 {
        Seq::empty()
    } else {
        listing_lines(jobs.drop_last()) + listing_line(jobs.last())
    }
}

/// The list of jobs, below its heading, or a note that there are none.
pub open spec fn listing_of(jobs: Seq<JobListing>) -> Seq<char> {
    if jobs.len() == 0 {
        "No CodeLink jobs.\n"@
    } else {
        "job_id\tkind\tstatus\tupdated_at\tsummary\n"@ + listing_lines(jobs)
    }
}

/// Shows the line of a job.
fn show_listing(job: &JobListing) -> (line: String)
    ensures
        line@ == listing_line(*job),
{
    let mut line = job.job_id.clone();
    line.append("\t");
    line.append(job.kind.as_str());
    line.append("\t");
    line.append(job.status.as_str());
    line.append("\t");
    line.append(number::decimal_signed(job.updated_at).as_str());
    line.append("\t");
    match &job.last_summary {
        Some(summary) => {
            line.append(summary.as_str());
        },
        None => {
            line.append("");
            proof {
                reveal_strlit("");
                assert(""@ =~= Seq::<char>::empty());
            }
        },
    }
    line.append("\n");
    line
}

/// Shows the list of jobs: all of them, or those that are not over.
pub fn jobs_table(jobs: &Vec<JobListing>, all: bool) -> (table: String)
    ensures
        table@ == listing_of(shown_jobs(jobs@, all)),
{
    let mut lines = String::new();
    let mut any = false;
    let mut i: usize = 0;
    proof {
        reveal(Seq::filter);
        assert(shown_jobs(jobs@.take(0), all) =~= Seq::empty());
    }
    while i < jobs.len()
        invariant
            i <= jobs@.len(),
            any == (shown_jobs(jobs@.take(i as int), all).len() > 0),
            lines@ == listing_lines(shown_jobs(jobs@.take(i as int), all)),
        decreases jobs@.len() - i,
    {
        let job = &jobs[i];
        let ghost before = shown_jobs(jobs@.take(i as int), all);
        proof {
            reveal(Seq::filter);
            assert(jobs@.take(i as int + 1).drop_last() =~= jobs@.take(i as int));
            assert(before.push(*job).drop_last() =~= before);
        }
        if all || is_active(job.status.as_str()) {
            lines.append(show_listing(job).as_str());
            any = true;
        }
        i = i + 1;
    }
    assert(jobs@.take(i as int) =~= jobs@);
    if any {
        "job_id\tkind\tstatus\tupdated_at\tsummary\n".to_owned().concat(lines.as_str())
    } else {
        "No CodeLink jobs.\n".to_owned()
    }
}

/// What is shown of a job, before its result and its notification.
pub open spec fn job_header_of(job: JobRecord) -> Seq<char> {
    "job_id: "@ + job.job_id@ + "\nkind: "@ + job::kind_text(job.kind) + "\nstatus: "@
        + job::status_text(job.status) + "\ncwd: "@ + job.cwd@ + "\n"@ + (match job.child_pid {
        Some(pid) => "child_pid: "@ + number::decimal_of(pid as int) + "\n"@,
        None => Seq::empty(),
    }) + "artifact_dir: "@ + job.artifact_dir@ + "\n"@ + (match job.last_summary {
        Some(summary) => "summary: "@ + summary@ + "\n"@,
        None => Seq::empty(),
    })
}

/// Shows a job, before its result and its notification.
pub fn job_header(job: &JobRecord) -> (header: String)
    ensures
        header@ == job_header_of(*job),
{
    let child_pid = match job.child_pid {
        Some(pid) => {
            "child_pid: ".to_owned().concat(number::decimal_signed(pid).as_str()).concat("\n")
        },
        None => String::new(),
    };
    let summary = match &job.last_summary {
        Some(summary) => "summary: ".to_owned().concat(summary.as_str()).concat("\n"),
        None => String::new(),
    };
    let mut header = "job_id: ".to_owned();
    header.append(job.job_id.as_str());
    header.append("\nkind: ");
    header.append(job.kind.as_str());
    header.append("\nstatus: ");
    header.append(job.status.as_str());
    header.append("\ncwd: ");
    header.append(job.cwd.as_str());
    header.append("\n");
    header.append(child_pid.as_str());
    header.append("artifact_dir: ");
    header.append(job.artifact_dir.as_str());
    header.append("\n");
    header.append(summary.as_str());
    header
}

/// Shows a result or a notification below a job.
pub fn attachment(content: &str) -> (shown: String)
    ensures
        shown@ == "\n"@ + content@ + "\n"@,
{
    "\n".to_owned().concat(content).concat("\n")
}

/// The names of the files that are shown as the logs of a job, in order.
pub fn log_names() -> (names: Vec<String>)
    ensures
        text::views(names@) == seq![
            "history.log"@,
            "log.tail"@,
            "agent.stdout"@,
            "agent.stderr"@,
            "worker.err"@,
        ],
{
    let mut names: Vec<String> = Vec::new();
    names.push("history.log".to_owned());
    names.push("log.tail".to_owned());
    names.push("agent.stdout".to_owned());
    names.push("agent.stderr".to_owned());
    names.push("worker.err".to_owned());
    assert(text::views(names@) =~= seq![
        "history.log"@,
        "log.tail"@,
        "agent.stdout"@,
        "agent.stderr"@,
        "worker.err"@,
    ]);
    names
}

/// Shows a file of a job.
pub fn log_section(path: &str, content: &str) -> (section: String)
    ensures
        section@ == "==> "@ + path@ + " <==\n"@ + content@ + "\n"@,
{
    "==> ".to_owned().concat(path).concat(" <==\n").concat(content).concat("\n")
}

/// Shows a notification.
pub fn notification_section(job_id: &str, path: &str, content: &str) -> (section: String)
    ensures
        section@ == "==> job "@ + job_id@ + ": "@ + path@ + " <==\n"@ + content@ + "\n"@,
{
    "==> job ".to_owned().concat(job_id).concat(": ").concat(path).concat(" <==\n").concat(
        content,
    ).concat("\n")
}

/// Shows that there are no notifications.
pub fn no_notifications() -> (note: String)
    ensures
        note@ == "No CodeLink notifications.\n"@,
{
    "No CodeLink notifications.\n".to_owned()
}

/// The notification that a job is over, or was canceled.
pub open spec fn notification_of(job: JobRecord, status: JobStatus, summary: Seq<char>) -> Seq<
    char,
> {
    "[CodeLink] job "@ + job.job_id@ + " "@ + job::status_text(status) + "\nsummary: "@ + summary
        + "\nartifact_dir: "@ + job.artifact_dir@ + "\n"@
}

/// Writes the notification that a job is over, or was canceled.
pub fn notification_content(job: &JobRecord, status: JobStatus, summary: &str) -> (content: String)
    ensures
        content@ == notification_of(*job, status, summary@),
{
    let mut content = "[CodeLink] job ".to_owned();
    content.append(job.job_id.as_str());
    content.append(" ");
    content.append(status.as_str());
    content.append("\nsummary: ");
    content.append(summary);
    content.append("\nartifact_dir: ");
    content.append(job.artifact_dir.as_str());
    content.append("\n");
    content
}

/// How to look at a job that was started.
pub open spec fn check_hint(job_id: Seq<char>) -> Seq<char> {
    "check: codelink result "@ + job_id + "; codelink logs "@ + job_id + "\n"@
}

/// Shows how to look at a job that was started.
fn show_check_hint(job_id: &str) -> (hint: String)
    ensures
        hint@ == check_hint(job_id@),
{
    "check: codelink result ".to_owned().concat(job_id).concat("; codelink logs ").concat(
        job_id,
    ).concat("\n")
}

/// Shows that a background agent was started.
pub fn agent_started(job_id: &str, cwd: &str, codex_bin: &str, artifact_dir: &str) -> (shown: String)
    ensures
        shown@ == "STATUS: STARTED — CodeLink background agent registered\njob_id: "@ + job_id@
            + "\ncwd: "@ + cwd@ + "\ncodex_bin: "@ + codex_bin@ + "\nartifact_dir: "@
            + artifact_dir@ + "\n"@ + check_hint(job_id@),
{
    let mut shown =
        "STATUS: STARTED — CodeLink background agent registered\njob_id: ".to_owned();
    shown.append(job_id);
    shown.append("\ncwd: ");
    shown.append(cwd);
    shown.append("\ncodex_bin: ");
    shown.append(codex_bin);
    shown.append("\nartifact_dir: ");
    shown.append(artifact_dir);
    shown.append("\n");
    shown.append(show_check_hint(job_id).as_str());
    shown
}

/// Shows that a watcher was started.
pub fn watcher_started(job_id: &str, spec: &RemoteTmuxSpec, artifact_dir: &str) -> (shown: String)
    ensures
        shown@ == "STATUS: STARTED — CodeLink background watcher registered\njob_id: "@ + job_id@
            + "\nhost: "@ + spec.host@ + "\ntmux_session: "@ + spec.tmux_session@
            + "\nremote_log: "@ + spec.log_path@ + "\nartifact_dir: "@ + artifact_dir@ + "\n"@
            + check_hint(job_id@),
{
    let mut shown =
        "STATUS: STARTED — CodeLink background watcher registered\njob_id: ".to_owned();
    shown.append(job_id);
    shown.append("\nhost: ");
    shown.append(spec.host.as_str());
    shown.append("\ntmux_session: ");
    shown.append(spec.tmux_session.as_str());
    shown.append("\nremote_log: ");
    shown.append(spec.log_path.as_str());
    shown.append("\nartifact_dir: ");
    shown.append(artifact_dir);
    shown.append("\n");
    shown.append(show_check_hint(job_id).as_str());
    shown
}

/// Shows that a job was canceled.
pub fn job_canceled(job_id: &str) -> (shown: String)
    ensures
        shown@ == "STATUS: CANCELED — CodeLink job "@ + job_id@ + "\n"@,
{
    "STATUS: CANCELED — CodeLink job ".to_owned().concat(job_id).concat("\n")
}

/// The list without the jobs that are over shows exactly the jobs that an agent is reminded of.
pub proof fn law_list_shows_the_active_jobs(jobs: Seq<JobListing>, i: int)
    requires
        0 <= i < jobs.len(),
    ensures
        shown_jobs(jobs, false).contains(jobs[i]) <==> job::is_active_name(jobs[i].status@),
        shown_jobs(jobs, true) == jobs,
{
    let active = is_shown(false);
    lemma_filter_of_all(jobs, is_shown(true));
    if active(jobs[i]) {
        jobs.lemma_filter_contains(active, i);
    }
    if jobs.filter(active).contains(jobs[i]) {
        let k = choose|k: int| 0 <= k < jobs.filter(active).len() && jobs.filter(active)[k] == jobs[i];
        jobs.lemma_filter_pred(active, k);
    }
}

/// A filter that lets everything through.
proof fn lemma_filter_of_all(jobs: Seq<JobListing>, every: spec_fn(JobListing) -> bool)
    requires
        forall|job: JobListing| #[trigger] every(job),
    ensures
        jobs.filter(every) == jobs,
    decreases jobs.len(),
{
    reveal(Seq::filter);
    if jobs.len() > 0 {
        lemma_filter_of_all(jobs.drop_last(), every);
        assert(jobs.drop_last().push(jobs.last()) =~= jobs);
    } else {
        assert(jobs.filter(every) =~= jobs);
    }
}

/// The list has a line for each job that is shown, in their order, below a heading; where none is shown,
/// it says so.
pub proof fn law_list_has_a_line_for_each_job(jobs: Seq<JobListing>, job: JobListing)
    ensures
        listing_of(Seq::empty()) == "No CodeLink jobs.\n"@,
        listing_lines(Seq::empty()).len() == 0,
        listing_lines(jobs.push(job)) == listing_lines(jobs) + listing_line(job),
        listing_of(jobs.push(job)) == "job_id\tkind\tstatus\tupdated_at\tsummary\n"@
            + listing_lines(jobs.push(job)),
{
    assert(jobs.push(job).drop_last() =~= jobs);
}

/// The line of a job shows its id, its kind, its state, when it changed, and its summary, if it has one.
pub proof fn law_line_of_a_job_shows_its_fields(job: JobListing)
    ensures
        ({
            let shown = job.job_id@ + "\t"@ + job.kind@ + "\t"@ + job.status@ + "\t"@
                + number::decimal_of(job.updated_at as int) + "\t"@;
            &&& job.last_summary is None ==> listing_line(job) == shown + "\n"@
            &&& job.last_summary matches Some(summary) ==> listing_line(job) == shown + summary@
                + "\n"@
        }),
{
    let shown = job.job_id@ + "\t"@ + job.kind@ + "\t"@ + job.status@ + "\t"@ + number::decimal_of(
        job.updated_at as int,
    ) + "\t"@;
    assert(shown + Seq::<char>::empty() =~= shown);
}

/// Only jobs whose state is `running` or `stalled` are shown to an agent, and all of them are, in order.
pub proof fn law_active_jobs_run_or_are_stalled(jobs: Seq<CodeLinkJobSummary>, i: int)
    requires
        0 <= i < jobs.len(),
    ensures
        ({
            let active = jobs.filter(
                |job: CodeLinkJobSummary| job::is_active_name(job.status@),
            );
            &&& active.contains(jobs[i]) <==> jobs[i].status@ == "running"@ || jobs[i].status@
                == "stalled"@
            &&& forall|k: int|
                0 <= k < active.len() ==> (#[trigger] active[k]).status@ == "running"@
                    || active[k].status@ == "stalled"@
        }),
{
    let wanted = |job: CodeLinkJobSummary| job::is_active_name(job.status@);
    let active = jobs.filter(wanted);
    if wanted(jobs[i]) {
        jobs.lemma_filter_contains(wanted, i);
    }
    assert forall|k: int| 0 <= k < active.len() implies (#[trigger] active[k]).status@
        == "running"@ || active[k].status@ == "stalled"@ by {
        jobs.lemma_filter_pred(wanted, k);
    }
    if active.contains(jobs[i]) {
        let k = choose|k: int| 0 <= k < active.len() && active[k] == jobs[i];
        assert(active[k].status@ == "running"@ || active[k].status@ == "stalled"@);
    }
}

/// What is shown of a job names its id, kind, state and directory, its process where it has one, where
/// its files are, and at the end its summary where it has one.
pub proof fn law_header_shows_the_job(job: JobRecord)
    ensures
        ({
            let header = job_header_of(job);
            let first = "job_id: "@ + job.job_id@ + "\nkind: "@ + job::kind_text(job.kind)
                + "\nstatus: "@ + job::status_text(job.status) + "\ncwd: "@ + job.cwd@ + "\n"@;
            let files = "artifact_dir: "@ + job.artifact_dir@ + "\n"@;
            &&& text::starts_with(header, first)
            &&& job.child_pid matches Some(pid) ==> text::holds(
                header,
                "child_pid: "@ + number::decimal_of(pid as int) + "\n"@ + files,
            )
            &&& job.child_pid is None ==> text::starts_with(header, first + files)
            &&& job.last_summary matches Some(summary) ==> exists|head: Seq<char>|
                header == #[trigger] (head + "summary: "@ + summary@ + "\n"@)
            &&& job.last_summary is None ==> exists|head: Seq<char>|
                header == #[trigger] (head + files)
        }),
{
    let header = job_header_of(job);
    let first = "job_id: "@ + job.job_id@ + "\nkind: "@ + job::kind_text(job.kind) + "\nstatus: "@
        + job::status_text(job.status) + "\ncwd: "@ + job.cwd@ + "\n"@;
    let files = "artifact_dir: "@ + job.artifact_dir@ + "\n"@;
    let process = match job.child_pid {
        Some(pid) => "child_pid: "@ + number::decimal_of(pid as int) + "\n"@,
        None => Seq::empty(),
    };
    let summary = match job.last_summary {
        Some(summary) => "summary: "@ + summary@ + "\n"@,
        None => Seq::empty(),
    };
    assert(header =~= first + process + files + summary);
    assert(header.take(first.len() as int) =~= first);
    if job.child_pid is Some {
        assert(header =~= first + (process + files) + summary);
        text::lemma_holds(header, first, process + files, summary);
        assert(process + files =~= "child_pid: "@ + number::decimal_of(job.child_pid->0 as int)
            + "\n"@ + files);
    } else {
        assert(header =~= first + files + summary);
        assert(header.take((first + files).len() as int) =~= first + files);
    }
    let head = first + process + files;
    match job.last_summary {
        Some(told) => {
            assert(header =~= head + "summary: "@ + told@ + "\n"@);
        },
        None => {
            assert(header =~= (first + process) + files);
        },
    }
}

/// A notification tells the job, its state, the summary and where its files are; notifications that
/// differ in nothing but one of these differ.
pub proof fn law_notifications_tell_their_parts_apart(
    job: JobRecord,
    status: JobStatus,
    other_status: JobStatus,
    summary: Seq<char>,
    other_summary: Seq<char>,
)
    ensures
        text::starts_with(
            notification_of(job, status, summary),
            "[CodeLink] job "@ + job.job_id@ + " "@ + job::status_text(status) + "\nsummary: "@
                + summary + "\nartifact_dir: "@ + job.artifact_dir@,
        ),
        notification_of(job, status, summary) == notification_of(job, other_status, summary)
            ==> status == other_status,
        notification_of(job, status, summary) == notification_of(job, status, other_summary)
            ==> summary == other_summary,
{
    let told = "[CodeLink] job "@ + job.job_id@ + " "@ + job::status_text(status) + "\nsummary: "@
        + summary + "\nartifact_dir: "@ + job.artifact_dir@;
    assert(notification_of(job, status, summary).take(told.len() as int) =~= told);
    let start = "[CodeLink] job "@ + job.job_id@ + " "@;
    let files = "\nartifact_dir: "@ + job.artifact_dir@ + "\n"@;
    let name = job::status_text(status);
    let other_name = job::status_text(other_status);
    let rest = "\nsummary: "@ + summary + files;
    assert(notification_of(job, status, summary) =~= start + name + rest);
    assert(notification_of(job, other_status, summary) =~= start + other_name + rest);
    text::lemma_middle_is_unique(start, name, other_name, rest);
    let to_summary = start + name + "\nsummary: "@;
    assert(notification_of(job, status, summary) =~= to_summary + summary + files);
    assert(notification_of(job, status, other_summary) =~= to_summary + other_summary + files);
    text::lemma_middle_is_unique(to_summary, summary, other_summary, files);
    job::law_stored_status_reads_back(status, name);
    job::law_stored_status_reads_back(other_status, name);
}

} // verus!
