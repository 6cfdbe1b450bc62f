//! Watching a remote job: what each poll says of the job, and when the watch is over.
use crate::error::CodeLinkError;
use crate::job;
use crate::job::{JobRecord, JobStatus, RemoteTmuxSpec};
use crate::number;
use crate::pattern;
use crate::pattern::CompiledRegex;
use crate::remote::RemoteSnapshot;
use crate::text;
use vstd::prelude::*;
use vstd::string::*;

verus! {

/// What the last lines of a log tell.
#[derive(Debug, Clone, PartialEq, Eq)]
pub struct SnapshotAnalysis {
    /// How far the work is.
    pub progress: Option<String>,
    /// The pattern of success was found.
    pub success: bool,
    /// The pattern of failure was found.
    pub failure: bool,
}

/// Looks for the patterns and the progress in the last lines of a log.
pub fn analyze_snapshot(
    snapshot: &RemoteSnapshot,
    success_re: &Option<CompiledRegex>,
    failure_re: &CompiledRegex,
) -> (analysis: SnapshotAnalysis)
    ensures
        text::view_option(analysis.progress) == pattern::log_progress(snapshot.log_tail@),
        analysis.success == match *success_re {
            Some(success_re) => pattern::regex_matches(success_re.source(), snapshot.log_tail@),
            None => false,
        },
        analysis.failure == pattern::regex_matches(failure_re.source(), snapshot.log_tail@),
{
    let success = match success_re {
        Some(success_re) => success_re.is_match(snapshot.log_tail.as_str()),
        None => false,
    };
    let failure = failure_re.is_match(snapshot.log_tail.as_str());
    SnapshotAnalysis {
        progress: pattern::parse_progress(snapshot.log_tail.as_str()),
        success,
        failure,
    }
}

/// The log has not grown since the last poll, nor for the time after which it counts as stalled.
pub open spec fn is_stalled(
    latest: JobRecord,
    snapshot: RemoteSnapshot,
    spec: RemoteTmuxSpec,
    observed_at: int,
) -> bool {
    &&& snapshot.log_bytes is Some
    &&& snapshot.log_bytes == latest.last_log_bytes
    &&& latest.last_log_changed_at is Some
    &&& spec.stall_after_seconds > 0
    &&& observed_at - latest.last_log_changed_at->0 >= spec.stall_after_seconds
}

/// The state of a job after a poll. The pattern of success decides first, then the pattern of
/// failure and the end of the session, then the time for which the log has not grown.
pub open spec fn status_after(
    latest: JobRecord,
    snapshot: RemoteSnapshot,
    analysis: SnapshotAnalysis,
    spec: RemoteTmuxSpec,
    observed_at: int,
) -> JobStatus {
    if analysis.success {
        JobStatus::Done
    } else if analysis.failure || !snapshot.tmux_running {
        JobStatus::Failed
    } else if is_stalled(latest, snapshot, spec, observed_at) {
        JobStatus::Stalled
    } else {
        JobStatus::Running
    }
}

/// The state of a job after a poll.
pub fn next_status(
    latest: &JobRecord,
    snapshot: &RemoteSnapshot,
    analysis: &SnapshotAnalysis,
    spec: &RemoteTmuxSpec,
    observed_at: i64,
) -> (status: JobStatus)
    ensures
        status == status_after(*latest, *snapshot, *analysis, *spec, observed_at as int),
{
    if analysis.success {
        return JobStatus::Done;
    }
    if analysis.failure {
        return JobStatus::Failed;
    }
    if !snapshot.tmux_running {
        return JobStatus::Failed;
    }
    match (latest.last_log_bytes, snapshot.log_bytes, latest.last_log_changed_at) {
        (Some(before), Some(now), Some(changed_at)) => {
            if now == before && spec.stall_after_seconds > 0 && observed_at as i128
                - changed_at as i128 >= spec.stall_after_seconds as i128 {
                JobStatus::Stalled
            } else {
                JobStatus::Running
            }
        },
        _ => JobStatus::Running,
    }
}

/// How a truth value is written.
pub open spec fn bool_text(b: bool) -> Seq<char> {
    if b {
        "true"@
    } else {
        "false"@
    }
}

/// How a truth value is written.
fn show_bool(b: bool) -> (shown: &'static str)
    ensures
        shown@ == bool_text(b),
{
    if b {
        "true"
    } else {
        "false"
    }
}

/// The line that sums up a poll.
pub open spec fn summary_of(
    tmux_running: bool,
    log_missing: bool,
    log_bytes: Option<i64>,
    status: JobStatus,
    progress: Option<Seq<char>>,
) -> Seq<char> {
    "status="@ + job::status_text(status) + "; tmux_running="@ + bool_text(tmux_running)
        + "; log_missing="@ + bool_text(log_missing) + "; log_bytes="@ + (match log_bytes {
        Some(n) => number::decimal_of(n as int),
        None => "unknown"@,
    }) + "; progress="@ + (match progress {
        Some(progress) => progress,
        None => "unknown"@,
    })
}

/// Sums up a poll in a line.
pub fn snapshot_summary(
    snapshot: &RemoteSnapshot,
    status: JobStatus,
    analysis: &SnapshotAnalysis,
) -> (summary: String)
    ensures
        summary@ == summary_of(
            snapshot.tmux_running,
            snapshot.log_missing,
            snapshot.log_bytes,
            status,
            text::view_option(analysis.progress),
        ),
{
    let log_bytes = match snapshot.log_bytes {
        Some(n) => number::decimal_signed(n),
        None => "unknown".to_owned(),
    };
    let mut summary = "status=".to_owned();
    summary.append(status.as_str());
    summary.append("; tmux_running=");
    summary.append(show_bool(snapshot.tmux_running));
    summary.append("; log_missing=");
    summary.append(show_bool(snapshot.log_missing));
    summary.append("; log_bytes=");
    summary.append(log_bytes.as_str());
    summary.append("; progress=");
    match &analysis.progress {
        Some(progress) => {
            summary.append(progress.as_str());
        },
        None => {
            summary.append("unknown");
        },
    }
    summary
}

/// What a poll changes about a job.
#[derive(Debug, Clone, PartialEq, Eq)]
pub struct SnapshotUpdate {
    pub status: JobStatus,
    pub summary: String,
    pub log_bytes: Option<i64>,
    /// When the log was last seen to have another size.
    pub log_changed_at: Option<i64>,
    /// The connection said something that is worth keeping.
    pub keep_stderr: bool,
    /// The job is over: the watcher notifies of it, and stops.
    pub finished: bool,
}

/// When the log was last seen to have another size, after a poll at `observed_at`.
pub open spec fn changed_at_after(
    latest: JobRecord,
    log_bytes: Option<i64>,
    observed_at: i64,
) -> Option<i64> {
    if log_bytes is Some && log_bytes != latest.last_log_bytes {
        Some(observed_at)
    } else {
        latest.last_log_changed_at
    }
}

impl SnapshotUpdate {
    /// Whether this is what a poll changes about the job `latest`.
    pub open spec fn follows(
        self,
        latest: JobRecord,
        snapshot: RemoteSnapshot,
        analysis: SnapshotAnalysis,
        spec: RemoteTmuxSpec,
        observed_at: i64,
    ) -> bool {
        let status = status_after(latest, snapshot, analysis, spec, observed_at as int);
        &&& self.status == status
        &&& self.summary@ == summary_of(
            snapshot.tmux_running,
            snapshot.log_missing,
            snapshot.log_bytes,
            status,
            text::view_option(analysis.progress),
        )
        &&& self.log_bytes == snapshot.log_bytes
        &&& self.log_changed_at == changed_at_after(latest, snapshot.log_bytes, observed_at)
        &&& self.keep_stderr == (text::trim_of(snapshot.stderr@).len() > 0)
        &&& self.finished == status.terminal()
    }
}

/// What a poll changes about a job.
pub fn snapshot_update(
    latest: &JobRecord,
    snapshot: &RemoteSnapshot,
    analysis: &SnapshotAnalysis,
    spec: &RemoteTmuxSpec,
    observed_at: i64,
) -> (update: SnapshotUpdate)
    ensures
        update.follows(*latest, *snapshot, *analysis, *spec, observed_at),
{
    let status = next_status(latest, snapshot, analysis, spec, observed_at);
    let log_changed_at = match (snapshot.log_bytes, latest.last_log_bytes) {
        (Some(now), Some(before)) => {
            if now != before {
                Some(observed_at)
            } else {
                latest.last_log_changed_at
            }
        },
        (Some(_), None) => Some(observed_at),
        (None, _) => latest.last_log_changed_at,
    };
    SnapshotUpdate {
        status,
        summary: snapshot_summary(snapshot, status, analysis),
        log_bytes: snapshot.log_bytes,
        log_changed_at,
        keep_stderr: !text::is_blank(snapshot.stderr.as_str()),
        finished: status.is_terminal(),
    }
}

/// The state of a job whose last poll failed, and the line that sums the poll up.
pub fn poll_failure(error: &str) -> (failure: (JobStatus, String))
    ensures
        failure.0 == JobStatus::Stalled,
        failure.1@ == "remote poll failed: "@ + error@,
{
    (JobStatus::Stalled, "remote poll failed: ".to_owned().concat(error))
}

/// What a watcher does next.
#[derive(Debug, Clone, Copy, PartialEq, Eq, Structural)]
pub enum WatchStep {
    /// It notifies that the job was canceled, and stops.
    NotifyCanceled,
    /// It stops.
    Stop,
    /// It polls.
    Poll,
}

/// What a watcher does when it finds the job in the state `status`.
pub open spec fn step_of(status: JobStatus) -> WatchStep {
    if status is Canceled {
        WatchStep::NotifyCanceled
    } else if status.terminal() {
        WatchStep::Stop
    } else {
        WatchStep::Poll
    }
}

/// What a watcher does when it finds the job in the state `status`.
pub fn watch_step(status: JobStatus) -> (step: WatchStep)
    ensures
        step == step_of(status),
{
    if status == JobStatus::Canceled {
        WatchStep::NotifyCanceled
    } else if status.is_terminal() {
        WatchStep::Stop
    } else {
        WatchStep::Poll
    }
}

/// What is asked of a watcher is in order: it pauses between polls, it reads some lines, and its
/// patterns are regular expressions.
pub open spec fn is_sound(spec: RemoteTmuxSpec) -> bool {
    &&& spec.interval_seconds > 0
    &&& spec.tail_lines > 0
    &&& spec.success_regex is Some ==> pattern::regex_error(
        spec.success_regex->0@,
        usize::BITS,
    ) is None
    &&& pattern::regex_error(spec.failure_regex@, usize::BITS) is None
}

/// Whether `error` is what is first wrong with what is asked of a watcher. The pause between polls
/// is looked at first, then the number of lines, then the pattern of success, then the pattern of
/// failure.
pub open spec fn is_first_fault(error: CodeLinkError, spec: RemoteTmuxSpec) -> bool {
    if spec.interval_seconds == 0 {
        error is ZeroInterval
    } else if spec.tail_lines == 0 {
        error is ZeroTailLines
    } else if spec.success_regex is Some && pattern::regex_error(
        spec.success_regex->0@,
        usize::BITS,
    ) is Some {
        pattern::refuses(error, spec.success_regex->0@, "--success-regex"@)
    } else {
        pattern::refuses(error, spec.failure_regex@, "--failure-regex"@)
    }
}

/// Checks what is asked of a watcher.
pub fn check_watch(spec: &RemoteTmuxSpec) -> (checked: Result<(), CodeLinkError>)
    ensures
        match checked {
            Ok(_) => is_sound(*spec),
            Err(error) => is_first_fault(error, *spec),
        },
{
    if spec.interval_seconds == 0 {
        return Err(CodeLinkError::ZeroInterval);
    }
    if spec.tail_lines == 0 {
        return Err(CodeLinkError::ZeroTailLines);
    }
    match pattern::compile_optional_regex(&spec.success_regex, "--success-regex") {
        Ok(_) => {},
        Err(error) => {
            return Err(error);
        },
    }
    match pattern::compile_required_regex(spec.failure_regex.as_str(), "--failure-regex") {
        Ok(_) => Ok(()),
        Err(error) => Err(error),
    }
}

/// A poll never cancels a job: only its user does.
pub proof fn law_polls_do_not_cancel(
    latest: JobRecord,
    snapshot: RemoteSnapshot,
    analysis: SnapshotAnalysis,
    spec: RemoteTmuxSpec,
    observed_at: int,
)
    ensures
        !(status_after(latest, snapshot, analysis, spec, observed_at) is Canceled),
{
}

/// A poll ends a watch exactly if it sees the job done or failed; otherwise the watcher, unless the
/// job is canceled meanwhile, polls again.
pub proof fn law_watch_ends_with_the_job(
    latest: JobRecord,
    snapshot: RemoteSnapshot,
    analysis: SnapshotAnalysis,
    spec: RemoteTmuxSpec,
    observed_at: i64,
    update: SnapshotUpdate,
)
    requires
        update.follows(latest, snapshot, analysis, spec, observed_at),
    ensures
        update.finished <==> update.status is Done || update.status is Failed,
        update.finished <==> step_of(update.status) is Stop,
        !update.finished <==> step_of(update.status) is Poll,
{
}

/// What was found in the log decides over what is known of the session, and success over failure.
pub proof fn law_success_outweighs_failure(
    latest: JobRecord,
    snapshot: RemoteSnapshot,
    analysis: SnapshotAnalysis,
    spec: RemoteTmuxSpec,
    observed_at: int,
)
    ensures
        status_after(latest, snapshot, analysis, spec, observed_at) is Done <==> analysis.success,
        status_after(latest, snapshot, analysis, spec, observed_at) is Failed <==> {
            &&& !analysis.success
            &&& analysis.failure || !snapshot.tmux_running
        },
{
}

/// The time without growth counts from the poll that first saw the present size of the log: a poll
/// sees the log stalled exactly if at least `stall_after_seconds` have passed since then.
pub proof fn law_stall_counts_from_the_last_change(
    before: JobRecord,
    first: RemoteSnapshot,
    first_analysis: SnapshotAnalysis,
    first_at: i64,
    update: SnapshotUpdate,
    between: JobRecord,
    second: RemoteSnapshot,
    second_analysis: SnapshotAnalysis,
    second_at: i64,
    spec: RemoteTmuxSpec,
)
    requires
        update.follows(before, first, first_analysis, spec, first_at),
        between.last_log_bytes == update.log_bytes,
        between.last_log_changed_at == update.log_changed_at,
        first.log_bytes is Some,
        first.log_bytes != before.last_log_bytes,
        second.log_bytes == first.log_bytes,
        second.tmux_running,
        !second_analysis.success,
        !second_analysis.failure,
        spec.stall_after_seconds > 0,
    ensures
        status_after(between, second, second_analysis, spec, second_at as int)
            == if second_at - first_at >= spec.stall_after_seconds {
            JobStatus::Stalled
        } else {
            JobStatus::Running
        },
{
}

/// A poll that sees the log at the size that it had before does not restart the time without growth.
pub proof fn law_unchanged_log_keeps_its_time(
    latest: JobRecord,
    snapshot: RemoteSnapshot,
    analysis: SnapshotAnalysis,
    spec: RemoteTmuxSpec,
    observed_at: i64,
    update: SnapshotUpdate,
)
    requires
        update.follows(latest, snapshot, analysis, spec, observed_at),
        snapshot.log_bytes == latest.last_log_bytes,
    ensures
        update.log_bytes == latest.last_log_bytes,
        update.log_changed_at == latest.last_log_changed_at,
{
}

/// A stalled job is not over: when its log grows again, it runs again.
pub proof fn law_stalled_jobs_recover(
    latest: JobRecord,
    snapshot: RemoteSnapshot,
    analysis: SnapshotAnalysis,
    spec: RemoteTmuxSpec,
    observed_at: int,
)
    requires
        snapshot.log_bytes != latest.last_log_bytes,
        snapshot.tmux_running,
        !analysis.success,
        !analysis.failure,
    ensures
        status_after(latest, snapshot, analysis, spec, observed_at) is Running,
{
}

/// A log counts as stalled only if its size is known from this poll and from the last, if it is known
/// when it changed, and if a time is set after which it does.
pub proof fn law_nothing_stalls_without_a_clock(
    latest: JobRecord,
    snapshot: RemoteSnapshot,
    analysis: SnapshotAnalysis,
    spec: RemoteTmuxSpec,
    observed_at: int,
)
    requires
        snapshot.log_bytes is None || latest.last_log_bytes is None || latest.last_log_changed_at
            is None || spec.stall_after_seconds <= 0,
    ensures
        !(status_after(latest, snapshot, analysis, spec, observed_at) is Stalled),
{
}

/// A log whose size is known and stayed the same is stalled exactly when the time that is set has passed
/// since it changed, unless the job is over.
pub proof fn law_stall_is_a_matter_of_time(
    latest: JobRecord,
    snapshot: RemoteSnapshot,
    analysis: SnapshotAnalysis,
    spec: RemoteTmuxSpec,
    bytes: i64,
    changed_at: i64,
    observed_at: int,
)
    requires
        snapshot.log_bytes == Some(bytes),
        latest.last_log_bytes == Some(bytes),
        latest.last_log_changed_at == Some(changed_at),
        spec.stall_after_seconds > 0,
        snapshot.tmux_running,
        !analysis.success,
        !analysis.failure,
    ensures
        status_after(latest, snapshot, analysis, spec, observed_at) == (if observed_at - changed_at
            < spec.stall_after_seconds {
            JobStatus::Running
        } else {
            JobStatus::Stalled
        }),
{
}

/// A poll that sees another size of the log restarts the time without growth, a poll that sees the same
/// size or none does not, and either way the size that it saw is what is known from then on.
pub proof fn law_change_restarts_the_clock(
    latest: JobRecord,
    snapshot: RemoteSnapshot,
    analysis: SnapshotAnalysis,
    spec: RemoteTmuxSpec,
    observed_at: i64,
    update: SnapshotUpdate,
)
    requires
        update.follows(latest, snapshot, analysis, spec, observed_at),
    ensures
        update.log_bytes == snapshot.log_bytes,
        snapshot.log_bytes is None ==> update.log_changed_at == latest.last_log_changed_at,
        (snapshot.log_bytes matches Some(now) && latest.last_log_bytes matches Some(before) && now
            == before) ==> update.log_changed_at == latest.last_log_changed_at,
        (snapshot.log_bytes matches Some(now) && (latest.last_log_bytes matches Some(before)
            ==> now != before)) ==> update.log_changed_at == Some(observed_at),
        update.keep_stderr <==> !text::all_white(snapshot.stderr@),
{
    text::lemma_blank_is_white(snapshot.stderr@);
}

/// The summary of a poll tells the state, whether the session runs, whether the log is missing, its size
/// and the progress, or that these are unknown.
pub proof fn law_summary_tells_what_was_seen(
    tmux_running: bool,
    log_missing: bool,
    log_bytes: Option<i64>,
    status: JobStatus,
    progress: Option<Seq<char>>,
)
    ensures
        ({
            let summary = summary_of(tmux_running, log_missing, log_bytes, status, progress);
            &&& text::holds(summary, "status="@ + job::status_text(status) + "; tmux_running="@)
            &&& text::holds(
                summary,
                "; tmux_running="@ + (if tmux_running {
                    "true"@
                } else {
                    "false"@
                }) + "; log_missing="@ + (if log_missing {
                    "true"@
                } else {
                    "false"@
                }) + "; log_bytes="@,
            )
            &&& log_bytes matches Some(n) ==> text::holds(
                summary,
                "; log_bytes="@ + number::decimal_of(n as int) + "; progress="@,
            )
            &&& log_bytes is None ==> text::holds(
                summary,
                "; log_bytes="@ + "unknown"@ + "; progress="@,
            )
            &&& progress matches Some(told) ==> text::ends_with(summary, "; progress="@ + told)
            &&& progress is None ==> text::ends_with(summary, "; progress="@ + "unknown"@)
        }),
{
    let summary = summary_of(tmux_running, log_missing, log_bytes, status, progress);
    let name = job::status_text(status);
    let running = bool_text(tmux_running);
    let missing = bool_text(log_missing);
    let bytes = match log_bytes {
        Some(n) => number::decimal_of(n as int),
        None => "unknown"@,
    };
    let end = match progress {
        Some(progress) => progress,
        None => "unknown"@,
    };
    lemma_parts_are_held(
        "status="@,
        name,
        "; tmux_running="@,
        running,
        "; log_missing="@,
        missing,
        "; log_bytes="@,
        bytes,
        "; progress="@,
        end,
    );
}

/// Where ten texts are put together, neighbours stand side by side in the whole.
proof fn lemma_parts_are_held(
    a: Seq<char>,
    b: Seq<char>,
    c: Seq<char>,
    d: Seq<char>,
    e: Seq<char>,
    f: Seq<char>,
    g: Seq<char>,
    h: Seq<char>,
    i: Seq<char>,
    j: Seq<char>,
)
    ensures
        ({
            let whole = a + b + c + d + e + f + g + h + i + j;
            &&& text::holds(whole, a + b + c)
            &&& text::holds(whole, c + d + e + f + g)
            &&& text::holds(whole, g + h + i)
            &&& text::ends_with(whole, i + j)
        }),
{
    let whole = a + b + c + d + e + f + g + h + i + j;
    assert(text::holds(whole, a + b + c)) by {
        let rest = d + e + f + g + h + i + j;
        assert(whole =~= Seq::<char>::empty() + (a + b + c) + rest);
        text::lemma_holds(whole, Seq::empty(), a + b + c, rest);
    }
    assert(text::holds(whole, c + d + e + f + g)) by {
        let rest = h + i + j;
        assert(whole =~= (a + b) + (c + d + e + f + g) + rest);
        text::lemma_holds(whole, a + b, c + d + e + f + g, rest);
    }
    assert(text::holds(whole, g + h + i)) by {
        let before = a + b + c + d + e + f;
        assert(whole =~= before + (g + h + i) + j);
        text::lemma_holds(whole, before, g + h + i, j);
    }
    assert(text::ends_with(whole, i + j)) by {
        let before = a + b + c + d + e + f + g + h;
        assert(whole =~= before + (i + j));
        assert(whole.skip(before.len() as int) =~= i + j);
    }
}

/// A watch is in order exactly if it pauses, reads some lines and has patterns that are accepted; what
/// is wrong otherwise is told in this order: the pause, the lines, the pattern of success, the pattern of
/// failure.
pub proof fn law_faults_are_told_in_order(spec: RemoteTmuxSpec, error: CodeLinkError)
    requires
        !is_sound(spec) ==> is_first_fault(error, spec),
    ensures
        ({
            let success_refused = spec.success_regex matches Some(raw) && pattern::regex_error(
                raw@,
                usize::BITS,
            ) is Some;
            let failure_refused = pattern::regex_error(spec.failure_regex@, usize::BITS) is Some;
            &&& !is_sound(spec) <==> spec.interval_seconds == 0 || spec.tail_lines == 0
                || success_refused || failure_refused
            &&& spec.interval_seconds == 0 ==> error is ZeroInterval
            &&& spec.interval_seconds > 0 && spec.tail_lines == 0 ==> error is ZeroTailLines
            &&& spec.interval_seconds > 0 && spec.tail_lines > 0 && success_refused ==> (
            error matches CodeLinkError::InvalidPattern { flag, pattern, .. } && flag@
                == "--success-regex"@ && pattern@ == spec.success_regex->0@)
            &&& spec.interval_seconds > 0 && spec.tail_lines > 0 && !success_refused
                && failure_refused ==> (error matches CodeLinkError::InvalidPattern {
                flag,
                pattern,
                ..
            } && flag@ == "--failure-regex"@ && pattern@ == spec.failure_regex@)
        }),
{
}

/// What a watcher does: it polls a job that runs or has stalled, notifies of one that was canceled, and
/// stops for one that is done or failed.
pub proof fn law_watcher_goes_by_the_state()
    ensures
        step_of(JobStatus::Running) is Poll,
        step_of(JobStatus::Stalled) is Poll,
        step_of(JobStatus::Done) is Stop,
        step_of(JobStatus::Failed) is Stop,
        step_of(JobStatus::Canceled) is NotifyCanceled,
{
}

} // verus!
