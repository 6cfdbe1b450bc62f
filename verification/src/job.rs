//! Jobs: what they are, how they are stored, and how they are named.
use crate::error::CodeLinkError;
use crate::number;
use crate::text;
use vstd::prelude::*;
use vstd::string::*;

verus! {

/// The state of a job.
#[derive(Debug, Clone, Copy, PartialEq, Eq, Structural)]
pub enum JobStatus {
    Running,
    Done,
    Failed,
    Stalled,
    Canceled,
}

/// The name under which a state is stored and shown.
pub open spec fn status_text(status: JobStatus) -> Seq<char> {
    match status {
        JobStatus::Running => "running"@,
        JobStatus::Done => "done"@,
        JobStatus::Failed => "failed"@,
        JobStatus::Stalled => "stalled"@,
        JobStatus::Canceled => "canceled"@,
    }
}

/// The state that is stored under a name.
pub open spec fn status_named(name: Seq<char>) -> Option<JobStatus> {
    if name == "running"@ {
        Some(JobStatus::Running)
    } else if name == "done"@ {
        Some(JobStatus::Done)
    } else if name == "failed"@ {
        Some(JobStatus::Failed)
    } else if name == "stalled"@ {
        Some(JobStatus::Stalled)
    } else if name == "canceled"@ {
        Some(JobStatus::Canceled)
    } else {
        None
    }
}

impl JobStatus {
    /// A job in a terminal state is over: its state does not change any more.
    pub open spec fn terminal(self) -> bool {
        self is Done || self is Failed || self is Canceled
    }

    /// The name under which a state is stored and shown.
    pub fn as_str(self) -> (name: &'static str)
        ensures
            name@ == status_text(self),
    {
        match self {
            JobStatus::Running => "running",
            JobStatus::Done => "done",
            JobStatus::Failed => "failed",
            JobStatus::Stalled => "stalled",
            JobStatus::Canceled => "canceled",
        }
    }

    /// Reads the name under which a state is stored.
    pub fn from_db(value: &str) -> (status: Result<JobStatus, CodeLinkError>)
        ensures
            match status {
                Ok(status) => status_named(value@) == Some(status),
                Err(error) => {
                    &&& status_named(value@) is None
                    &&& error matches CodeLinkError::UnknownStatus { value: unknown }
                    &&& unknown@ == value@
                },
            },
    {
        if text::text_eq(value, "running") {
            Ok(JobStatus::Running)
        } else if text::text_eq(value, "done") {
            Ok(JobStatus::Done)
        } else if text::text_eq(value, "failed") {
            Ok(JobStatus::Failed)
        } else if text::text_eq(value, "stalled") {
            Ok(JobStatus::Stalled)
        } else if text::text_eq(value, "canceled") {
            Ok(JobStatus::Canceled)
        } else {
            Err(CodeLinkError::UnknownStatus { value: value.to_owned() })
        }
    }

    /// Whether a job in this state is over.
    pub fn is_terminal(self) -> (terminal: bool)
        ensures
            terminal == self.terminal(),
    {
        match self {
            JobStatus::Done => true,
            JobStatus::Failed => true,
            JobStatus::Canceled => true,
            JobStatus::Running => false,
            JobStatus::Stalled => false,
        }
    }
}

/// A stored state reads back as itself, and only the name of a state reads as that state.
pub proof fn law_stored_status_reads_back(status: JobStatus, name: Seq<char>)
    ensures
        status_named(name) == Some(status) <==> name == status_text(status),
{
    reveal_strlit("running");
    reveal_strlit("done");
    reveal_strlit("failed");
    reveal_strlit("stalled");
    reveal_strlit("canceled");
    assert("running"@[0] == 'r' && "done"@[0] == 'd' && "failed"@[0] == 'f' && "stalled"@[0] == 's'
        && "canceled"@[0] == 'c');
}

/// Whether a job whose state has this name is shown among the active ones: it is running, or its
/// log has stalled.
pub open spec fn is_active_name(status: Seq<char>) -> bool {
    status == status_text(JobStatus::Running) || status == status_text(JobStatus::Stalled)
}

/// The active jobs are those that are not over.
pub proof fn law_active_jobs_are_not_over(status: JobStatus)
    ensures
        is_active_name(status_text(status)) <==> !status.terminal(),
{
    law_stored_status_reads_back(status, status_text(status));
    law_stored_status_reads_back(JobStatus::Running, status_text(status));
    law_stored_status_reads_back(JobStatus::Stalled, status_text(status));
}

/// What a job does.
#[derive(Debug, Clone, Copy, PartialEq, Eq, Structural)]
pub enum JobKind {
    /// It watches a log and a tmux session on another machine.
    RemoteTmux,
    /// It runs an agent in the background.
    CodexAgent,
}

/// The name under which a kind is stored and shown.
pub open spec fn kind_text(kind: JobKind) -> Seq<char> {
    match kind {
        JobKind::RemoteTmux => "remote_tmux"@,
        JobKind::CodexAgent => "codex_agent"@,
    }
}

/// The kind that is stored under a name.
pub open spec fn kind_named(name: Seq<char>) -> Option<JobKind> {
    if name == "remote_tmux"@ {
        Some(JobKind::RemoteTmux)
    } else if name == "codex_agent"@ {
        Some(JobKind::CodexAgent)
    } else {
        None
    }
}

impl JobKind {
    /// The name under which a kind is stored and shown.
    pub fn as_str(&self) -> (name: &'static str)
        ensures
            name@ == kind_text(*self),
    {
        match self {
            JobKind::RemoteTmux => "remote_tmux",
            JobKind::CodexAgent => "codex_agent",
        }
    }

    /// Reads the name under which a kind is stored.
    pub fn from_db(value: &str) -> (kind: Result<JobKind, CodeLinkError>)
        ensures
            match kind {
                Ok(kind) => kind_named(value@) == Some(kind),
                Err(error) => {
                    &&& kind_named(value@) is None
                    &&& error matches CodeLinkError::UnknownKind { value: unknown }
                    &&& unknown@ == value@
                },
            },
    {
        if text::text_eq(value, "remote_tmux") {
            Ok(JobKind::RemoteTmux)
        } else if text::text_eq(value, "codex_agent") {
            Ok(JobKind::CodexAgent)
        } else {
            Err(CodeLinkError::UnknownKind { value: value.to_owned() })
        }
    }
}

/// A stored kind reads back as itself, and only the name of a kind reads as that kind.
pub proof fn law_stored_kind_reads_back(kind: JobKind, name: Seq<char>)
    ensures
        kind_named(name) == Some(kind) <==> name == kind_text(kind),
{
    reveal_strlit("remote_tmux");
    reveal_strlit("codex_agent");
    assert("remote_tmux"@[0] == 'r' && "codex_agent"@[0] == 'c');
}

/// What a watcher watches.
#[derive(Debug, Clone, PartialEq, Eq)]
pub struct RemoteTmuxSpec {
    pub host: String,
    pub tmux_session: String,
    pub log_path: String,
    pub interval_seconds: u64,
    pub tail_lines: u32,
    pub success_regex: Option<String>,
    pub failure_regex: String,
    pub stall_after_seconds: i64,
    pub note: Option<String>,
}

/// What a background agent runs.
#[derive(Debug, Clone, PartialEq, Eq)]
pub struct CodexAgentSpec {
    pub codex_bin: String,
    pub codex_args: Vec<String>,
    pub prompt: String,
}

/// A stored job, as the columns of its row give it.
#[derive(Debug, Clone, PartialEq, Eq)]
pub struct JobRow {
    pub job_id: String,
    pub kind: String,
    pub status: String,
    pub cwd: String,
    pub spec_json: String,
    pub artifact_dir: String,
    pub last_summary: Option<String>,
    pub last_log_bytes: Option<i64>,
    pub last_log_changed_at: Option<i64>,
    pub child_pid: Option<i64>,
}

/// A job.
#[derive(Debug, Clone, PartialEq, Eq)]
pub struct JobRecord {
    pub job_id: String,
    pub kind: JobKind,
    pub status: JobStatus,
    pub cwd: String,
    pub spec_json: String,
    pub artifact_dir: String,
    pub last_summary: Option<String>,
    pub last_log_bytes: Option<i64>,
    pub last_log_changed_at: Option<i64>,
    pub child_pid: Option<i64>,
}

impl JobRecord {
    /// Whether a job is what a row stores.
    pub open spec fn is_of_row(self, row: JobRow) -> bool {
        &&& self.job_id == row.job_id
        &&& kind_named(row.kind@) == Some(self.kind)
        &&& status_named(row.status@) == Some(self.status)
        &&& self.cwd == row.cwd
        &&& self.spec_json == row.spec_json
        &&& self.artifact_dir == row.artifact_dir
        &&& self.last_summary == row.last_summary
        &&& self.last_log_bytes == row.last_log_bytes
        &&& self.last_log_changed_at == row.last_log_changed_at
        &&& self.child_pid == row.child_pid
    }

    /// Reads the row of the job `job_id`. It is an error if there is none, or if its kind or its
    /// status does not exist; the kind is looked at first.
    pub fn from_row(job_id: &str, row: Option<JobRow>) -> (job: Result<JobRecord, CodeLinkError>)
        ensures
            match (row, job) {
                (None, Err(CodeLinkError::JobNotFound { job_id: missing })) => missing@ == job_id@,
                (Some(row), Ok(job)) => job.is_of_row(row),
                (Some(row), Err(CodeLinkError::UnknownKind { value })) => {
                    &&& value@ == row.kind@
                    &&& kind_named(row.kind@) is None
                },
                (Some(row), Err(CodeLinkError::UnknownStatus { value })) => {
                    &&& value@ == row.status@
                    &&& kind_named(row.kind@) is Some
                    &&& status_named(row.status@) is None
                },
                _ => false,
            },
    {
        let row = match row {
            Some(row) => row,
            None => {
                return Err(CodeLinkError::JobNotFound { job_id: job_id.to_owned() });
            },
        };
        let kind = match JobKind::from_db(row.kind.as_str()) {
            Ok(kind) => kind,
            Err(error) => {
                return Err(error);
            },
        };
        let status = match JobStatus::from_db(row.status.as_str()) {
            Ok(status) => status,
            Err(error) => {
                return Err(error);
            },
        };
        Ok(
            JobRecord {
                job_id: row.job_id,
                kind,
                status,
                cwd: row.cwd,
                spec_json: row.spec_json,
                artifact_dir: row.artifact_dir,
                last_summary: row.last_summary,
                last_log_bytes: row.last_log_bytes,
                last_log_changed_at: row.last_log_changed_at,
                child_pid: row.child_pid,
            },
        )
    }
}

/// The id of a job that was given none: made of the time in nanoseconds, the process and a counter
/// of the process.
pub open spec fn job_id_of(nanos: int, process: int, sequence: int) -> Seq<char> {
    "job-"@ + number::decimal_of(nanos) + "-"@ + number::decimal_of(process) + "-"@
        + number::decimal_of(sequence)
}

/// Makes the id of a job that was given none.
pub fn default_job_id(nanos: u128, process: u32, sequence: u64) -> (id: String)
    ensures
        id@ == job_id_of(nanos as int, process as int, sequence as int),
{
    let mut id = "job-".to_owned();
    id.append(number::decimal(nanos).as_str());
    id.append("-");
    id.append(number::decimal(process as u128).as_str());
    id.append("-");
    id.append(number::decimal(sequence as u128).as_str());
    id
}

/// A numeral holds no minus sign.
proof fn lemma_numeral_has_no_dash(n: nat)
    ensures
        text::free_of(number::decimal_of(n as int), '-'),
{
    number::lemma_decimal_round_trip(n);
    let s = number::decimal_of(n as int);
    assert forall|i: int| 0 <= i < s.len() implies #[trigger] s[i] != '-' by {
        assert(number::is_digit(s[i]));
    }
}

/// Ids that are made at different times, by different processes or with different counters differ.
pub proof fn law_job_ids_do_not_collide(
    nanos: nat,
    process: nat,
    sequence: nat,
    other_nanos: nat,
    other_process: nat,
    other_sequence: nat,
)
    requires
        job_id_of(nanos as int, process as int, sequence as int) == job_id_of(
            other_nanos as int,
            other_process as int,
            other_sequence as int,
        ),
    ensures
        nanos == other_nanos,
        process == other_process,
        sequence == other_sequence,
{
    reveal_strlit("-");
    assert("-"@ =~= seq!['-']);
    let a = number::decimal_of(nanos as int);
    let b = number::decimal_of(process as int);
    let c = number::decimal_of(sequence as int);
    let x = number::decimal_of(other_nanos as int);
    let y = number::decimal_of(other_process as int);
    let z = number::decimal_of(other_sequence as int);
    lemma_numeral_has_no_dash(nanos);
    lemma_numeral_has_no_dash(process);
    lemma_numeral_has_no_dash(other_nanos);
    lemma_numeral_has_no_dash(other_process);
    let n = "job-"@.len() as int;
    let id = job_id_of(nanos as int, process as int, sequence as int);
    let other = job_id_of(other_nanos as int, other_process as int, other_sequence as int);
    assert(id.skip(n) =~= a + seq!['-'] + (b + seq!['-'] + c));
    assert(other.skip(n) =~= x + seq!['-'] + (y + seq!['-'] + z));
    text::lemma_split_is_unique(a, b + seq!['-'] + c, x, y + seq!['-'] + z, '-');
    text::lemma_split_is_unique(b, c, y, z, '-');
    number::lemma_decimal_round_trip(nanos);
    number::lemma_decimal_round_trip(process);
    number::lemma_decimal_round_trip(sequence);
    number::lemma_decimal_round_trip(other_nanos);
    number::lemma_decimal_round_trip(other_process);
    number::lemma_decimal_round_trip(other_sequence);
}

/// The time in seconds, given how many have passed since the epoch, or zero where the clock stands
/// before it. Seconds beyond the signed range wrap.
pub fn now_seconds(since_epoch: Option<u64>) -> (seconds: i64)
    ensures
        match since_epoch {
            Some(since) => seconds == if since <= i64::MAX {
                since as int
            } else {
                since - 0x1_0000_0000_0000_0000
            },
            None => seconds == 0,
        },
{
    match since_epoch {
        Some(since) => {
            if since <= i64::MAX as u64 {
                since as i64
            } else {
                (since as i128 - 0x1_0000_0000_0000_0000) as i64
            }
        },
        None => 0,
    }
}

/// The mark of a time at the head of a line of a job's history.
pub open spec fn timestamp_of(seconds: int) -> Seq<char> {
    "["@ + number::decimal_of(seconds) + "]"@
}

/// The mark of a time at the head of a line of a job's history.
pub fn timestamp_line(seconds: i64) -> (line: String)
    ensures
        line@ == timestamp_of(seconds as int),
{
    "[".to_owned().concat(number::decimal_signed(seconds).as_str()).concat("]")
}

/// A line of a job's history.
pub fn history_line(seconds: i64, event: &str) -> (line: String)
    ensures
        line@ == timestamp_of(seconds as int) + " "@ + event@ + "\n"@,
{
    timestamp_line(seconds).concat(" ").concat(event).concat("\n")
}

/// The states are stored as `running`, `done`, `failed`, `stalled` and `canceled`; a job is over when it
/// is done, failed or canceled, and active while its state is stored as `running` or `stalled`.
pub proof fn law_states_by_name(name: Seq<char>)
    ensures
        status_named(name) is Some <==> seq![
            "running"@,
            "done"@,
            "failed"@,
            "stalled"@,
            "canceled"@,
        ].contains(name),
        is_active_name(name) <==> name == "running"@ || name == "stalled"@,
        name == "running"@ || name == "stalled"@ ==> status_named(name) is Some
            && !status_named(name)->0.terminal(),
        name == "done"@ || name == "failed"@ || name == "canceled"@ ==> status_named(name) is Some
            && status_named(name)->0.terminal(),
{
    let names = seq!["running"@, "done"@, "failed"@, "stalled"@, "canceled"@];
    assert(names[0] == "running"@ && names[1] == "done"@ && names[2] == "failed"@ && names[3]
        == "stalled"@ && names[4] == "canceled"@);
    reveal_strlit("running");
    reveal_strlit("done");
    reveal_strlit("failed");
    reveal_strlit("stalled");
    reveal_strlit("canceled");
    assert("running"@[0] == 'r' && "done"@[0] == 'd' && "failed"@[0] == 'f' && "stalled"@[0] == 's'
        && "canceled"@[0] == 'c');
}

/// A job is what its row stores, in every respect: rows that give one job store the same.
pub proof fn law_job_is_what_its_row_stores(job: JobRecord, row: JobRow, other: JobRow)
    requires
        job.is_of_row(row),
    ensures
        row.kind@ == kind_text(job.kind),
        row.status@ == status_text(job.status),
        job.is_of_row(other) <==> {
            &&& other.job_id == row.job_id
            &&& other.kind@ == row.kind@
            &&& other.status@ == row.status@
            &&& other.cwd == row.cwd
            &&& other.spec_json == row.spec_json
            &&& other.artifact_dir == row.artifact_dir
            &&& other.last_summary == row.last_summary
            &&& other.last_log_bytes == row.last_log_bytes
            &&& other.last_log_changed_at == row.last_log_changed_at
            &&& other.child_pid == row.child_pid
        },
        job.job_id == row.job_id,
        job.cwd == row.cwd,
        job.spec_json == row.spec_json,
        job.artifact_dir == row.artifact_dir,
        job.last_summary == row.last_summary,
        job.last_log_bytes == row.last_log_bytes,
        job.last_log_changed_at == row.last_log_changed_at,
        job.child_pid == row.child_pid,
{
    law_stored_status_reads_back(job.status, row.status@);
    law_stored_status_reads_back(job.status, other.status@);
    law_stored_kind_reads_back(job.kind, row.kind@);
    law_stored_kind_reads_back(job.kind, other.kind@);
}

} // verus!
