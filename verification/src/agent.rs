//! Running an agent in the background: how it is started, when it is over, and what is kept of it.
use crate::job;
use crate::job::{CodexAgentSpec, JobRecord, JobStatus};
use crate::number;
use crate::text;
use vstd::prelude::*;
use vstd::string::*;

verus! {

/// The name of the program, and of the command under which other programs offer it.
pub const PROGRAM_NAME: &'static str = "codelink";

/// How many characters of an output are kept.
pub const MAX_RESULT_CHARS: usize = 16_000;

/// The arguments that a worker is started with by the program with the name `program`: other
/// programs than the program itself offer it under a command of its name.
pub open spec fn worker_args_of(program: Option<Seq<char>>, job_id: Seq<char>) -> Seq<Seq<char>> {
    (if program is Some && program->0 != PROGRAM_NAME@ {
        seq![PROGRAM_NAME@]
    } else {
        Seq::empty()
    }) + seq!["worker"@, "--job-id"@, job_id]
}

/// The arguments that a worker is started with by the program with the name `program`: other
/// programs than the program itself offer it under a command of its name.
pub fn worker_args(program: Option<&str>, job_id: &str) -> (args: Vec<String>)
    ensures
        text::views(args@) == worker_args_of(
            match program {
                Some(program) => Some(program@),
                None => None,
            },
            job_id@,
        ),
        text::views(args@) == (if program is Some && program->0@ != PROGRAM_NAME@ {
            seq![PROGRAM_NAME@]
        } else {
            Seq::empty()
        }) + seq!["worker"@, "--job-id"@, job_id@],
{
    let mut args: Vec<String> = Vec::new();
    let ghost start = if program is Some && program->0@ != PROGRAM_NAME@ {
        seq![PROGRAM_NAME@]
    } else {
        Seq::empty()
    };
    match program {
        Some(program) => {
            if !text::text_eq(program, PROGRAM_NAME) {
                args.push(PROGRAM_NAME.to_owned());
            }
        },
        None => {},
    }
    args.push("worker".to_owned());
    args.push("--job-id".to_owned());
    args.push(job_id.to_owned());
    assert(text::views(args@) =~= start + seq!["worker"@, "--job-id"@, job_id@]);
    args
}

/// The arguments that an agent is started with: those that were asked for, then the command to
/// execute a prompt, then the prompt.
pub open spec fn agent_args_of(asked: Seq<Seq<char>>, prompt: Seq<char>) -> Seq<Seq<char>> {
    asked + seq!["exec"@, prompt]
}

/// The arguments that an agent is started with: those that were asked for, then the command to
/// execute a prompt, then the prompt.
pub fn agent_args(spec: &CodexAgentSpec) -> (args: Vec<String>)
    ensures
        text::views(args@) == agent_args_of(text::views(spec.codex_args@), spec.prompt@),
        text::views(args@) == text::views(spec.codex_args@) + seq!["exec"@, spec.prompt@],
{
    let mut args: Vec<String> = Vec::new();
    let mut i: usize = 0;
    while i < spec.codex_args.len()
        invariant
            i <= spec.codex_args@.len(),
            args@ == spec.codex_args@.take(i as int),
        decreases spec.codex_args@.len() - i,
    {
        args.push(spec.codex_args[i].clone());
        assert(args@ =~= spec.codex_args@.take(i as int + 1));
        i = i + 1;
    }
    assert(args@ =~= spec.codex_args@);
    args.push("exec".to_owned());
    args.push(spec.prompt.clone());
    assert(text::views(args@) =~= text::views(spec.codex_args@) + seq!["exec"@, spec.prompt@]);
    args
}

/// Whether an agent is started for a job in the state `status`: not if the job was canceled before.
pub fn may_start(status: JobStatus) -> (start: bool)
    ensures
        start == !(status is Canceled),
{
    status != JobStatus::Canceled
}

/// What a worker sees of its agent.
#[derive(Debug, Clone, Copy, PartialEq, Eq, Structural)]
pub enum AgentEvent {
    /// The agent ended by itself, with success or without.
    Exited { success: bool },
    /// The agent runs, and the job is in the state `status`.
    StillRunning { status: JobStatus },
}

/// What a worker does next.
#[derive(Debug, Clone, Copy, PartialEq, Eq, Structural)]
pub enum AgentStep {
    /// It notes that the agent lives, and waits.
    Wait,
    /// It ends the agent where `kill` says so, and finishes the job in the state `status`.
    Finish { status: JobStatus, kill: bool },
}

/// What a worker does after what it sees.
pub open spec fn step_after(event: AgentEvent) -> AgentStep {
    match event {
        AgentEvent::Exited { success } => AgentStep::Finish {
            status: if success {
                JobStatus::Done
            } else {
                JobStatus::Failed
            },
            kill: false,
        },
        AgentEvent::StillRunning { status } => if status is Canceled {
            AgentStep::Finish { status: JobStatus::Canceled, kill: true }
        } else {
            AgentStep::Wait
        },
    }
}

/// What a worker does after what it sees.
pub fn agent_step(event: AgentEvent) -> (step: AgentStep)
    ensures
        step == step_after(event),
        match event {
            AgentEvent::Exited { success: true } => step == (AgentStep::Finish {
                status: JobStatus::Done,
                kill: false,
            }),
            AgentEvent::Exited { success: false } => step == (AgentStep::Finish {
                status: JobStatus::Failed,
                kill: false,
            }),
            AgentEvent::StillRunning { status } => step == if status is Canceled {
                AgentStep::Finish { status: JobStatus::Canceled, kill: true }
            } else {
                AgentStep::Wait
            },
        },
        step matches AgentStep::Finish { status, .. } ==> status.terminal(),
{
    match event {
        AgentEvent::Exited { success } => {
            if success {
                AgentStep::Finish { status: JobStatus::Done, kill: false }
            } else {
                AgentStep::Finish { status: JobStatus::Failed, kill: false }
            }
        },
        AgentEvent::StillRunning { status } => {
            if status == JobStatus::Canceled {
                AgentStep::Finish { status: JobStatus::Canceled, kill: true }
            } else {
                AgentStep::Wait
            }
        },
    }
}

/// How a process is shown, which may have no number any more.
pub open spec fn pid_text(pid: Option<i64>) -> Seq<char> {
    match pid {
        Some(pid) => number::decimal_of(pid as int),
        None => "-1"@,
    }
}

/// The line that sums up an agent that was started.
pub fn started_summary(pid: Option<i64>) -> (summary: String)
    ensures
        summary@ == "background agent pid="@ + pid_text(pid),
{
    let pid = match pid {
        Some(pid) => number::decimal_signed(pid),
        None => "-1".to_owned(),
    };
    "background agent pid=".to_owned().concat(pid.as_str())
}

/// The line that sums up an agent in the state `status`.
pub open spec fn summary_of(status: JobStatus) -> Seq<char> {
    match status {
        JobStatus::Done => "background agent completed"@,
        JobStatus::Failed => "background agent failed"@,
        JobStatus::Canceled => "background agent canceled"@,
        JobStatus::Running => "background agent running"@,
        JobStatus::Stalled => "background agent stalled"@,
    }
}

/// Sums up an agent in the state `status`.
pub fn agent_summary(status: JobStatus) -> (summary: String)
    ensures
        summary@ == summary_of(status),
{
    match status {
        JobStatus::Done => "background agent completed".to_owned(),
        JobStatus::Failed => "background agent failed".to_owned(),
        JobStatus::Canceled => "background agent canceled".to_owned(),
        JobStatus::Running => "background agent running".to_owned(),
        JobStatus::Stalled => "background agent stalled".to_owned(),
    }
}

/// The part of an output that is kept: all of it, or its end below a note.
pub open spec fn kept_output(output: Seq<char>) -> Seq<char> {
    if output.len() <= MAX_RESULT_CHARS {
        output
    } else {
        "[truncated to last 16000 chars]\n"@ + output.skip(output.len() - MAX_RESULT_CHARS)
    }
}

/// Keeps the end of an output.
pub fn trim_for_result(value: &str) -> (kept: String)
    ensures
        kept@ == kept_output(value@),
{
    let chars = text::chars_of(value);
    let n: usize = chars.len();
    if n <= MAX_RESULT_CHARS {
        return value.to_owned();
    }
    let end = text::string_of(&chars, n - MAX_RESULT_CHARS, n);
    assert(end@ =~= value@.skip(n - MAX_RESULT_CHARS));
    "[truncated to last 16000 chars]\n".to_owned().concat(end.as_str())
}

/// What is kept of an agent that is over.
pub open spec fn result_of(
    status: JobStatus,
    job_id: Seq<char>,
    cwd: Seq<char>,
    stdout: Seq<char>,
    stderr: Seq<char>,
) -> Seq<char> {
    "# CodeLink Background Agent Result\n\nstatus: "@ + job::status_text(status) + "\njob_id: "@
        + job_id + "\ncwd: "@ + cwd + "\n\n## stdout\n\n```text\n"@ + kept_output(stdout)
        + "\n```\n\n## stderr\n\n```text\n"@ + kept_output(stderr) + "\n```\n"@
}

/// Writes down what is kept of an agent that is over.
pub fn agent_result(job: &JobRecord, status: JobStatus, stdout: &str, stderr: &str) -> (result:
    String)
    ensures
        result@ == result_of(status, job.job_id@, job.cwd@, stdout@, stderr@),
{
    let mut result = "# CodeLink Background Agent Result\n\nstatus: ".to_owned();
    result.append(status.as_str());
    result.append("\njob_id: ");
    result.append(job.job_id.as_str());
    result.append("\ncwd: ");
    result.append(job.cwd.as_str());
    result.append("\n\n## stdout\n\n```text\n");
    result.append(trim_for_result(stdout).as_str());
    result.append("\n```\n\n## stderr\n\n```text\n");
    result.append(trim_for_result(stderr).as_str());
    result.append("\n```\n");
    result
}

/// What is kept of an output ends as the output ends, for as many characters as are kept.
pub proof fn law_end_of_output_is_kept(output: Seq<char>, i: int)
    requires
        0 <= i < output.len(),
        i < MAX_RESULT_CHARS,
    ensures
        i < kept_output(output).len(),
        kept_output(output)[kept_output(output).len() - 1 - i] == output[output.len() - 1 - i],
{
}

/// However long an output is, what is kept of it is bounded.
pub proof fn law_kept_output_is_bounded(output: Seq<char>)
    ensures
        kept_output(output).len() <= MAX_RESULT_CHARS + 32,
{
    reveal_strlit("[truncated to last 16000 chars]\n");
}

/// A worker is told its job in its last words, and the name of the program comes before them exactly if
/// another program starts it.
pub proof fn law_worker_is_told_its_job(program: Option<Seq<char>>, job_id: Seq<char>)
    ensures
        ({
            let args = worker_args_of(program, job_id);
            let n = args.len() as int;
            &&& args[n - 3] == "worker"@ && args[n - 2] == "--job-id"@ && args[n - 1] == job_id
            &&& n == 4 ==> args[0] == "codelink"@
            &&& n == 4 <==> (program matches Some(name) && name != "codelink"@)
            &&& n == 3 || n == 4
        }),
{
}

/// An agent is started with the arguments that were asked for, unchanged and in order, and then told to
/// execute the prompt.
pub proof fn law_agent_is_told_its_prompt(asked: Seq<Seq<char>>, prompt: Seq<char>, i: int)
    requires
        0 <= i < asked.len(),
    ensures
        ({
            let args = agent_args_of(asked, prompt);
            &&& args.len() == asked.len() + 2
            &&& args[i] == asked[i]
            &&& args[asked.len() as int] == "exec"@
            &&& args.last() == prompt
        }),
{
}

/// An agent is killed exactly if its job was canceled while it runs; its job is finished as done or
/// failed exactly if it ended by itself; in every other state of the job it runs on.
pub proof fn law_agent_ends_by_itself_or_by_cancellation(
    event: AgentEvent,
    success: bool,
    status: JobStatus,
)
    ensures
        (step_after(event) matches AgentStep::Finish { kill, .. } && kill) <==> event == (
        AgentEvent::StillRunning { status: JobStatus::Canceled }),
        step_after(AgentEvent::Exited { success }) == (AgentStep::Finish {
            status: if success {
                JobStatus::Done
            } else {
                JobStatus::Failed
            },
            kill: false,
        }),
        step_after(AgentEvent::StillRunning { status }) is Wait <==> status != JobStatus::Canceled,
        (step_after(event) matches AgentStep::Finish { status, .. }) ==> (
        step_after(event)->status).terminal(),
{
}

/// An output of at most 16000 characters is kept whole; of a longer one a note and the last 16000
/// characters are kept.
pub proof fn law_outputs_are_kept_up_to_their_limit(output: Seq<char>)
    ensures
        output.len() <= 16000 ==> kept_output(output) == output,
        output.len() > 16000 ==> exists|dropped: Seq<char>, end: Seq<char>|
            output == #[trigger] (dropped + end) && end.len() == 16000 && kept_output(output)
                == "[truncated to last 16000 chars]\n"@ + end,
{
    if output.len() > 16000 {
        let at = output.len() - 16000;
        assert(output =~= output.take(at) + output.skip(at));
    }
}

/// The result of an agent shows the state, the job and its directory, then below the heading of stdout
/// what is kept of stdout, and at its end, below the heading of stderr, what is kept of stderr.
pub proof fn law_result_shows_both_outputs(
    status: JobStatus,
    job_id: Seq<char>,
    cwd: Seq<char>,
    stdout: Seq<char>,
    stderr: Seq<char>,
)
    ensures
        ({
            let result = result_of(status, job_id, cwd, stdout, stderr);
            &&& text::holds(
                result,
                "\n\nstatus: "@ + job::status_text(status) + "\njob_id: "@ + job_id + "\ncwd: "@
                    + cwd + "\n\n## stdout\n\n```text\n"@ + kept_output(stdout)
                    + "\n```\n\n## stderr\n\n```text\n"@,
            )
            &&& exists|head: Seq<char>|
                result == #[trigger] (head + "\n```\n\n## stderr\n\n```text\n"@ + kept_output(
                    stderr,
                ) + "\n```\n"@)
        }),
{
    reveal_strlit("# CodeLink Background Agent Result\n\nstatus: ");
    reveal_strlit("# CodeLink Background Agent Result");
    reveal_strlit("\n\nstatus: ");
    assert("# CodeLink Background Agent Result\n\nstatus: "@ =~= "# CodeLink Background Agent Result"@
        + "\n\nstatus: "@);
    let result = result_of(status, job_id, cwd, stdout, stderr);
    let title = "# CodeLink Background Agent Result"@;
    let told = "\n\nstatus: "@ + job::status_text(status) + "\njob_id: "@ + job_id + "\ncwd: "@ + cwd
        + "\n\n## stdout\n\n```text\n"@ + kept_output(stdout);
    let heading = "\n```\n\n## stderr\n\n```text\n"@;
    let end = kept_output(stderr) + "\n```\n"@;
    assert(result =~= title + (told + heading) + end);
    text::lemma_holds(result, title, told + heading, end);
    let head = title + told;
    assert(result =~= head + heading + kept_output(stderr) + "\n```\n"@);
}

/// Results that differ in nothing but the state, the job, the directory, stdout or stderr differ, as
/// long as what is kept differs.
pub proof fn law_results_tell_their_parts_apart(
    status: JobStatus,
    other_status: JobStatus,
    job_id: Seq<char>,
    other_job_id: Seq<char>,
    cwd: Seq<char>,
    other_cwd: Seq<char>,
    stdout: Seq<char>,
    other_stdout: Seq<char>,
    stderr: Seq<char>,
    other_stderr: Seq<char>,
)
    ensures
        result_of(status, job_id, cwd, stdout, stderr) == result_of(
            other_status,
            job_id,
            cwd,
            stdout,
            stderr,
        ) ==> status == other_status,
        result_of(status, job_id, cwd, stdout, stderr) == result_of(
            status,
            other_job_id,
            cwd,
            stdout,
            stderr,
        ) ==> job_id == other_job_id,
        result_of(status, job_id, cwd, stdout, stderr) == result_of(
            status,
            job_id,
            other_cwd,
            stdout,
            stderr,
        ) ==> cwd == other_cwd,
        result_of(status, job_id, cwd, stdout, stderr) == result_of(
            status,
            job_id,
            cwd,
            other_stdout,
            stderr,
        ) ==> kept_output(stdout) == kept_output(other_stdout),
        result_of(status, job_id, cwd, stdout, stderr) == result_of(
            status,
            job_id,
            cwd,
            stdout,
            other_stderr,
        ) ==> kept_output(stderr) == kept_output(other_stderr),
{
    lemma_results_tell_states_apart(status, other_status, job_id, cwd, stdout, stderr);
    lemma_results_tell_jobs_apart(status, job_id, other_job_id, cwd, stdout, stderr);
    lemma_results_tell_directories_apart(status, job_id, cwd, other_cwd, stdout, stderr);
    lemma_results_tell_outputs_apart(status, job_id, cwd, stdout, other_stdout, stderr);
    lemma_results_tell_errors_apart(status, job_id, cwd, stdout, stderr, other_stderr);
}

/// Results that differ in nothing but the state differ.
proof fn lemma_results_tell_states_apart(
    status: JobStatus,
    other_status: JobStatus,
    job_id: Seq<char>,
    cwd: Seq<char>,
    stdout: Seq<char>,
    stderr: Seq<char>,
)
    ensures
        result_of(status, job_id, cwd, stdout, stderr) == result_of(other_status, job_id, cwd, stdout, stderr) ==> status == other_status,
{
    let before = "# CodeLink Background Agent Result\n\nstatus: "@;
    let after = "\njob_id: "@ + job_id + "\ncwd: "@ + cwd + "\n\n## stdout\n\n```text\n"@ + kept_output(stdout) + "\n```\n\n## stderr\n\n```text\n"@ + kept_output(stderr) + "\n```\n"@;
    assert(result_of(status, job_id, cwd, stdout, stderr) =~= before + job::status_text(status) + after);
    assert(result_of(other_status, job_id, cwd, stdout, stderr) =~= before + job::status_text(other_status) + after);
    text::lemma_middle_is_unique(before, job::status_text(status), job::status_text(other_status), after);
    job::law_stored_status_reads_back(status, job::status_text(status));
    job::law_stored_status_reads_back(other_status, job::status_text(status));
}

/// Results that differ in nothing but the job differ.
proof fn lemma_results_tell_jobs_apart(
    status: JobStatus,
    job_id: Seq<char>,
    other_job_id: Seq<char>,
    cwd: Seq<char>,
    stdout: Seq<char>,
    stderr: Seq<char>,
)
    ensures
        result_of(status, job_id, cwd, stdout, stderr) == result_of(status, other_job_id, cwd, stdout, stderr) ==> job_id == other_job_id,
{
    let before = "# CodeLink Background Agent Result\n\nstatus: "@ + job::status_text(status) + "\njob_id: "@;
    let after = "\ncwd: "@ + cwd + "\n\n## stdout\n\n```text\n"@ + kept_output(stdout) + "\n```\n\n## stderr\n\n```text\n"@ + kept_output(stderr) + "\n```\n"@;
    assert(result_of(status, job_id, cwd, stdout, stderr) =~= before + job_id + after);
    assert(result_of(status, other_job_id, cwd, stdout, stderr) =~= before + other_job_id + after);
    text::lemma_middle_is_unique(before, job_id, other_job_id, after);
}

/// Results that differ in nothing but the directory differ.
proof fn lemma_results_tell_directories_apart(
    status: JobStatus,
    job_id: Seq<char>,
    cwd: Seq<char>,
    other_cwd: Seq<char>,
    stdout: Seq<char>,
    stderr: Seq<char>,
)
    ensures
        result_of(status, job_id, cwd, stdout, stderr) == result_of(status, job_id, other_cwd, stdout, stderr) ==> cwd == other_cwd,
{
    let before = "# CodeLink Background Agent Result\n\nstatus: "@ + job::status_text(status) + "\njob_id: "@ + job_id + "\ncwd: "@;
    let after = "\n\n## stdout\n\n```text\n"@ + kept_output(stdout) + "\n```\n\n## stderr\n\n```text\n"@ + kept_output(stderr) + "\n```\n"@;
    assert(result_of(status, job_id, cwd, stdout, stderr) =~= before + cwd + after);
    assert(result_of(status, job_id, other_cwd, stdout, stderr) =~= before + other_cwd + after);
    text::lemma_middle_is_unique(before, cwd, other_cwd, after);
}

/// Results that differ in nothing but the kept end of stdout differ.
proof fn lemma_results_tell_outputs_apart(
    status: JobStatus,
    job_id: Seq<char>,
    cwd: Seq<char>,
    stdout: Seq<char>,
    other_stdout: Seq<char>,
    stderr: Seq<char>,
)
    ensures
        result_of(status, job_id, cwd, stdout, stderr) == result_of(status, job_id, cwd, other_stdout, stderr) ==> kept_output(stdout) == kept_output(other_stdout),
{
    let before = "# CodeLink Background Agent Result\n\nstatus: "@ + job::status_text(status) + "\njob_id: "@ + job_id + "\ncwd: "@ + cwd + "\n\n## stdout\n\n```text\n"@;
    let after = "\n```\n\n## stderr\n\n```text\n"@ + kept_output(stderr) + "\n```\n"@;
    assert(result_of(status, job_id, cwd, stdout, stderr) =~= before + kept_output(stdout) + after);
    assert(result_of(status, job_id, cwd, other_stdout, stderr) =~= before + kept_output(other_stdout) + after);
    text::lemma_middle_is_unique(before, kept_output(stdout), kept_output(other_stdout), after);
}

/// Results that differ in nothing but the kept end of stderr differ.
proof fn lemma_results_tell_errors_apart(
    status: JobStatus,
    job_id: Seq<char>,
    cwd: Seq<char>,
    stdout: Seq<char>,
    stderr: Seq<char>,
    other_stderr: Seq<char>,
)
    ensures
        result_of(status, job_id, cwd, stdout, stderr) == result_of(status, job_id, cwd, stdout, other_stderr) ==> kept_output(stderr) == kept_output(other_stderr),
{
    let before = "# CodeLink Background Agent Result\n\nstatus: "@ + job::status_text(status) + "\njob_id: "@ + job_id + "\ncwd: "@ + cwd + "\n\n## stdout\n\n```text\n"@ + kept_output(stdout) + "\n```\n\n## stderr\n\n```text\n"@;
    let after = "\n```\n"@;
    assert(result_of(status, job_id, cwd, stdout, stderr) =~= before + kept_output(stderr) + after);
    assert(result_of(status, job_id, cwd, stdout, other_stderr) =~= before + kept_output(other_stderr) + after);
    text::lemma_middle_is_unique(before, kept_output(stderr), kept_output(other_stderr), after);
}

/// The number of a process is told, or -1 where it has none.
pub proof fn law_process_is_told(pid: i64)
    ensures
        number::parse_signed_of(pid_text(Some(pid)), i64::MIN as int, i64::MAX as int) == Some(
            pid as int,
        ),
        pid_text(None) == number::decimal_of(-1),
{
    number::law_signed_numeral_reads_back(pid as int, i64::MIN as int, i64::MAX as int);
    reveal_strlit("-1");
    assert(number::decimal_of_nat(1) =~= seq!['1']);
    assert(pid_text(None) =~= number::decimal_of(-1));
}

} // verus!
