//! What can be asked of the program on its command line.
use crate::error::CodeLinkError;
use crate::job::{CodexAgentSpec, RemoteTmuxSpec};
use crate::text;
use crate::watch;
use vstd::prelude::*;
use vstd::string::*;

verus! {

/// The program that runs as an agent, unless another is asked for.
pub const DEFAULT_CODEX_BIN: &'static str = "codelink";

/// The pause between polls, in seconds, unless another is asked for.
pub const DEFAULT_INTERVAL_SECONDS: u64 = 60;

/// The number of lines that a poll reads, unless another is asked for.
pub const DEFAULT_TAIL_LINES: u32 = 120;

/// The pattern of failure, unless another is asked for.
pub const DEFAULT_FAILURE_REGEX: &'static str = "(?i)(traceback|\\berror\\b|failed|oom|killed)";

/// The time without growth after which a log counts as stalled, in seconds, unless another is asked
/// for.
pub const DEFAULT_STALL_AFTER_SECONDS: i64 = 1800;

/// A command line.
#[derive(Debug)]
pub struct Cli {
    pub subcommand: CommandKind,
}

/// A command.
#[derive(Debug)]
pub enum CommandKind {
    /// Run a background agent task.
    Bg(BgArgs),
    /// Watch a remote tmux/log job in the background.
    WatchRemote(WatchRemoteArgs),
    /// List the jobs.
    Jobs(JobsArgs),
    /// Show the latest result or notification for a job.
    Result(JobIdArgs),
    /// Print a job's captured log snapshots.
    Logs(JobIdArgs),
    /// Print unread completion/failure notifications.
    Notifications(NotificationsArgs),
    /// Mark a job canceled. Running watchers will stop on the next poll.
    Cancel(JobIdArgs),
    /// Run a worker.
    Worker(WorkerArgs),
}

/// What is asked of a background agent.
#[derive(Debug, Clone)]
pub struct BgArgs {
    /// Stable human-readable job id. Defaults to an auto-generated id.
    pub job_id: Option<String>,
    /// Working directory for the background agent. Defaults to the current directory.
    pub cwd: Option<String>,
    /// The executable to run.
    pub codex_bin: String,
    /// Extra arguments before `exec`.
    pub codex_args: Vec<String>,
    /// The words of the prompt.
    pub prompt: Vec<String>,
}

/// What is asked of a watcher.
#[derive(Debug, Clone)]
pub struct WatchRemoteArgs {
    /// Stable human-readable job id. Defaults to an auto-generated id.
    pub job_id: Option<String>,
    /// SSH host alias, for example `school`.
    pub host: String,
    /// Remote tmux session name to check.
    pub tmux_session: String,
    /// Remote log path to tail.
    pub log_path: String,
    /// Poll interval in seconds.
    pub interval_seconds: u64,
    /// Number of remote log lines to capture per poll.
    pub tail_lines: u32,
    /// Regex that marks the job successful when found in the log tail.
    pub success_regex: Option<String>,
    /// Regex that marks the job failed when found in the log tail.
    pub failure_regex: String,
    /// Mark the job stalled after this many seconds without a log update.
    pub stall_after_seconds: i64,
    /// Optional note shown in job listings and notifications.
    pub note: Option<String>,
}

/// What is asked of the list of jobs.
#[derive(Debug)]
pub struct JobsArgs {
    /// Include terminal jobs.
    pub all: bool,
}

/// The job that is asked for.
#[derive(Debug)]
pub struct JobIdArgs {
    pub job_id: String,
}

/// What is asked of the notifications.
#[derive(Debug)]
pub struct NotificationsArgs {
    /// Include notifications that were already printed.
    pub all: bool,
}

/// The job that a worker works on.
#[derive(Debug)]
pub struct WorkerArgs {
    pub job_id: String,
}

/// The prompt that words make.
pub open spec fn prompt_of(words: Seq<String>) -> Seq<char> {
    text::join_of(text::views(words), " "@)
}

/// Reads what is asked of a background agent. It is refused exactly if its prompt is blank.
pub fn agent_spec(args: BgArgs) -> (spec: Result<CodexAgentSpec, CodeLinkError>)
    ensures
        match spec {
            Ok(spec) => {
                &&& text::trim_of(prompt_of(args.prompt@)).len() > 0
                &&& spec.codex_bin == args.codex_bin
                &&& spec.codex_args == args.codex_args
                &&& spec.prompt@ == prompt_of(args.prompt@)
            },
            Err(error) => {
                &&& text::trim_of(prompt_of(args.prompt@)).len() == 0
                &&& error is EmptyPrompt
            },
        },
{
    let prompt = text::join(&args.prompt, " ");
    if text::is_blank(prompt.as_str()) {
        return Err(CodeLinkError::EmptyPrompt);
    }
    Ok(CodexAgentSpec { codex_bin: args.codex_bin, codex_args: args.codex_args, prompt })
}

/// What a watcher is to watch.
pub open spec fn watched(args: WatchRemoteArgs) -> RemoteTmuxSpec {
    RemoteTmuxSpec {
        host: args.host,
        tmux_session: args.tmux_session,
        log_path: args.log_path,
        interval_seconds: args.interval_seconds,
        tail_lines: args.tail_lines,
        success_regex: args.success_regex,
        failure_regex: args.failure_regex,
        stall_after_seconds: args.stall_after_seconds,
        note: args.note,
    }
}

/// Reads what is asked of a watcher. It is refused exactly if it is not in order.
pub fn watch_spec(args: WatchRemoteArgs) -> (spec: Result<RemoteTmuxSpec, CodeLinkError>)
    ensures
        match spec {
            Ok(spec) => watch::is_sound(watched(args)) && spec == watched(args),
            Err(error) => !watch::is_sound(watched(args)) && watch::is_first_fault(
                error,
                watched(args),
            ),
        },
{
    let spec = RemoteTmuxSpec {
        host: args.host,
        tmux_session: args.tmux_session,
        log_path: args.log_path,
        interval_seconds: args.interval_seconds,
        tail_lines: args.tail_lines,
        success_regex: args.success_regex,
        failure_regex: args.failure_regex,
        stall_after_seconds: args.stall_after_seconds,
        note: args.note,
    };
    match watch::check_watch(&spec) {
        Ok(_) => Ok(spec),
        Err(error) => Err(error),
    }
}

/// The words of a prompt are put together with single spaces between them, in order.
pub proof fn law_prompt_is_its_words(first: String, rest: Seq<String>)
    ensures
        prompt_of(Seq::empty()).len() == 0,
        prompt_of(seq![first]) == first@,
        rest.len() > 0 ==> prompt_of(seq![first] + rest) == first@ + seq![' '] + prompt_of(rest),
{
    reveal_strlit(" ");
    assert(" "@ =~= seq![' ']);
    assert(text::views(Seq::empty()) =~= Seq::<Seq<char>>::empty());
    assert(text::views(seq![first]) =~= seq![first@]);
    assert(text::views(seq![first] + rest) =~= seq![first@] + text::views(rest));
    text::law_joining_separates_the_parts(first@, text::views(rest), " "@);
}

/// What is watched is what is asked for, in every respect.
pub proof fn law_watch_is_as_asked(args: WatchRemoteArgs)
    ensures
        watched(args).host == args.host,
        watched(args).tmux_session == args.tmux_session,
        watched(args).log_path == args.log_path,
        watched(args).interval_seconds == args.interval_seconds,
        watched(args).tail_lines == args.tail_lines,
        watched(args).success_regex == args.success_regex,
        watched(args).failure_regex == args.failure_regex,
        watched(args).stall_after_seconds == args.stall_after_seconds,
        watched(args).note == args.note,
{
}

} // verus!
