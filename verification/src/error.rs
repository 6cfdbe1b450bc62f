//! What can be wrong with a request or with a stored job.
use vstd::prelude::*;
use vstd::string::*;

verus! {

/// Why a request is refused or a stored job cannot be read.
#[derive(Debug, Clone, PartialEq, Eq)]
pub enum CodeLinkError {
    /// A stored job has a status that does not exist.
    UnknownStatus { value: String },
    /// A stored job is of a kind that does not exist.
    UnknownKind { value: String },
    /// A background agent was asked for without a prompt.
    EmptyPrompt,
    /// A watcher was asked to poll without pause.
    ZeroInterval,
    /// A watcher was asked to read no lines of the log.
    ZeroTailLines,
    /// A pattern is no regular expression; `cause` says why.
    InvalidPattern { flag: String, pattern: String, cause: String },
    /// There is no job with this id.
    JobNotFound { job_id: String },
}

impl CodeLinkError {
    /// What is said of an error.
    pub open spec fn text(self) -> Seq<char> {
        match self {
            CodeLinkError::UnknownStatus { value } => "unknown CodeLink job status `"@ + value@
                + "`"@,
            CodeLinkError::UnknownKind { value } => "unknown CodeLink job kind `"@ + value@ + "`"@,
            CodeLinkError::EmptyPrompt => "background agent prompt must not be empty"@,
            CodeLinkError::ZeroInterval => "--interval-seconds must be greater than zero"@,
            CodeLinkError::ZeroTailLines => "--tail-lines must be greater than zero"@,
            CodeLinkError::InvalidPattern { flag, pattern, .. } => "invalid "@ + flag@ + ": "@
                + pattern@,
            CodeLinkError::JobNotFound { job_id } => "CodeLink job `"@ + job_id@ + "` not found"@,
        }
    }

    /// What is said of an error.
    pub fn message(&self) -> (message: String)
        ensures
            message@ == self.text(),
    {
        match self {
            CodeLinkError::UnknownStatus { value } => {
                "unknown CodeLink job status `".to_owned().concat(value.as_str()).concat("`")
            },
            CodeLinkError::UnknownKind { value } => {
                "unknown CodeLink job kind `".to_owned().concat(value.as_str()).concat("`")
            },
            CodeLinkError::EmptyPrompt => "background agent prompt must not be empty".to_owned(),
            CodeLinkError::ZeroInterval => {
                "--interval-seconds must be greater than zero".to_owned()
            },
            CodeLinkError::ZeroTailLines => "--tail-lines must be greater than zero".to_owned(),
            CodeLinkError::InvalidPattern { flag, pattern, .. } => {
                "invalid ".to_owned().concat(flag.as_str()).concat(": ").concat(pattern.as_str())
            },
            CodeLinkError::JobNotFound { job_id } => {
                "CodeLink job `".to_owned().concat(job_id.as_str()).concat("` not found")
            },
        }
    }
}

} // verus!
