use vstd::prelude::*;

use crate::command::{command_args, failure_text, CommandSpec, GitCommand};
use crate::text::{join, join_strings, push_str};

verus! {

/// Why the tool stops.
#[derive(Debug)]
pub enum GitError {
    /// A command exited without success; `detail` is what it said, trimmed, or empty.
    CommandFailed { command: GitCommand, detail: String },
    /// A command printed something that is not UTF-8.
    InvalidUtf8 { command: GitCommand },
    /// The directory is inside a repository but not inside its working tree.
    NotWorkTree,
    /// `HEAD` moved while the picker was open.
    HeadChanged,
    /// A merge, rebase, cherry-pick, revert or sequencer operation is in progress.
    OperationInProgress,
    /// The index holds staged changes.
    StagedChanges,
    /// The author name, email or message of the commit could not be told apart.
    MalformedCommitInfo,
    /// A contributor's commits do not fit in a `u64`.
    CommitCountOverflow,
    /// The history names no one to credit.
    NoContributors,
}

/// What a `GitError` holds, as plain values.
pub enum ErrorSpec {
    CommandFailed { command: CommandSpec, detail: Seq<char> },
    InvalidUtf8 { command: CommandSpec },
    NotWorkTree,
    HeadChanged,
    OperationInProgress,
    StagedChanges,
    MalformedCommitInfo,
    CommitCountOverflow,
    NoContributors,
}

impl View for GitError {
    type V = ErrorSpec;

    open spec fn view(&self) -> ErrorSpec {
        match self {
            GitError::CommandFailed { command, detail } => ErrorSpec::CommandFailed {
                command: command@,
                detail: detail@,
            },
            GitError::InvalidUtf8 { command } => ErrorSpec::InvalidUtf8 { command: command@ },
            GitError::NotWorkTree => ErrorSpec::NotWorkTree,
            GitError::HeadChanged => ErrorSpec::HeadChanged,
            GitError::OperationInProgress => ErrorSpec::OperationInProgress,
            GitError::StagedChanges => ErrorSpec::StagedChanges,
            GitError::MalformedCommitInfo => ErrorSpec::MalformedCommitInfo,
            GitError::CommitCountOverflow => ErrorSpec::CommitCountOverflow,
            GitError::NoContributors => ErrorSpec::NoContributors,
        }
    }
}

/// The message shown for an error.
pub open spec fn error_message(e: ErrorSpec) -> Seq<char> {
    match e {
        ErrorSpec::CommandFailed { command, detail } => if detail.len() == 0 {
            failure_text(command)
        } else {
            failure_text(command) + ": "@ + detail
        },
        ErrorSpec::InvalidUtf8 { command } => "git "@ + join(command_args(command), " "@)
            + " returned invalid UTF-8"@,
        ErrorSpec::NotWorkTree => "not inside a Git working tree"@,
        ErrorSpec::HeadChanged => "HEAD changed while picker was open"@,
        ErrorSpec::OperationInProgress => "another Git operation is in progress"@,
        ErrorSpec::StagedChanges => "staged changes are present"@,
        ErrorSpec::MalformedCommitInfo => "commit information is malformed"@,
        ErrorSpec::CommitCountOverflow => "a contributor's commit count does not fit in 64 bits"@,
        ErrorSpec::NoContributors => "no usable contributors found"@,
    }
}

fn text(s: &str) -> (r: String)
    ensures
        r@ == s@,
{
    s.to_owned()
}

impl GitError {
    /// The message shown for this error.
    pub fn message(&self) -> (r: String)
        ensures
            r@ == error_message(self@),
    {
        match self {
            GitError::CommandFailed { command, detail } => {
                let mut r = text(command.failure());
                if !detail.as_str().is_empty() {
                    push_str(&mut r, ": ");
                    push_str(&mut r, detail.as_str());
                }
                r
            },
            GitError::InvalidUtf8 { command } => {
                let mut r = text("git ");
                let joined = join_strings(&command.args(), " ");
                push_str(&mut r, joined.as_str());
                push_str(&mut r, " returned invalid UTF-8");
                r
            },
            GitError::NotWorkTree => text("not inside a Git working tree"),
            GitError::HeadChanged => text("HEAD changed while picker was open"),
            GitError::OperationInProgress => text("another Git operation is in progress"),
            GitError::StagedChanges => text("staged changes are present"),
            GitError::MalformedCommitInfo => text("commit information is malformed"),
            GitError::CommitCountOverflow => text(
                "a contributor's commit count does not fit in 64 bits",
            ),
            GitError::NoContributors => text("no usable contributors found"),
        }
    }
}

} // verus!
