use vstd::prelude::*;
use vstd::slice::{slice_subrange, slice_to_vec};
use vstd::utf8::{decode_utf8, valid_utf8};

use crate::command::{string_views, CommandSpec, GitCommand};
use crate::contributors::{
    collect_contributors, identities_of, is_contributor_list, totals_fit, Contributor, Person,
};
use crate::error::{ErrorSpec, GitError};
use crate::text::{
    push_str, str_equal, trim, trimmed,
};

verus! {

/// What a finished `git` process left: its exit code (none when a signal ended it) and what it
/// printed.
#[derive(Debug)]
pub struct GitOutput {
    pub status: Option<i32>,
    pub stdout: Vec<u8>,
    pub stderr: Vec<u8>,
}

/// The author and message of a commit.
#[derive(Debug, PartialEq, Eq)]
pub struct CommitInfo {
    pub author_name: String,
    pub author_email: String,
    pub message: String,
}

/// The process exited with code 0.
pub open spec fn succeeded(o: GitOutput) -> bool {
    o.status == Some(0i32)
}

/// The text that `String::from_utf8_lossy` makes of `bytes`, where each invalid sequence becomes
/// U+FFFD.
pub uninterp spec fn utf8_lossy(bytes: Seq<u8>) -> Seq<char>;

/// `std::str::from_utf8`: the text that `bytes` encode, exactly when they are valid UTF-8.
#[verifier::external_body]
fn decode_strict(bytes: &[u8]) -> (r: Option<&str>)
    ensures
        r is Some == valid_utf8(bytes@),
        r matches Some(s) ==> s@ == decode_utf8(bytes@),
{
    std::str::from_utf8(bytes).ok()
}

/// `String::from_utf8_lossy`: the text of `bytes` with each invalid sequence replaced by U+FFFD;
/// valid UTF-8 is decoded as it is.
#[verifier::external_body]
fn decode_lossy(bytes: &[u8]) -> (r: String)
    ensures
        r@ == utf8_lossy(bytes@),
        valid_utf8(bytes@) ==> r@ == decode_utf8(bytes@),
{
    String::from_utf8_lossy(bytes).into_owned()
}

/// What a failed command is reported with: its standard error, decoded leniently and trimmed.
pub open spec fn failure_detail(o: GitOutput) -> Seq<char> {
    trim(utf8_lossy(o.stderr@))
}

/// The error for a command that exited without success.
pub open spec fn command_failed(c: CommandSpec, o: GitOutput) -> ErrorSpec {
    ErrorSpec::CommandFailed { command: c, detail: failure_detail(o) }
}

/// A text result, as plain values.
pub open spec fn text_result(r: Result<String, GitError>) -> Result<Seq<char>, ErrorSpec> {
    match r {
        Ok(s) => Ok(s@),
        Err(e) => Err(e@),
    }
}

/// A result without a value, as plain values.
pub open spec fn unit_result(r: Result<(), GitError>) -> Result<(), ErrorSpec> {
    match r {
        Ok(_) => Ok(()),
        Err(e) => Err(e@),
    }
}

/// The standard output of a command that must succeed, decoded strictly.
pub open spec fn output_text(c: CommandSpec, o: GitOutput) -> Result<Seq<char>, ErrorSpec> {
    if !succeeded(o) {
        Err(command_failed(c, o))
    } else if !valid_utf8(o.stdout@) {
        Err(ErrorSpec::InvalidUtf8 { command: c })
    } else {
        Ok(decode_utf8(o.stdout@))
    }
}

/// The standard output of a command that must succeed, decoded leniently.
pub open spec fn output_lossy(c: CommandSpec, o: GitOutput) -> Result<Seq<char>, ErrorSpec> {
    if !succeeded(o) {
        Err(command_failed(c, o))
    } else {
        Ok(utf8_lossy(o.stdout@))
    }
}

/// The trimmed standard output of a command that must succeed, decoded strictly.
pub open spec fn stdout_text(c: CommandSpec, o: GitOutput) -> Result<Seq<char>, ErrorSpec> {
    match output_text(c, o) {
        Ok(t) => Ok(trim(t)),
        Err(e) => Err(e),
    }
}

fn exited_successfully(output: &GitOutput) -> (r: bool)
    ensures
        r == succeeded(*output),
{
    match output.status {
        Some(code) => code == 0,
        None => false,
    }
}

/// The error reported when a command exits without success.
fn failure(command: &GitCommand, output: &GitOutput) -> (r: GitError)
    ensures
        r@ == command_failed(command@, *output),
{
    let stderr = decode_lossy(output.stderr.as_slice());
    GitError::CommandFailed { command: command.duplicate(), detail: trimmed(stderr.as_str()) }
}

/// Checks that the command succeeded.
pub fn run_git(command: &GitCommand, output: &GitOutput) -> (r: Result<(), GitError>)
    ensures
        unit_result(r) == if succeeded(*output) {
            Ok(())
        } else {
            Err(command_failed(command@, *output))
        },
{
    if exited_successfully(output) {
        Ok(())
    } else {
        Err(failure(command, output))
    }
}

/// The standard output of a command that must succeed, as UTF-8 text.
pub fn git_output(command: &GitCommand, output: &GitOutput) -> (r: Result<String, GitError>)
    ensures
        text_result(r) == output_text(command@, *output),
{
    run_git(command, output)?;
    match decode_strict(output.stdout.as_slice()) {
        Some(s) => Ok(s.to_owned()),
        None => Err(GitError::InvalidUtf8 { command: command.duplicate() }),
    }
}

/// The standard output of a command that must succeed, decoded leniently.
pub fn git_output_lossy(command: &GitCommand, output: &GitOutput) -> (r: Result<String, GitError>)
    ensures
        text_result(r) == output_lossy(command@, *output),
        succeeded(*output) && valid_utf8(output.stdout@) ==> utf8_lossy(output.stdout@)
            == decode_utf8(output.stdout@),
{
    run_git(command, output)?;
    Ok(decode_lossy(output.stdout.as_slice()))
}

/// The trimmed standard output of a command that must succeed, as UTF-8 text.
pub fn git_stdout(command: &GitCommand, output: &GitOutput) -> (r: Result<String, GitError>)
    ensures
        text_result(r) == stdout_text(command@, *output),
{
    let text = git_output(command, output)?;
    Ok(trimmed(text.as_str()))
}

/// What `inspect_head` concludes from the outputs of its three commands.
pub open spec fn head_inspection(work_tree: GitOutput, branch: GitOutput, head: GitOutput) -> Result<
    Seq<char>,
    ErrorSpec,
> {
    match stdout_text(CommandSpec::IsInsideWorkTree, work_tree) {
        Err(e) => Err(e),
        Ok(inside) => if inside != "true"@ {
            Err(ErrorSpec::NotWorkTree)
        } else {
            match stdout_text(CommandSpec::CurrentBranch, branch) {
                Err(e) => Err(e),
                Ok(_) => stdout_text(CommandSpec::ResolveHead, head),
            }
        },
    }
}

/// The commit that `HEAD` names, given the outputs of `git rev-parse --is-inside-work-tree`,
/// `git symbolic-ref --quiet --short HEAD` and `git rev-parse --verify HEAD^{commit}`: the
/// directory must be inside a working tree and `HEAD` must be a branch that points at a
/// commit.
pub fn inspect_head(work_tree: &GitOutput, branch: &GitOutput, head: &GitOutput) -> (r: Result<
    String,
    GitError,
>)
    ensures
        text_result(r) == head_inspection(*work_tree, *branch, *head),
{
    let inside = git_stdout(&GitCommand::IsInsideWorkTree, work_tree)?;
    if !str_equal(inside.as_str(), "true") {
        return Err(GitError::NotWorkTree);
    }
    git_stdout(&GitCommand::CurrentBranch, branch)?;
    git_stdout(&GitCommand::ResolveHead, head)
}

/// Checks, from the output of `git rev-parse --verify HEAD^{commit}`, that `HEAD` still names
/// `expected_oid`.
pub fn ensure_head_unchanged(expected_oid: &str, current: &GitOutput) -> (r: Result<(), GitError>)
    ensures
        unit_result(r) == match stdout_text(CommandSpec::RecheckHead, *current) {
            Err(e) => Err(e),
            Ok(oid) => if oid == expected_oid@ {
                Ok(())
            } else {
                Err(ErrorSpec::HeadChanged)
            },
        },
{
    let current_oid = git_stdout(&GitCommand::RecheckHead, current)?;
    if !str_equal(current_oid.as_str(), expected_oid) {
        return Err(GitError::HeadChanged);
    }
    Ok(())
}

/// The files whose presence in the Git directory shows that an operation is in progress.
pub open spec fn operation_marker_names() -> Seq<Seq<char>> {
    seq![
        "MERGE_HEAD"@,
        "rebase-merge"@,
        "rebase-apply"@,
        "CHERRY_PICK_HEAD"@,
        "REVERT_HEAD"@,
        "sequencer"@,
    ]
}

/// The files whose presence in the Git directory shows that a merge, rebase, cherry-pick,
/// revert or sequencer operation is in progress.
pub fn operation_markers() -> (r: Vec<&'static str>)
    ensures
        r@.map_values(|s: &str| s@) == operation_marker_names(),
{
    let r = vec![
        "MERGE_HEAD",
        "rebase-merge",
        "rebase-apply",
        "CHERRY_PICK_HEAD",
        "REVERT_HEAD",
        "sequencer",
    ];
    assert(r@.map_values(|s: &str| s@) =~= operation_marker_names());
    r
}

/// What `ensure_safe_state` concludes.
pub open spec fn safe_state(head_oid: Seq<char>, operation_in_progress: bool, staged: GitOutput) -> Result<
    (),
    ErrorSpec,
> {
    if operation_in_progress {
        Err(ErrorSpec::OperationInProgress)
    } else if staged.status == Some(0i32) {
        Ok(())
    } else if staged.status == Some(1i32) {
        Err(ErrorSpec::StagedChanges)
    } else {
        Err(command_failed(CommandSpec::StagedDiff(head_oid), staged))
    }
}

/// Checks that no Git operation is in progress and that nothing is staged, given whether an
/// operation marker exists and the output of `git diff --cached --quiet <head_oid> --`, which
/// exits with 1 when something is staged.
pub fn ensure_safe_state(head_oid: &str, operation_in_progress: bool, staged: &GitOutput) -> (r:
    Result<(), GitError>)
    ensures
        unit_result(r) == safe_state(head_oid@, operation_in_progress, *staged),
{
    if operation_in_progress {
        return Err(GitError::OperationInProgress);
    }
    match staged.status {
        Some(0) => Ok(()),
        Some(1) => Err(GitError::StagedChanges),
        _ => Err(failure(&GitCommand::StagedDiff(head_oid.to_owned()), staged)),
    }
}

/// What `discover_contributors` concludes, the contributor list given as a predicate.
pub open spec fn discovered(
    head_oid: Seq<char>,
    head_author: GitOutput,
    shortlog: GitOutput,
    r: Result<Seq<Contributor>, ErrorSpec>,
) -> bool {
    if !succeeded(head_author) {
        r == Err::<Seq<Contributor>, ErrorSpec>(command_failed(CommandSpec::HeadAuthor(head_oid), head_author))
    } else if !succeeded(shortlog) {
        r == Err::<Seq<Contributor>, ErrorSpec>(command_failed(CommandSpec::Shortlog, shortlog))
    } else {
        let ids = identities_of(utf8_lossy(shortlog.stdout@), trim(utf8_lossy(head_author.stdout@)));
        if !totals_fit(ids) {
            r == Err::<Seq<Contributor>, ErrorSpec>(ErrorSpec::CommitCountOverflow)
        } else {
            r matches Ok(list) && is_contributor_list(ids, list.map_values(|c: Contributor| c@))
        }
    }
}

/// The contributors found in the history, given the output of
/// `git show --no-patch --format=%aE <head_oid>` (the author of `HEAD`, who is left out) and of
/// `git shortlog --summary --numbered --email --all`.
/// Output that is valid UTF-8 is decoded as it is.
pub fn discover_contributors(head_oid: &str, head_author: &GitOutput, shortlog: &GitOutput) -> (r:
    Result<Vec<Contributor>, GitError>)
    ensures
        discovered(
            head_oid@,
            *head_author,
            *shortlog,
            match r {
                Ok(list) => Ok(list@),
                Err(e) => Err(e@),
            },
        ),
        succeeded(*head_author) && valid_utf8(head_author.stdout@) ==> utf8_lossy(
            head_author.stdout@,
        ) == decode_utf8(head_author.stdout@),
        succeeded(*head_author) && succeeded(*shortlog) && valid_utf8(shortlog.stdout@)
            ==> utf8_lossy(shortlog.stdout@) == decode_utf8(shortlog.stdout@),
{
    let author = git_output_lossy(&GitCommand::HeadAuthor(head_oid.to_owned()), head_author)?;
    let head_author_email = trimmed(author.as_str());
    let output = git_output_lossy(&GitCommand::Shortlog, shortlog)?;
    match collect_contributors(output.as_str(), head_author_email.as_str()) {
        Some(list) => Ok(list),
        None => Err(GitError::CommitCountOverflow),
    }
}

/// `i` is the position of the first NUL byte in `b`.
pub open spec fn is_first_nul(b: Seq<u8>, i: int) -> bool {
    &&& 0 <= i < b.len()
    &&& b[i] == 0
    &&& forall|k: int| 0 <= k < i ==> b[k] != 0
}

/// The position of the first NUL byte in `b`, if it holds one.
pub open spec fn first_nul(b: Seq<u8>) -> Option<int> {
    if exists|i: int| is_first_nul(b, i) {
        Some(choose|i: int| is_first_nul(b, i))
    } else {
        None
    }
}

proof fn lemma_first_nul_unique(b: Seq<u8>, i: int)
    requires
        is_first_nul(b, i),
    ensures
        first_nul(b) == Some(i),
{
    let j = choose|j: int| is_first_nul(b, j);
    assert(is_first_nul(b, j));
    if j < i {
        assert(b[j] != 0);
    } else if i < j {
        assert(b[i] != 0);
    }
}

/// The first position of a NUL byte in `bytes[lo..]`, counted from the start of `bytes`.
fn find_nul(bytes: &[u8], lo: usize) -> (r: Option<usize>)
    requires
        lo <= bytes@.len(),
    ensures
        match r {
            Some(i) => lo <= i < bytes@.len() && first_nul(bytes@.skip(lo as int)) == Some(i - lo),
            None => first_nul(bytes@.skip(lo as int)) is None,
        },
{
    let ghost sub = bytes@.skip(lo as int);
    let mut i = lo;
    while i < bytes.len()
        invariant
            lo <= i <= bytes@.len(),
            sub == bytes@.skip(lo as int),
            forall|k: int| 0 <= k < i - lo ==> sub[k] != 0,
        decreases bytes@.len() - i,
    {
        if bytes[i] == 0 {
            proof {
                lemma_first_nul_unique(sub, i - lo);
            }
            return Some(i);
        }
        i = i + 1;
    }
    None
}

/// The three fields of `git show --format=format:%aN%x00%aE%x00%B`: author name, author email
/// and message, split at the first two NUL bytes.
pub open spec fn commit_fields(b: Seq<u8>) -> Option<(Seq<u8>, Seq<u8>, Seq<u8>)> {
    match first_nul(b) {
        None => None,
        Some(i) => {
            let rest = b.skip(i + 1);
            match first_nul(rest) {
                None => None,
                Some(j) => Some((b.take(i), rest.take(j), rest.skip(j + 1))),
            }
        },
    }
}

/// What `read_commit_info` concludes, as author name, author email and message: the output is
/// split at its first two NUL bytes, and then each field must be UTF-8.
pub open spec fn commit_info(oid: Seq<char>, o: GitOutput) -> Result<
    (Seq<char>, Seq<char>, Seq<char>),
    ErrorSpec,
> {
    if !succeeded(o) {
        Err(command_failed(CommandSpec::ShowCommit(oid), o))
    } else {
        match commit_fields(o.stdout@) {
            None => Err(ErrorSpec::MalformedCommitInfo),
            Some(fields) => if fields.0.len() == 0 || fields.1.len() == 0 {
                Err(ErrorSpec::MalformedCommitInfo)
            } else if !valid_utf8(fields.0) || !valid_utf8(fields.1) || !valid_utf8(fields.2) {
                Err(ErrorSpec::InvalidUtf8 { command: CommandSpec::ShowCommit(oid) })
            } else {
                Ok((decode_utf8(fields.0), decode_utf8(fields.1), decode_utf8(fields.2)))
            },
        }
    }
}

/// The text that `bytes[lo..hi]` encode, when they are UTF-8.
fn decode_range(bytes: &[u8], lo: usize, hi: usize) -> (r: Option<String>)
    requires
        lo <= hi <= bytes@.len(),
    ensures
        r is Some == valid_utf8(bytes@.subrange(lo as int, hi as int)),
        r matches Some(s) ==> s@ == decode_utf8(bytes@.subrange(lo as int, hi as int)),
{
    match decode_strict(slice_subrange(bytes, lo, hi)) {
        Some(s) => Some(s.to_owned()),
        None => None,
    }
}

/// The author and message of commit `oid`, from the output of
/// `git show --no-patch --format=format:%aN%x00%aE%x00%B <oid>`.
pub fn read_commit_info(oid: &str, output: &GitOutput) -> (r: Result<CommitInfo, GitError>)
    ensures
        match r {
            Ok(info) => commit_info(oid@, *output) == Ok::<_, ErrorSpec>(
                (info.author_name@, info.author_email@, info.message@),
            ),
            Err(e) => commit_info(oid@, *output) == Err::<(Seq<char>, Seq<char>, Seq<char>), _>(e@),
        },
{
    run_git(&GitCommand::ShowCommit(oid.to_owned()), output)?;
    let bytes = output.stdout.as_slice();
    let n = bytes.len();
    let ghost b = bytes@;
    assert(b.skip(0) =~= b);
    let i = match find_nul(bytes, 0) {
        Some(i) => i,
        None => {
            return Err(GitError::MalformedCommitInfo);
        },
    };
    let ghost rest = b.skip(i + 1);
    let j = match find_nul(bytes, i + 1) {
        Some(j) => j,
        None => {
            return Err(GitError::MalformedCommitInfo);
        },
    };
    assert(b.take(i as int) =~= b.subrange(0, i as int));
    assert(rest.take(j - (i + 1)) =~= b.subrange(i + 1, j as int));
    assert(rest.skip(j - (i + 1) + 1) =~= b.subrange(j + 1, n as int));
    if i == 0 || j == i + 1 {
        return Err(GitError::MalformedCommitInfo);
    }
    let invalid = GitError::InvalidUtf8 { command: GitCommand::ShowCommit(oid.to_owned()) };
    let author_name = match decode_range(bytes, 0, i) {
        Some(s) => s,
        None => {
            return Err(invalid);
        },
    };
    let author_email = match decode_range(bytes, i + 1, j) {
        Some(s) => s,
        None => {
            return Err(invalid);
        },
    };
    let message = match decode_range(bytes, j + 1, n) {
        Some(s) => s,
        None => {
            return Err(invalid);
        },
    };
    Ok(CommitInfo { author_name, author_email, message })
}

/// The trailer that credits a contributor.
pub open spec fn co_author_trailer(c: Person) -> Seq<char> {
    "Co-authored-by: "@ + c.name + " <"@ + c.email + ">"@
}

/// `Co-authored-by: <name> <<email>>` for a contributor.
pub fn co_author_trailer_for(contributor: &Contributor) -> (r: String)
    ensures
        r@ == co_author_trailer(contributor@),
{
    let mut r = String::new();
    push_str(&mut r, "Co-authored-by: ");
    push_str(&mut r, contributor.name.as_str());
    push_str(&mut r, " <");
    push_str(&mut r, contributor.email.as_str());
    push_str(&mut r, ">");
    r
}

/// The trailers that credit the contributors, in order.
pub open spec fn co_author_trailers(contributors: Seq<&Contributor>) -> Seq<Seq<char>> {
    contributors.map_values(|c: &Contributor| co_author_trailer(c@))
}

/// The `git interpret-trailers` command that adds a trailer for each contributor to a message;
/// `None` when there is no one to credit, and the message stays as it is.
pub fn prepare_message(contributors: &[&Contributor]) -> (r: Option<GitCommand>)
    ensures
        (r is None) == (contributors@.len() == 0),
        r matches Some(c) ==> c@ == CommandSpec::InterpretTrailers(co_author_trailers(contributors@)),
{
    if contributors.len() == 0 {
        return None;
    }
    let mut trailers: Vec<String> = Vec::new();
    let mut i: usize = 0;
    while i < contributors.len()
        invariant
            i <= contributors@.len(),
            string_views(trailers@) == co_author_trailers(contributors@).take(i as int),
        decreases contributors@.len() - i,
    {
        let ghost before = string_views(trailers@);
        trailers.push(co_author_trailer_for(contributors[i]));
        assert(string_views(trailers@) =~= before.push(co_author_trailer(contributors@[i as int]@)));
        assert(co_author_trailers(contributors@).take(i + 1) =~= co_author_trailers(contributors@).take(
            i as int,
        ).push(co_author_trailer(contributors@[i as int]@)));
        i = i + 1;
    }
    assert(co_author_trailers(contributors@).take(contributors@.len() as int) =~= co_author_trailers(
        contributors@,
    ));
    Some(GitCommand::InterpretTrailers(trailers))
}

/// The standard output of a command that must succeed, as bytes.
pub fn git_output_bytes(command: &GitCommand, output: &GitOutput) -> (r: Result<Vec<u8>, GitError>)
    ensures
        match r {
            Ok(bytes) => succeeded(*output) && bytes@ == output.stdout@,
            Err(e) => !succeeded(*output) && e@ == command_failed(command@, *output),
        },
{
    run_git(command, output)?;
    Ok(slice_to_vec(output.stdout.as_slice()))
}

/// What a failed amendment is reported with: its standard error, trimmed, or its standard
/// output when the former is empty.
pub open spec fn amend_detail(o: GitOutput) -> Seq<char> {
    if trim(utf8_lossy(o.stderr@)).len() == 0 {
        trim(utf8_lossy(o.stdout@))
    } else {
        trim(utf8_lossy(o.stderr@))
    }
}

/// Checks the output of `git commit --amend --only --allow-empty --file=- --cleanup=verbatim`.
pub fn amend_head(output: &GitOutput) -> (r: Result<(), GitError>)
    ensures
        unit_result(r) == if succeeded(*output) {
            Ok(())
        } else {
            Err(ErrorSpec::CommandFailed { command: CommandSpec::Amend, detail: amend_detail(*output) })
        },
{
    if exited_successfully(output) {
        return Ok(());
    }
    let stderr = trimmed(decode_lossy(output.stderr.as_slice()).as_str());
    let detail = if stderr.as_str().is_empty() {
        trimmed(decode_lossy(output.stdout.as_slice()).as_str())
    } else {
        stderr
    };
    Err(GitError::CommandFailed { command: GitCommand::Amend, detail })
}

} // verus!
