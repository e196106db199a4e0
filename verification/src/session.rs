use vstd::prelude::*;
use vstd::slice::slice_to_vec;
use vstd::utf8::encode_utf8;

use crate::command::{CommandSpec, GitCommand};
use crate::contributors::{
    identities_of, is_contributor_list, lists_key, summarizes, totals_fit, Contributor, Person,
};
use crate::error::{ErrorSpec, GitError};
use crate::git::{
    amend_detail, amend_head, co_author_trailer, command_failed, commit_info,
    discover_contributors, ensure_head_unchanged, ensure_safe_state, git_output_bytes, git_stdout,
    head_inspection, inspect_head, operation_marker_names, operation_markers,
    prepare_message, read_commit_info, run_git, safe_state, stdout_text, succeeded, utf8_lossy,
    CommitInfo, GitOutput,
};
use crate::summary::{abbreviation, amendment_summary, amendment_summary_text, decimal};
use crate::text::{str_equal, trim};

verus! {

/// Where a session stands: which answer it waits for.
#[derive(Debug, Clone, Copy, PartialEq, Eq, Structural)]
pub enum Stage {
    /// The output of `git rev-parse --is-inside-work-tree`.
    WorkTree,
    /// The output of `git symbolic-ref --quiet --short HEAD`.
    Branch,
    /// The output of `git rev-parse --verify HEAD^{commit}`.
    Head,
    /// The output of `git rev-parse --git-path` for the current operation marker.
    MarkerPath,
    /// Whether the current operation marker exists.
    MarkerExists,
    /// The output of `git diff --cached --quiet <HEAD> --`.
    Staged,
    /// The output of `git show --no-patch --format=%aE <HEAD>`.
    HeadAuthor,
    /// The output of `git shortlog --summary --numbered --email --all`.
    Shortlog,
    /// The output of `git show` with the author and message of `HEAD`.
    Commit,
    /// The contributors that the user picked.
    Picking,
    /// The output of `git rev-parse --verify HEAD^{commit}`, before amending.
    Recheck,
    /// The output of `git interpret-trailers`.
    Trailers,
    /// The output of `git commit --amend`.
    Amending,
    /// The output of `git rev-parse --verify HEAD^{commit}`, after amending.
    AmendedHead,
    /// Nothing: the session is over.
    Done,
}

/// How a session ends.
pub enum Outcome {
    /// The repository was left as it was.
    Unchanged,
    /// `HEAD` was amended; the line to print.
    Amended(String),
    /// The session stopped on an error, the repository unchanged.
    Failed(GitError),
}

/// What an `Outcome` holds, as plain values.
pub enum OutcomeSpec {
    Unchanged,
    Amended(Seq<char>),
    Failed(ErrorSpec),
}

impl View for Outcome {
    type V = OutcomeSpec;

    open spec fn view(&self) -> OutcomeSpec {
        match self {
            Outcome::Unchanged => OutcomeSpec::Unchanged,
            Outcome::Amended(summary) => OutcomeSpec::Amended(summary@),
            Outcome::Failed(e) => OutcomeSpec::Failed(e@),
        }
    }
}

/// What the session asks its caller to do next.
pub enum Request {
    /// Run `git` with the command's arguments in the repository, with no input.
    Run(GitCommand),
    /// Run `git` with the command's arguments in the repository, writing the bytes to its
    /// standard input.
    RunWithInput(GitCommand, Vec<u8>),
    /// Tell whether this path exists, taken relative to the repository unless absolute.
    CheckPath(String),
    /// Let the user pick among the session's contributors.
    Pick,
    /// Stop.
    Finish(Outcome),
}

/// What a `Request` holds, as plain values.
pub enum RequestSpec {
    Run(CommandSpec),
    RunWithInput(CommandSpec, Seq<u8>),
    CheckPath(Seq<char>),
    Pick,
    Finish(OutcomeSpec),
}

impl View for Request {
    type V = RequestSpec;

    open spec fn view(&self) -> RequestSpec {
        match self {
            Request::Run(c) => RequestSpec::Run(c@),
            Request::RunWithInput(c, input) => RequestSpec::RunWithInput(c@, input@),
            Request::CheckPath(p) => RequestSpec::CheckPath(p@),
            Request::Pick => RequestSpec::Pick,
            Request::Finish(o) => RequestSpec::Finish(o@),
        }
    }
}

/// The answer to a request.
pub enum Event {
    /// What a `git` process left.
    Output(GitOutput),
    /// Whether the path exists.
    PathExists(bool),
    /// The indices of the picked contributors, or `None` when the user cancelled.
    Picked(Option<Vec<usize>>),
}

/// What an `Event` holds, as plain values.
pub enum EventSpec {
    Output(GitOutput),
    PathExists(bool),
    Picked(Option<Seq<usize>>),
}

impl View for Event {
    type V = EventSpec;

    open spec fn view(&self) -> EventSpec {
        match self {
            Event::Output(o) => EventSpec::Output(*o),
            Event::PathExists(b) => EventSpec::PathExists(*b),
            Event::Picked(p) => EventSpec::Picked(
                match p {
                    Some(v) => Some(v@),
                    None => None,
                },
            ),
        }
    }
}

/// What a session holds, as plain values.
pub struct SessionData {
    pub stage: Stage,
    pub rechecking: bool,
    pub marker: int,
    pub outputs: Seq<GitOutput>,
    pub head_oid: Seq<char>,
    pub contributors: Seq<Person>,
    pub commit: (Seq<char>, Seq<char>, Seq<char>),
    pub selection: Seq<usize>,
    pub trailers: Option<CommandSpec>,
    pub clear_markers: int,
    pub head_rechecked: bool,
    pub state_rechecked: bool,
}

/// A run of the tool, from inspecting `HEAD` to amending it, as a sequence of requests to its
/// caller and answers from it. The first pass checks that `HEAD` is a branch on a commit, that no
/// operation is in progress and nothing is staged, and collects contributors and the commit;
/// after the pick, the second pass checks `HEAD`, the operation markers and the index again
/// before the message is prepared and `HEAD` amended.
pub struct Session {
    pub stage: Stage,
    /// In the second pass, after the pick.
    pub rechecking: bool,
    /// The operation marker being looked at.
    pub marker: usize,
    /// Outputs held until the command that needs them together has run.
    pub outputs: Vec<GitOutput>,
    pub head_oid: String,
    pub contributors: Vec<Contributor>,
    pub commit: CommitInfo,
    /// The indices of the picked contributors.
    pub selection: Vec<usize>,
    /// The `git interpret-trailers` command, once built.
    pub trailers: Option<GitCommand>,
    /// How many operation markers were found absent in this pass.
    pub clear_markers: Ghost<int>,
    /// `HEAD` was found unchanged after the pick.
    pub head_rechecked: Ghost<bool>,
    /// Operation markers and index were found clear after `HEAD` was.
    pub state_rechecked: Ghost<bool>,
}

/// The contributor views of a list.
pub open spec fn persons_of(v: Seq<Contributor>) -> Seq<Person> {
    v.map_values(|c: Contributor| c@)
}

/// The session's plain values.
pub open spec fn data(s: Session) -> SessionData {
    SessionData {
        stage: s.stage,
        rechecking: s.rechecking,
        marker: s.marker as int,
        outputs: s.outputs@,
        head_oid: s.head_oid@,
        contributors: persons_of(s.contributors@),
        commit: (s.commit.author_name@, s.commit.author_email@, s.commit.message@),
        selection: s.selection@,
        trailers: match s.trailers {
            Some(c) => Some(c@),
            None => None,
        },
        clear_markers: s.clear_markers@,
        head_rechecked: s.head_rechecked@,
        state_rechecked: s.state_rechecked@,
    }
}

/// The trailers for the picked contributors, in the order picked.
pub open spec fn trailers_for(contributors: Seq<Person>, selection: Seq<usize>) -> Seq<Seq<char>> {
    selection.map_values(|i: usize| co_author_trailer(contributors[i as int]))
}

/// The picked indices all name contributors.
pub open spec fn valid_selection(contributors: Seq<Person>, selection: Seq<usize>) -> bool {
    forall|k: int| 0 <= k < selection.len() ==> #[trigger] selection[k] < contributors.len()
}

/// What holds of a session at every stage.
pub open spec fn consistent(d: SessionData) -> bool {
    &&& 0 <= d.clear_markers <= 6
    &&& (d.stage == Stage::Branch ==> d.outputs.len() == 1)
    &&& (d.stage == Stage::Head ==> d.outputs.len() == 2)
    &&& (d.stage == Stage::Shortlog ==> d.outputs.len() == 1)
    &&& (d.stage == Stage::MarkerPath || d.stage == Stage::MarkerExists) ==> 0 <= d.marker < 6
        && d.clear_markers == d.marker
    &&& (d.stage == Stage::Staged ==> d.clear_markers == 6)
    &&& (d.stage == Stage::WorkTree || d.stage == Stage::Branch || d.stage == Stage::Head
        || d.stage == Stage::HeadAuthor || d.stage == Stage::Shortlog || d.stage == Stage::Commit
        || d.stage == Stage::Picking) ==> !d.rechecking
    &&& (d.stage == Stage::Recheck ==> d.selection.len() > 0 && valid_selection(
        d.contributors,
        d.selection,
    ) && !d.rechecking)
    &&& (d.rechecking ==> d.selection.len() > 0 && valid_selection(d.contributors, d.selection)
        && d.head_rechecked)
    &&& (!d.rechecking ==> !d.head_rechecked && !d.state_rechecked)
    &&& (d.stage == Stage::Trailers || d.stage == Stage::Amending || d.stage == Stage::AmendedHead)
        ==> d.rechecking && d.state_rechecked && d.trailers == Some(
        CommandSpec::InterpretTrailers(trailers_for(d.contributors, d.selection)),
    )
}

/// The session stops with an error, the repository unchanged.
pub open spec fn fails(d: SessionData, e: ErrorSpec, d2: SessionData, r: RequestSpec) -> bool {
    &&& d2 == SessionData { stage: Stage::Done, ..d }
    &&& r == RequestSpec::Finish(OutcomeSpec::Failed(e))
}

/// The first operation marker is looked up.
pub open spec fn starts_marker_pass(d: SessionData, rechecking: bool, d2: SessionData, r: RequestSpec) -> bool {
    &&& d2.stage == Stage::MarkerPath
    &&& d2.marker == 0
    &&& d2.clear_markers == 0
    &&& d2.rechecking == rechecking
    &&& r == RequestSpec::Run(CommandSpec::GitPath(operation_marker_names()[0]))
}

/// The result of the shortlog step: the contributor list or why there is none.
pub open spec fn shortlog_step(d: SessionData, o: GitOutput, d2: SessionData, r: RequestSpec) -> bool {
    let a = d.outputs[0];
    if !succeeded(a) {
        fails(d, command_failed(CommandSpec::HeadAuthor(d.head_oid), a), d2, r)
    } else if !succeeded(o) {
        fails(d, command_failed(CommandSpec::Shortlog, o), d2, r)
    } else {
        let ids = identities_of(utf8_lossy(o.stdout@), trim(utf8_lossy(a.stdout@)));
        if !totals_fit(ids) {
            fails(d, ErrorSpec::CommitCountOverflow, d2, r)
        } else if ids.len() == 0 {
            fails(d, ErrorSpec::NoContributors, d2, r)
        } else {
            &&& is_contributor_list(ids, d2.contributors)
            &&& d2 == SessionData {
                stage: Stage::Commit,
                outputs: Seq::empty(),
                contributors: d2.contributors,
                ..d
            }
            &&& r == RequestSpec::Run(CommandSpec::ShowCommit(d.head_oid))
        }
    }
}


/// One step of a session: from `d`, given the answer `e`, it moves to `d2` and asks `r`.
pub open spec fn steps_to(d: SessionData, e: EventSpec, d2: SessionData, r: RequestSpec) -> bool {
    match d.stage {
        Stage::WorkTree => e matches EventSpec::Output(o) && match stdout_text(
            CommandSpec::IsInsideWorkTree,
            o,
        ) {
            Err(err) => fails(d, err, d2, r),
            Ok(inside) => if inside != "true"@ {
                fails(d, ErrorSpec::NotWorkTree, d2, r)
            } else {
                d2 == SessionData { stage: Stage::Branch, outputs: seq![o], ..d } && r
                    == RequestSpec::Run(CommandSpec::CurrentBranch)
            },
        },
        Stage::Branch => e matches EventSpec::Output(o) && match stdout_text(
            CommandSpec::CurrentBranch,
            o,
        ) {
            Err(err) => fails(d, err, d2, r),
            Ok(_) => d2 == SessionData { stage: Stage::Head, outputs: d.outputs.push(o), ..d } && r
                == RequestSpec::Run(CommandSpec::ResolveHead),
        },
        Stage::Head => e matches EventSpec::Output(o) && match head_inspection(
            d.outputs[0],
            d.outputs[1],
            o,
        ) {
            Err(err) => fails(d, err, d2, r),
            Ok(oid) => starts_marker_pass(d, false, d2, r) && d2 == SessionData {
                stage: d2.stage,
                marker: d2.marker,
                clear_markers: d2.clear_markers,
                rechecking: d2.rechecking,
                head_oid: oid,
                outputs: Seq::empty(),
                ..d
            },
        },
        Stage::MarkerPath => e matches EventSpec::Output(o) && match stdout_text(
            CommandSpec::GitPath(operation_marker_names()[d.marker]),
            o,
        ) {
            Err(err) => fails(d, err, d2, r),
            Ok(path) => d2 == SessionData { stage: Stage::MarkerExists, ..d } && r
                == RequestSpec::CheckPath(path),
        },
        Stage::MarkerExists => e matches EventSpec::PathExists(exists) && if exists {
            fails(d, ErrorSpec::OperationInProgress, d2, r)
        } else if d.marker + 1 < 6 {
            d2 == SessionData {
                stage: Stage::MarkerPath,
                marker: d.marker + 1,
                clear_markers: d.clear_markers + 1,
                ..d
            } && r == RequestSpec::Run(CommandSpec::GitPath(operation_marker_names()[d.marker + 1]))
        } else {
            d2 == SessionData { stage: Stage::Staged, clear_markers: d.clear_markers + 1, ..d } && r
                == RequestSpec::Run(CommandSpec::StagedDiff(d.head_oid))
        },
        Stage::Staged => e matches EventSpec::Output(o) && match safe_state(d.head_oid, false, o) {
            Err(err) => fails(d, err, d2, r),
            Ok(_) => if !d.rechecking {
                d2 == SessionData { stage: Stage::HeadAuthor, ..d } && r == RequestSpec::Run(
                    CommandSpec::HeadAuthor(d.head_oid),
                )
            } else {
                let t = CommandSpec::InterpretTrailers(trailers_for(d.contributors, d.selection));
                d2 == SessionData {
                    stage: Stage::Trailers,
                    trailers: Some(t),
                    state_rechecked: true,
                    ..d
                } && r == RequestSpec::RunWithInput(t, encode_utf8(d.commit.2))
            },
        },
        Stage::HeadAuthor => e matches EventSpec::Output(o) && if succeeded(o) {
            d2 == SessionData { stage: Stage::Shortlog, outputs: seq![o], ..d } && r
                == RequestSpec::Run(CommandSpec::Shortlog)
        } else {
            fails(d, command_failed(CommandSpec::HeadAuthor(d.head_oid), o), d2, r)
        },
        Stage::Shortlog => e matches EventSpec::Output(o) && shortlog_step(d, o, d2, r),
        Stage::Commit => e matches EventSpec::Output(o) && match commit_info(d.head_oid, o) {
            Err(err) => fails(d, err, d2, r),
            Ok(info) => d2 == SessionData { stage: Stage::Picking, commit: info, ..d } && r
                == RequestSpec::Pick,
        },
        Stage::Picking => e matches EventSpec::Picked(picked) && match picked {
            Some(selection) if selection.len() > 0 => d2 == SessionData {
                stage: Stage::Recheck,
                selection,
                ..d
            } && r == RequestSpec::Run(CommandSpec::RecheckHead),
            _ => d2 == SessionData { stage: Stage::Done, ..d } && r == RequestSpec::Finish(
                OutcomeSpec::Unchanged,
            ),
        },
        Stage::Recheck => e matches EventSpec::Output(o) && match stdout_text(
            CommandSpec::RecheckHead,
            o,
        ) {
            Err(err) => fails(d, err, d2, r),
            Ok(current) => if current != d.head_oid {
                fails(d, ErrorSpec::HeadChanged, d2, r)
            } else {
                starts_marker_pass(d, true, d2, r) && d2 == SessionData {
                    stage: d2.stage,
                    marker: d2.marker,
                    clear_markers: d2.clear_markers,
                    rechecking: d2.rechecking,
                    head_rechecked: true,
                    ..d
                }
            },
        },
        Stage::Trailers => e matches EventSpec::Output(o) && if succeeded(o) {
            d2 == SessionData { stage: Stage::Amending, ..d } && r == RequestSpec::RunWithInput(
                CommandSpec::Amend,
                o.stdout@,
            )
        } else {
            fails(d, command_failed(d.trailers->0, o), d2, r)
        },
        Stage::Amending => e matches EventSpec::Output(o) && if succeeded(o) {
            d2 == SessionData { stage: Stage::AmendedHead, ..d } && r == RequestSpec::Run(
                CommandSpec::ResolveAmendedHead,
            )
        } else {
            fails(
                d,
                ErrorSpec::CommandFailed { command: CommandSpec::Amend, detail: amend_detail(o) },
                d2,
                r,
            )
        },
        Stage::AmendedHead => e matches EventSpec::Output(o) && match stdout_text(
            CommandSpec::ResolveAmendedHead,
            o,
        ) {
            Err(err) => fails(d, err, d2, r),
            Ok(new_oid) => d2 == SessionData { stage: Stage::Done, ..d } && r == RequestSpec::Finish(
                OutcomeSpec::Amended(
                    amendment_summary_text(d.selection.len(), d.head_oid, new_oid),
                ),
            ),
        },
        Stage::Done => false,
    }
}

/// The answer is of the kind that the stage waits for, and picked indices name contributors.
pub open spec fn answers(d: SessionData, e: EventSpec) -> bool {
    match d.stage {
        Stage::MarkerExists => e is PathExists,
        Stage::Picking => e matches EventSpec::Picked(picked) && (picked matches Some(selection)
            ==> valid_selection(d.contributors, selection)),
        Stage::Done => false,
        _ => e is Output,
    }
}


/// `HEAD` is amended only from a consistent session that, after the pick, found `HEAD` unchanged
/// and then found no operation in progress and nothing staged, with at least one contributor
/// picked; and only once the trailers were added.
pub proof fn law_amend_only_after_rechecks(d: SessionData, e: EventSpec, d2: SessionData, r: RequestSpec)
    requires
        consistent(d),
        steps_to(d, e, d2, r),
        r matches RequestSpec::RunWithInput(command, _) && command == CommandSpec::Amend,
    ensures
        d.stage == Stage::Trailers,
        d.head_rechecked,
        d.state_rechecked,
        d.selection.len() > 0,
{
}

/// The mark that `HEAD` was found unchanged is set only by the answer to the check after the
/// pick, when it names the commit that the session started from.
pub proof fn law_head_recheck_mark(d: SessionData, e: EventSpec, d2: SessionData, r: RequestSpec)
    requires
        steps_to(d, e, d2, r),
        !d.head_rechecked,
        d2.head_rechecked,
    ensures
        d.stage == Stage::Recheck,
        e matches EventSpec::Output(o) && stdout_text(CommandSpec::RecheckHead, o) == Ok::<
            Seq<char>,
            ErrorSpec,
        >(d.head_oid),
{
}

/// The mark that the state was found safe again is set only in the second pass, by a staged
/// diff that reports nothing staged, after all operation markers were found absent.
pub proof fn law_state_recheck_mark(d: SessionData, e: EventSpec, d2: SessionData, r: RequestSpec)
    requires
        consistent(d),
        steps_to(d, e, d2, r),
        !d.state_rechecked,
        d2.state_rechecked,
    ensures
        d.stage == Stage::Staged,
        d.rechecking,
        d.head_rechecked,
        d.clear_markers == operation_marker_names().len(),
        e matches EventSpec::Output(o) && safe_state(d.head_oid, false, o) is Ok,
{
}

/// A marker counts as absent only when the answer says that its path does not exist.
pub proof fn law_marker_counted_absent(d: SessionData, e: EventSpec, d2: SessionData, r: RequestSpec)
    requires
        consistent(d),
        steps_to(d, e, d2, r),
        d2.clear_markers == d.clear_markers + 1,
    ensures
        d.stage == Stage::MarkerExists,
        e == EventSpec::PathExists(false),
{
}

/// Cancelling the pick, or picking no one, ends the session and leaves the repository as it
/// was.
pub proof fn law_cancel_leaves_repository(d: SessionData, e: EventSpec, d2: SessionData, r: RequestSpec)
    requires
        steps_to(d, e, d2, r),
        d.stage == Stage::Picking,
        e matches EventSpec::Picked(picked) && (picked is None || picked->0.len() == 0),
    ensures
        r == RequestSpec::Finish(OutcomeSpec::Unchanged),
        d2.stage == Stage::Done,
{
}

/// Every request to finish ends the session.
pub proof fn law_finish_ends_session(d: SessionData, e: EventSpec, d2: SessionData, r: RequestSpec)
    requires
        steps_to(d, e, d2, r),
        r is Finish,
    ensures
        d2.stage == Stage::Done,
{
}

/// The message is prepared by `git interpret-trailers` from the commit's own message, encoded as
/// UTF-8, with one trailer per picked contributor in the order picked; and the amendment is given
/// exactly what that command printed.
pub proof fn law_message_passes_through_trailers(d: SessionData, e: EventSpec, d2: SessionData, r: RequestSpec)
    requires
        consistent(d),
        steps_to(d, e, d2, r),
    ensures
        r matches RequestSpec::RunWithInput(CommandSpec::InterpretTrailers(trailers), input) ==> d.stage
            == Stage::Staged && trailers == trailers_for(d.contributors, d.selection) && input
            == encode_utf8(d.commit.2),
        r matches RequestSpec::RunWithInput(CommandSpec::Amend, input) ==> e matches EventSpec::Output(
            o,
        ) && succeeded(o) && input == o.stdout@,
{
}

/// The message is given one trailer for each picked contributor, in the order picked: the
/// `k`-th is `Co-authored-by: <name> <<email>>` of the contributor at the `k`-th picked index.
pub proof fn law_one_trailer_per_pick(d: SessionData, e: EventSpec, d2: SessionData, r: RequestSpec)
    requires
        consistent(d),
        steps_to(d, e, d2, r),
    ensures
        r matches RequestSpec::RunWithInput(CommandSpec::InterpretTrailers(ts), _) ==> ts.len()
            == d.selection.len() && forall|k: int|
            0 <= k < ts.len() ==> #[trigger] ts[k] == "Co-authored-by: "@ + d.contributors[d.selection[k] as int].name
                + " <"@ + d.contributors[d.selection[k] as int].email + ">"@,
{
}

/// The line printed after amending counts the trailers that were added, one per picked
/// contributor, and shows the commit before and after, abbreviated.
pub proof fn law_summary_counts_trailers(d: SessionData, e: EventSpec, d2: SessionData, r: RequestSpec)
    requires
        consistent(d),
        steps_to(d, e, d2, r),
    ensures
        r matches RequestSpec::Finish(OutcomeSpec::Amended(s)) ==> (d.trailers matches Some(
            CommandSpec::InterpretTrailers(ts),
        ) && ts.len() == d.selection.len() && (e matches EventSpec::Output(o) && (stdout_text(
            CommandSpec::ResolveAmendedHead,
            o,
        ) matches Ok(new_oid) && s == "Added "@ + decimal(ts.len()) + " "@ + (if ts.len() == 1 {
            "co-author"@
        } else {
            "co-authors"@
        }) + ": "@ + abbreviation(d.head_oid) + " -> "@ + abbreviation(new_oid)))),
{
}

/// The session refuses for want of contributors only when the history names no one but the
/// author of `HEAD`: then the identities, and so every contributor list made of them, are
/// empty.
pub proof fn law_no_contributors_only_when_none(d: SessionData, e: EventSpec, d2: SessionData, r: RequestSpec)
    requires
        consistent(d),
        steps_to(d, e, d2, r),
        r == RequestSpec::Finish(OutcomeSpec::Failed(ErrorSpec::NoContributors)),
    ensures
        d.stage == Stage::Shortlog,
        e matches EventSpec::Output(o) && identities_of(
            utf8_lossy(o.stdout@),
            trim(utf8_lossy(d.outputs[0].stdout@)),
        ).len() == 0,
        e matches EventSpec::Output(o) && forall|l: Seq<Person>|
            #[trigger] is_contributor_list(
                identities_of(utf8_lossy(o.stdout@), trim(utf8_lossy(d.outputs[0].stdout@))),
                l,
            ) ==> l.len() == 0,
{
    if let EventSpec::Output(o) = e {
        let ids = identities_of(utf8_lossy(o.stdout@), trim(utf8_lossy(d.outputs[0].stdout@)));
        assert forall|l: Seq<Person>| #[trigger] is_contributor_list(ids, l) implies l.len() == 0 by {
            lemma_empty_list(ids, l);
        }
    }
}

/// When the shortlog names anyone besides the author of `HEAD` and both commands succeeded and
/// the totals fit, the session keeps the whole contributor list, which is not empty, and goes
/// on to read the commit.
pub proof fn law_contributors_kept(d: SessionData, o: GitOutput, d2: SessionData, r: RequestSpec)
    requires
        consistent(d),
        d.stage == Stage::Shortlog,
        steps_to(d, EventSpec::Output(o), d2, r),
        succeeded(d.outputs[0]),
        succeeded(o),
        totals_fit(identities_of(utf8_lossy(o.stdout@), trim(utf8_lossy(d.outputs[0].stdout@)))),
        exists|l: Seq<Person>|
            #[trigger] is_contributor_list(
                identities_of(utf8_lossy(o.stdout@), trim(utf8_lossy(d.outputs[0].stdout@))),
                l,
            ) && l.len() > 0,
    ensures
        d2.contributors.len() > 0,
        is_contributor_list(
            identities_of(utf8_lossy(o.stdout@), trim(utf8_lossy(d.outputs[0].stdout@))),
            d2.contributors,
        ),
        d2.stage == Stage::Commit,
        r == RequestSpec::Run(CommandSpec::ShowCommit(d.head_oid)),
{
    let ids = identities_of(utf8_lossy(o.stdout@), trim(utf8_lossy(d.outputs[0].stdout@)));
    let l = choose|l: Seq<Person>| #[trigger] is_contributor_list(ids, l) && l.len() > 0;
    lemma_empty_list(ids, l);
    lemma_empty_list(ids, d2.contributors);
}

/// The safety checks refuse what they are for: an operation marker that exists stops the
/// session with an operation in progress, and the staged diff lets the session go on only when
/// it exits with 0, stopping it with staged changes when it exits with 1.
pub proof fn law_safety_refusals(d: SessionData, e: EventSpec, d2: SessionData, r: RequestSpec)
    requires
        consistent(d),
        steps_to(d, e, d2, r),
    ensures
        d.stage == Stage::MarkerExists && e == EventSpec::PathExists(true) ==> r
            == RequestSpec::Finish(OutcomeSpec::Failed(ErrorSpec::OperationInProgress)),
        d.stage == Stage::Staged && !(r is Finish) ==> (e matches EventSpec::Output(o) && o.status
            == Some(0i32)),
        e matches EventSpec::Output(o) ==> (d.stage == Stage::Staged && o.status == Some(1i32) ==> r
            == RequestSpec::Finish(OutcomeSpec::Failed(ErrorSpec::StagedChanges))),
        d.stage == Stage::WorkTree && d2.stage != Stage::Done ==> (e matches EventSpec::Output(o)
            && succeeded(o) && stdout_text(CommandSpec::IsInsideWorkTree, o) == Ok::<
            Seq<char>,
            ErrorSpec,
        >("true"@)),
        d.stage == Stage::Branch && d2.stage != Stage::Done ==> (e matches EventSpec::Output(o)
            && succeeded(o)),
{
}

/// A contributor list is empty exactly when there are no identities.
pub proof fn lemma_empty_list(ids: Seq<Person>, list: Seq<Person>)
    requires
        is_contributor_list(ids, list),
    ensures
        (list.len() == 0) == (ids.len() == 0),
{
    if list.len() > 0 {
        assert(summarizes(ids, list[0]));
    }
    if ids.len() > 0 {
        assert(lists_key(list, crate::contributors::group_key(ids[0])));
    }
}

/// The command that looks up operation marker `index`.
fn marker_command(index: usize) -> (r: GitCommand)
    requires
        index < 6,
    ensures
        r@ == CommandSpec::GitPath(operation_marker_names()[index as int]),
{
    let markers = operation_markers();
    assert(markers@.map_values(|s: &str| s@).len() == 6);
    assert(markers@.map_values(|s: &str| s@)[index as int] == markers@[index as int]@);
    GitCommand::GitPath(markers[index].to_owned())
}

impl Session {
    /// A new session and its first request.
    pub fn start() -> (r: (Session, Request))
        ensures
            consistent(data(r.0)),
            r.0.stage == Stage::WorkTree,
            !r.0.rechecking,
            r.1@ == RequestSpec::Run(CommandSpec::IsInsideWorkTree),
    {
        let session = Session {
            stage: Stage::WorkTree,
            rechecking: false,
            marker: 0,
            outputs: Vec::new(),
            head_oid: String::new(),
            contributors: Vec::new(),
            commit: CommitInfo {
                author_name: String::new(),
                author_email: String::new(),
                message: String::new(),
            },
            selection: Vec::new(),
            trailers: None,
            clear_markers: Ghost(0),
            head_rechecked: Ghost(false),
            state_rechecked: Ghost(false),
        };
        (session, Request::Run(GitCommand::IsInsideWorkTree))
    }

    /// Stops with an error.
    fn fail(&mut self, e: GitError) -> (r: Request)
        ensures
            fails(data(*old(self)), e@, data(*final(self)), r@),
    {
        self.stage = Stage::Done;
        Request::Finish(Outcome::Failed(e))
    }

    /// Starts looking at the operation markers.
    fn first_marker(&mut self, rechecking: bool) -> (r: Request)
        ensures
            starts_marker_pass(data(*old(self)), rechecking, data(*final(self)), r@),
            data(*final(self)) == (SessionData {
                stage: Stage::MarkerPath,
                marker: 0,
                clear_markers: 0,
                rechecking,
                ..data(*old(self))
            }),
    {
        self.stage = Stage::MarkerPath;
        self.marker = 0;
        self.clear_markers = Ghost(0);
        self.rechecking = rechecking;
        Request::Run(marker_command(0))
    }

    /// The `git interpret-trailers` command for the picked contributors.
    fn trailers_command(&self) -> (r: GitCommand)
        requires
            self.selection@.len() > 0,
            valid_selection(persons_of(self.contributors@), self.selection@),
        ensures
            r@ == CommandSpec::InterpretTrailers(
                trailers_for(persons_of(self.contributors@), self.selection@),
            ),
            r@ matches CommandSpec::InterpretTrailers(ts) && ts.len() == self.selection@.len()
                && forall|k: int|
                0 <= k < ts.len() ==> #[trigger] ts[k] == "Co-authored-by: "@
                    + self.contributors@[self.selection@[k] as int].name@ + " <"@
                    + self.contributors@[self.selection@[k] as int].email@ + ">"@,
    {
        let mut chosen: Vec<&Contributor> = Vec::new();
        let mut k: usize = 0;
        while k < self.selection.len()
            invariant
                k <= self.selection@.len(),
                chosen@.len() == k,
                valid_selection(persons_of(self.contributors@), self.selection@),
                forall|j: int|
                    0 <= j < k ==> (#[trigger] chosen@[j])@ == persons_of(self.contributors@)[
                        self.selection@[j] as int],
            decreases self.selection@.len() - k,
        {
            assert(self.selection@[k as int] < persons_of(self.contributors@).len());
            chosen.push(&self.contributors[self.selection[k]]);
            k = k + 1;
        }
        match prepare_message(chosen.as_slice()) {
            Some(command) => {
                assert(crate::git::co_author_trailers(chosen@) =~= trailers_for(
                    persons_of(self.contributors@),
                    self.selection@,
                ));
                command
            },
            None => {
                assert(false);
                GitCommand::InterpretTrailers(Vec::new())
            },
        }
    }

    /// Takes the answer to the last request and makes the next one.
    pub fn step(&mut self, event: Event) -> (r: Request)
        requires
            consistent(data(*old(self))),
            answers(data(*old(self)), event@),
        ensures
            consistent(data(*final(self))),
            steps_to(data(*old(self)), event@, data(*final(self)), r@),
    {
        let ghost d = data(*self);
        match self.stage {
            Stage::WorkTree => {
                let Event::Output(o) = event else {
                    assert(false);
                    return Request::Pick;
                };
                match git_stdout(&GitCommand::IsInsideWorkTree, &o) {
                    Err(e) => {
                        return self.fail(e);
                    },
                    Ok(inside) => {
                        if !str_equal(inside.as_str(), "true") {
                            return self.fail(GitError::NotWorkTree);
                        }
                    },
                }
                let mut outputs: Vec<GitOutput> = Vec::new();
                outputs.push(o);
                self.outputs = outputs;
                self.stage = Stage::Branch;
                assert(self.outputs@ =~= seq![o]);
                Request::Run(GitCommand::CurrentBranch)
            },
            Stage::Branch => {
                let Event::Output(o) = event else {
                    assert(false);
                    return Request::Pick;
                };
                if let Err(e) = git_stdout(&GitCommand::CurrentBranch, &o) {
                    return self.fail(e);
                }
                self.outputs.push(o);
                self.stage = Stage::Head;
                Request::Run(GitCommand::ResolveHead)
            },
            Stage::Head => {
                let Event::Output(o) = event else {
                    assert(false);
                    return Request::Pick;
                };
                match inspect_head(&self.outputs[0], &self.outputs[1], &o) {
                    Err(e) => self.fail(e),
                    Ok(oid) => {
                        self.head_oid = oid;
                        self.outputs = Vec::new();
                        self.first_marker(false)
                    },
                }
            },
            Stage::MarkerPath => {
                let Event::Output(o) = event else {
                    assert(false);
                    return Request::Pick;
                };
                match git_stdout(&marker_command(self.marker), &o) {
                    Err(e) => self.fail(e),
                    Ok(path) => {
                        self.stage = Stage::MarkerExists;
                        Request::CheckPath(path)
                    },
                }
            },
            Stage::MarkerExists => {
                let Event::PathExists(exists) = event else {
                    assert(false);
                    return Request::Pick;
                };
                if exists {
                    self.fail(GitError::OperationInProgress)
                } else if self.marker + 1 < 6 {
                    self.marker = self.marker + 1;
                    self.clear_markers = Ghost(self.clear_markers@ + 1);
                    self.stage = Stage::MarkerPath;
                    Request::Run(marker_command(self.marker))
                } else {
                    self.clear_markers = Ghost(self.clear_markers@ + 1);
                    self.stage = Stage::Staged;
                    Request::Run(GitCommand::StagedDiff(self.head_oid.as_str().to_owned()))
                }
            },
            Stage::Staged => {
                let Event::Output(o) = event else {
                    assert(false);
                    return Request::Pick;
                };
                match ensure_safe_state(self.head_oid.as_str(), false, &o) {
                    Err(e) => self.fail(e),
                    Ok(()) => {
                        if !self.rechecking {
                            self.stage = Stage::HeadAuthor;
                            Request::Run(GitCommand::HeadAuthor(self.head_oid.as_str().to_owned()))
                        } else {
                            let command = self.trailers_command();
                            let input = slice_to_vec(self.commit.message.as_str().as_bytes());
                            self.trailers = Some(command.duplicate());
                            self.state_rechecked = Ghost(true);
                            self.stage = Stage::Trailers;
                            Request::RunWithInput(command, input)
                        }
                    },
                }
            },
            Stage::HeadAuthor => {
                let Event::Output(o) = event else {
                    assert(false);
                    return Request::Pick;
                };
                if let Err(e) = run_git(&GitCommand::HeadAuthor(self.head_oid.as_str().to_owned()), &o) {
                    return self.fail(e);
                }
                let mut outputs: Vec<GitOutput> = Vec::new();
                outputs.push(o);
                self.outputs = outputs;
                self.stage = Stage::Shortlog;
                assert(self.outputs@ =~= seq![o]);
                Request::Run(GitCommand::Shortlog)
            },
            Stage::Shortlog => {
                let Event::Output(o) = event else {
                    assert(false);
                    return Request::Pick;
                };
                match discover_contributors(self.head_oid.as_str(), &self.outputs[0], &o) {
                    Err(e) => self.fail(e),
                    Ok(list) => {
                        proof {
                            if succeeded(self.outputs@[0]) && succeeded(o) {
                                lemma_empty_list(
                                    identities_of(
                                        utf8_lossy(o.stdout@),
                                        trim(utf8_lossy(self.outputs@[0].stdout@)),
                                    ),
                                    persons_of(list@),
                                );
                            }
                        }
                        if list.len() == 0 {
                            self.fail(GitError::NoContributors)
                        } else {
                            self.contributors = list;
                            self.outputs = Vec::new();
                            self.stage = Stage::Commit;
                            Request::Run(GitCommand::ShowCommit(self.head_oid.as_str().to_owned()))
                        }
                    },
                }
            },
            Stage::Commit => {
                let Event::Output(o) = event else {
                    assert(false);
                    return Request::Pick;
                };
                match read_commit_info(self.head_oid.as_str(), &o) {
                    Err(e) => self.fail(e),
                    Ok(info) => {
                        self.commit = info;
                        self.stage = Stage::Picking;
                        Request::Pick
                    },
                }
            },
            Stage::Picking => {
                let Event::Picked(picked) = event else {
                    assert(false);
                    return Request::Pick;
                };
                match picked {
                    Some(selection) => {
                        if selection.len() > 0 {
                            self.selection = selection;
                            self.stage = Stage::Recheck;
                            Request::Run(GitCommand::RecheckHead)
                        } else {
                            self.stage = Stage::Done;
                            Request::Finish(Outcome::Unchanged)
                        }
                    },
                    None => {
                        self.stage = Stage::Done;
                        Request::Finish(Outcome::Unchanged)
                    },
                }
            },
            Stage::Recheck => {
                let Event::Output(o) = event else {
                    assert(false);
                    return Request::Pick;
                };
                match ensure_head_unchanged(self.head_oid.as_str(), &o) {
                    Err(e) => self.fail(e),
                    Ok(()) => {
                        self.head_rechecked = Ghost(true);
                        self.first_marker(true)
                    },
                }
            },
            Stage::Trailers => {
                let Event::Output(o) = event else {
                    assert(false);
                    return Request::Pick;
                };
                let result = match &self.trailers {
                    Some(command) => git_output_bytes(command, &o),
                    None => {
                        assert(false);
                        return Request::Pick;
                    },
                };
                match result {
                    Err(e) => self.fail(e),
                    Ok(message) => {
                        self.stage = Stage::Amending;
                        Request::RunWithInput(GitCommand::Amend, message)
                    },
                }
            },
            Stage::Amending => {
                let Event::Output(o) = event else {
                    assert(false);
                    return Request::Pick;
                };
                match amend_head(&o) {
                    Err(e) => self.fail(e),
                    Ok(()) => {
                        self.stage = Stage::AmendedHead;
                        Request::Run(GitCommand::ResolveAmendedHead)
                    },
                }
            },
            Stage::AmendedHead => {
                let Event::Output(o) = event else {
                    assert(false);
                    return Request::Pick;
                };
                match git_stdout(&GitCommand::ResolveAmendedHead, &o) {
                    Err(e) => self.fail(e),
                    Ok(new_oid) => {
                        let summary = amendment_summary(
                            self.selection.len(),
                            self.head_oid.as_str(),
                            new_oid.as_str(),
                        );
                        self.stage = Stage::Done;
                        Request::Finish(Outcome::Amended(summary))
                    },
                }
            },
            Stage::Done => {
                assert(false);
                Request::Pick
            },
        }
    }
}

} // verus!
