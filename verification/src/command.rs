use vstd::prelude::*;

verus! {

/// A Git command that the tool runs, with what it needs to know.
#[derive(Debug)]
pub enum GitCommand {
    /// `git rev-parse --is-inside-work-tree`
    IsInsideWorkTree,
    /// `git symbolic-ref --quiet --short HEAD`
    CurrentBranch,
    /// `git rev-parse --verify HEAD^{commit}`, before anything else
    ResolveHead,
    /// `git rev-parse --verify HEAD^{commit}`, before amending
    RecheckHead,
    /// `git rev-parse --git-path <name>`
    GitPath(String),
    /// `git diff --cached --quiet <oid> --`
    StagedDiff(String),
    /// `git show --no-patch --format=%aE <oid>`
    HeadAuthor(String),
    /// `git shortlog --summary --numbered --email --all`
    Shortlog,
    /// `git show --no-patch --format=format:%aN%x00%aE%x00%B <oid>`
    ShowCommit(String),
    /// `git interpret-trailers --no-in-place` with a `--trailer` for each given trailer
    InterpretTrailers(Vec<String>),
    /// `git commit --amend --only --allow-empty --file=- --cleanup=verbatim`
    Amend,
    /// `git rev-parse --verify HEAD^{commit}`, after amending
    ResolveAmendedHead,
}

/// What a `GitCommand` holds, as plain values.
pub enum CommandSpec {
    IsInsideWorkTree,
    CurrentBranch,
    ResolveHead,
    RecheckHead,
    GitPath(Seq<char>),
    StagedDiff(Seq<char>),
    HeadAuthor(Seq<char>),
    Shortlog,
    ShowCommit(Seq<char>),
    InterpretTrailers(Seq<Seq<char>>),
    Amend,
    ResolveAmendedHead,
}

/// The views of a list of strings.
pub open spec fn string_views(v: Seq<String>) -> Seq<Seq<char>> {
    v.map_values(|s: String| s@)
}

impl View for GitCommand {
    type V = CommandSpec;

    open spec fn view(&self) -> CommandSpec {
        match self {
            GitCommand::IsInsideWorkTree => CommandSpec::IsInsideWorkTree,
            GitCommand::CurrentBranch => CommandSpec::CurrentBranch,
            GitCommand::ResolveHead => CommandSpec::ResolveHead,
            GitCommand::RecheckHead => CommandSpec::RecheckHead,
            GitCommand::GitPath(name) => CommandSpec::GitPath(name@),
            GitCommand::StagedDiff(oid) => CommandSpec::StagedDiff(oid@),
            GitCommand::HeadAuthor(oid) => CommandSpec::HeadAuthor(oid@),
            GitCommand::Shortlog => CommandSpec::Shortlog,
            GitCommand::ShowCommit(oid) => CommandSpec::ShowCommit(oid@),
            GitCommand::InterpretTrailers(trailers) => CommandSpec::InterpretTrailers(
                string_views(trailers@),
            ),
            GitCommand::Amend => CommandSpec::Amend,
            GitCommand::ResolveAmendedHead => CommandSpec::ResolveAmendedHead,
        }
    }
}

/// Each trailer preceded by `--trailer`.
pub open spec fn trailer_options(trailers: Seq<Seq<char>>) -> Seq<Seq<char>>
    decreases trailers.len(),
{
    if trailers.len() == 0 {
        Seq::empty()
    } else {
        trailer_options(trailers.drop_last()) + seq!["--trailer"@, trailers.last()]
    }
}

/// The arguments given to `git` for a command.
pub open spec fn command_args(c: CommandSpec) -> Seq<Seq<char>> {
    match c {
        CommandSpec::IsInsideWorkTree => seq!["rev-parse"@, "--is-inside-work-tree"@],
        CommandSpec::CurrentBranch => seq!["symbolic-ref"@, "--quiet"@, "--short"@, "HEAD"@],
        CommandSpec::ResolveHead => seq!["rev-parse"@, "--verify"@, "HEAD^{commit}"@],
        CommandSpec::RecheckHead => seq!["rev-parse"@, "--verify"@, "HEAD^{commit}"@],
        CommandSpec::ResolveAmendedHead => seq!["rev-parse"@, "--verify"@, "HEAD^{commit}"@],
        CommandSpec::GitPath(name) => seq!["rev-parse"@, "--git-path"@, name],
        CommandSpec::StagedDiff(oid) => seq!["diff"@, "--cached"@, "--quiet"@, oid, "--"@],
        CommandSpec::HeadAuthor(oid) => seq!["show"@, "--no-patch"@, "--format=%aE"@, oid],
        CommandSpec::Shortlog => seq![
            "shortlog"@,
            "--summary"@,
            "--numbered"@,
            "--email"@,
            "--all"@,
        ],
        CommandSpec::ShowCommit(oid) => seq![
            "show"@,
            "--no-patch"@,
            "--format=format:%aN%x00%aE%x00%B"@,
            oid,
        ],
        CommandSpec::InterpretTrailers(trailers) => seq!["interpret-trailers"@, "--no-in-place"@]
            + trailer_options(trailers),
        CommandSpec::Amend => seq![
            "commit"@,
            "--amend"@,
            "--only"@,
            "--allow-empty"@,
            "--file=-"@,
            "--cleanup=verbatim"@,
        ],
    }
}

/// What is reported when a command exits without success.
pub open spec fn failure_text(c: CommandSpec) -> Seq<char> {
    match c {
        CommandSpec::IsInsideWorkTree => "not inside a Git repository"@,
        CommandSpec::CurrentBranch => "HEAD is detached"@,
        CommandSpec::ResolveHead => "could not resolve HEAD to a commit"@,
        CommandSpec::RecheckHead => "HEAD changed while picker was open"@,
        CommandSpec::GitPath(_) => "could not inspect Git operation state"@,
        CommandSpec::StagedDiff(_) => "could not inspect staged changes"@,
        CommandSpec::HeadAuthor(_) => "could not read HEAD author"@,
        CommandSpec::Shortlog => "could not discover contributors"@,
        CommandSpec::ShowCommit(_) => "could not read commit information"@,
        CommandSpec::InterpretTrailers(_) => "could not prepare commit message"@,
        CommandSpec::Amend => "could not amend HEAD"@,
        CommandSpec::ResolveAmendedHead => "could not resolve amended HEAD"@,
    }
}

fn owned(s: &str) -> (r: String)
    ensures
        r@ == s@,
{
    s.to_owned()
}

fn push_arg(args: &mut Vec<String>, s: &str)
    ensures
        string_views(final(args)@) == string_views(old(args)@).push(s@),
{
    let ghost before = args@;
    args.push(owned(s));
    assert(string_views(args@) =~= string_views(before).push(s@));
}

fn push_string_arg(args: &mut Vec<String>, s: &String)
    ensures
        string_views(final(args)@) == string_views(old(args)@).push(s@),
{
    push_arg(args, s.as_str());
}

impl GitCommand {
    /// A copy of the command.
    pub fn duplicate(&self) -> (r: GitCommand)
        ensures
            r@ == self@,
    {
        match self {
            GitCommand::IsInsideWorkTree => GitCommand::IsInsideWorkTree,
            GitCommand::CurrentBranch => GitCommand::CurrentBranch,
            GitCommand::ResolveHead => GitCommand::ResolveHead,
            GitCommand::RecheckHead => GitCommand::RecheckHead,
            GitCommand::GitPath(name) => GitCommand::GitPath(owned(name.as_str())),
            GitCommand::StagedDiff(oid) => GitCommand::StagedDiff(owned(oid.as_str())),
            GitCommand::HeadAuthor(oid) => GitCommand::HeadAuthor(owned(oid.as_str())),
            GitCommand::Shortlog => GitCommand::Shortlog,
            GitCommand::ShowCommit(oid) => GitCommand::ShowCommit(owned(oid.as_str())),
            GitCommand::InterpretTrailers(trailers) => {
                let mut copy: Vec<String> = Vec::new();
                let mut i: usize = 0;
                while i < trailers.len()
                    invariant
                        i <= trailers@.len(),
                        string_views(copy@) == string_views(trailers@).take(i as int),
                    decreases trailers@.len() - i,
                {
                    push_string_arg(&mut copy, &trailers[i]);
                    assert(string_views(trailers@).take(i + 1) =~= string_views(trailers@).take(
                        i as int,
                    ).push(trailers@[i as int]@));
                    i = i + 1;
                }
                assert(string_views(trailers@).take(trailers@.len() as int) =~= string_views(
                    trailers@,
                ));
                GitCommand::InterpretTrailers(copy)
            },
            GitCommand::Amend => GitCommand::Amend,
            GitCommand::ResolveAmendedHead => GitCommand::ResolveAmendedHead,
        }
    }

    /// The arguments to give `git` for this command.
    pub fn args(&self) -> (r: Vec<String>)
        ensures
            string_views(r@) == command_args(self@),
    {
        let mut args: Vec<String> = Vec::new();
        match self {
            GitCommand::IsInsideWorkTree => {
                push_arg(&mut args, "rev-parse");
                push_arg(&mut args, "--is-inside-work-tree");
            },
            GitCommand::CurrentBranch => {
                push_arg(&mut args, "symbolic-ref");
                push_arg(&mut args, "--quiet");
                push_arg(&mut args, "--short");
                push_arg(&mut args, "HEAD");
            },
            GitCommand::ResolveHead | GitCommand::RecheckHead | GitCommand::ResolveAmendedHead => {
                push_arg(&mut args, "rev-parse");
                push_arg(&mut args, "--verify");
                push_arg(&mut args, "HEAD^{commit}");
            },
            GitCommand::GitPath(name) => {
                push_arg(&mut args, "rev-parse");
                push_arg(&mut args, "--git-path");
                push_string_arg(&mut args, name);
            },
            GitCommand::StagedDiff(oid) => {
                push_arg(&mut args, "diff");
                push_arg(&mut args, "--cached");
                push_arg(&mut args, "--quiet");
                push_string_arg(&mut args, oid);
                push_arg(&mut args, "--");
            },
            GitCommand::HeadAuthor(oid) => {
                push_arg(&mut args, "show");
                push_arg(&mut args, "--no-patch");
                push_arg(&mut args, "--format=%aE");
                push_string_arg(&mut args, oid);
            },
            GitCommand::Shortlog => {
                push_arg(&mut args, "shortlog");
                push_arg(&mut args, "--summary");
                push_arg(&mut args, "--numbered");
                push_arg(&mut args, "--email");
                push_arg(&mut args, "--all");
            },
            GitCommand::ShowCommit(oid) => {
                push_arg(&mut args, "show");
                push_arg(&mut args, "--no-patch");
                push_arg(&mut args, "--format=format:%aN%x00%aE%x00%B");
                push_string_arg(&mut args, oid);
            },
            GitCommand::InterpretTrailers(trailers) => {
                push_arg(&mut args, "interpret-trailers");
                push_arg(&mut args, "--no-in-place");
                let ghost base = string_views(args@);
                let mut i: usize = 0;
                while i < trailers.len()
                    invariant
                        i <= trailers@.len(),
                        string_views(args@) == base + trailer_options(
                            string_views(trailers@).take(i as int),
                        ),
                    decreases trailers@.len() - i,
                {
                    push_arg(&mut args, "--trailer");
                    push_string_arg(&mut args, &trailers[i]);
                    let ghost t = string_views(trailers@).take(i + 1);
                    assert(t.drop_last() =~= string_views(trailers@).take(i as int));
                    i = i + 1;
                }
                assert(string_views(trailers@).take(trailers@.len() as int) =~= string_views(
                    trailers@,
                ));
            },
            GitCommand::Amend => {
                push_arg(&mut args, "commit");
                push_arg(&mut args, "--amend");
                push_arg(&mut args, "--only");
                push_arg(&mut args, "--allow-empty");
                push_arg(&mut args, "--file=-");
                push_arg(&mut args, "--cleanup=verbatim");
            },
        }
        proof {
            assert(string_views(args@) =~= command_args(self@));
        }
        args
    }

    /// What is reported when the command exits without success.
    pub fn failure(&self) -> (r: &'static str)
        ensures
            r@ == failure_text(self@),
    {
        match self {
            GitCommand::IsInsideWorkTree => "not inside a Git repository",
            GitCommand::CurrentBranch => "HEAD is detached",
            GitCommand::ResolveHead => "could not resolve HEAD to a commit",
            GitCommand::RecheckHead => "HEAD changed while picker was open",
            GitCommand::GitPath(_) => "could not inspect Git operation state",
            GitCommand::StagedDiff(_) => "could not inspect staged changes",
            GitCommand::HeadAuthor(_) => "could not read HEAD author",
            GitCommand::Shortlog => "could not discover contributors",
            GitCommand::ShowCommit(_) => "could not read commit information",
            GitCommand::InterpretTrailers(_) => "could not prepare commit message",
            GitCommand::Amend => "could not amend HEAD",
            GitCommand::ResolveAmendedHead => "could not resolve amended HEAD",
        }
    }
}

} // verus!
