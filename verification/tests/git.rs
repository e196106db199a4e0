use git_credit::command::GitCommand;
use git_credit::contributors::Contributor;
use git_credit::error::GitError;
use git_credit::git::{
    GitOutput, amend_head, discover_contributors, ensure_head_unchanged, ensure_safe_state,
    git_output, git_output_bytes, git_output_lossy, git_stdout, inspect_head, operation_markers,
    prepare_message, read_commit_info,
};

fn ok(stdout: &[u8]) -> GitOutput {
    GitOutput {
        status: Some(0),
        stdout: stdout.to_vec(),
        stderr: Vec::new(),
    }
}

fn failed(code: Option<i32>, stderr: &[u8]) -> GitOutput {
    GitOutput {
        status: code,
        stdout: Vec::new(),
        stderr: stderr.to_vec(),
    }
}

fn message(result: Result<impl std::fmt::Debug, GitError>) -> String {
    result.unwrap_err().message()
}

#[test]
fn inspects_a_branch_head() {
    let oid = inspect_head(&ok(b"true\n"), &ok(b"main\n"), &ok(b"0123abcd\n")).unwrap();
    assert_eq!(oid, "0123abcd");
}

#[test]
fn refuses_outside_a_repository_with_gits_words() {
    let result = inspect_head(
        &failed(Some(128), b"fatal: not a git repository\n"),
        &ok(b"main\n"),
        &ok(b"x\n"),
    );
    assert_eq!(message(result), "not inside a Git repository: fatal: not a git repository");
}

#[test]
fn refuses_a_bare_repository() {
    let result = inspect_head(&ok(b"false\n"), &ok(b"main\n"), &ok(b"x\n"));
    assert_eq!(message(result), "not inside a Git working tree");
}

#[test]
fn refuses_a_detached_head() {
    let result = inspect_head(&ok(b"true\n"), &failed(Some(1), b""), &ok(b"x\n"));
    assert_eq!(message(result), "HEAD is detached");
}

#[test]
fn refuses_an_unborn_head() {
    let result = inspect_head(&ok(b"true\n"), &ok(b"main\n"), &failed(Some(128), b"  fatal: bad\n"));
    assert_eq!(message(result), "could not resolve HEAD to a commit: fatal: bad");
}

#[test]
fn reports_invalid_utf8_with_the_command() {
    let result = inspect_head(&ok(b"tr\xffue"), &ok(b"main\n"), &ok(b"x\n"));
    assert_eq!(message(result), "git rev-parse --is-inside-work-tree returned invalid UTF-8");
}

#[test]
fn decodes_failure_details_leniently() {
    let result = git_stdout(&GitCommand::Shortlog, &failed(Some(2), b"bad \xff byte"));
    assert_eq!(message(result), "could not discover contributors: bad \u{fffd} byte");
}

#[test]
fn reads_outputs_strictly_and_leniently() {
    assert_eq!(git_output(&GitCommand::Shortlog, &ok(b" a\n")).unwrap(), " a\n");
    assert!(git_output(&GitCommand::Shortlog, &ok(b"\xff")).is_err());
    assert_eq!(git_output_lossy(&GitCommand::Shortlog, &ok(b"a\xff")).unwrap(), "a\u{fffd}");
    assert_eq!(git_stdout(&GitCommand::Shortlog, &ok(b"\t a \n")).unwrap(), "a");
    assert_eq!(git_output_bytes(&GitCommand::Shortlog, &ok(b"\xff\x00")).unwrap(), b"\xff\x00");
    assert_eq!(
        message(git_output_bytes(&GitCommand::Shortlog, &failed(None, b""))),
        "could not discover contributors"
    );
}

#[test]
fn notices_a_moved_head() {
    assert!(ensure_head_unchanged("abc", &ok(b"abc\n")).is_ok());
    assert_eq!(message(ensure_head_unchanged("abc", &ok(b"abd\n"))), "HEAD changed while picker was open");
    assert_eq!(
        message(ensure_head_unchanged("abc", &failed(Some(128), b"gone"))),
        "HEAD changed while picker was open: gone"
    );
}

#[test]
fn checks_operations_and_staged_changes() {
    assert!(ensure_safe_state("abc", false, &ok(b"")).is_ok());
    assert_eq!(message(ensure_safe_state("abc", true, &ok(b""))), "another Git operation is in progress");
    assert_eq!(message(ensure_safe_state("abc", false, &failed(Some(1), b""))), "staged changes are present");
    assert_eq!(
        message(ensure_safe_state("abc", false, &failed(Some(128), b"oops\n"))),
        "could not inspect staged changes: oops"
    );
    assert_eq!(
        message(ensure_safe_state("abc", false, &failed(None, b""))),
        "could not inspect staged changes"
    );
}

#[test]
fn names_the_operation_markers() {
    assert_eq!(
        operation_markers(),
        vec!["MERGE_HEAD", "rebase-merge", "rebase-apply", "CHERRY_PICK_HEAD", "REVERT_HEAD", "sequencer"]
    );
}

#[test]
fn discovers_contributors_without_the_head_author() {
    let list = discover_contributors(
        "abc",
        &ok(b" Me@Example.com \n"),
        &ok(b"     9\tMe <me@example.com>\n     4\tYou <you@example.com>\n"),
    )
    .unwrap();
    assert_eq!(
        list,
        vec![Contributor {
            name: "You".to_owned(),
            email: "you@example.com".to_owned(),
            commits: 4
        }]
    );
}

#[test]
fn discovery_reports_each_failure() {
    assert_eq!(
        message(discover_contributors("abc", &failed(Some(128), b"x"), &ok(b""))),
        "could not read HEAD author: x"
    );
    assert_eq!(
        message(discover_contributors("abc", &ok(b"me"), &failed(Some(1), b""))),
        "could not discover contributors"
    );
    assert_eq!(
        message(discover_contributors(
            "abc",
            &ok(b"me"),
            &ok(b"18446744073709551615\tA <a@x>\n1\tB <A@x>\n")
        )),
        "a contributor's commit count does not fit in 64 bits"
    );
}

#[test]
fn discovery_decodes_names_leniently() {
    let list = discover_contributors("abc", &ok(b"me"), &ok(b"1\tZo\xffe <z@x>\n")).unwrap();
    assert_eq!(list[0].name, "Zo\u{fffd}e");
}

#[test]
fn reads_commit_information() {
    let info = read_commit_info("abc", &ok(b"Ann\0ann@x.org\0Subject\n\nBody\0with nul\n")).unwrap();
    assert_eq!(info.author_name, "Ann");
    assert_eq!(info.author_email, "ann@x.org");
    assert_eq!(info.message, "Subject\n\nBody\0with nul\n");
}

#[test]
fn refuses_malformed_commit_information() {
    assert_eq!(message(read_commit_info("abc", &ok(b"Ann\0ann@x.org"))), "commit information is malformed");
    assert_eq!(message(read_commit_info("abc", &ok(b"\0ann@x.org\0m"))), "commit information is malformed");
    assert_eq!(message(read_commit_info("abc", &ok(b"Ann\0\0m"))), "commit information is malformed");
    assert_eq!(
        message(read_commit_info("abc", &ok(b"A\xff\0b\0m"))),
        "git show --no-patch --format=format:%aN%x00%aE%x00%B abc returned invalid UTF-8"
    );
    assert_eq!(
        message(read_commit_info("abc", &failed(Some(128), b"bad object"))),
        "could not read commit information: bad object"
    );
}

#[test]
fn prepares_one_trailer_per_contributor() {
    let alice = Contributor {
        name: "Alice".to_owned(),
        email: "alice@x.org".to_owned(),
        commits: 1,
    };
    let bob = Contributor {
        name: "Bob".to_owned(),
        email: "bob@x.org".to_owned(),
        commits: 1,
    };
    assert!(prepare_message(&[]).is_none());
    let command = prepare_message(&[&alice, &bob]).unwrap();
    assert_eq!(
        command.args(),
        vec![
            "interpret-trailers",
            "--no-in-place",
            "--trailer",
            "Co-authored-by: Alice <alice@x.org>",
            "--trailer",
            "Co-authored-by: Bob <bob@x.org>",
        ]
    );
    assert_eq!(
        message(git_output_bytes(&command, &failed(Some(1), b"no"))),
        "could not prepare commit message: no"
    );
}

#[test]
fn amend_failures_fall_back_to_standard_output() {
    assert!(amend_head(&ok(b"")).is_ok());
    let with_stderr = GitOutput {
        status: Some(1),
        stdout: b"out".to_vec(),
        stderr: b" err ".to_vec(),
    };
    assert_eq!(message(amend_head(&with_stderr)), "could not amend HEAD: err");
    let without_stderr = GitOutput {
        status: Some(1),
        stdout: b" hook said no\n".to_vec(),
        stderr: b"  ".to_vec(),
    };
    assert_eq!(message(amend_head(&without_stderr)), "could not amend HEAD: hook said no");
    assert_eq!(message(amend_head(&failed(Some(1), b""))), "could not amend HEAD");
}

#[test]
fn commands_carry_their_arguments() {
    assert_eq!(GitCommand::CurrentBranch.args(), vec!["symbolic-ref", "--quiet", "--short", "HEAD"]);
    assert_eq!(
        GitCommand::StagedDiff("abc".to_owned()).args(),
        vec!["diff", "--cached", "--quiet", "abc", "--"]
    );
    assert_eq!(
        GitCommand::Amend.args(),
        vec!["commit", "--amend", "--only", "--allow-empty", "--file=-", "--cleanup=verbatim"]
    );
    assert_eq!(GitCommand::GitPath("MERGE_HEAD".to_owned()).args(), vec!["rev-parse", "--git-path", "MERGE_HEAD"]);
    assert_eq!(GitCommand::ResolveAmendedHead.failure(), "could not resolve amended HEAD");
}

#[test]
fn malformed_commit_information_is_reported_before_invalid_utf8() {
    assert_eq!(message(read_commit_info("abc", &ok(b"A\xff"))), "commit information is malformed");
    assert_eq!(message(read_commit_info("abc", &ok(b"A\xff\0b"))), "commit information is malformed");
    assert_eq!(message(read_commit_info("abc", &ok(b"\xff\0\0m"))), "commit information is malformed");
    assert!(message(read_commit_info("abc", &ok(b"A\0b\0\xff"))).contains("invalid UTF-8"));
}
