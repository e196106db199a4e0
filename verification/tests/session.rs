use git_credit::git::GitOutput;
use git_credit::session::{Event, Outcome, Request, Session, Stage};

fn ok(stdout: &[u8]) -> Event {
    Event::Output(GitOutput {
        status: Some(0),
        stdout: stdout.to_vec(),
        stderr: Vec::new(),
    })
}

fn exit(code: i32, stderr: &[u8]) -> Event {
    Event::Output(GitOutput {
        status: Some(code),
        stdout: Vec::new(),
        stderr: stderr.to_vec(),
    })
}

fn args(request: &Request) -> Vec<String> {
    match request {
        Request::Run(command) | Request::RunWithInput(command, _) => command.args(),
        _ => panic!("expected a git command"),
    }
}

fn failure(request: Request) -> String {
    match request {
        Request::Finish(Outcome::Failed(e)) => e.message(),
        _ => panic!("expected a failure"),
    }
}

/// Answers the six operation markers as absent.
fn clear_markers(session: &mut Session, mut request: Request) -> Request {
    for _ in 0..6 {
        assert_eq!(args(&request)[..2], ["rev-parse", "--git-path"]);
        request = session.step(ok(b".git/NAME\n"));
        match &request {
            Request::CheckPath(path) => assert_eq!(path, ".git/NAME"),
            _ => panic!("expected a path check"),
        }
        request = session.step(Event::PathExists(false));
    }
    request
}

/// Runs a session up to the pick.
fn load(session: &mut Session, first: Request) -> Request {
    assert_eq!(args(&first), ["rev-parse", "--is-inside-work-tree"]);
    let request = session.step(ok(b"true\n"));
    assert_eq!(args(&request), ["symbolic-ref", "--quiet", "--short", "HEAD"]);
    let request = session.step(ok(b"main\n"));
    assert_eq!(args(&request), ["rev-parse", "--verify", "HEAD^{commit}"]);
    let request = session.step(ok(b"0123456789abcdef\n"));
    let request = clear_markers(session, request);
    assert_eq!(args(&request), ["diff", "--cached", "--quiet", "0123456789abcdef", "--"]);
    let request = session.step(ok(b""));
    assert_eq!(args(&request), ["show", "--no-patch", "--format=%aE", "0123456789abcdef"]);
    let request = session.step(ok(b"me@x.org\n"));
    assert_eq!(args(&request), ["shortlog", "--summary", "--numbered", "--email", "--all"]);
    let request = session.step(ok(b"5\tMe <me@x.org>\n3\tAnn <ann@x.org>\n1\tBo <bo@x.org>\n"));
    assert_eq!(
        args(&request),
        ["show", "--no-patch", "--format=format:%aN%x00%aE%x00%B", "0123456789abcdef"]
    );
    let request = session.step(ok(b"Me\0me@x.org\0Fix it\n"));
    assert!(matches!(request, Request::Pick));
    request
}

#[test]
fn amends_head_after_checking_again() {
    let (mut session, first) = Session::start();
    load(&mut session, first);
    assert_eq!(session.contributors.len(), 2);
    assert_eq!(session.contributors[0].name, "Ann");
    assert_eq!(session.commit.message, "Fix it\n");

    let request = session.step(Event::Picked(Some(vec![0, 1])));
    assert_eq!(args(&request), ["rev-parse", "--verify", "HEAD^{commit}"]);
    let request = session.step(ok(b"0123456789abcdef\n"));
    let request = clear_markers(&mut session, request);
    let request = session.step(ok(b""));
    match &request {
        Request::RunWithInput(command, input) => {
            assert_eq!(
                command.args(),
                [
                    "interpret-trailers",
                    "--no-in-place",
                    "--trailer",
                    "Co-authored-by: Ann <ann@x.org>",
                    "--trailer",
                    "Co-authored-by: Bo <bo@x.org>",
                ]
            );
            assert_eq!(input, b"Fix it\n");
        }
        _ => panic!("expected interpret-trailers"),
    }
    let request = session.step(ok(b"Fix it\n\nCo-authored-by: Ann <ann@x.org>\n"));
    match &request {
        Request::RunWithInput(command, input) => {
            assert_eq!(command.args()[..2], ["commit", "--amend"]);
            assert_eq!(input, b"Fix it\n\nCo-authored-by: Ann <ann@x.org>\n");
        }
        _ => panic!("expected the amendment"),
    }
    let request = session.step(ok(b""));
    assert_eq!(args(&request), ["rev-parse", "--verify", "HEAD^{commit}"]);
    let request = session.step(ok(b"fedcba9876543210\n"));
    match request {
        Request::Finish(Outcome::Amended(summary)) => {
            assert_eq!(summary, "Added 2 co-authors: 01234567 -> fedcba98")
        }
        _ => panic!("expected the summary"),
    }
    assert_eq!(session.stage, Stage::Done);
}

#[test]
fn cancelling_the_pick_changes_nothing() {
    let (mut session, first) = Session::start();
    load(&mut session, first);
    let request = session.step(Event::Picked(None));
    assert!(matches!(request, Request::Finish(Outcome::Unchanged)));
    assert_eq!(session.stage, Stage::Done);
}

#[test]
fn picking_no_one_changes_nothing() {
    let (mut session, first) = Session::start();
    load(&mut session, first);
    let request = session.step(Event::Picked(Some(vec![])));
    assert!(matches!(request, Request::Finish(Outcome::Unchanged)));
}

#[test]
fn stops_when_head_moved_during_the_pick() {
    let (mut session, first) = Session::start();
    load(&mut session, first);
    session.step(Event::Picked(Some(vec![1])));
    let request = session.step(ok(b"ffff\n"));
    assert_eq!(failure(request), "HEAD changed while picker was open");
}

#[test]
fn stops_when_an_operation_starts_during_the_pick() {
    let (mut session, first) = Session::start();
    load(&mut session, first);
    session.step(Event::Picked(Some(vec![1])));
    let request = session.step(ok(b"0123456789abcdef\n"));
    assert_eq!(args(&request), ["rev-parse", "--git-path", "MERGE_HEAD"]);
    session.step(ok(b".git/MERGE_HEAD\n"));
    let request = session.step(Event::PathExists(true));
    assert_eq!(failure(request), "another Git operation is in progress");
}

#[test]
fn stops_when_changes_were_staged_during_the_pick() {
    let (mut session, first) = Session::start();
    load(&mut session, first);
    session.step(Event::Picked(Some(vec![1])));
    let request = session.step(ok(b"0123456789abcdef\n"));
    let request = clear_markers(&mut session, request);
    assert_eq!(args(&request)[0], "diff");
    let request = session.step(exit(1, b""));
    assert_eq!(failure(request), "staged changes are present");
}

#[test]
fn refuses_to_start_outside_a_work_tree() {
    let (mut session, _) = Session::start();
    let request = session.step(ok(b"false\n"));
    assert_eq!(failure(request), "not inside a Git working tree");
    assert_eq!(session.stage, Stage::Done);
}

#[test]
fn refuses_a_detached_head_at_once() {
    let (mut session, _) = Session::start();
    session.step(ok(b"true\n"));
    let request = session.step(exit(128, b"fatal: ref HEAD is not a symbolic ref\n"));
    assert_eq!(failure(request), "HEAD is detached: fatal: ref HEAD is not a symbolic ref");
}

#[test]
fn stops_when_the_head_author_cannot_be_read() {
    let (mut session, _) = Session::start();
    session.step(ok(b"true\n"));
    session.step(ok(b"main\n"));
    let request = session.step(ok(b"abc\n"));
    let request = clear_markers(&mut session, request);
    assert_eq!(args(&request)[0], "diff");
    session.step(ok(b""));
    let request = session.step(exit(128, b"bad"));
    assert_eq!(failure(request), "could not read HEAD author: bad");
}

#[test]
fn refuses_to_start_with_staged_changes() {
    let (mut session, _) = Session::start();
    session.step(ok(b"true\n"));
    session.step(ok(b"main\n"));
    let request = session.step(ok(b"abc\n"));
    let request = clear_markers(&mut session, request);
    assert_eq!(args(&request), ["diff", "--cached", "--quiet", "abc", "--"]);
    let request = session.step(exit(1, b""));
    assert_eq!(failure(request), "staged changes are present");
}

#[test]
fn refuses_a_history_with_no_one_else() {
    let (mut session, _) = Session::start();
    session.step(ok(b"true\n"));
    session.step(ok(b"main\n"));
    let request = session.step(ok(b"abc\n"));
    let request = clear_markers(&mut session, request);
    assert_eq!(args(&request)[0], "diff");
    session.step(ok(b""));
    session.step(ok(b"me@x.org\n"));
    let request = session.step(ok(b"5\tMe <me@x.org>\n"));
    assert_eq!(failure(request), "no usable contributors found");
}

#[test]
fn reports_a_failed_amendment() {
    let (mut session, first) = Session::start();
    load(&mut session, first);
    session.step(Event::Picked(Some(vec![0])));
    let request = session.step(ok(b"0123456789abcdef\n"));
    let request = clear_markers(&mut session, request);
    assert_eq!(args(&request)[0], "diff");
    session.step(ok(b""));
    session.step(ok(b"Fix it\n\nCo-authored-by: Ann <ann@x.org>\n"));
    let request = session.step(exit(1, b"pre-commit hook failed\n"));
    assert_eq!(failure(request), "could not amend HEAD: pre-commit hook failed");
}
