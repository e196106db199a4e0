use git_credit::contributors::Contributor;
use git_credit::git::CommitInfo;
use git_credit::picker::{Key, Picker};
use git_credit::screen::{
    confirmation_body, contributors_title, header_line, match_line, match_rows, search_line,
};

fn alice() -> Contributor {
    Contributor {
        name: "Alice Example".to_owned(),
        email: "alice@example.com".to_owned(),
        commits: 10,
    }
}

#[test]
fn shows_head_and_author() {
    let commit = CommitInfo {
        author_name: "Current Author".to_owned(),
        author_email: "current@example.com".to_owned(),
        message: "Improve\n".to_owned(),
    };
    assert_eq!(
        header_line("0123456789abcdef0123456789abcdef01234567", &commit),
        "HEAD 01234567  Author: Current Author <current@example.com>"
    );
}

#[test]
fn shows_the_search_and_the_list() {
    assert_eq!(search_line("wo"), "wo▏");
    assert_eq!(match_line(&alice(), true), "[x] Alice Example <alice@example.com>  10 commits");
    assert_eq!(match_line(&alice(), false), "[ ] Alice Example <alice@example.com>  10 commits");
    assert_eq!(contributors_title(1, 3), " Contributors (1/3) ");
}

#[test]
fn shows_the_trailers_to_confirm() {
    let bob = Contributor {
        name: "Bob Smith".to_owned(),
        email: "bob@example.com".to_owned(),
        commits: 5,
    };
    let alice = alice();
    assert_eq!(
        confirmation_body(&[&alice, &bob]),
        "Add these co-authors to HEAD?\n\nCo-authored-by: Alice Example <alice@example.com>\nCo-authored-by: Bob Smith <bob@example.com>\n\nAmending HEAD will change its commit ID."
    );
}

#[test]
fn lists_one_row_per_match_and_marks_the_selected() {
    let bob = Contributor {
        name: "Bob Smith".to_owned(),
        email: "bob@example.com".to_owned(),
        commits: 5,
    };
    let contributors = vec![alice(), bob];
    let mut picker = Picker::new(&contributors);
    picker.handle_key(Key::Down);
    picker.handle_key(Key::plain(' '));
    assert_eq!(
        match_rows(&picker),
        vec![
            "[ ] Alice Example <alice@example.com>  10 commits".to_owned(),
            "[x] Bob Smith <bob@example.com>  5 commits".to_owned(),
        ]
    );
    picker.handle_key(Key::plain('b'));
    picker.handle_key(Key::plain('o'));
    picker.handle_key(Key::plain('b'));
    assert_eq!(
        match_rows(&picker),
        vec!["[x] Bob Smith <bob@example.com>  5 commits".to_owned()]
    );
}
