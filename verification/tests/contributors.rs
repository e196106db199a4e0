use git_credit::contributors::{Contributor, collect_contributors, parse_shortlog_line};

fn contributor(name: &str, email: &str, commits: u64) -> Contributor {
    Contributor {
        name: name.to_owned(),
        email: email.to_owned(),
        commits,
    }
}

#[test]
fn lists_contributors_by_commits_then_name_then_email() {
    let shortlog = "     3\tBob <bob@example.com>\n     7\tAlice <alice@example.com>\n     3\tAaron <aaron@example.com>\n";
    let list = collect_contributors(shortlog, "someone@example.com").unwrap();
    assert_eq!(
        list,
        vec![
            contributor("Alice", "alice@example.com", 7),
            contributor("Aaron", "aaron@example.com", 3),
            contributor("Bob", "bob@example.com", 3),
        ]
    );
}

#[test]
fn groups_emails_ignoring_ascii_case_and_sums_commits() {
    let shortlog = "     2\tAlice A <Alice@Example.com>\n     5\tAlice <alice@example.com>\n     1\tBob <bob@example.com>\n";
    let list = collect_contributors(shortlog, "head@example.com").unwrap();
    assert_eq!(
        list,
        vec![
            contributor("Alice", "alice@example.com", 7),
            contributor("Bob", "bob@example.com", 1),
        ]
    );
}

#[test]
fn equal_counts_prefer_the_smallest_name_then_email() {
    let shortlog = "4\tZed <Z@x.org>\n4\tAnn <z@x.org>\n";
    let list = collect_contributors(shortlog, "").unwrap();
    assert_eq!(list, vec![contributor("Ann", "z@x.org", 8)]);
}

#[test]
fn leaves_out_the_author_of_head_ignoring_case() {
    let shortlog = "10\tMe <ME@example.com>\n2\tYou <you@example.com>\n";
    let list = collect_contributors(shortlog, "me@example.com").unwrap();
    assert_eq!(list, vec![contributor("You", "you@example.com", 2)]);
}

#[test]
fn skips_lines_that_are_not_shortlog_entries() {
    let shortlog = [
        "no tab here\n",
        "x\tBad <bad@example.com>\n",
        "-1\tNegative <neg@example.com>\n",
        "3\tNo email\n",
        "3\tMissing close <open@example.com\n",
        "3\t <empty-name@example.com>\n",
        "3\tEmpty email < >\n",
        "\n",
        "18446744073709551616\tToo Many <big@example.com>\n",
        "+4\tPlus <plus@example.com>\r\n",
        "3\tTrailing space <ts@example.com> \n",
        "  2 \t  Spaced   Name  <  spaced@example.com  >",
    ]
    .join("");
    let shortlog = shortlog.as_str();
    let list = collect_contributors(shortlog, "").unwrap();
    assert_eq!(
        list,
        vec![
            contributor("Plus", "plus@example.com", 4),
            contributor("Spaced   Name", "spaced@example.com", 2),
        ]
    );
}

#[test]
fn splits_the_identity_at_the_last_angle_bracket() {
    let shortlog = "1\tA <b> <c@example.com>\n";
    let list = collect_contributors(shortlog, "").unwrap();
    assert_eq!(list, vec![contributor("A <b>", "c@example.com", 1)]);
}

#[test]
fn empty_history_gives_no_contributors() {
    assert_eq!(collect_contributors("", "me@example.com").unwrap(), vec![]);
}

#[test]
fn refuses_commit_counts_that_do_not_fit() {
    let shortlog = "18446744073709551615\tA <a@example.com>\n1\tA <A@example.com>\n";
    assert!(collect_contributors(shortlog, "").is_none());
    let separate = "18446744073709551615\tA <a@example.com>\n1\tB <b@example.com>\n";
    assert_eq!(collect_contributors(separate, "").unwrap().len(), 2);
}

#[test]
fn non_ascii_case_is_not_folded() {
    let shortlog = "1\tÉ <É@example.com>\n1\tE <é@example.com>\n";
    let list = collect_contributors(shortlog, "").unwrap();
    assert_eq!(list.len(), 2);
}

#[test]
fn a_formatted_shortlog_line_reads_back() {
    for (commits, name, email) in [
        (7u64, "Alice Example", "alice@example.com"),
        (1234567u64, "Bob <Smith>", "bob@x"),
        (u64::MAX, "Ünïcode Name", "<odd>@example.com"),
    ] {
        let line: Vec<char> = format!("{:>6}\t{} <{}>", commits, name, email).chars().collect();
        let identity = parse_shortlog_line(&line).unwrap();
        assert_eq!(identity.name.iter().collect::<String>(), name);
        assert_eq!(identity.email.iter().collect::<String>(), email);
        assert_eq!(identity.commits, commits);
    }
}
