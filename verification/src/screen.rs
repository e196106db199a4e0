use vstd::prelude::*;

use crate::contributors::{Contributor, Person};
use crate::git::{co_author_trailer, CommitInfo};
use crate::picker::Picker;
use crate::summary::{abbreviate_oid, abbreviation, decimal, push_decimal};
use crate::text::push_str;

verus! {

broadcast use {vstd::std_specs::btree::group_btree_axioms, vstd::laws_cmp::group_laws_cmp};

/// The first line of the picker: the abbreviated `HEAD` and its author.
pub open spec fn header_text(head_oid: Seq<char>, author_name: Seq<char>, author_email: Seq<char>) -> Seq<
    char,
> {
    "HEAD "@ + abbreviation(head_oid) + "  Author: "@ + author_name + " <"@ + author_email + ">"@
}

/// `HEAD <abbreviated oid>  Author: <name> <<email>>`.
pub fn header_line(head_oid: &str, commit: &CommitInfo) -> (r: String)
    ensures
        r@ == header_text(head_oid@, commit.author_name@, commit.author_email@),
{
    let mut r = String::new();
    push_str(&mut r, "HEAD ");
    push_str(&mut r, abbreviate_oid(head_oid));
    push_str(&mut r, "  Author: ");
    push_str(&mut r, commit.author_name.as_str());
    push_str(&mut r, " <");
    push_str(&mut r, commit.author_email.as_str());
    push_str(&mut r, ">");
    r
}

/// The search field: the query followed by a bar for the cursor.
pub fn search_line(query: &str) -> (r: String)
    ensures
        r@ == query@ + "\u{258f}"@,
{
    let mut r = String::new();
    push_str(&mut r, query);
    push_str(&mut r, "\u{258f}");
    r
}

/// A line of the contributor list.
pub open spec fn match_text(c: Person, selected: bool) -> Seq<char> {
    (if selected {
        "[x]"@
    } else {
        "[ ]"@
    }) + " "@ + c.name + " <"@ + c.email + ">  "@ + decimal(c.commits as nat) + " commits"@
}

/// `[x] <name> <<email>>  <n> commits`, with `[ ]` when the contributor is not selected.
pub fn match_line(contributor: &Contributor, selected: bool) -> (r: String)
    ensures
        r@ == match_text(contributor@, selected),
{
    let mut r = String::new();
    push_str(
        &mut r,
        if selected {
            "[x]"
        } else {
            "[ ]"
        },
    );
    push_str(&mut r, " ");
    push_str(&mut r, contributor.name.as_str());
    push_str(&mut r, " <");
    push_str(&mut r, contributor.email.as_str());
    push_str(&mut r, ">  ");
    push_decimal(&mut r, contributor.commits);
    push_str(&mut r, " commits");
    r
}

/// The rows of the contributor list: one for each match, in the order of the matches, marked
/// when that contributor is selected.
pub fn match_rows(picker: &Picker) -> (r: Vec<String>)
    requires
        picker.wf(),
    ensures
        r@.len() == picker.matches@.len(),
        forall|k: int|
            0 <= k < r@.len() ==> (#[trigger] r@[k])@ == match_text(
                picker.contributors@[picker.matches@[k] as int]@,
                picker.selected@.contains(picker.matches@[k]),
            ),
{
    let mut r: Vec<String> = Vec::new();
    let mut k: usize = 0;
    while k < picker.matches.len()
        invariant
            picker.wf(),
            k <= picker.matches@.len(),
            r@.len() == k,
            forall|j: int|
                0 <= j < k ==> (#[trigger] r@[j])@ == match_text(
                    picker.contributors@[picker.matches@[j] as int]@,
                    picker.selected@.contains(picker.matches@[j]),
                ),
        decreases picker.matches@.len() - k,
    {
        let index = picker.matches[k];
        assert(index < picker.contributors@.len());
        let selected = picker.selected.contains(&index);
        r.push(match_line(&picker.contributors[index], selected));
        k = k + 1;
    }
    r
}

/// ` Contributors (<shown>/<total>) `, the title of the list.
pub fn contributors_title(shown: usize, total: usize) -> (r: String)
    ensures
        r@ == " Contributors ("@ + decimal(shown as nat) + "/"@ + decimal(total as nat) + ") "@,
{
    let mut r = String::new();
    push_str(&mut r, " Contributors (");
    push_decimal(&mut r, shown as u64);
    push_str(&mut r, "/");
    push_decimal(&mut r, total as u64);
    push_str(&mut r, ") ");
    r
}

/// The trailer lines of the confirmation, each ended by a line feed.
pub open spec fn trailer_lines(selected: Seq<&Contributor>) -> Seq<char>
    decreases selected.len(),
{
    if selected.len() == 0 {
        Seq::empty()
    } else {
        trailer_lines(selected.drop_last()) + co_author_trailer(selected.last()@) + "\n"@
    }
}

/// The text of the confirmation view.
pub open spec fn confirmation_text(selected: Seq<&Contributor>) -> Seq<char> {
    "Add these co-authors to HEAD?\n\n"@ + trailer_lines(selected)
        + "\nAmending HEAD will change its commit ID."@
}

/// The confirmation: a question, the trailer that each selected contributor gets, and a
/// reminder that amending changes the commit ID.
pub fn confirmation_body(selected: &[&Contributor]) -> (r: String)
    ensures
        r@ == confirmation_text(selected@),
{
    let mut r = String::new();
    push_str(&mut r, "Add these co-authors to HEAD?\n\n");
    let ghost start = r@;
    let mut i: usize = 0;
    while i < selected.len()
        invariant
            i <= selected@.len(),
            r@ == start + trailer_lines(selected@.take(i as int)),
        decreases selected@.len() - i,
    {
        let c = selected[i];
        push_str(&mut r, "Co-authored-by: ");
        push_str(&mut r, c.name.as_str());
        push_str(&mut r, " <");
        push_str(&mut r, c.email.as_str());
        push_str(&mut r, ">");
        push_str(&mut r, "\n");
        assert(selected@.take(i + 1).drop_last() =~= selected@.take(i as int));
        assert(selected@.take(i + 1).last() == c);
        assert(r@ =~= start + trailer_lines(selected@.take(i + 1)));
        i = i + 1;
    }
    assert(selected@.take(selected@.len() as int) =~= selected@);
    push_str(&mut r, "\nAmending HEAD will change its commit ID.");
    r
}

} // verus!
