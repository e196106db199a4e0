use std::cmp::Ordering;
use vstd::prelude::*;

use crate::contributors::{Identity, Person};

verus! {

/// `a` comes strictly before `b` in lexicographic order of code points, which is the order of
/// `str` (lexicographic by UTF-8 bytes).
pub open spec fn chars_lt(a: Seq<char>, b: Seq<char>) -> bool
    decreases a.len(),
{
    if a.len() == 0 {
        b.len() > 0
    } else if b.len() == 0 {
        false
    } else if a[0] != b[0] {
        a[0] < b[0]
    } else {
        chars_lt(a.drop_first(), b.drop_first())
    }
}

pub proof fn lemma_chars_lt_irreflexive(a: Seq<char>)
    ensures
        !chars_lt(a, a),
    decreases a.len(),
{
    if a.len() > 0 {
        lemma_chars_lt_irreflexive(a.drop_first());
    }
}

pub proof fn lemma_chars_lt_asymmetric(a: Seq<char>, b: Seq<char>)
    requires
        chars_lt(a, b),
    ensures
        !chars_lt(b, a),
    decreases a.len(),
{
    if a.len() > 0 && b.len() > 0 && a[0] == b[0] {
        lemma_chars_lt_asymmetric(a.drop_first(), b.drop_first());
    }
}

pub proof fn lemma_chars_lt_transitive(a: Seq<char>, b: Seq<char>, c: Seq<char>)
    requires
        chars_lt(a, b),
        chars_lt(b, c),
    ensures
        chars_lt(a, c),
    decreases a.len(),
{
    if a.len() > 0 && b.len() > 0 && c.len() > 0 && a[0] == b[0] && b[0] == c[0] {
        lemma_chars_lt_transitive(a.drop_first(), b.drop_first(), c.drop_first());
    }
}

pub proof fn lemma_chars_lt_total(a: Seq<char>, b: Seq<char>)
    requires
        a != b,
    ensures
        chars_lt(a, b) || chars_lt(b, a),
    decreases a.len(),
{
    if a.len() > 0 && b.len() > 0 && a[0] == b[0] {
        if a.drop_first() == b.drop_first() {
            assert(a =~= seq![a[0]] + a.drop_first());
            assert(b =~= seq![b[0]] + b.drop_first());
        }
        lemma_chars_lt_total(a.drop_first(), b.drop_first());
    } else if a.len() == 0 && b.len() == 0 {
        assert(a =~= b);
    }
}

/// Three-way comparison of two character sequences in the order of `str`, as -1, 0 or 1.
fn order_sign(a: &Vec<char>, b: &Vec<char>) -> (r: i8)
    ensures
        -1 <= r <= 1,
        (r == -1) == chars_lt(a@, b@),
        (r == 0) == (a@ == b@),
        (r == 1) == chars_lt(b@, a@),
{
    let mut i: usize = 0;
    assert(a@.skip(0) =~= a@);
    assert(b@.skip(0) =~= b@);
    while i < a.len() && i < b.len()
        invariant
            i <= a@.len(),
            i <= b@.len(),
            a@.take(i as int) == b@.take(i as int),
            chars_lt(a@, b@) == chars_lt(a@.skip(i as int), b@.skip(i as int)),
            chars_lt(b@, a@) == chars_lt(b@.skip(i as int), a@.skip(i as int)),
        decreases a@.len() - i,
    {
        if a[i] < b[i] {
            assert(chars_lt(a@.skip(i as int), b@.skip(i as int)));
            proof {
                lemma_chars_lt_asymmetric(a@, b@);
            }
            assert(a@[i as int] != b@[i as int]);
            return -1;
        }
        if b[i] < a[i] {
            assert(chars_lt(b@.skip(i as int), a@.skip(i as int)));
            proof {
                lemma_chars_lt_asymmetric(b@, a@);
            }
            assert(a@[i as int] != b@[i as int]);
            return 1;
        }
        assert(a@.skip(i as int).drop_first() =~= a@.skip(i + 1));
        assert(b@.skip(i as int).drop_first() =~= b@.skip(i + 1));
        assert(a@.take(i + 1) =~= a@.take(i as int).push(a@[i as int]));
        assert(b@.take(i + 1) =~= b@.take(i as int).push(b@[i as int]));
        i = i + 1;
    }
    if a.len() < b.len() {
        proof {
            lemma_chars_lt_asymmetric(a@, b@);
        }
        assert(a@.len() != b@.len());
        -1
    } else if b.len() < a.len() {
        proof {
            lemma_chars_lt_asymmetric(b@, a@);
        }
        assert(a@.len() != b@.len());
        1
    } else {
        assert(a@ =~= a@.take(i as int));
        assert(b@ =~= b@.take(i as int));
        proof {
            lemma_chars_lt_irreflexive(a@);
        }
        0
    }
}

/// Three-way comparison of two character sequences in the order of `str`.
pub fn compare_chars(a: &Vec<char>, b: &Vec<char>) -> (r: Ordering)
    ensures
        (r == Ordering::Less) == chars_lt(a@, b@),
        (r == Ordering::Equal) == (a@ == b@),
        (r == Ordering::Greater) == chars_lt(b@, a@),
{
    let sign = order_sign(a, b);
    if sign < 0 {
        Ordering::Less
    } else if sign == 0 {
        Ordering::Equal
    } else {
        Ordering::Greater
    }
}

/// `x` is listed before `y`: more commits first, then by name, then by email.
pub open spec fn precedes(x: Person, y: Person) -> bool {
    ||| x.commits > y.commits
    ||| x.commits == y.commits && chars_lt(x.name, y.name)
    ||| x.commits == y.commits && x.name == y.name && chars_lt(x.email, y.email)
}

pub proof fn lemma_precedes_irreflexive(x: Person)
    ensures
        !precedes(x, x),
{
    lemma_chars_lt_irreflexive(x.name);
    lemma_chars_lt_irreflexive(x.email);
}

pub proof fn lemma_precedes_asymmetric(x: Person, y: Person)
    requires
        precedes(x, y),
    ensures
        !precedes(y, x),
{
    if chars_lt(x.name, y.name) {
        lemma_chars_lt_asymmetric(x.name, y.name);
    }
    if chars_lt(y.name, x.name) {
        lemma_chars_lt_asymmetric(y.name, x.name);
    }
    if chars_lt(x.email, y.email) {
        lemma_chars_lt_asymmetric(x.email, y.email);
    }
    lemma_chars_lt_irreflexive(x.name);
}

pub proof fn lemma_precedes_transitive(x: Person, y: Person, z: Person)
    requires
        precedes(x, y),
        precedes(y, z),
    ensures
        precedes(x, z),
{
    if x.commits == y.commits && y.commits == z.commits {
        if chars_lt(x.name, y.name) && chars_lt(y.name, z.name) {
            lemma_chars_lt_transitive(x.name, y.name, z.name);
        }
        if chars_lt(x.email, y.email) && chars_lt(y.email, z.email) {
            lemma_chars_lt_transitive(x.email, y.email, z.email);
        }
    }
}

pub proof fn lemma_precedes_total(x: Person, y: Person)
    requires
        x != y,
    ensures
        precedes(x, y) || precedes(y, x),
{
    if x.commits == y.commits {
        if x.name != y.name {
            lemma_chars_lt_total(x.name, y.name);
        } else if x.email != y.email {
            lemma_chars_lt_total(x.email, y.email);
        }
    }
}

/// Three-way comparison of two identities given by their parts: `Less` when the left one is
/// listed first.
fn identity_order(
    left_name: &Vec<char>,
    left_email: &Vec<char>,
    left_commits: u64,
    right_name: &Vec<char>,
    right_email: &Vec<char>,
    right_commits: u64,
) -> (r: Ordering)
    ensures
        (r == Ordering::Less) == precedes(
            Person { name: left_name@, email: left_email@, commits: left_commits },
            Person { name: right_name@, email: right_email@, commits: right_commits },
        ),
        (r == Ordering::Greater) == precedes(
            Person { name: right_name@, email: right_email@, commits: right_commits },
            Person { name: left_name@, email: left_email@, commits: left_commits },
        ),
        (r == Ordering::Equal) == (Person { name: left_name@, email: left_email@, commits: left_commits }
            == Person { name: right_name@, email: right_email@, commits: right_commits }),
{
    if left_commits > right_commits {
        Ordering::Less
    } else if left_commits < right_commits {
        Ordering::Greater
    } else {
        match compare_chars(left_name, right_name) {
            Ordering::Less => Ordering::Less,
            Ordering::Greater => Ordering::Greater,
            Ordering::Equal => compare_chars(left_email, right_email),
        }
    }
}

/// The order of the contributor list: more commits first, then by name, then by email.
pub fn contributor_order(left: &Identity, right: &Identity) -> (r: Ordering)
    ensures
        (r == Ordering::Less) == precedes(left@, right@),
        (r == Ordering::Greater) == precedes(right@, left@),
        (r == Ordering::Equal) == (left@ == right@),
{
    identity_order(&left.name, &left.email, left.commits, &right.name, &right.email, right.commits)
}

/// Whether the identity given by its parts is listed before the other one.
pub fn identity_precedes(
    name: &Vec<char>,
    email: &Vec<char>,
    commits: u64,
    other_name: &Vec<char>,
    other_email: &Vec<char>,
    other_commits: u64,
) -> (r: bool)
    ensures
        r == precedes(
            Person { name: name@, email: email@, commits: commits },
            Person { name: other_name@, email: other_email@, commits: other_commits },
        ),
{
    match identity_order(name, email, commits, other_name, other_email, other_commits) {
        Ordering::Less => true,
        _ => false,
    }
}

/// Whether `left` is listed before `right`.
pub fn listed_before(left: &Identity, right: &Identity) -> (r: bool)
    ensures
        r == precedes(left@, right@),
{
    match contributor_order(left, right) {
        Ordering::Less => true,
        _ => false,
    }
}

} // verus!
