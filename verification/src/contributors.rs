use vstd::prelude::*;

use crate::order::{
    chars_lt, identity_precedes, lemma_precedes_asymmetric, lemma_precedes_irreflexive, lemma_precedes_total,
    lemma_precedes_transitive, listed_before, precedes,
};
use crate::summary::{decimal, lemma_decimal_value};
use crate::text::{
    chars_of, copy_range, eq_ignore_ascii_case, find_char, first_index_of, fold_case, is_digit,
    is_last_pair_index, last_pair_index_of, lemma_first_index_unique, lines, pair_at, parse_u64,
    parse_u64_range, rfind_pair, split_lines, string_of, trim, trim_bounds, trim_end, trim_start,
};

verus! {

/// A person as the contributor list sees one: name, email and a number of commits.
pub struct Person {
    pub name: Seq<char>,
    pub email: Seq<char>,
    pub commits: u64,
}

/// A contributor found in the history: an identity and the commits it authored.
#[derive(Debug, Clone, PartialEq, Eq)]
pub struct Contributor {
    pub name: String,
    pub email: String,
    pub commits: u64,
}

impl View for Contributor {
    type V = Person;

    open spec fn view(&self) -> Person {
        Person { name: self.name@, email: self.email@, commits: self.commits }
    }
}

/// An identity while it is parsed, grouped and sorted, held as characters.
pub struct Identity {
    pub name: Vec<char>,
    pub email: Vec<char>,
    pub commits: u64,
}

impl View for Identity {
    type V = Person;

    open spec fn view(&self) -> Person {
        Person { name: self.name@, email: self.email@, commits: self.commits }
    }
}


/// What a line of `git shortlog --summary --numbered --email` says: the commit count before
/// the tab, then `name <email>` split at the last ` <`, both parts trimmed and non-empty.
pub open spec fn shortlog_entry(line: Seq<char>) -> Option<Person> {
    match first_index_of(line, '\t') {
        None => None,
        Some(t) => {
            let identity = line.skip(t + 1);
            match (parse_u64(trim(line.take(t))), last_pair_index_of(identity, ' ', '<')) {
                (Some(n), Some(p)) => {
                    let rest = identity.skip(p + 2);
                    let name = trim(identity.take(p));
                    if rest.len() > 0 && rest.last() == '>' {
                        let email = trim(rest.drop_last());
                        if name.len() > 0 && email.len() > 0 {
                            Some(Person { name, email, commits: n })
                        } else {
                            None
                        }
                    } else {
                        None
                    }
                },
                _ => None,
            }
        },
    }
}

/// Parses one line of `git shortlog --summary --numbered --email`.
pub fn parse_shortlog_line(line: &Vec<char>) -> (r: Option<Identity>)
    ensures
        match r {
            Some(id) => shortlog_entry(line@) == Some(id@),
            None => shortlog_entry(line@) is None,
        },
{
    let n = line.len();
    let ghost l = line@;
    assert(l.subrange(0, n as int) =~= l);
    let t = match find_char(line, 0, n, '\t') {
        Some(t) => t,
        None => {
            return None;
        },
    };
    let ghost identity = l.skip(t + 1);
    assert(l.take(t as int) =~= l.subrange(0, t as int));
    assert(identity =~= l.subrange(t + 1, n as int));
    let (a, b) = trim_bounds(line, 0, t);
    let commits = match parse_u64_range(line, a, b) {
        Some(c) => c,
        None => {
            return None;
        },
    };
    let p = match rfind_pair(line, t + 1, n, ' ', '<') {
        Some(p) => p,
        None => {
            return None;
        },
    };
    let ghost q: int = p - (t + 1);
    assert(identity.skip(q + 2) =~= l.subrange(p + 2, n as int));
    assert(identity.take(q) =~= l.subrange(t + 1, p as int));
    if p + 2 >= n || line[n - 1] != '>' {
        return None;
    }
    assert(identity.skip(q + 2).drop_last() =~= l.subrange(p + 2, n - 1));
    let (na, nb) = trim_bounds(line, t + 1, p);
    let (ea, eb) = trim_bounds(line, p + 2, n - 1);
    if na == nb || ea == eb {
        return None;
    }
    let name = copy_range(line, na, nb);
    let email = copy_range(line, ea, eb);
    Some(Identity { name, email, commits })
}


/// The line that `git shortlog --summary --email` writes for a person: the commit count after
/// `pad` spaces of alignment, a tab, then `name <email>`.
pub open spec fn shortlog_line(pad: nat, p: Person) -> Seq<char> {
    Seq::new(pad, |i: int| ' ') + decimal(p.commits as nat) + seq!['\t'] + p.name + " <"@ + p.email
        + ">"@
}

proof fn lemma_trim_start_spaces(pad: nat, s: Seq<char>)
    ensures
        trim_start(Seq::new(pad, |i: int| ' ') + s) == trim_start(s),
    decreases pad,
{
    let t = Seq::new(pad, |i: int| ' ') + s;
    if pad > 0 {
        assert(t[0] == ' ');
        assert(t.drop_first() =~= Seq::new((pad - 1) as nat, |i: int| ' ') + s);
        lemma_trim_start_spaces((pad - 1) as nat, s);
    } else {
        assert(t =~= s);
    }
}

/// A shortlog line reads back as the person it was written for, whatever its alignment, when
/// the name and the email are trimmed and not empty and the email holds no ` <`.
pub proof fn law_shortlog_line_round_trip(pad: nat, p: Person)
    requires
        p.name.len() > 0,
        p.email.len() > 0,
        trim(p.name) == p.name,
        trim(p.email) == p.email,
        forall|k: int| 0 <= k && k + 1 < p.email.len() ==> !#[trigger] pair_at(p.email, ' ', '<', k),
    ensures
        shortlog_entry(shortlog_line(pad, p)) == Some(p),
{
    reveal_strlit(" <");
    reveal_strlit(">");
    let d = decimal(p.commits as nat);
    lemma_decimal_value(p.commits as nat);
    let sp = Seq::new(pad, |i: int| ' ');
    let line = shortlog_line(pad, p);
    let a: int = (pad + d.len()) as int;
    assert(line[a] == '\t');
    assert forall|k: int| 0 <= k < a implies line[k] != '\t' by {
        if k < pad {
            assert(line[k] == ' ');
        } else {
            assert(line[k] == d[k - pad]);
            assert(is_digit(d[k - pad]));
        }
    }
    lemma_first_index_unique(line, '\t', a);
    // The commit count.
    assert(line.take(a) =~= sp + d);
    lemma_trim_start_spaces(pad, d);
    assert(is_digit(d[0]));
    assert(is_digit(d.last()));
    assert(trim_start(d) == d);
    assert(trim_end(d) == d);
    assert(parse_u64(d) == Some(p.commits));
    // The identity.
    let id = line.skip(a + 1);
    assert(id =~= p.name + " <"@ + p.email + ">"@);
    let m = p.name.len() as int;
    assert forall|k: int| m < k && k + 1 < id.len() implies !#[trigger] pair_at(id, ' ', '<', k) by {
        if k == m + 1 {
            assert(id[k] == '<');
        } else if k + 1 == id.len() - 1 {
            assert(id[k + 1] == '>');
        } else {
            assert(id[k] == p.email[k - m - 2]);
            assert(id[k + 1] == p.email[k - m - 1]);
            assert(!pair_at(p.email, ' ', '<', k - m - 2));
        }
    }
    assert(is_last_pair_index(id, ' ', '<', m));
    let j = choose|j: int| is_last_pair_index(id, ' ', '<', j);
    assert(is_last_pair_index(id, ' ', '<', j));
    if j < m {
        assert(!pair_at(id, ' ', '<', m));
    } else if m < j {
        assert(!pair_at(id, ' ', '<', j));
    }
    assert(last_pair_index_of(id, ' ', '<') == Some(m));
    assert(id.take(m) =~= p.name);
    assert(id.skip(m + 2) =~= p.email + ">"@);
    assert(id.skip(m + 2).drop_last() =~= p.email);
}

/// A contributor list is ranked by commit count: an entry never has more commits than the one
/// before it, and with as many commits it comes first by name, then by email.
pub proof fn law_list_ranked_by_commits(ids: Seq<Person>, r: Seq<Person>)
    requires
        is_contributor_list(ids, r),
    ensures
        forall|j: int, k: int|
            0 <= j < k < r.len() ==> #[trigger] r[j].commits >= #[trigger] r[k].commits,
        forall|j: int, k: int|
            0 <= j < k < r.len() && r[j].commits == r[k].commits ==> chars_lt(
                #[trigger] r[j].name,
                #[trigger] r[k].name,
            ) || (r[j].name == r[k].name && chars_lt(r[j].email, r[k].email)),
{
    assert forall|j: int, k: int| 0 <= j < k < r.len() implies #[trigger] r[j].commits
        >= #[trigger] r[k].commits by {
        assert(precedes(r[j], r[k]));
    }
    assert forall|j: int, k: int|
        0 <= j < k < r.len() && r[j].commits == r[k].commits implies chars_lt(
            #[trigger] r[j].name,
            #[trigger] r[k].name,
        ) || (r[j].name == r[k].name && chars_lt(r[j].email, r[k].email)) by {
        assert(precedes(r[j], r[k]));
    }
}

/// The identities that the shortlog lines `ls` name, in order, without those whose email is
/// `head_email` ignoring ASCII case.
pub open spec fn shortlog_identities(ls: Seq<Seq<char>>, head_email: Seq<char>) -> Seq<Person>
    decreases ls.len(),
{
    if ls.len() == 0 {
        Seq::empty()
    } else {
        let before = shortlog_identities(ls.drop_last(), head_email);
        match shortlog_entry(ls.last()) {
            Some(p) => if fold_case(p.email) == fold_case(head_email) {
                before
            } else {
                before.push(p)
            },
            None => before,
        }
    }
}

/// Identities are grouped by their email, ignoring ASCII case.
pub open spec fn group_key(p: Person) -> Seq<u32> {
    fold_case(p.email)
}

/// The commits of all identities in `ids` whose group is `key`.
pub open spec fn group_total(ids: Seq<Person>, key: Seq<u32>) -> int
    decreases ids.len(),
{
    if ids.len() == 0 {
        0
    } else {
        group_total(ids.drop_last(), key) + if group_key(ids.last()) == key {
            ids.last().commits as int
        } else {
            0
        }
    }
}

/// Every group's total of commits fits in a `u64`.
pub open spec fn totals_fit(ids: Seq<Person>) -> bool {
    forall|key: Seq<u32>| #[trigger] group_total(ids, key) <= u64::MAX
}

/// `ids[i]` is the identity that names its group: no identity of the group is listed before it
/// (most commits, then smallest name, then smallest email).
pub open spec fn is_representative(ids: Seq<Person>, i: int) -> bool {
    &&& 0 <= i < ids.len()
    &&& forall|m: int|
        0 <= m < ids.len() && group_key(#[trigger] ids[m]) == group_key(ids[i]) ==> !precedes(
            ids[m],
            ids[i],
        )
}

/// `c` stands for one group of `ids`: it has the name and email of the group's representative
/// and the commits of the whole group.
pub open spec fn summarizes(ids: Seq<Person>, c: Person) -> bool {
    exists|i: int|
        #[trigger] is_representative(ids, i) && ids[i].name == c.name && ids[i].email == c.email
            && c.commits == group_total(ids, group_key(c))
}

/// Some entry of `r` stands for the group `key`.
pub open spec fn lists_key(r: Seq<Person>, key: Seq<u32>) -> bool {
    exists|j: int| 0 <= j < r.len() && group_key(#[trigger] r[j]) == key
}

/// `r` is the contributor list of the identities `ids`: one entry per group, each summarizing
/// its group, listed by more commits first, then name, then email.
pub open spec fn is_contributor_list(ids: Seq<Person>, r: Seq<Person>) -> bool {
    &&& forall|j: int| 0 <= j < r.len() ==> summarizes(ids, #[trigger] r[j])
    &&& forall|m: int| 0 <= m < ids.len() ==> lists_key(r, group_key(#[trigger] ids[m]))
    &&& forall|j: int, k: int| 0 <= j < k < r.len() ==> precedes(#[trigger] r[j], #[trigger] r[k])
    &&& forall|j: int, k: int|
        0 <= j < r.len() && 0 <= k < r.len() && j != k ==> group_key(#[trigger] r[j])
            != group_key(#[trigger] r[k])
}

proof fn lemma_total_push(ids: Seq<Person>, x: Person, key: Seq<u32>)
    ensures
        group_total(ids.push(x), key) == group_total(ids, key) + if group_key(x) == key {
            x.commits as int
        } else {
            0
        },
{
    assert(ids.push(x).drop_last() =~= ids);
}

proof fn lemma_total_nonneg(ids: Seq<Person>, key: Seq<u32>)
    ensures
        group_total(ids, key) >= 0,
    decreases ids.len(),
{
    if ids.len() > 0 {
        lemma_total_nonneg(ids.drop_last(), key);
    }
}

proof fn lemma_total_absent(ids: Seq<Person>, key: Seq<u32>)
    requires
        forall|m: int| 0 <= m < ids.len() ==> group_key(#[trigger] ids[m]) != key,
    ensures
        group_total(ids, key) == 0,
    decreases ids.len(),
{
    if ids.len() > 0 {
        assert(group_key(ids[ids.len() - 1]) != key);
        lemma_total_absent(ids.drop_last(), key);
    }
}

proof fn lemma_total_prefix(ids: Seq<Person>, n: int, key: Seq<u32>)
    requires
        0 <= n <= ids.len(),
    ensures
        group_total(ids.take(n), key) <= group_total(ids, key),
    decreases ids.len(),
{
    if n < ids.len() {
        assert(ids.drop_last().take(n) =~= ids.take(n));
        lemma_total_prefix(ids.drop_last(), n, key);
    } else {
        assert(ids.take(n) =~= ids);
    }
}

proof fn lemma_identities_prefix(ls: Seq<Seq<char>>, i: int, head_email: Seq<char>)
    requires
        0 <= i <= ls.len(),
    ensures
        shortlog_identities(ls.take(i), head_email).len() <= shortlog_identities(ls, head_email).len(),
        shortlog_identities(ls, head_email).take(shortlog_identities(ls.take(i), head_email).len() as int)
            == shortlog_identities(ls.take(i), head_email),
    decreases ls.len(),
{
    let a = shortlog_identities(ls.take(i), head_email);
    let all = shortlog_identities(ls, head_email);
    if i == ls.len() {
        assert(ls.take(i) =~= ls);
        assert(all.take(all.len() as int) =~= all);
    } else {
        assert(ls.drop_last().take(i) =~= ls.take(i));
        lemma_identities_prefix(ls.drop_last(), i, head_email);
        let b = shortlog_identities(ls.drop_last(), head_email);
        assert(all.take(a.len() as int) =~= b.take(a.len() as int));
    }
}

/// The contributor that a group of identities becomes, and the commits of the identity that
/// gave it its name and email.
struct ContributorGroup {
    contributor: Identity,
    preferred_identity_commits: u64,
}

impl ContributorGroup {
    /// The identity that names the group.
    spec fn preferred(&self) -> Person {
        Person {
            name: self.contributor.name@,
            email: self.contributor.email@,
            commits: self.preferred_identity_commits,
        }
    }

    /// Adds one identity of the group: its commits count, and it names the group when it is
    /// listed before the identity that named it so far.
    fn add(&mut self, identity: Identity)
        requires
            old(self).contributor.commits + identity.commits <= u64::MAX,
        ensures
            final(self).contributor.commits == old(self).contributor.commits + identity.commits,
            final(self).preferred() == if precedes(identity@, old(self).preferred()) {
                identity@
            } else {
                old(self).preferred()
            },
    {
        let is_preferred = identity_precedes(
            &identity.name,
            &identity.email,
            identity.commits,
            &self.contributor.name,
            &self.contributor.email,
            self.preferred_identity_commits,
        );
        self.contributor.commits = self.contributor.commits + identity.commits;
        if is_preferred {
            self.contributor.name = identity.name;
            self.contributor.email = identity.email;
            self.preferred_identity_commits = identity.commits;
        }
    }
}

/// Group `g` agrees with the identities `ids`, with `ids[w]` naming it.
spec fn group_agrees(ids: Seq<Person>, g: ContributorGroup, w: int) -> bool {
    &&& is_representative(ids, w)
    &&& g.preferred() == ids[w]
    &&& g.contributor.commits == group_total(ids, group_key(ids[w]))
}

/// The groups `gs` are those of `ids`: `wit` names each group's representative, `gof` each
/// identity's group.
spec fn groups_agree(
    ids: Seq<Person>,
    gs: Seq<ContributorGroup>,
    wit: Seq<int>,
    gof: Seq<int>,
) -> bool {
    &&& wit.len() == gs.len()
    &&& gof.len() == ids.len()
    &&& forall|g: int| 0 <= g < gs.len() ==> group_agrees(ids, #[trigger] gs[g], wit[g])
    &&& forall|g: int, h: int|
        0 <= g < gs.len() && 0 <= h < gs.len() && g != h ==> group_key(#[trigger] gs[g].preferred())
            != group_key(#[trigger] gs[h].preferred())
    &&& forall|m: int|
        0 <= m < ids.len() ==> 0 <= #[trigger] gof[m] < gs.len() && group_key(gs[gof[m]].preferred())
            == group_key(ids[m])
}

/// The group whose email is `email` ignoring ASCII case, if there is one.
fn find_group(groups: &Vec<ContributorGroup>, email: &Vec<char>) -> (r: Option<usize>)
    ensures
        match r {
            Some(j) => j < groups@.len() && group_key(groups@[j as int].preferred()) == fold_case(
                email@,
            ),
            None => forall|h: int|
                0 <= h < groups@.len() ==> group_key(#[trigger] groups@[h].preferred())
                    != fold_case(email@),
        },
{
    let mut j: usize = 0;
    while j < groups.len()
        invariant
            j <= groups@.len(),
            forall|h: int|
                0 <= h < j ==> group_key(#[trigger] groups@[h].preferred()) != fold_case(email@),
        decreases groups@.len() - j,
    {
        if eq_ignore_ascii_case(&groups[j].contributor.email, email) {
            return Some(j);
        }
        j = j + 1;
    }
    None
}

/// Groups the identities named by the shortlog lines `ls`, leaving out `head_email`.
/// `None` when the commits of some group do not fit in a `u64`.
fn group_identities(ls: &Vec<Vec<char>>, head_email: &Vec<char>) -> (r: Option<
    (Vec<ContributorGroup>, Ghost<Seq<int>>, Ghost<Seq<int>>),
>)
    ensures
        match r {
            Some(groups) => {
                &&& totals_fit(shortlog_identities(ls@.map_values(|l: Vec<char>| l@), head_email@))
                &&& groups_agree(
                    shortlog_identities(ls@.map_values(|l: Vec<char>| l@), head_email@),
                    groups.0@,
                    groups.1@,
                    groups.2@,
                )
            },
            None => !totals_fit(shortlog_identities(ls@.map_values(|l: Vec<char>| l@), head_email@)),
        },
{
    let ghost lv = ls@.map_values(|l: Vec<char>| l@);
    let ghost all = shortlog_identities(lv, head_email@);
    let mut groups: Vec<ContributorGroup> = Vec::new();
    let ghost mut ids: Seq<Person> = Seq::empty();
    let ghost mut wit: Seq<int> = Seq::empty();
    let ghost mut gof: Seq<int> = Seq::empty();
    let mut i: usize = 0;
    assert(lv.take(0) =~= Seq::<Seq<char>>::empty());
    while i < ls.len()
        invariant
            i <= ls@.len(),
            lv == ls@.map_values(|l: Vec<char>| l@),
            all == shortlog_identities(lv, head_email@),
            ids == shortlog_identities(lv.take(i as int), head_email@),
            groups_agree(ids, groups@, wit, gof),
        decreases ls@.len() - i,
    {
        let ghost before = lv.take(i as int);
        assert(lv.take(i + 1).drop_last() =~= before);
        assert(lv.take(i + 1).last() == ls@[i as int]@);
        match parse_shortlog_line(&ls[i]) {
            None => {},
            Some(identity) => {
                if !eq_ignore_ascii_case(&identity.email, head_email) {
                    let ghost x = identity@;
                    let ghost next = ids.push(x);
                    proof {
                        lemma_identities_prefix(lv, i + 1, head_email@);
                        assert(next == shortlog_identities(lv.take(i + 1), head_email@));
                        assert(all.take(next.len() as int) == next);
                        lemma_total_prefix(all, next.len() as int, group_key(x));
                        lemma_total_push(ids, x, group_key(x));
                        lemma_total_nonneg(ids, group_key(x));
                    }
                    match find_group(&groups, &identity.email) {
                        Some(j) => {
                            let ghost old_groups = groups@;
                            let ghost old_pref = groups@[j as int].preferred();
                            let ghost w = wit[j as int];
                            let ghost became = precedes(x, old_pref);
                            proof {
                                assert(group_agrees(ids, old_groups[j as int], w));
                            }
                            let mut g = groups.remove(j);
                            if g.contributor.commits.checked_add(identity.commits).is_none() {
                                assert(group_total(all, group_key(x)) > u64::MAX);
                                return None;
                            }
                            g.add(identity);
                            groups.insert(j, g);
                            proof {
                                assert(groups@ =~= old_groups.update(j as int, g));
                                let new_wit = if became {
                                    wit.update(j as int, ids.len() as int)
                                } else {
                                    wit
                                };
                                let new_gof = gof.push(j as int);
                                assert forall|h: int| 0 <= h < groups@.len() implies group_agrees(
                                    next,
                                    #[trigger] groups@[h],
                                    new_wit[h],
                                ) by {
                                    lemma_total_push(ids, x, group_key(next[new_wit[h]]));
                                    assert(group_agrees(ids, old_groups[h], wit[h]));
                                    if h == j as int {
                                        if became {
                                            assert forall|m: int|
                                                0 <= m < next.len() && group_key(#[trigger] next[m])
                                                    == group_key(next[new_wit[h]]) implies !precedes(
                                                next[m],
                                                next[new_wit[h]],
                                            ) by {
                                                if m < ids.len() {
                                                    assert(ids[m] == next[m]);
                                                    if precedes(next[m], x) {
                                                        lemma_precedes_transitive(next[m], x, old_pref);
                                                    }
                                                } else {
                                                    lemma_precedes_irreflexive(x);
                                                }
                                            }
                                        } else {
                                            assert forall|m: int|
                                                0 <= m < next.len() && group_key(#[trigger] next[m])
                                                    == group_key(next[new_wit[h]]) implies !precedes(
                                                next[m],
                                                next[new_wit[h]],
                                            ) by {
                                                if m < ids.len() {
                                                    assert(ids[m] == next[m]);
                                                }
                                            }
                                        }
                                    } else {
                                        assert(group_key(old_groups[h].preferred()) != group_key(
                                            old_groups[j as int].preferred(),
                                        ));
                                        assert forall|m: int|
                                            0 <= m < next.len() && group_key(#[trigger] next[m])
                                                == group_key(next[new_wit[h]]) implies !precedes(
                                            next[m],
                                            next[new_wit[h]],
                                        ) by {
                                            if m < ids.len() {
                                                assert(ids[m] == next[m]);
                                            }
                                        }
                                    }
                                }
                                assert forall|m: int| 0 <= m < next.len() implies 0 <= #[trigger] new_gof[m]
                                    < groups@.len() && group_key(groups@[new_gof[m]].preferred())
                                    == group_key(next[m]) by {
                                    if m < ids.len() {
                                        assert(gof[m] == new_gof[m]);
                                    }
                                }
                                assert(groups_agree(next, groups@, new_wit, new_gof));
                                ids = next;
                                wit = new_wit;
                                gof = new_gof;
                            }
                        },
                        None => {
                            proof {
                                assert forall|m: int| 0 <= m < ids.len() implies group_key(
                                    #[trigger] ids[m],
                                ) != group_key(x) by {
                                    assert(0 <= gof[m] < groups@.len());
                                }
                                lemma_total_absent(ids, group_key(x));
                            }
                            let ghost old_groups = groups@;
                            let commits = identity.commits;
                            groups.push(
                                ContributorGroup {
                                    contributor: identity,
                                    preferred_identity_commits: commits,
                                },
                            );
                            proof {
                                let new_wit = wit.push(ids.len() as int);
                                let new_gof = gof.push(old_groups.len() as int);
                                assert forall|h: int| 0 <= h < groups@.len() implies group_agrees(
                                    next,
                                    #[trigger] groups@[h],
                                    new_wit[h],
                                ) by {
                                    lemma_total_push(ids, x, group_key(next[new_wit[h]]));
                                    if h < old_groups.len() {
                                        assert(group_agrees(ids, old_groups[h], wit[h]));
                                        assert(groups@[h] == old_groups[h]);
                                        assert forall|m: int|
                                            0 <= m < next.len() && group_key(#[trigger] next[m])
                                                == group_key(next[new_wit[h]]) implies !precedes(
                                            next[m],
                                            next[new_wit[h]],
                                        ) by {
                                            if m < ids.len() {
                                                assert(ids[m] == next[m]);
                                            }
                                        }
                                    } else {
                                        assert forall|m: int|
                                            0 <= m < next.len() && group_key(#[trigger] next[m])
                                                == group_key(next[new_wit[h]]) implies !precedes(
                                            next[m],
                                            next[new_wit[h]],
                                        ) by {
                                            if m < ids.len() {
                                                assert(ids[m] == next[m]);
                                            } else {
                                                lemma_precedes_irreflexive(x);
                                            }
                                        }
                                    }
                                }
                                assert forall|m: int| 0 <= m < next.len() implies 0 <= #[trigger] new_gof[m]
                                    < groups@.len() && group_key(groups@[new_gof[m]].preferred())
                                    == group_key(next[m]) by {
                                    if m < ids.len() {
                                        assert(gof[m] == new_gof[m]);
                                        assert(groups@[gof[m]] == old_groups[gof[m]]);
                                    }
                                }
                                assert(groups_agree(next, groups@, new_wit, new_gof));
                                ids = next;
                                wit = new_wit;
                                gof = new_gof;
                            }
                        },
                    }
                }
            },
        }
        i = i + 1;
    }
    assert(lv.take(ls@.len() as int) =~= lv);
    assert forall|key: Seq<u32>| #[trigger] group_total(all, key) <= u64::MAX by {
        if exists|g: int| 0 <= g < groups@.len() && group_key(groups@[g].preferred()) == key {
            let g = choose|g: int| 0 <= g < groups@.len() && group_key(groups@[g].preferred()) == key;
            assert(group_agrees(all, groups@[g], wit[g]));
        } else {
            assert forall|m: int| 0 <= m < all.len() implies group_key(#[trigger] all[m]) != key by {
                assert(0 <= gof[m] < groups@.len());
            }
            lemma_total_absent(all, key);
        }
    }
    Some((groups, Ghost(wit), Ghost(gof)))
}


/// Every entry of `s` is listed before the entries after it.
pub open spec fn is_listed_in_order(s: Seq<Person>) -> bool {
    forall|j: int, k: int| 0 <= j < k < s.len() ==> precedes(#[trigger] s[j], #[trigger] s[k])
}

proof fn lemma_insert_in_order(s: Seq<Person>, p: int, x: Person)
    requires
        0 <= p <= s.len(),
        is_listed_in_order(s),
        forall|q: int| 0 <= q < p ==> precedes(#[trigger] s[q], x),
        p < s.len() ==> precedes(x, s[p]),
    ensures
        is_listed_in_order(s.insert(p, x)),
{
    let t = s.insert(p, x);
    assert forall|j: int, k: int| 0 <= j < k < t.len() implies precedes(#[trigger] t[j], #[trigger] t[k]) by {
        if k < p {
        } else if k == p {
        } else if j < p {
            assert(t[k] == s[k - 1]);
            if k - 1 > p {
                lemma_precedes_transitive(x, s[p], s[k - 1]);
            }
            lemma_precedes_transitive(s[j], x, s[k - 1]);
        } else if j == p {
            if k - 1 > p {
                lemma_precedes_transitive(x, s[p], s[k - 1]);
            }
        } else {
            assert(t[j] == s[j - 1] && t[k] == s[k - 1]);
        }
    }
}

/// The view of a list of identities.
pub open spec fn persons(s: Seq<Identity>) -> Seq<Person> {
    s.map_values(|c: Identity| c@)
}

/// Lists the groups in contributor order, one entry per group.
fn list_groups(
    groups: Vec<ContributorGroup>,
    Ghost(ids): Ghost<Seq<Person>>,
    Ghost(wit): Ghost<Seq<int>>,
    Ghost(gof): Ghost<Seq<int>>,
) -> (r: Vec<Identity>)
    requires
        groups_agree(ids, groups@, wit, gof),
    ensures
        is_contributor_list(ids, persons(r@)),
{
    let ghost gs0 = groups@;
    let mut groups = groups;
    let mut out: Vec<Identity> = Vec::new();
    let ghost mut src: Seq<int> = Seq::empty();
    while groups.len() > 0
        invariant
            groups@.len() <= gs0.len(),
            groups@ == gs0.take(groups@.len() as int),
            groups_agree(ids, gs0, wit, gof),
            src.len() == out@.len(),
            forall|j: int|
                0 <= j < out@.len() ==> groups@.len() <= #[trigger] src[j] < gs0.len()
                    && out@[j]@ == gs0[src[j]].contributor@,
            forall|g: int|
                groups@.len() <= g < gs0.len() ==> lists_key(
                    persons(out@),
                    group_key(#[trigger] gs0[g].preferred()),
                ),
            is_listed_in_order(persons(out@)),
            forall|j: int, k: int|
                0 <= j < out@.len() && 0 <= k < out@.len() && j != k ==> group_key(
                    #[trigger] persons(out@)[j],
                ) != group_key(#[trigger] persons(out@)[k]),
        decreases groups@.len(),
    {
        let ghost gi: int = groups@.len() - 1;
        let g = groups.pop().unwrap();
        assert(g == gs0[gi]);
        assert(groups@ =~= gs0.take(gi));
        let c = g.contributor;
        let ghost cv = c@;
        let ghost outv = persons(out@);
        assert(group_key(cv) == group_key(gs0[gi].preferred()));
        assert forall|j: int| 0 <= j < outv.len() implies group_key(#[trigger] outv[j]) != group_key(cv)
            && outv[j] != cv by {
            assert(out@[j]@ == gs0[src[j]].contributor@);
            assert(group_key(outv[j]) == group_key(gs0[src[j]].preferred()));
            assert(group_key(gs0[src[j]].preferred()) != group_key(gs0[gi].preferred()));
        }
        let mut p: usize = 0;
        while p < out.len() && !listed_before(&c, &out[p])
            invariant
                p <= out@.len(),
                outv == persons(out@),
                cv == c@,
                forall|q: int| 0 <= q < p ==> !precedes(cv, #[trigger] outv[q]),
            decreases out@.len() - p,
        {
            p = p + 1;
        }
        proof {
            assert forall|q: int| 0 <= q < p implies precedes(#[trigger] outv[q], cv) by {
                assert(!precedes(cv, outv[q]));
                lemma_precedes_total(outv[q], cv);
            }
            lemma_insert_in_order(outv, p as int, cv);
        }
        out.insert(p, c);
        proof {
            let new_src = src.insert(p as int, gi);
            assert(persons(out@) =~= outv.insert(p as int, cv));
            assert forall|g2: int| groups@.len() <= g2 < gs0.len() implies lists_key(
                persons(out@),
                group_key(#[trigger] gs0[g2].preferred()),
            ) by {
                if g2 == gi {
                    assert(persons(out@)[p as int] == cv);
                } else {
                    assert(lists_key(outv, group_key(gs0[g2].preferred())));
                    let j = choose|j: int|
                        0 <= j < outv.len() && group_key(#[trigger] outv[j]) == group_key(
                            gs0[g2].preferred(),
                        );
                    if j < p {
                        assert(persons(out@)[j] == outv[j]);
                    } else {
                        assert(persons(out@)[j + 1] == outv[j]);
                    }
                }
            }
            assert forall|j: int| 0 <= j < out@.len() implies groups@.len() <= #[trigger] new_src[j]
                < gs0.len() && out@[j]@ == gs0[new_src[j]].contributor@ by {
                if j < p {
                    assert(out@[j]@ == outv[j]);
                } else if j > p {
                    assert(out@[j]@ == outv[j - 1]);
                }
            }
            src = new_src;
        }
    }
    let ghost r = persons(out@);
    assert forall|j: int| 0 <= j < r.len() implies summarizes(ids, #[trigger] r[j]) by {
        let g = src[j];
        assert(group_agrees(ids, gs0[g], wit[g]));
        assert(is_representative(ids, wit[g]));
    }
    assert forall|m: int| 0 <= m < ids.len() implies lists_key(r, group_key(#[trigger] ids[m])) by {
        assert(0 <= gof[m] < gs0.len());
        assert(lists_key(r, group_key(gs0[gof[m]].preferred())));
    }
    out
}

/// The contributors, with their names and emails as strings.
fn into_contributors(list: Vec<Identity>) -> (r: Vec<Contributor>)
    ensures
        r@.map_values(|c: Contributor| c@) == persons(list@),
{
    let mut r: Vec<Contributor> = Vec::new();
    let mut i: usize = 0;
    while i < list.len()
        invariant
            i <= list@.len(),
            r@.map_values(|c: Contributor| c@) == persons(list@).take(i as int),
        decreases list@.len() - i,
    {
        let id = &list[i];
        let name = string_of(&id.name, 0, id.name.len());
        let email = string_of(&id.email, 0, id.email.len());
        assert(id.name@.subrange(0, id.name@.len() as int) =~= id.name@);
        assert(id.email@.subrange(0, id.email@.len() as int) =~= id.email@);
        let ghost before = r@.map_values(|c: Contributor| c@);
        r.push(Contributor { name, email, commits: id.commits });
        assert(r@.map_values(|c: Contributor| c@) =~= before.push(persons(list@)[i as int]));
        assert(persons(list@).take(i + 1) =~= persons(list@).take(i as int).push(
            persons(list@)[i as int],
        ));
        i = i + 1;
    }
    assert(persons(list@).take(list@.len() as int) =~= persons(list@));
    r
}

/// The identities that the output of `git shortlog --summary --numbered --email` names, without
/// those whose email is `head_email` ignoring ASCII case.
pub open spec fn identities_of(shortlog: Seq<char>, head_email: Seq<char>) -> Seq<Person> {
    shortlog_identities(lines(shortlog), head_email)
}

/// The contributor list of a shortlog: the identities grouped by email ignoring ASCII case,
/// each group named by its identity with the most commits (then the smallest name, then the
/// smallest email) and counting the commits of the whole group, listed by more commits first,
/// then name, then email. The author of `HEAD`, `head_email`, is left out. `None` when the
/// commits of a group do not fit in a `u64`.
pub fn collect_contributors(shortlog: &str, head_email: &str) -> (r: Option<Vec<Contributor>>)
    ensures
        match r {
            Some(list) => {
                &&& totals_fit(identities_of(shortlog@, head_email@))
                &&& is_contributor_list(
                    identities_of(shortlog@, head_email@),
                    list@.map_values(|c: Contributor| c@),
                )
            },
            None => !totals_fit(identities_of(shortlog@, head_email@)),
        },
{
    let text = chars_of(shortlog);
    let head = chars_of(head_email);
    let ls = split_lines(&text);
    match group_identities(&ls, &head) {
        None => None,
        Some((groups, wit, gof)) => {
            let list = list_groups(
                groups,
                Ghost(shortlog_identities(ls@.map_values(|l: Vec<char>| l@), head@)),
                wit,
                gof,
            );
            Some(into_contributors(list))
        },
    }
}


proof fn lemma_identity_origin(ls: Seq<Seq<char>>, head_email: Seq<char>, m: int)
    requires
        0 <= m < shortlog_identities(ls, head_email).len(),
    ensures
        fold_case(shortlog_identities(ls, head_email)[m].email) != fold_case(head_email),
        exists|l: int|
            0 <= l < ls.len() && #[trigger] shortlog_entry(ls[l]) == Some(
                shortlog_identities(ls, head_email)[m],
            ),
    decreases ls.len(),
{
    let before = shortlog_identities(ls.drop_last(), head_email);
    if m < before.len() {
        lemma_identity_origin(ls.drop_last(), head_email, m);
        let l = choose|l: int|
            0 <= l < ls.drop_last().len() && #[trigger] shortlog_entry(ls.drop_last()[l]) == Some(
                before[m],
            );
        assert(ls.drop_last()[l] == ls[l]);
        assert(shortlog_entry(ls[l]) == Some(shortlog_identities(ls, head_email)[m]));
    } else {
        assert(shortlog_entry(ls[ls.len() - 1]) == Some(shortlog_identities(ls, head_email)[m]));
    }
}

/// No contributor of the list shares the email of the author of `HEAD`, ignoring ASCII case.
pub proof fn law_head_author_excluded(shortlog: Seq<char>, head_email: Seq<char>, r: Seq<Person>)
    requires
        is_contributor_list(identities_of(shortlog, head_email), r),
    ensures
        forall|j: int| 0 <= j < r.len() ==> fold_case(#[trigger] r[j].email) != fold_case(head_email),
{
    let ids = identities_of(shortlog, head_email);
    assert forall|j: int| 0 <= j < r.len() implies fold_case(#[trigger] r[j].email) != fold_case(
        head_email,
    ) by {
        assert(summarizes(ids, r[j]));
        let i = choose|i: int|
            #[trigger] is_representative(ids, i) && ids[i].name == r[j].name && ids[i].email
                == r[j].email && r[j].commits == group_total(ids, group_key(r[j]));
        lemma_identity_origin(lines(shortlog), head_email, i);
    }
}

/// The shortlog line names this person: same name and email.
pub open spec fn line_names(line: Seq<char>, c: Person) -> bool {
    match shortlog_entry(line) {
        Some(p) => p.name == c.name && p.email == c.email,
        None => false,
    }
}

/// Some line of the shortlog names this person.
pub open spec fn named_in_shortlog(shortlog: Seq<char>, c: Person) -> bool {
    exists|l: int| 0 <= l < lines(shortlog).len() && #[trigger] line_names(lines(shortlog)[l], c)
}

/// Every contributor of the list has the name and email of some line of the shortlog: no
/// identity is made up.
pub proof fn law_contributors_come_from_shortlog(shortlog: Seq<char>, head_email: Seq<char>, r: Seq<Person>)
    requires
        is_contributor_list(identities_of(shortlog, head_email), r),
    ensures
        forall|j: int| 0 <= j < r.len() ==> named_in_shortlog(shortlog, #[trigger] r[j]),
{
    let ids = identities_of(shortlog, head_email);
    assert forall|j: int| 0 <= j < r.len() implies named_in_shortlog(shortlog, #[trigger] r[j]) by {
        assert(summarizes(ids, r[j]));
        let i = choose|i: int|
            #[trigger] is_representative(ids, i) && ids[i].name == r[j].name && ids[i].email
                == r[j].email && r[j].commits == group_total(ids, group_key(r[j]));
        lemma_identity_origin(lines(shortlog), head_email, i);
        let l = choose|l: int|
            0 <= l < lines(shortlog).len() && #[trigger] shortlog_entry(lines(shortlog)[l]) == Some(
                ids[i],
            );
        assert(line_names(lines(shortlog)[l], r[j]));
    }
}

proof fn lemma_same_group_same_entry(ids: Seq<Person>, x: Person, y: Person)
    requires
        summarizes(ids, x),
        summarizes(ids, y),
        group_key(x) == group_key(y),
    ensures
        x == y,
{
    let i = choose|i: int|
        #[trigger] is_representative(ids, i) && ids[i].name == x.name && ids[i].email == x.email
            && x.commits == group_total(ids, group_key(x));
    let k = choose|k: int|
        #[trigger] is_representative(ids, k) && ids[k].name == y.name && ids[k].email == y.email
            && y.commits == group_total(ids, group_key(y));
    assert(group_key(ids[i]) == group_key(ids[k]));
    assert(!precedes(ids[i], ids[k]));
    assert(!precedes(ids[k], ids[i]));
    if ids[i] != ids[k] {
        lemma_precedes_total(ids[i], ids[k]);
    }
}

proof fn lemma_ordered_same_entries(a: Seq<Person>, b: Seq<Person>)
    requires
        is_listed_in_order(a),
        is_listed_in_order(b),
        forall|j: int| 0 <= j < a.len() ==> b.contains(#[trigger] a[j]),
        forall|k: int| 0 <= k < b.len() ==> a.contains(#[trigger] b[k]),
    ensures
        a == b,
    decreases a.len(),
{
    if a.len() == 0 {
        if b.len() > 0 {
            assert(a.contains(b[0]));
        }
        assert(a =~= b);
    } else {
        assert(b.contains(a[0]));
        let k = choose|k: int| 0 <= k < b.len() && b[k] == a[0];
        assert(a.contains(b[0]));
        let m = choose|m: int| 0 <= m < a.len() && a[m] == b[0];
        if k > 0 {
            assert(precedes(b[0], b[k]));
            if m > 0 {
                assert(precedes(a[0], a[m]));
                lemma_precedes_asymmetric(a[0], a[m]);
            } else {
                lemma_precedes_irreflexive(a[0]);
            }
        }
        assert(a[0] == b[0]);
        let ta = a.drop_first();
        let tb = b.drop_first();
        assert forall|j: int| 0 <= j < ta.len() implies tb.contains(#[trigger] ta[j]) by {
            assert(ta[j] == a[j + 1]);
            assert(b.contains(a[j + 1]));
            let q = choose|q: int| 0 <= q < b.len() && b[q] == a[j + 1];
            assert(precedes(a[0], a[j + 1]));
            if q == 0 {
                lemma_precedes_irreflexive(a[0]);
            }
            assert(tb[q - 1] == ta[j]);
        }
        assert forall|j: int| 0 <= j < tb.len() implies ta.contains(#[trigger] tb[j]) by {
            assert(tb[j] == b[j + 1]);
            assert(a.contains(b[j + 1]));
            let q = choose|q: int| 0 <= q < a.len() && a[q] == b[j + 1];
            assert(precedes(b[0], b[j + 1]));
            if q == 0 {
                lemma_precedes_irreflexive(b[0]);
            }
            assert(ta[q - 1] == tb[j]);
        }
        assert forall|j: int, k2: int| 0 <= j < k2 < ta.len() implies precedes(
            #[trigger] ta[j],
            #[trigger] ta[k2],
        ) by {
            assert(precedes(a[j + 1], a[k2 + 1]));
        }
        assert forall|j: int, k2: int| 0 <= j < k2 < tb.len() implies precedes(
            #[trigger] tb[j],
            #[trigger] tb[k2],
        ) by {
            assert(precedes(b[j + 1], b[k2 + 1]));
        }
        lemma_ordered_same_entries(ta, tb);
        assert(a =~= seq![a[0]] + ta);
        assert(b =~= seq![b[0]] + tb);
    }
}

/// The contributor list of a set of identities is unique: any two lists that meet
/// `is_contributor_list` for the same identities are equal.
pub proof fn law_contributor_list_unique(ids: Seq<Person>, r1: Seq<Person>, r2: Seq<Person>)
    requires
        is_contributor_list(ids, r1),
        is_contributor_list(ids, r2),
    ensures
        r1 == r2,
{
    assert forall|j: int| 0 <= j < r1.len() implies r2.contains(#[trigger] r1[j]) by {
        assert(summarizes(ids, r1[j]));
        let i = choose|i: int|
            #[trigger] is_representative(ids, i) && ids[i].name == r1[j].name && ids[i].email
                == r1[j].email && r1[j].commits == group_total(ids, group_key(r1[j]));
        assert(lists_key(r2, group_key(ids[i])));
        let k = choose|k: int| 0 <= k < r2.len() && group_key(#[trigger] r2[k]) == group_key(ids[i]);
        assert(summarizes(ids, r2[k]));
        lemma_same_group_same_entry(ids, r1[j], r2[k]);
    }
    assert forall|k: int| 0 <= k < r2.len() implies r1.contains(#[trigger] r2[k]) by {
        assert(summarizes(ids, r2[k]));
        let i = choose|i: int|
            #[trigger] is_representative(ids, i) && ids[i].name == r2[k].name && ids[i].email
                == r2[k].email && r2[k].commits == group_total(ids, group_key(r2[k]));
        assert(lists_key(r1, group_key(ids[i])));
        let j = choose|j: int| 0 <= j < r1.len() && group_key(#[trigger] r1[j]) == group_key(ids[i]);
        assert(summarizes(ids, r1[j]));
        lemma_same_group_same_entry(ids, r2[k], r1[j]);
    }
    lemma_ordered_same_entries(r1, r2);
}

} // verus!
