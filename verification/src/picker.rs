use std::collections::BTreeSet;

use vstd::prelude::*;
use vstd::std_specs::iter::IteratorSpec;
use vstd::view::View as _;

use crate::contributors::{Contributor, Person};
use crate::fuzzy::{fuzzy_score, FuzzyMatcher, MAX_QUERY_CHARS};
use crate::text::{pop_char, push_char, push_str};

verus! {

broadcast use {vstd::std_specs::btree::group_btree_axioms, vstd::laws_cmp::group_laws_cmp};

/// `name <email>`, the text that the search matches.
pub open spec fn identity_line(p: Person) -> Seq<char> {
    p.name + " <"@ + p.email + ">"@
}

/// `name <email>` for a contributor.
pub fn identity_line_of(contributor: &Contributor) -> (r: String)
    ensures
        r@ == identity_line(contributor@),
{
    let mut r = String::new();
    push_str(&mut r, contributor.name.as_str());
    push_str(&mut r, " <");
    push_str(&mut r, contributor.email.as_str());
    push_str(&mut r, ">");
    r
}

/// What the picker shows.
#[derive(Debug, Clone, Copy, PartialEq, Eq, Structural)]
pub enum View {
    Picker,
    Confirmation,
}

/// What the caller does after a key.
#[derive(Debug, Clone, Copy, PartialEq, Eq, Structural)]
pub enum Action {
    Continue,
    Confirm,
    Cancel,
}

/// A key press, as the picker sees it.
#[derive(Debug, Clone, Copy, PartialEq, Eq, Structural)]
pub enum Key {
    Esc,
    Enter,
    Up,
    Down,
    Backspace,
    Char { character: char, control: bool, alt: bool, super_key: bool },
    Other,
}

impl Key {
    /// A character typed without modifiers.
    pub fn plain(character: char) -> (r: Key)
        ensures
            r == (Key::Char { character, control: false, alt: false, super_key: false }),
    {
        Key::Char { character, control: false, alt: false, super_key: false }
    }
}

/// The score of contributor `i` for `query`.
pub open spec fn score_of(query: Seq<char>, contributors: Seq<Contributor>, i: int) -> Option<u32> {
    fuzzy_score(query, identity_line(contributors[i]@))
}

/// `a` is ranked before `b`: a higher score, or the same score and a smaller index.
pub open spec fn ranked_before(a: (usize, u32), b: (usize, u32)) -> bool {
    a.1 > b.1 || (a.1 == b.1 && a.0 < b.0)
}

/// `matches` ranks the entries of `scores` that have a score: the highest score first, then
/// the smallest index.
pub open spec fn is_ranking(scores: Seq<Option<u32>>, matches: Seq<usize>) -> bool {
    &&& forall|j: int|
        0 <= j < matches.len() ==> #[trigger] matches[j] < scores.len() && scores[matches[j] as int] is Some
    &&& forall|i: int| 0 <= i < scores.len() && (#[trigger] scores[i]) is Some ==> matches.contains(i as usize)
    &&& forall|j: int, k: int|
        0 <= j < k < matches.len() ==> ranked_before(
            (matches[j], scores[matches[j] as int]->0),
            (matches[k], scores[matches[k] as int]->0),
        )
}

/// The score of each contributor for `query`.
pub open spec fn scores_for(query: Seq<char>, contributors: Seq<Contributor>) -> Seq<Option<u32>> {
    Seq::new(contributors.len(), |i: int| score_of(query, contributors, i))
}

/// `matches` lists the contributors that `query` selects: all of them in order when the query
/// is empty, else those with a score, the highest score first, then by index.
pub open spec fn is_filtered(query: Seq<char>, contributors: Seq<Contributor>, matches: Seq<usize>) -> bool {
    if query.len() == 0 {
        matches == Seq::new(contributors.len(), |i: int| i as usize)
    } else {
        is_ranking(scores_for(query, contributors), matches)
    }
}

/// Every contributor's `name <email>` can be scored.
pub open spec fn lines_fit(contributors: Seq<Contributor>) -> bool {
    forall|i: int| 0 <= i < contributors.len() ==> identity_line(#[trigger] contributors[i]@).len() <= u32::MAX
}

/// The contributor picker: a search over the contributors, a cursor in the matches, and the set
/// of selected contributors.
pub struct Picker<'a> {
    pub view: View,
    pub query: String,
    pub matches: Vec<usize>,
    pub cursor: usize,
    pub selected: BTreeSet<usize>,
    pub contributors: &'a [Contributor],
    pub matcher: FuzzyMatcher,
}


/// `s` with `i` added when it was missing and removed when it was there.
pub open spec fn toggled(s: Set<usize>, i: usize) -> Set<usize> {
    if s.contains(i) {
        s.remove(i)
    } else {
        s.insert(i)
    }
}

/// `q` lists the elements of `s` in increasing order.
pub open spec fn lists_in_order(q: Seq<usize>, s: Set<usize>) -> bool {
    &&& forall|j: int, k: int| 0 <= j < k < q.len() ==> q[j] < q[k]
    &&& forall|i: usize| s.contains(i) <==> q.contains(i)
}

proof fn lemma_increasing_keys(keys: Seq<&usize>)
    requires
        vstd::std_specs::btree::increasing_seq(keys),
    ensures
        forall|j: int, k: int| 0 <= j < k < keys.len() ==> *keys[j] < *keys[k],
{
    assert forall|j: int, k: int| 0 <= j < k < keys.len() implies *keys[j] < *keys[k] by {
        assert(vstd::std_specs::cmp::OrdSpec::cmp_spec(&keys[j], &keys[k]) is Less);
    }
}

/// Searching looks at each contributor's `name <email>`. For an empty query every contributor
/// matches, in order. Otherwise a contributor matches exactly when the matcher scores its
/// `name <email>` for the query, and a match comes before another when its score is higher, or
/// the same and its index smaller.
pub proof fn law_search_covers_name_and_email(
    query: Seq<char>,
    contributors: Seq<Contributor>,
    matches: Seq<usize>,
)
    requires
        is_filtered(query, contributors, matches),
        contributors.len() <= usize::MAX,
    ensures
        query.len() == 0 ==> matches.len() == contributors.len() && forall|j: int|
            0 <= j < matches.len() ==> #[trigger] matches[j] == j,
        query.len() > 0 ==> forall|i: int|
            0 <= i < contributors.len() ==> (matches.contains(i as usize) <==> fuzzy_score(
                query,
                (#[trigger] contributors[i]).name@ + " <"@ + contributors[i].email@ + ">"@,
            ) is Some),
        query.len() > 0 ==> forall|j: int, k: int|
            0 <= j < k < matches.len() ==> {
                let a = fuzzy_score(
                    query,
                    contributors[matches[j] as int].name@ + " <"@ + contributors[matches[j] as int].email@
                        + ">"@,
                )->0;
                let b = fuzzy_score(
                    query,
                    contributors[matches[k] as int].name@ + " <"@ + contributors[matches[k] as int].email@
                        + ">"@,
                )->0;
                #[trigger] matches[j] != #[trigger] matches[k] && (a > b || (a == b && matches[j]
                    < matches[k]))
            },
{
    if query.len() > 0 {
        let scores = scores_for(query, contributors);
        assert forall|i: int| 0 <= i < contributors.len() implies (matches.contains(i as usize)
            <==> fuzzy_score(
            query,
            (#[trigger] contributors[i]).name@ + " <"@ + contributors[i].email@ + ">"@,
        ) is Some) by {
            assert(scores[i] == score_of(query, contributors, i));
            if matches.contains(i as usize) {
                let j = choose|j: int| 0 <= j < matches.len() && matches[j] == i as usize;
                assert(matches[j] < scores.len() && scores[matches[j] as int] is Some);
            }
        }
        assert forall|j: int, k: int| 0 <= j < k < matches.len() implies {
            let a = fuzzy_score(
                query,
                contributors[matches[j] as int].name@ + " <"@ + contributors[matches[j] as int].email@
                    + ">"@,
            )->0;
            let b = fuzzy_score(
                query,
                contributors[matches[k] as int].name@ + " <"@ + contributors[matches[k] as int].email@
                    + ">"@,
            )->0;
            #[trigger] matches[j] != #[trigger] matches[k] && (a > b || (a == b && matches[j]
                < matches[k]))
        } by {
            assert(ranked_before(
                (matches[j], scores[matches[j] as int]->0),
                (matches[k], scores[matches[k] as int]->0),
            ));
            assert(matches[j] < scores.len() && matches[k] < scores.len());
            assert(scores[matches[j] as int] == score_of(query, contributors, matches[j] as int));
            assert(scores[matches[k] as int] == score_of(query, contributors, matches[k] as int));
        }
    }
}

/// The matches that a query selects name contributors, each at most once.
pub proof fn law_filtered_matches_distinct(
    query: Seq<char>,
    contributors: Seq<Contributor>,
    matches: Seq<usize>,
)
    requires
        is_filtered(query, contributors, matches),
        contributors.len() <= usize::MAX,
    ensures
        matches.no_duplicates(),
        forall|j: int| 0 <= j < matches.len() ==> #[trigger] matches[j] < contributors.len(),
{
    if query.len() > 0 {
        let scores = scores_for(query, contributors);
        assert forall|j: int, k: int| 0 <= j < matches.len() && 0 <= k < matches.len() && j != k
            implies matches[j] != matches[k] by {
            if j < k {
                assert(ranked_before(
                    (matches[j], scores[matches[j] as int]->0),
                    (matches[k], scores[matches[k] as int]->0),
                ));
            } else {
                assert(ranked_before(
                    (matches[k], scores[matches[k] as int]->0),
                    (matches[j], scores[matches[j] as int]->0),
                ));
            }
        }
        assert forall|j: int| 0 <= j < matches.len() implies #[trigger] matches[j] < contributors.len() by {
            assert(matches[j] < scores.len());
        }
    } else {
        assert forall|j: int, k: int| 0 <= j < matches.len() && 0 <= k < matches.len() && j != k
            implies matches[j] != matches[k] by {
            assert(matches[j] == j as usize && matches[k] == k as usize);
        }
    }
}

/// Every entry is ranked before the entries after it.
pub open spec fn is_ranked(s: Seq<(usize, u32)>) -> bool {
    forall|j: int, k: int| 0 <= j < k < s.len() ==> ranked_before(#[trigger] s[j], #[trigger] s[k])
}

/// Inserts an entry whose index is larger than all the others, after the entries whose score is
/// at least its own.
fn insert_ranked(scored: &mut Vec<(usize, u32)>, entry: (usize, u32)) -> (p: usize)
    requires
        is_ranked(old(scored)@),
        forall|j: int| 0 <= j < old(scored)@.len() ==> (#[trigger] old(scored)@[j]).0 < entry.0,
    ensures
        p <= old(scored)@.len(),
        final(scored)@ == old(scored)@.insert(p as int, entry),
        is_ranked(final(scored)@),
{
    let mut p: usize = 0;
    while p < scored.len() && scored[p].1 >= entry.1
        invariant
            p <= scored@.len(),
            scored@ == old(scored)@,
            forall|q: int| 0 <= q < p ==> (#[trigger] scored@[q]).1 >= entry.1,
        decreases scored@.len() - p,
    {
        p = p + 1;
    }
    let ghost before = scored@;
    scored.insert(p, entry);
    assert forall|j: int, k: int| 0 <= j < k < scored@.len() implies ranked_before(
        #[trigger] scored@[j],
        #[trigger] scored@[k],
    ) by {
        if k < p {
            assert(ranked_before(before[j], before[k]));
        } else if k == p {
            assert(before[j].1 >= entry.1 && before[j].0 < entry.0);
        } else if j < p {
            assert(scored@[k] == before[k - 1]);
            assert(before[j].1 >= entry.1);
            if k - 1 > p as int {
                assert(ranked_before(before[p as int], before[k - 1]));
            }
            assert(before[p as int].1 < entry.1);
            assert(ranked_before(before[j], before[p as int]) || j == p);
        } else if j == p {
            assert(scored@[k] == before[k - 1]);
            if k - 1 > p as int {
                assert(ranked_before(before[p as int], before[k - 1]));
            }
            assert(before[p as int].1 < entry.1);
        } else {
            assert(ranked_before(before[j - 1], before[k - 1]));
        }
    }
    p
}

/// The indices of the entries of `scores` that have a score, the highest score first, then the
/// smallest index.
pub fn rank_matches(scores: &Vec<Option<u32>>) -> (r: Vec<usize>)
    ensures
        is_ranking(scores@, r@),
{
    let n = scores.len();
    let mut scored: Vec<(usize, u32)> = Vec::new();
    let mut index: usize = 0;
    while index < n
        invariant
            index <= n == scores@.len(),
            is_ranking_prefix(scores@, scored@, index as int),
        decreases n - index,
    {
        match scores[index] {
            Some(score) => {
                let ghost before = scored@;
                let p = insert_ranked(&mut scored, (index, score));
                assert forall|i: int|
                    0 <= i < index + 1 && (#[trigger] scores@[i]) is Some implies exists|j: int|
                    0 <= j < scored@.len() && scored@[j].0 == i by {
                    if i < index {
                        let j = choose|j: int| 0 <= j < before.len() && before[j].0 == i;
                        if j < p {
                            assert(scored@[j] == before[j]);
                        } else {
                            assert(scored@[j + 1] == before[j]);
                        }
                    } else {
                        assert(scored@[p as int].0 == i);
                    }
                }
            },
            None => {},
        }
        index = index + 1;
    }
    let mut r: Vec<usize> = Vec::new();
    let mut j: usize = 0;
    while j < scored.len()
        invariant
            j <= scored@.len(),
            r@.len() == j,
            forall|k: int| 0 <= k < j ==> r@[k] == (#[trigger] scored@[k]).0,
        decreases scored@.len() - j,
    {
        r.push(scored[j].0);
        j = j + 1;
    }
    assert forall|i: int| 0 <= i < scores@.len() && (#[trigger] scores@[i]) is Some implies r@.contains(
        i as usize,
    ) by {
        let k = choose|k: int| 0 <= k < scored@.len() && scored@[k].0 == i;
        assert(r@[k] == i as usize);
    }
    assert forall|a: int, b: int| 0 <= a < b < r@.len() implies ranked_before(
        (r@[a], scores@[r@[a] as int]->0),
        (r@[b], scores@[r@[b] as int]->0),
    ) by {
        assert(ranked_before(scored@[a], scored@[b]));
    }
    assert forall|k: int| 0 <= k < r@.len() implies #[trigger] r@[k] < scores@.len()
        && scores@[r@[k] as int] is Some by {
        assert(r@[k] == scored@[k].0);
    }
    r
}

/// `scored` ranks the scored entries among the first `index` of `scores`, each with its score.
spec fn is_ranking_prefix(scores: Seq<Option<u32>>, scored: Seq<(usize, u32)>, index: int) -> bool {
    &&& is_ranked(scored)
    &&& forall|j: int|
        0 <= j < scored.len() ==> (#[trigger] scored[j]).0 < index && scores[scored[j].0 as int]
            == Some(scored[j].1)
    &&& forall|i: int|
        0 <= i < index && (#[trigger] scores[i]) is Some ==> exists|j: int|
            0 <= j < scored.len() && scored[j].0 == i
}

impl<'a> Picker<'a> {
    /// The picker's invariant: the query is at most `MAX_QUERY_CHARS` long, the cursor is on a
    /// match when there is one, no contributor is matched twice, and matches and selection only
    /// name contributors.
    pub open spec fn wf(&self) -> bool {
        &&& lines_fit(self.contributors@)
        &&& self.query@.len() <= MAX_QUERY_CHARS
        &&& self.matches@.no_duplicates()
        &&& (self.matches@.len() == 0 ==> self.cursor == 0)
        &&& (self.matches@.len() > 0 ==> self.cursor < self.matches@.len())
        &&& forall|j: int|
            0 <= j < self.matches@.len() ==> #[trigger] self.matches@[j] < self.contributors@.len()
        &&& forall|i: usize| #[trigger] self.selected@.contains(i) ==> i < self.contributors@.len()
    }

    /// A picker over `contributors`, showing all of them, nothing selected.
    pub fn new(contributors: &'a [Contributor]) -> (r: Picker<'a>)
        requires
            lines_fit(contributors@),
        ensures
            r.wf(),
            r.view == View::Picker,
            r.query@.len() == 0,
            r.matches@ == Seq::new(contributors@.len(), |i: int| i as usize),
            r.cursor == 0,
            r.selected@.is_empty(),
            r.contributors@ == contributors@,
    {
        let mut picker = Picker {
            view: View::Picker,
            query: String::new(),
            matches: Vec::new(),
            cursor: 0,
            selected: BTreeSet::new(),
            contributors,
            matcher: FuzzyMatcher::new(),
        };
        picker.refilter();
        picker
    }

    /// Recomputes the matches for the query and puts the cursor on the first one.
    pub fn refilter(&mut self)
        requires
            old(self).wf(),
        ensures
            final(self).wf(),
            final(self).cursor == 0,
            is_filtered(final(self).query@, final(self).contributors@, final(self).matches@),
            final(self).query@.len() == 0 ==> final(self).matches@ == Seq::new(
                final(self).contributors@.len(),
                |i: int| i as usize,
            ),
            final(self).query@.len() > 0 ==> forall|i: int|
                0 <= i < final(self).contributors@.len() ==> (final(self).matches@.contains(
                    i as usize,
                ) <==> fuzzy_score(
                    final(self).query@,
                    (#[trigger] final(self).contributors@[i]).name@ + " <"@
                        + final(self).contributors@[i].email@ + ">"@,
                ) is Some),
            final(self).view == old(self).view,
            final(self).query@ == old(self).query@,
            final(self).selected@ == old(self).selected@,
            final(self).contributors@ == old(self).contributors@,
    {
        self.cursor = 0;
        self.matches.clear();
        let n = self.contributors.len();
        if self.query.as_str().is_empty() {
            let mut i: usize = 0;
            while i < n
                invariant
                    i <= n == self.contributors@.len(),
                    self.matches@ == Seq::new(i as nat, |k: int| k as usize),
                    self.cursor == 0,
                    self.view == old(self).view,
                    self.query@ == old(self).query@,
                    self.selected@ == old(self).selected@,
                    self.contributors@ == old(self).contributors@,
                    old(self).wf(),
                decreases n - i,
            {
                self.matches.push(i);
                assert(self.matches@ =~= Seq::new((i + 1) as nat, |k: int| k as usize));
                i = i + 1;
            }
            proof {
                law_filtered_matches_distinct(self.query@, self.contributors@, self.matches@);
                law_search_covers_name_and_email(self.query@, self.contributors@, self.matches@);
            }
            return;
        }
        let ghost query = self.query@;
        let ghost cs = self.contributors@;
        let mut scores: Vec<Option<u32>> = Vec::new();
        let mut index: usize = 0;
        while index < n
            invariant
                index <= n == cs.len(),
                cs == self.contributors@,
                query == self.query@,
                lines_fit(cs),
                self.matches@.len() == 0,
                scores@ == scores_for(query, cs).take(index as int),
                self.cursor == 0,
                self.view == old(self).view,
                self.query@ == old(self).query@,
                self.selected@ == old(self).selected@,
                self.contributors@ == old(self).contributors@,
                old(self).wf(),
            decreases n - index,
        {
            let line = identity_line_of(&self.contributors[index]);
            let score = self.matcher.score(self.query.as_str(), line.as_str());
            scores.push(score);
            assert(scores_for(query, cs).take(index + 1) =~= scores_for(query, cs).take(
                index as int,
            ).push(score));
            index = index + 1;
        }
        assert(scores_for(query, cs).take(n as int) =~= scores_for(query, cs));
        self.matches = rank_matches(&scores);
        proof {
            law_filtered_matches_distinct(self.query@, self.contributors@, self.matches@);
            law_search_covers_name_and_email(self.query@, self.contributors@, self.matches@);
        }
    }

    /// Moves the cursor one match up, staying on the first.
    pub fn move_up(&mut self)
        requires
            old(self).wf(),
        ensures
            final(self).wf(),
            final(self).cursor == if old(self).cursor > 0 {
                old(self).cursor - 1
            } else {
                0
            },
            final(self).view == old(self).view,
            final(self).query@ == old(self).query@,
            final(self).matches@ == old(self).matches@,
            final(self).selected@ == old(self).selected@,
            final(self).contributors@ == old(self).contributors@,
    {
        self.cursor = self.cursor.saturating_sub(1);
    }

    /// Moves the cursor one match down, staying on the last.
    pub fn move_down(&mut self)
        requires
            old(self).wf(),
        ensures
            final(self).wf(),
            final(self).cursor == if old(self).cursor + 1 < old(self).matches@.len() {
                old(self).cursor + 1
            } else {
                old(self).cursor as int
            },
            final(self).view == old(self).view,
            final(self).query@ == old(self).query@,
            final(self).matches@ == old(self).matches@,
            final(self).selected@ == old(self).selected@,
            final(self).contributors@ == old(self).contributors@,
    {
        if self.cursor < self.matches.len() && self.cursor + 1 < self.matches.len() {
            self.cursor = self.cursor + 1;
        }
    }

    /// Selects the contributor under the cursor, or deselects it when it was selected.
    pub fn toggle_selected(&mut self)
        requires
            old(self).wf(),
        ensures
            final(self).wf(),
            final(self).selected@ == if old(self).matches@.len() > 0 {
                toggled(old(self).selected@, old(self).matches@[old(self).cursor as int])
            } else {
                old(self).selected@
            },
            final(self).view == old(self).view,
            final(self).query@ == old(self).query@,
            final(self).matches@ == old(self).matches@,
            final(self).cursor == old(self).cursor,
            final(self).contributors@ == old(self).contributors@,
    {
        if self.cursor >= self.matches.len() {
            return;
        }
        let index = self.matches[self.cursor];
        if !self.selected.remove(&index) {
            self.selected.insert(index);
        }
    }

    /// The selected contributors' indices, in increasing order.
    pub fn selected_indices(&self) -> (r: Vec<usize>)
        ensures
            lists_in_order(r@, self.selected@),
    {
        let mut r: Vec<usize> = Vec::new();
        let ghost keys = vstd::std_specs::btree::spec_btree_keys_iter(&self.selected).remaining();
        proof {
            vstd::std_specs::btree::axiom_spec_btree_keys_iter(&self.selected);
        }
        for index in it: self.selected.iter()
            invariant
                it.seq() == keys,
                r@ == keys.take(it.index() as int).map_values(|x: &usize| *x),
        {
            let ghost before = r@;
            r.push(*index);
            assert(keys.take(it.index() + 1).map_values(|x: &usize| *x) =~= before.push(*index));
        }
        assert(keys.take(keys.len() as int) =~= keys);
        assert(r@ =~= keys.unref());
        proof {
            lemma_increasing_keys(keys);
            assert forall|i: usize| self.selected@.contains(i) <==> r@.contains(i) by {
                if r@.contains(i) {
                    assert(keys.unref().to_set().contains(i));
                }
                if self.selected@.contains(i) {
                    assert(keys.unref().to_set().contains(i));
                }
            }
        }
        r
    }

    /// The selected contributors, in the order of their indices.
    pub fn selected_contributors(&self) -> (r: Vec<&'a Contributor>)
        requires
            self.wf(),
        ensures
            exists|q: Seq<usize>|
                lists_in_order(q, self.selected@) && r@.len() == q.len() && (forall|k: int|
                    0 <= k < q.len() ==> *r@[k] == self.contributors@[#[trigger] q[k] as int]),
    {
        let indices = self.selected_indices();
        let mut r: Vec<&'a Contributor> = Vec::new();
        let mut k: usize = 0;
        while k < indices.len()
            invariant
                k <= indices@.len(),
                r@.len() == k,
                lists_in_order(indices@, self.selected@),
                self.wf(),
                forall|j: int| 0 <= j < k ==> *r@[j] == self.contributors@[#[trigger] indices@[j] as int],
            decreases indices@.len() - k,
        {
            assert(self.selected@.contains(indices@[k as int]));
            r.push(&self.contributors[indices[k]]);
            k = k + 1;
        }
        r
    }

    /// Handles a key in the picker view.
    fn handle_picker_key(&mut self, key: Key) -> (r: Action)
        requires
            old(self).wf(),
            old(self).view == View::Picker,
        ensures
            final(self).wf(),
            final(self).contributors@ == old(self).contributors@,
            picker_key_handled(*old(self), key, *final(self), r),
    {
        match key {
            Key::Esc => Action::Cancel,
            Key::Enter => {
                if self.selected.is_empty() {
                    Action::Confirm
                } else {
                    self.view = View::Confirmation;
                    Action::Continue
                }
            },
            Key::Up => {
                self.move_up();
                Action::Continue
            },
            Key::Down => {
                self.move_down();
                Action::Continue
            },
            Key::Backspace => {
                pop_char(&mut self.query);
                self.refilter();
                Action::Continue
            },
            Key::Char { character, control, alt, super_key } => {
                if control || alt || super_key {
                } else if character == ' ' {
                    self.toggle_selected();
                } else if self.query.as_str().unicode_len() < MAX_QUERY_CHARS {
                    push_char(&mut self.query, character);
                    self.refilter();
                }
                Action::Continue
            },
            Key::Other => Action::Continue,
        }
    }

    /// Handles a key in the confirmation view.
    fn handle_confirmation_key(&mut self, key: Key) -> (r: Action)
        requires
            old(self).wf(),
            old(self).view == View::Confirmation,
        ensures
            final(self).wf(),
            final(self).contributors@ == old(self).contributors@,
            confirmation_key_handled(*old(self), key, *final(self), r),
    {
        match key {
            Key::Enter => Action::Confirm,
            Key::Esc => {
                self.view = View::Picker;
                Action::Continue
            },
            _ => Action::Continue,
        }
    }

    /// Handles a key: in the picker, typing searches, Up and Down move, Space selects, Enter
    /// continues and Esc cancels; in the confirmation, Enter confirms and Esc goes back. A
    /// character typed when the query already holds `MAX_QUERY_CHARS` characters is ignored.
    pub fn handle_key(&mut self, key: Key) -> (r: Action)
        requires
            old(self).wf(),
        ensures
            final(self).wf(),
            final(self).contributors@ == old(self).contributors@,
            old(self).view == View::Picker ==> picker_key_handled(*old(self), key, *final(self), r),
            old(self).view == View::Confirmation ==> confirmation_key_handled(
                *old(self),
                key,
                *final(self),
                r,
            ),
            old(self).view == View::Picker && key == Key::Esc ==> r == Action::Cancel,
            old(self).view == View::Picker && key == Key::Enter ==> (r == Action::Confirm)
                == old(self).selected@.is_empty() && (final(self).view == View::Confirmation)
                == !old(self).selected@.is_empty(),
            old(self).view == View::Picker && key == Key::Up ==> r == Action::Continue && final(self).cursor == (
            if old(self).cursor > 0 {
                old(self).cursor - 1
            } else {
                0
            }) && final(self).matches@ == old(self).matches@ && final(self).query@ == old(self).query@ && final(self).selected@
                == old(self).selected@,
            old(self).view == View::Picker && key == Key::Down ==> r == Action::Continue && final(self).cursor == (
            if old(self).cursor + 1 < old(self).matches@.len() {
                old(self).cursor + 1
            } else {
                old(self).cursor as int
            }) && final(self).matches@ == old(self).matches@ && final(self).query@ == old(self).query@ && final(self).selected@
                == old(self).selected@,
            old(self).view == View::Picker && key == (Key::Char {
                character: ' ',
                control: false,
                alt: false,
                super_key: false,
            }) && old(self).matches@.len() > 0 ==> r == Action::Continue && (final(self).selected@.contains(
                old(self).matches@[old(self).cursor as int],
            ) != old(self).selected@.contains(old(self).matches@[old(self).cursor as int])) && (forall|i: usize|
                i != old(self).matches@[old(self).cursor as int] ==> (final(self).selected@.contains(i)
                    == old(self).selected@.contains(i))) && final(self).matches@ == old(self).matches@ && final(self).cursor
                == old(self).cursor,
            key matches Key::Char {
                character,
                control: false,
                alt: false,
                super_key: false,
            } ==> (old(self).view == View::Picker && character != ' ' && old(self).query@.len() < MAX_QUERY_CHARS
                ==> r == Action::Continue && final(self).query@ == old(self).query@.push(character) && final(self).cursor
                == 0 && final(self).selected@ == old(self).selected@),
            old(self).view == View::Picker && key == Key::Backspace ==> r == Action::Continue
                && final(self).query@ == (if old(self).query@.len() > 0 {
                old(self).query@.drop_last()
            } else {
                old(self).query@
            }) && final(self).cursor == 0 && final(self).selected@ == old(self).selected@,
            old(self).view == View::Confirmation && key == Key::Enter ==> r == Action::Confirm,
            old(self).view == View::Confirmation && key == Key::Esc ==> r == Action::Continue && final(self).view
                == View::Picker && final(self).selected@ == old(self).selected@,
    {
        let ghost before = *self;
        let r = match self.view {
            View::Picker => self.handle_picker_key(key),
            View::Confirmation => self.handle_confirmation_key(key),
        };
        proof {
            law_picker_keys(before, key, *self, r);
        }
        r
    }
}

/// `after` holds the same query, matches, cursor and selection as `before`.
pub open spec fn same_search(before: Picker, after: Picker) -> bool {
    &&& after.query@ == before.query@
    &&& after.matches@ == before.matches@
    &&& after.cursor == before.cursor
    &&& after.selected@ == before.selected@
}

/// What a key does in the picker view.
pub open spec fn picker_key_handled(before: Picker, key: Key, after: Picker, r: Action) -> bool {
    match key {
        Key::Esc => r == Action::Cancel && after.view == before.view && same_search(before, after),
        Key::Enter => if before.selected@.is_empty() {
            r == Action::Confirm && after.view == before.view && same_search(before, after)
        } else {
            r == Action::Continue && after.view == View::Confirmation && same_search(before, after)
        },
        Key::Up => r == Action::Continue && after.view == before.view && after.cursor == (if before.cursor
            > 0 {
            before.cursor - 1
        } else {
            0
        }) && after.query@ == before.query@ && after.matches@ == before.matches@ && after.selected@
            == before.selected@,
        Key::Down => r == Action::Continue && after.view == before.view && after.cursor == (if before.cursor
            + 1 < before.matches@.len() {
            before.cursor + 1
        } else {
            before.cursor as int
        }) && after.query@ == before.query@ && after.matches@ == before.matches@ && after.selected@
            == before.selected@,
        Key::Backspace => r == Action::Continue && after.view == before.view && after.query@ == (if before.query@.len()
            > 0 {
            before.query@.drop_last()
        } else {
            before.query@
        }) && after.cursor == 0 && is_filtered(after.query@, after.contributors@, after.matches@)
            && after.selected@ == before.selected@,
        Key::Char { character, control, alt, super_key } => r == Action::Continue && after.view
            == before.view && if control || alt || super_key {
            same_search(before, after)
        } else if character == ' ' {
            &&& after.selected@ == (if before.matches@.len() > 0 {
                toggled(before.selected@, before.matches@[before.cursor as int])
            } else {
                before.selected@
            })
            &&& after.query@ == before.query@
            &&& after.matches@ == before.matches@
            &&& after.cursor == before.cursor
        } else if before.query@.len() < MAX_QUERY_CHARS {
            &&& after.query@ == before.query@.push(character)
            &&& after.cursor == 0
            &&& is_filtered(after.query@, after.contributors@, after.matches@)
            &&& after.selected@ == before.selected@
        } else {
            same_search(before, after)
        },
        Key::Other => r == Action::Continue && after.view == before.view && same_search(before, after),
    }
}

/// What a key does in the confirmation view.
pub open spec fn confirmation_key_handled(before: Picker, key: Key, after: Picker, r: Action) -> bool {
    &&& same_search(before, after)
    &&& match key {
        Key::Enter => r == Action::Confirm && after.view == before.view,
        Key::Esc => r == Action::Continue && after.view == View::Picker,
        _ => r == Action::Continue && after.view == before.view,
    }
}

/// What the keys do. In the picker: Esc cancels; Enter confirms at once when nothing is
/// selected and otherwise opens the confirmation; Up and Down move the cursor one match, staying
/// on the first and last; Space selects or deselects the contributor under the cursor and no
/// other; a character typed without Control, Alt or Super is appended to the query, which puts
/// the cursor back on the first match; Backspace removes the query's last character. In the
/// confirmation: Enter confirms and Esc goes back to the picker.
pub proof fn law_picker_keys(before: Picker, key: Key, after: Picker, r: Action)
    requires
        before.view == View::Picker ==> picker_key_handled(before, key, after, r),
        before.view == View::Confirmation ==> confirmation_key_handled(before, key, after, r),
    ensures
        before.view == View::Picker && key == Key::Esc ==> r == Action::Cancel,
        before.view == View::Picker && key == Key::Enter ==> (r == Action::Confirm)
            == before.selected@.is_empty() && (after.view == View::Confirmation)
            == !before.selected@.is_empty(),
        before.view == View::Picker && key == Key::Up ==> r == Action::Continue && after.cursor == (
        if before.cursor > 0 {
            before.cursor - 1
        } else {
            0
        }) && after.matches@ == before.matches@ && after.query@ == before.query@ && after.selected@
            == before.selected@,
        before.view == View::Picker && key == Key::Down ==> r == Action::Continue && after.cursor == (
        if before.cursor + 1 < before.matches@.len() {
            before.cursor + 1
        } else {
            before.cursor as int
        }) && after.matches@ == before.matches@ && after.query@ == before.query@ && after.selected@
            == before.selected@,
        before.view == View::Picker && key == (Key::Char {
            character: ' ',
            control: false,
            alt: false,
            super_key: false,
        }) && before.matches@.len() > 0 ==> r == Action::Continue && (after.selected@.contains(
            before.matches@[before.cursor as int],
        ) != before.selected@.contains(before.matches@[before.cursor as int])) && (forall|i: usize|
            i != before.matches@[before.cursor as int] ==> (after.selected@.contains(i)
                == before.selected@.contains(i))) && after.matches@ == before.matches@ && after.cursor
            == before.cursor,
        key matches Key::Char {
            character,
            control: false,
            alt: false,
            super_key: false,
        } ==> (before.view == View::Picker && character != ' ' && before.query@.len() < MAX_QUERY_CHARS
            ==> r == Action::Continue && after.query@ == before.query@.push(character) && after.cursor
            == 0 && after.selected@ == before.selected@),
        before.view == View::Picker && key == Key::Backspace ==> r == Action::Continue
            && after.query@ == (if before.query@.len() > 0 {
            before.query@.drop_last()
        } else {
            before.query@
        }) && after.cursor == 0 && after.selected@ == before.selected@,
        before.view == View::Confirmation && key == Key::Enter ==> r == Action::Confirm,
        before.view == View::Confirmation && key == Key::Esc ==> r == Action::Continue && after.view
            == View::Picker && after.selected@ == before.selected@,
{
}

/// Toggling the same contributor twice leaves the selection as it was.
pub proof fn law_toggle_twice(s: Set<usize>, i: usize)
    ensures
        toggled(toggled(s, i), i) == s,
{
    if s.contains(i) {
        assert(s.remove(i).insert(i) =~= s);
    } else {
        assert(s.insert(i).remove(i) =~= s);
    }
}

} // verus!
