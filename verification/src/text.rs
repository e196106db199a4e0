use vstd::prelude::*;

verus! {

/// Whether `c` is white space in the sense of the Unicode `White_Space` property.
pub open spec fn is_whitespace(c: char) -> bool {
    ||| ('\t' <= c && c <= '\r')
    ||| c == ' '
    ||| c == '\u{85}'
    ||| c == '\u{a0}'
    ||| c == '\u{1680}'
    ||| ('\u{2000}' <= c && c <= '\u{200a}')
    ||| c == '\u{2028}'
    ||| c == '\u{2029}'
    ||| c == '\u{202f}'
    ||| c == '\u{205f}'
    ||| c == '\u{3000}'
}

pub fn is_whitespace_char(c: char) -> (r: bool)
    ensures
        r == is_whitespace(c),
{
    ('\t' <= c && c <= '\r') || c == ' ' || c == '\u{85}' || c == '\u{a0}' || c == '\u{1680}' || (
    '\u{2000}' <= c && c <= '\u{200a}') || c == '\u{2028}' || c == '\u{2029}' || c == '\u{202f}'
        || c == '\u{205f}' || c == '\u{3000}'
}

/// The characters of `s`, in order.
pub fn chars_of(s: &str) -> (r: Vec<char>)
    ensures
        r@ == s@,
{
    let mut r: Vec<char> = Vec::new();
    for c in it: s.chars()
        invariant
            r@ == it.seq().take(it.index() as int),
    {
        r.push(c);
    }
    r
}


/// `String::push`: appends one character.
#[verifier::external_body]
pub(crate) fn push_char(s: &mut String, c: char)
    ensures
        final(s)@ == old(s)@.push(c),
{
    s.push(c);
}

/// `String::pop`: removes the last character, if there is one.
#[verifier::external_body]
pub(crate) fn pop_char(s: &mut String) -> (r: Option<char>)
    ensures
        old(s)@.len() == 0 ==> r is None && final(s)@ == old(s)@,
        old(s)@.len() > 0 ==> r == Some(old(s)@.last()) && final(s)@ == old(s)@.drop_last(),
{
    s.pop()
}

/// The string made of `chars[lo..hi]`.
pub fn string_of(chars: &Vec<char>, lo: usize, hi: usize) -> (r: String)
    requires
        lo <= hi <= chars@.len(),
    ensures
        r@ == chars@.subrange(lo as int, hi as int),
{
    let mut r = String::new();
    let mut i = lo;
    while i < hi
        invariant
            lo <= i <= hi <= chars@.len(),
            r@ == chars@.subrange(lo as int, i as int),
        decreases hi - i,
    {
        push_char(&mut r, chars[i]);
        assert(chars@.subrange(lo as int, i + 1) =~= chars@.subrange(lo as int, i as int).push(
            chars@[i as int],
        ));
        i = i + 1;
    }
    r
}

/// `s` without its leading white space.
pub open spec fn trim_start(s: Seq<char>) -> Seq<char>
    decreases s.len(),
{
    if s.len() > 0 && is_whitespace(s[0]) {
        trim_start(s.drop_first())
    } else {
        s
    }
}

/// `s` without its trailing white space.
pub open spec fn trim_end(s: Seq<char>) -> Seq<char>
    decreases s.len(),
{
    if s.len() > 0 && is_whitespace(s.last()) {
        trim_end(s.drop_last())
    } else {
        s
    }
}

/// `s` without leading and trailing white space, as `str::trim` gives it.
pub open spec fn trim(s: Seq<char>) -> Seq<char> {
    trim_end(trim_start(s))
}

/// The bounds of the trimmed part of `chars[lo..hi]`.
pub fn trim_bounds(chars: &Vec<char>, lo: usize, hi: usize) -> (r: (usize, usize))
    requires
        lo <= hi <= chars@.len(),
    ensures
        lo <= r.0 <= r.1 <= hi,
        chars@.subrange(r.0 as int, r.1 as int) == trim(chars@.subrange(lo as int, hi as int)),
{
    let ghost s = chars@;
    let mut i = lo;
    while i < hi && is_whitespace_char(chars[i])
        invariant
            lo <= i <= hi <= s.len(),
            s == chars@,
            trim_start(s.subrange(lo as int, hi as int)) == trim_start(s.subrange(i as int, hi as int)),
        decreases hi - i,
    {
        assert(s.subrange(i as int, hi as int).drop_first() =~= s.subrange(i + 1, hi as int));
        i = i + 1;
    }
    assert(trim_start(s.subrange(i as int, hi as int)) == s.subrange(i as int, hi as int));
    let mut j = hi;
    while j > i && is_whitespace_char(chars[j - 1])
        invariant
            lo <= i <= j <= hi <= s.len(),
            s == chars@,
            trim_end(s.subrange(i as int, hi as int)) == trim_end(s.subrange(i as int, j as int)),
        decreases j - i,
    {
        assert(s.subrange(i as int, j as int).drop_last() =~= s.subrange(i as int, j - 1));
        j = j - 1;
    }
    assert(trim_end(s.subrange(i as int, j as int)) == s.subrange(i as int, j as int));
    (i, j)
}

/// `str::trim`, to an owned string.
pub fn trimmed(s: &str) -> (r: String)
    ensures
        r@ == trim(s@),
{
    let chars = chars_of(s);
    let (i, j) = trim_bounds(&chars, 0, chars.len());
    assert(chars@.subrange(0, chars@.len() as int) =~= s@);
    string_of(&chars, i, j)
}


/// `i` is the position of the first `c` in `s`.
pub open spec fn is_first_index(s: Seq<char>, c: char, i: int) -> bool {
    &&& 0 <= i < s.len()
    &&& s[i] == c
    &&& forall|k: int| 0 <= k < i ==> s[k] != c
}

/// The position of the first `c` in `s`, if `s` holds one.
pub open spec fn first_index_of(s: Seq<char>, c: char) -> Option<int> {
    if exists|i: int| is_first_index(s, c, i) {
        Some(choose|i: int| is_first_index(s, c, i))
    } else {
        None
    }
}

pub proof fn lemma_first_index_unique(s: Seq<char>, c: char, i: int)
    requires
        is_first_index(s, c, i),
    ensures
        first_index_of(s, c) == Some(i),
{
    let j = choose|j: int| is_first_index(s, c, j);
    assert(is_first_index(s, c, j));
    if j < i {
        assert(s[j] != c);
    } else if i < j {
        assert(s[i] != c);
    }
}

pub proof fn lemma_first_index_none(s: Seq<char>, c: char)
    requires
        forall|k: int| 0 <= k < s.len() ==> s[k] != c,
    ensures
        first_index_of(s, c) is None,
{
}

/// The first position of `c` in `chars[lo..hi]`, counted from the start of `chars`.
pub fn find_char(chars: &Vec<char>, lo: usize, hi: usize, c: char) -> (r: Option<usize>)
    requires
        lo <= hi <= chars@.len(),
    ensures
        match r {
            Some(i) => lo <= i < hi && first_index_of(chars@.subrange(lo as int, hi as int), c)
                == Some(i - lo),
            None => first_index_of(chars@.subrange(lo as int, hi as int), c) is None,
        },
{
    let ghost sub = chars@.subrange(lo as int, hi as int);
    let mut i = lo;
    while i < hi
        invariant
            lo <= i <= hi <= chars@.len(),
            sub == chars@.subrange(lo as int, hi as int),
            forall|k: int| 0 <= k < i - lo ==> sub[k] != c,
        decreases hi - i,
    {
        if chars[i] == c {
            proof {
                lemma_first_index_unique(sub, c, i - lo);
            }
            return Some(i);
        }
        i = i + 1;
    }
    proof {
        lemma_first_index_none(sub, c);
    }
    None
}

/// The pair `a b` stands at position `k` of `s`.
pub open spec fn pair_at(s: Seq<char>, a: char, b: char, k: int) -> bool {
    s[k] == a && s[k + 1] == b
}

/// `i` is the position of the last occurrence of the pair `a b` in `s`.
pub open spec fn is_last_pair_index(s: Seq<char>, a: char, b: char, i: int) -> bool {
    &&& 0 <= i && i + 1 < s.len()
    &&& s[i] == a && s[i + 1] == b
    &&& forall|k: int| i < k && k + 1 < s.len() ==> !#[trigger] pair_at(s, a, b, k)
}

/// The position of the last occurrence of the pair `a b` in `s`, if any.
pub open spec fn last_pair_index_of(s: Seq<char>, a: char, b: char) -> Option<int> {
    if exists|i: int| is_last_pair_index(s, a, b, i) {
        Some(choose|i: int| is_last_pair_index(s, a, b, i))
    } else {
        None
    }
}

/// The last position of the pair `a b` in `chars[lo..hi]`, counted from the start of `chars`.
pub fn rfind_pair(chars: &Vec<char>, lo: usize, hi: usize, a: char, b: char) -> (r: Option<usize>)
    requires
        lo <= hi <= chars@.len(),
    ensures
        match r {
            Some(i) => lo <= i && i + 1 < hi && last_pair_index_of(
                chars@.subrange(lo as int, hi as int),
                a,
                b,
            ) == Some(i - lo),
            None => last_pair_index_of(chars@.subrange(lo as int, hi as int), a, b) is None,
        },
{
    let ghost sub = chars@.subrange(lo as int, hi as int);
    if hi - lo < 2 {
        assert forall|j: int| !is_last_pair_index(sub, a, b, j) by {}
        return None;
    }
    let mut i = hi - 1;
    while i > lo
        invariant
            lo <= i <= hi - 1,
            hi <= chars@.len(),
            sub == chars@.subrange(lo as int, hi as int),
            forall|k: int| i - lo <= k && k + 1 < sub.len() ==> !#[trigger] pair_at(sub, a, b, k),
        decreases i,
    {
        let p = i - 1;
        if chars[p] == a && chars[i] == b {
            proof {
                let q: int = p - lo;
                assert(is_last_pair_index(sub, a, b, q));
                let j = choose|j: int| is_last_pair_index(sub, a, b, j);
                if j < q {
                    assert(!pair_at(sub, a, b, q));
                } else if q < j {
                    assert(!pair_at(sub, a, b, j));
                }
            }
            return Some(p);
        }
        i = p;
    }
    assert forall|j: int| !is_last_pair_index(sub, a, b, j) by {
        if is_last_pair_index(sub, a, b, j) {
            assert(pair_at(sub, a, b, j));
        }
    }
    None
}

/// Whether `c` is an ASCII digit.
pub open spec fn is_digit(c: char) -> bool {
    '0' <= c && c <= '9'
}

/// The number that the decimal digits `s` write.
pub open spec fn digits_value(s: Seq<char>) -> int
    decreases s.len(),
{
    if s.len() == 0 {
        0
    } else {
        digits_value(s.drop_last()) * 10 + ((s.last() as int) - ('0' as int))
    }
}

/// Every character of `s` is a decimal digit.
pub open spec fn all_digits(s: Seq<char>) -> bool {
    forall|i: int| 0 <= i < s.len() ==> is_digit(#[trigger] s[i])
}

/// `s` without one leading `+`.
pub open spec fn unsigned_part(s: Seq<char>) -> Seq<char> {
    if s.len() > 0 && s[0] == '+' {
        s.drop_first()
    } else {
        s
    }
}

/// What `str::parse::<u64>` gives: an optional `+` and then one or more decimal digits whose
/// value fits in a `u64`.
pub open spec fn parse_u64(s: Seq<char>) -> Option<u64> {
    let d = unsigned_part(s);
    if d.len() > 0 && all_digits(d) && digits_value(d) <= u64::MAX {
        Some(digits_value(d) as u64)
    } else {
        None
    }
}

proof fn lemma_digits_value_nonneg(s: Seq<char>)
    requires
        forall|i: int| 0 <= i < s.len() ==> is_digit(#[trigger] s[i]),
    ensures
        digits_value(s) >= 0,
    decreases s.len(),
{
    if s.len() > 0 {
        lemma_digits_value_nonneg(s.drop_last());
    }
}

proof fn lemma_digits_value_prefix(s: Seq<char>, k: int)
    requires
        0 <= k <= s.len(),
        forall|i: int| 0 <= i < s.len() ==> is_digit(#[trigger] s[i]),
    ensures
        digits_value(s.take(k)) <= digits_value(s),
    decreases s.len(),
{
    if k < s.len() {
        assert(s.drop_last().take(k) =~= s.take(k));
        lemma_digits_value_prefix(s.drop_last(), k);
        lemma_digits_value_nonneg(s.drop_last());
    } else {
        assert(s.take(k) =~= s);
    }
}

/// `str::parse::<u64>` of `chars[lo..hi]`.
pub fn parse_u64_range(chars: &Vec<char>, lo: usize, hi: usize) -> (r: Option<u64>)
    requires
        lo <= hi <= chars@.len(),
    ensures
        r == parse_u64(chars@.subrange(lo as int, hi as int)),
{
    let ghost s = chars@.subrange(lo as int, hi as int);
    let mut start = lo;
    if lo < hi && chars[lo] == '+' {
        start = lo + 1;
    }
    let ghost d = chars@.subrange(start as int, hi as int);
    assert(d =~= unsigned_part(s));
    if start == hi {
        return None;
    }
    let mut value: u64 = 0;
    let mut i = start;
    while i < hi
        invariant
            lo <= start <= i <= hi <= chars@.len(),
            d == chars@.subrange(start as int, hi as int),
            s == chars@.subrange(lo as int, hi as int),
            d == unsigned_part(s),
            forall|k: int| 0 <= k < i - start ==> is_digit(#[trigger] d[k]),
            value == digits_value(d.take(i - start)),
        decreases hi - i,
    {
        let c = chars[i];
        if !('0' <= c && c <= '9') {
            assert(!is_digit(d[i - start]));
            return None;
        }
        let digit = (c as u32 - '0' as u32) as u64;
        let ghost prev = d.take(i - start);
        assert(d.take(i + 1 - start).drop_last() =~= prev);
        assert(d.take(i + 1 - start).last() == c);
        assert(digits_value(d.take(i + 1 - start)) == value * 10 + digit);
        let step = value.checked_mul(10);
        match step {
            None => {
                proof {
                    if all_digits(d) {
                        lemma_digits_value_prefix(d, i + 1 - start);
                        lemma_digits_value_nonneg(prev);
                    }
                }
                return None;
            },
            Some(tens) => {
                match tens.checked_add(digit) {
                    None => {
                        proof {
                            if all_digits(d) {
                                lemma_digits_value_prefix(d, i + 1 - start);
                            }
                        }
                        return None;
                    },
                    Some(next) => {
                        value = next;
                    },
                }
            },
        }
        i = i + 1;
    }
    assert(d.take(d.len() as int) =~= d);
    Some(value)
}


/// A copy of `chars[lo..hi]`.
pub fn copy_range(chars: &Vec<char>, lo: usize, hi: usize) -> (r: Vec<char>)
    requires
        lo <= hi <= chars@.len(),
    ensures
        r@ == chars@.subrange(lo as int, hi as int),
{
    let mut r: Vec<char> = Vec::new();
    let mut i = lo;
    while i < hi
        invariant
            lo <= i <= hi <= chars@.len(),
            r@ == chars@.subrange(lo as int, i as int),
        decreases hi - i,
    {
        r.push(chars[i]);
        assert(chars@.subrange(lo as int, i + 1) =~= chars@.subrange(lo as int, i as int).push(
            chars@[i as int],
        ));
        i = i + 1;
    }
    r
}

/// `s` without one trailing carriage return.
pub open spec fn strip_cr(s: Seq<char>) -> Seq<char> {
    if s.len() > 0 && s.last() == '\r' {
        s.drop_last()
    } else {
        s
    }
}

/// The lines of `s`, as `str::lines` gives them: split at each line feed, a carriage return
/// just before it dropped, and no empty last line after a final line feed.
pub open spec fn lines(s: Seq<char>) -> Seq<Seq<char>>
    decreases s.len(),
{
    if s.len() == 0 {
        seq![]
    } else if exists|i: int| is_first_index(s, '\n', i) {
        let i = choose|i: int| is_first_index(s, '\n', i);
        seq![strip_cr(s.take(i))] + lines(s.skip(i + 1))
    } else {
        seq![s]
    }
}

/// `str::lines` of `chars`, each line as its characters.
pub fn split_lines(chars: &Vec<char>) -> (r: Vec<Vec<char>>)
    ensures
        r@.map_values(|l: Vec<char>| l@) == lines(chars@),
{
    let n = chars.len();
    let mut out: Vec<Vec<char>> = Vec::new();
    let mut start: usize = 0;
    assert(chars@.subrange(0, n as int) =~= chars@);
    while start < n
        invariant
            start <= n == chars@.len(),
            lines(chars@) == out@.map_values(|l: Vec<char>| l@) + lines(chars@.subrange(start as int, n as int)),
        decreases n - start,
    {
        let ghost sub = chars@.subrange(start as int, n as int);
        match find_char(chars, start, n, '\n') {
            Some(i) => {
                let end = if i > start && chars[i - 1] == '\r' {
                    i - 1
                } else {
                    i
                };
                let line = copy_range(chars, start, end);
                proof {
                    let k: int = i - start;
                    assert(exists|j: int| is_first_index(sub, '\n', j));
                    assert(sub.take(k) =~= chars@.subrange(start as int, i as int));
                    assert(sub.skip(k + 1) =~= chars@.subrange(i + 1, n as int));
                    assert(line@ =~= strip_cr(sub.take(k)));
                }
                let ghost before = out@.map_values(|l: Vec<char>| l@);
                out.push(line);
                assert(out@.map_values(|l: Vec<char>| l@) =~= before.push(line@));
                start = i + 1;
            },
            None => {
                let line = copy_range(chars, start, n);
                let ghost before = out@.map_values(|l: Vec<char>| l@);
                out.push(line);
                assert(out@.map_values(|l: Vec<char>| l@) =~= before.push(line@));
                assert(lines(chars@.subrange(n as int, n as int)) =~= Seq::<Seq<char>>::empty());
                start = n;
            },
        }
    }
    assert(chars@.subrange(n as int, n as int) =~= Seq::<char>::empty());
    assert(out@.map_values(|l: Vec<char>| l@) + Seq::<Seq<char>>::empty() =~= out@.map_values(|l: Vec<char>| l@));
    out
}

/// `c` with an ASCII upper-case letter turned into lower case, as a code point.
pub open spec fn ascii_fold(c: char) -> u32 {
    if 'A' <= c && c <= 'Z' {
        ((c as u32) + 32) as u32
    } else {
        c as u32
    }
}

/// `s` with its ASCII letters in lower case, as code points; two strings are equal ignoring
/// ASCII case when these agree.
pub open spec fn fold_case(s: Seq<char>) -> Seq<u32> {
    s.map_values(|c: char| ascii_fold(c))
}

fn ascii_fold_char(c: char) -> (r: u32)
    ensures
        r == ascii_fold(c),
{
    if 'A' <= c && c <= 'Z' {
        c as u32 + 32
    } else {
        c as u32
    }
}

/// `str::eq_ignore_ascii_case`.
pub fn eq_ignore_ascii_case(a: &Vec<char>, b: &Vec<char>) -> (r: bool)
    ensures
        r == (fold_case(a@) == fold_case(b@)),
{
    if a.len() != b.len() {
        assert(fold_case(a@).len() != fold_case(b@).len());
        return false;
    }
    let mut i: usize = 0;
    while i < a.len()
        invariant
            a@.len() == b@.len(),
            0 <= i <= a@.len(),
            forall|k: int| 0 <= k < i ==> ascii_fold(a@[k]) == ascii_fold(b@[k]),
        decreases a@.len() - i,
    {
        if ascii_fold_char(a[i]) != ascii_fold_char(b[i]) {
            assert(fold_case(a@)[i as int] != fold_case(b@)[i as int]);
            return false;
        }
        i = i + 1;
    }
    assert(fold_case(a@) =~= fold_case(b@));
    true
}


/// Appends the characters of `t` to `s`.
pub fn push_str(s: &mut String, t: &str)
    ensures
        final(s)@ == old(s)@ + t@,
{
    let chars = chars_of(t);
    let mut i: usize = 0;
    while i < chars.len()
        invariant
            i <= chars@.len(),
            chars@ == t@,
            s@ == old(s)@ + chars@.take(i as int),
        decreases chars@.len() - i,
    {
        push_char(s, chars[i]);
        assert(chars@.take(i + 1) =~= chars@.take(i as int).push(chars@[i as int]));
        i = i + 1;
    }
    assert(chars@.take(chars@.len() as int) =~= chars@);
}

/// The parts joined with `sep` between each two.
pub open spec fn join(parts: Seq<Seq<char>>, sep: Seq<char>) -> Seq<char>
    decreases parts.len(),
{
    if parts.len() == 0 {
        Seq::empty()
    } else if parts.len() == 1 {
        parts[0]
    } else {
        join(parts.drop_last(), sep) + sep + parts.last()
    }
}

/// `parts.join(sep)`.
pub fn join_strings(parts: &Vec<String>, sep: &str) -> (r: String)
    ensures
        r@ == join(parts@.map_values(|p: String| p@), sep@),
{
    let ghost views = parts@.map_values(|p: String| p@);
    let mut r = String::new();
    let mut i: usize = 0;
    while i < parts.len()
        invariant
            i <= parts@.len(),
            views == parts@.map_values(|p: String| p@),
            r@ == join(views.take(i as int), sep@),
        decreases parts@.len() - i,
    {
        if i > 0 {
            push_str(&mut r, sep);
        }
        push_str(&mut r, parts[i].as_str());
        assert(views.take(i + 1).drop_last() =~= views.take(i as int));
        if i == 0 {
            assert(r@ =~= views.take(1)[0]);
        }
        i = i + 1;
    }
    assert(views.take(parts@.len() as int) =~= views);
    r
}

/// Whether two strings are equal.
pub fn str_equal(a: &str, b: &str) -> (r: bool)
    ensures
        r == (a@ == b@),
{
    let x = chars_of(a);
    let y = chars_of(b);
    if x.len() != y.len() {
        return false;
    }
    let mut i: usize = 0;
    while i < x.len()
        invariant
            x@ == a@,
            y@ == b@,
            x@.len() == y@.len(),
            i <= x@.len(),
            forall|k: int| 0 <= k < i ==> x@[k] == y@[k],
        decreases x@.len() - i,
    {
        if x[i] != y[i] {
            assert(x@[i as int] != y@[i as int]);
            return false;
        }
        i = i + 1;
    }
    assert(x@ =~= y@);
    true
}

} // verus!
