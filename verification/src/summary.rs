use vstd::prelude::*;
use vstd::utf8::{decode_utf8, encode_utf8, encode_utf8_decode_utf8, is_char_boundary};

use crate::text::{all_digits, digits_value, is_digit, push_char, push_str};

verus! {

/// The first eight bytes of an object ID, when it is that long and they end at a character
/// boundary; otherwise the whole ID (what `str::get(..8)` with a fallback gives).
pub open spec fn abbreviation(oid: Seq<char>) -> Seq<char> {
    if is_char_boundary(encode_utf8(oid), 8) {
        decode_utf8(encode_utf8(oid).take(8))
    } else {
        oid
    }
}

/// The short form of an object ID shown to the user.
pub fn abbreviate_oid(oid: &str) -> (r: &str)
    ensures
        r@ == abbreviation(oid@),
{
    if oid.is_char_boundary(8) {
        let (head, _) = oid.split_at(8);
        proof {
            encode_utf8_decode_utf8(head@);
            assert(encode_utf8(oid@).subrange(0, 8) =~= encode_utf8(oid@).take(8));
        }
        head
    } else {
        oid
    }
}

/// The decimal digit `d`.
pub open spec fn digit_char(d: int) -> char {
    if d == 0 {
        '0'
    } else if d == 1 {
        '1'
    } else if d == 2 {
        '2'
    } else if d == 3 {
        '3'
    } else if d == 4 {
        '4'
    } else if d == 5 {
        '5'
    } else if d == 6 {
        '6'
    } else if d == 7 {
        '7'
    } else if d == 8 {
        '8'
    } else {
        '9'
    }
}

/// `n` written in decimal, as `Display` writes an unsigned integer.
pub open spec fn decimal(n: nat) -> Seq<char>
    decreases n,
{
    if n < 10 {
        seq![digit_char(n as int)]
    } else {
        decimal(n / 10).push(digit_char((n % 10) as int))
    }
}

proof fn lemma_digit_char(d: int)
    requires
        0 <= d < 10,
    ensures
        is_digit(digit_char(d)),
        (digit_char(d) as int) - ('0' as int) == d,
{
}

/// `decimal(n)` is a non-empty run of digits that reads back as `n`, with no leading zero but
/// for `0` itself.
pub proof fn lemma_decimal_value(n: nat)
    ensures
        decimal(n).len() > 0,
        all_digits(decimal(n)),
        digits_value(decimal(n)) == n,
        decimal(n).len() == 1 || decimal(n)[0] != '0',
    decreases n,
{
    if n < 10 {
        let s = decimal(n);
        lemma_digit_char(n as int);
        assert(s.drop_last() =~= Seq::<char>::empty());
        assert(digits_value(Seq::<char>::empty()) == 0);
        assert(digits_value(s) == digits_value(s.drop_last()) * 10 + ((s.last() as int) - ('0' as int)));
        assert(is_digit(s[0]));
    } else {
        lemma_decimal_value(n / 10);
        lemma_digit_char((n % 10) as int);
        let s = decimal(n);
        assert(s.drop_last() =~= decimal(n / 10));
        assert(s[0] == decimal(n / 10)[0]);
        if n / 10 < 10 {
            lemma_digit_char((n / 10) as int);
            assert(decimal(n / 10)[0] == digit_char((n / 10) as int));
        } else {
            lemma_decimal_value(n / 100);
            assert(decimal(n / 10) == decimal(n / 10 / 10).push(digit_char((n / 10 % 10) as int)));
            assert(n / 10 / 10 == n / 100);
        }
        assert(digits_value(s) == digits_value(s.drop_last()) * 10 + ((s.last() as int) - ('0' as int)));
        assert(n == (n / 10) * 10 + n % 10);
        assert forall|i: int| 0 <= i < s.len() implies is_digit(#[trigger] s[i]) by {
            if i < s.len() - 1 {
                assert(s[i] == decimal(n / 10)[i]);
            }
        }
    }
}

fn digit(d: u64) -> (r: char)
    requires
        d < 10,
    ensures
        r == digit_char(d as int),
{
    match d {
        0 => '0',
        1 => '1',
        2 => '2',
        3 => '3',
        4 => '4',
        5 => '5',
        6 => '6',
        7 => '7',
        8 => '8',
        _ => '9',
    }
}

/// Appends `n` in decimal to `s`.
pub fn push_decimal(s: &mut String, n: u64)
    ensures
        final(s)@ == old(s)@ + decimal(n as nat),
    decreases n,
{
    if n >= 10 {
        push_decimal(s, n / 10);
    }
    push_char(s, digit(n % 10));
    assert(old(s)@ + decimal(n as nat) =~= if n >= 10 {
        (old(s)@ + decimal((n / 10) as nat)).push(digit_char((n % 10) as int))
    } else {
        old(s)@.push(digit_char((n % 10) as int))
    });
}

/// The line printed after a successful amendment.
pub open spec fn amendment_summary_text(count: nat, old_oid: Seq<char>, new_oid: Seq<char>) -> Seq<
    char,
> {
    "Added "@ + decimal(count) + " "@ + (if count == 1 {
        "co-author"@
    } else {
        "co-authors"@
    }) + ": "@ + abbreviation(old_oid) + " -> "@ + abbreviation(new_oid)
}

/// `Added <count> co-author(s): <old> -> <new>`, with both object IDs abbreviated.
pub fn amendment_summary(count: usize, old_oid: &str, new_oid: &str) -> (r: String)
    ensures
        r@ == amendment_summary_text(count as nat, old_oid@, new_oid@),
{
    let label = if count == 1 {
        "co-author"
    } else {
        "co-authors"
    };
    let mut r = String::new();
    push_str(&mut r, "Added ");
    push_decimal(&mut r, count as u64);
    push_str(&mut r, " ");
    push_str(&mut r, label);
    push_str(&mut r, ": ");
    push_str(&mut r, abbreviate_oid(old_oid));
    push_str(&mut r, " -> ");
    push_str(&mut r, abbreviate_oid(new_oid));
    r
}

} // verus!
