//! Decimal rendering of integers and small string helpers.
//!
//! Directory names, filenames and manifest lines are all built from decimal
//! renderings of post ids, dates and sequence numbers, so their contracts are
//! stated over the spec functions here.

use vstd::prelude::*;

verus! {

/// The character for a single decimal digit.
pub open spec fn digit_char(d: nat) -> char {
    if d == 0 {
        '0'
    } else if d == 1 {
        '1'
    } else if d == 2 {
        '2'
    } else if d == 3 {
        '3'
    } else if d == 4 {
        '4'
    } else if d == 5 {
        '5'
    } else if d == 6 {
        '6'
    } else if d == 7 {
        '7'
    } else if d == 8 {
        '8'
    } else {
        '9'
    }
}

/// Decimal digits of `n`, most significant first, with no leading zeros
/// (except for `n == 0`, which is the single digit `0`).
pub open spec fn dec_digits(n: nat) -> Seq<char>
    decreases n,
{
    if n < 10 {
        seq![digit_char(n)]
    } else {
        dec_digits(n / 10) + seq![digit_char(n % 10)]
    }
}

/// Decimal digits of `n`, zero-padded on the left to width 2.
pub open spec fn padded2(n: nat) -> Seq<char> {
    if n < 10 {
        seq!['0'] + dec_digits(n)
    } else {
        dec_digits(n)
    }
}

/// Decimal digits of `n`, zero-padded on the left to width 4.
pub open spec fn padded4(n: nat) -> Seq<char> {
    if n < 10 {
        seq!['0', '0', '0'] + dec_digits(n)
    } else if n < 100 {
        seq!['0', '0'] + dec_digits(n)
    } else if n < 1000 {
        seq!['0'] + dec_digits(n)
    } else {
        dec_digits(n)
    }
}

/// `s` begins with the characters of `p`.
pub open spec fn spec_starts_with(s: Seq<char>, p: Seq<char>) -> bool {
    p.len() <= s.len() && (forall|i: int| 0 <= i < p.len() ==> s[i] == p[i])
}

/// A two-digit rendering lays out the tens digit then the ones digit.
pub proof fn lemma_padded2_digits(n: nat)
    requires
        n < 100,
    ensures
        padded2(n) =~= seq![digit_char(n / 10), digit_char(n % 10)],
{
    if n < 10 {
        assert(dec_digits(n) == seq![digit_char(n)]);
        assert(n / 10 == 0 && n % 10 == n);
    } else {
        assert(dec_digits(n) == dec_digits(n / 10) + seq![digit_char(n % 10)]);
        assert(n / 10 < 10);
        assert(dec_digits(n / 10) == seq![digit_char(n / 10)]);
    }
}

/// A four-digit rendering lays out the four digits from most significant down.
pub proof fn lemma_padded4_digits(n: nat)
    requires
        n < 10000,
    ensures
        padded4(n) =~= seq![
            digit_char(n / 1000),
            digit_char(n / 100 % 10),
            digit_char(n / 10 % 10),
            digit_char(n % 10),
        ],
{
    assert(n / 10 / 10 == n / 100) by (nonlinear_arith);
    assert(n / 10 / 10 / 10 == n / 1000) by (nonlinear_arith);
    assert(n / 100 / 10 == n / 1000) by (nonlinear_arith);
    if n < 10 {
    } else if n < 100 {
        lemma_padded2_digits(n);
    } else if n < 1000 {
        assert(dec_digits(n) == dec_digits(n / 10) + seq![digit_char(n % 10)]);
        lemma_padded2_digits(n / 10);
        assert(n / 10 >= 10);
        assert(dec_digits(n / 10) =~= seq![digit_char(n / 100), digit_char(n / 10 % 10)]);
    } else {
        assert(dec_digits(n) == dec_digits(n / 10) + seq![digit_char(n % 10)]);
        assert(n / 10 >= 100 && n / 10 < 1000);
        assert(dec_digits(n / 10) == dec_digits(n / 100) + seq![digit_char(n / 10 % 10)]);
        assert(n / 100 >= 10 && n / 100 < 100);
        assert(dec_digits(n / 100) == dec_digits(n / 1000) + seq![digit_char(n / 100 % 10)]);
        assert(n / 1000 < 10);
        assert(dec_digits(n / 1000) == seq![digit_char(n / 1000)]);
    }
}

/// Distinct digits render as distinct characters.
pub proof fn lemma_digit_char_injective(a: nat, b: nat)
    requires
        a < 10,
        b < 10,
        digit_char(a) == digit_char(b),
    ensures
        a == b,
{
}

/// A character is the rendering of some digit exactly when it is one of the
/// ten digit characters.
pub open spec fn is_digit(c: char) -> bool {
    exists|d: nat| d < 10 && c == digit_char(d)
}

/// The single digit `d`, as a string slice.
pub fn digit_str(d: u64) -> (r: &'static str)
    requires
        d < 10,
    ensures
        r@ == seq![digit_char(d as nat)],
{
    let r: &'static str = if d == 0 {
        "0"
    } else if d == 1 {
        "1"
    } else if d == 2 {
        "2"
    } else if d == 3 {
        "3"
    } else if d == 4 {
        "4"
    } else if d == 5 {
        "5"
    } else if d == 6 {
        "6"
    } else if d == 7 {
        "7"
    } else if d == 8 {
        "8"
    } else {
        "9"
    };
    proof {
        reveal_strlit("0");
        reveal_strlit("1");
        reveal_strlit("2");
        reveal_strlit("3");
        reveal_strlit("4");
        reveal_strlit("5");
        reveal_strlit("6");
        reveal_strlit("7");
        reveal_strlit("8");
        reveal_strlit("9");
        assert(r@ =~= seq![digit_char(d as nat)]);
    }
    r
}

/// `n` in decimal, no padding.
pub fn u64_to_dec(n: u64) -> (r: String)
    ensures
        r@ == dec_digits(n as nat),
    decreases n,
{
    if n < 10 {
        let d = digit_str(n);
        String::from_str(d)
    } else {
        let mut s = u64_to_dec(n / 10);
        let d = digit_str(n % 10);
        s.append(d);
        s
    }
}

/// `n` in decimal, zero-padded to width 2.
pub fn two_digit(n: u64) -> (r: String)
    ensures
        r@ == padded2(n as nat),
{
    if n < 10 {
        let mut s = String::from_str("0");
        let d = digit_str(n);
        s.append(d);
        proof {
            reveal_strlit("0");
            assert(s@ =~= padded2(n as nat));
        }
        s
    } else {
        u64_to_dec(n)
    }
}

/// `n` in decimal, zero-padded to width 4.
pub fn four_digit(n: u64) -> (r: String)
    ensures
        r@ == padded4(n as nat),
{
    if n < 10 {
        let mut s = String::from_str("000");
        let d = digit_str(n);
        s.append(d);
        proof {
            reveal_strlit("000");
            assert(s@ =~= padded4(n as nat));
        }
        s
    } else if n < 100 {
        let mut s = String::from_str("00");
        let t = u64_to_dec(n);
        s.append(t.as_str());
        proof {
            reveal_strlit("00");
            assert(s@ =~= padded4(n as nat));
        }
        s
    } else if n < 1000 {
        let mut s = String::from_str("0");
        let t = u64_to_dec(n);
        s.append(t.as_str());
        proof {
            reveal_strlit("0");
            assert(s@ =~= padded4(n as nat));
        }
        s
    } else {
        u64_to_dec(n)
    }
}

/// Whether `s` starts with `p`, by characters.
pub fn str_starts_with(s: &str, p: &str) -> (r: bool)
    ensures
        r == spec_starts_with(s@, p@),
{
    let sl = s.unicode_len();
    let pl = p.unicode_len();
    if pl > sl {
        return false;
    }
    let mut i: usize = 0;
    while i < pl
        invariant
            i <= pl,
            pl <= sl,
            sl == s@.len(),
            pl == p@.len(),
            forall|j: int| 0 <= j < i ==> s@[j] == p@[j],
        decreases pl - i,
    {
        if s.get_char(i) != p.get_char(i) {
            return false;
        }
        i = i + 1;
    }
    true
}

} // verus!
