//! The post timestamp: parsing the timeline API's textual format and
//! rendering the two textual forms the archive uses.
//!
//! The API sends timestamps as `<short weekday> <short month> <day>
//! <HH:MM:SS> <signed offset> <year>`, for example
//! `Tue Oct 11 10:30:00 +0800 2022`. The archive renders a timestamp twice:
//! as a compact `YYYYMMDD` date in directory names, and as an RFC 3339
//! timestamp in the text manifest.

use vstd::prelude::*;

use crate::text::dec_digits;
use crate::text::digit_char;
use crate::text::four_digit;
use crate::text::is_digit;
use crate::text::lemma_digit_char_injective;
use crate::text::lemma_padded2_digits;
use crate::text::lemma_padded4_digits;
use crate::text::padded2;
use crate::text::padded4;
use crate::text::two_digit;

verus! {

/// A timestamp with an explicit UTC offset, held as plain fields.
#[derive(Clone, Copy, Debug, PartialEq, Eq, Structural)]
pub struct DateTime {
    pub year: u64,
    pub month: u64,
    pub day: u64,
    pub hour: u64,
    pub minute: u64,
    pub second: u64,
    pub offset_negative: bool,
    pub offset_hour: u64,
    pub offset_minute: u64,
}

/// The timestamp string could not be parsed.
#[derive(Clone, Copy, Debug, PartialEq, Eq, Structural)]
pub struct DateTimeParseError;

/// Gregorian leap year rule.
pub open spec fn is_leap_year(y: nat) -> bool {
    y % 4 == 0 && (y % 100 != 0 || y % 400 == 0)
}

/// Days in a month of the Gregorian calendar.
pub open spec fn days_in_month(y: nat, m: nat) -> nat {
    if m == 2 {
        if is_leap_year(y) {
            29
        } else {
            28
        }
    } else if m == 4 || m == 6 || m == 9 || m == 11 {
        30
    } else {
        31
    }
}

/// The three-letter month name, months numbered from 1.
pub open spec fn month_name(m: nat) -> Seq<char> {
    if m == 1 {
        seq!['J', 'a', 'n']
    } else if m == 2 {
        seq!['F', 'e', 'b']
    } else if m == 3 {
        seq!['M', 'a', 'r']
    } else if m == 4 {
        seq!['A', 'p', 'r']
    } else if m == 5 {
        seq!['M', 'a', 'y']
    } else if m == 6 {
        seq!['J', 'u', 'n']
    } else if m == 7 {
        seq!['J', 'u', 'l']
    } else if m == 8 {
        seq!['A', 'u', 'g']
    } else if m == 9 {
        seq!['S', 'e', 'p']
    } else if m == 10 {
        seq!['O', 'c', 't']
    } else if m == 11 {
        seq!['N', 'o', 'v']
    } else {
        seq!['D', 'e', 'c']
    }
}

/// One of the seven three-letter weekday names.
pub open spec fn is_weekday_name(w: Seq<char>) -> bool {
    w.len() == 3 && {
        ||| (w[0] == 'S' && w[1] == 'u' && w[2] == 'n')
        ||| (w[0] == 'M' && w[1] == 'o' && w[2] == 'n')
        ||| (w[0] == 'T' && w[1] == 'u' && w[2] == 'e')
        ||| (w[0] == 'W' && w[1] == 'e' && w[2] == 'd')
        ||| (w[0] == 'T' && w[1] == 'h' && w[2] == 'u')
        ||| (w[0] == 'F' && w[1] == 'r' && w[2] == 'i')
        ||| (w[0] == 'S' && w[1] == 'a' && w[2] == 't')
    }
}

/// The sign character of the UTC offset.
pub open spec fn sign_char(negative: bool) -> char {
    if negative {
        '-'
    } else {
        '+'
    }
}

impl DateTime {
    /// Field ranges: a real calendar date, a time of day, and an offset
    /// within a day.
    pub open spec fn wf(self) -> bool {
        &&& self.year < 10000
        &&& 1 <= self.month <= 12
        &&& 1 <= self.day <= days_in_month(self.year as nat, self.month as nat)
        &&& self.hour < 24
        &&& self.minute < 60
        &&& self.second < 60
        &&& self.offset_hour < 24
        &&& self.offset_minute < 60
    }
}

/// `s` is the API's textual form of the timestamp `dt`: a 30-character line
/// `WWW MMM DD HH:MM:SS +hhmm YYYY` whose weekday is any valid weekday name.
pub open spec fn is_created_at(s: Seq<char>, dt: DateTime) -> bool {
    &&& s.len() == 30
    &&& is_weekday_name(s.subrange(0, 3))
    &&& s[3] == ' '
    &&& s.subrange(4, 7) == month_name(dt.month as nat)
    &&& s[7] == ' '
    &&& s.subrange(8, 10) == padded2(dt.day as nat)
    &&& s[10] == ' '
    &&& s.subrange(11, 13) == padded2(dt.hour as nat)
    &&& s[13] == ':'
    &&& s.subrange(14, 16) == padded2(dt.minute as nat)
    &&& s[16] == ':'
    &&& s.subrange(17, 19) == padded2(dt.second as nat)
    &&& s[19] == ' '
    &&& s[20] == sign_char(dt.offset_negative)
    &&& s.subrange(21, 23) == padded2(dt.offset_hour as nat)
    &&& s.subrange(23, 25) == padded2(dt.offset_minute as nat)
    &&& s[25] == ' '
    &&& s.subrange(26, 30) == padded4(dt.year as nat)
}

/// Equal two-digit renderings come from equal numbers.
pub proof fn lemma_padded2_injective(a: nat, b: nat)
    requires
        a < 100,
        b < 100,
        padded2(a) == padded2(b),
    ensures
        a == b,
{
    lemma_padded2_digits(a);
    lemma_padded2_digits(b);
    assert(padded2(a)[0] == digit_char(a / 10) && padded2(a)[1] == digit_char(a % 10));
    lemma_digit_char_injective(a / 10, b / 10);
    lemma_digit_char_injective(a % 10, b % 10);
}

/// Equal four-digit renderings come from equal numbers.
pub proof fn lemma_padded4_injective(a: nat, b: nat)
    requires
        a < 10000,
        b < 10000,
        padded4(a) == padded4(b),
    ensures
        a == b,
{
    lemma_padded4_digits(a);
    lemma_padded4_digits(b);
    assert(padded4(a)[0] == digit_char(a / 1000));
    lemma_digit_char_injective(a / 1000, b / 1000);
    lemma_digit_char_injective(a / 100 % 10, b / 100 % 10);
    lemma_digit_char_injective(a / 10 % 10, b / 10 % 10);
    lemma_digit_char_injective(a % 10, b % 10);
    assert(a == a / 1000 * 1000 + a / 100 % 10 * 100 + a / 10 % 10 * 10 + a % 10) by (nonlinear_arith)
        requires a < 10000;
    assert(b == b / 1000 * 1000 + b / 100 % 10 * 100 + b / 10 % 10 * 10 + b % 10) by (nonlinear_arith)
        requires b < 10000;
}

/// Distinct months have distinct names.
pub proof fn lemma_month_name_injective(a: nat, b: nat)
    requires
        1 <= a <= 12,
        1 <= b <= 12,
        month_name(a) == month_name(b),
    ensures
        a == b,
{
    assert(month_name(a)[0] == month_name(b)[0]);
    assert(month_name(a)[1] == month_name(b)[1]);
    assert(month_name(a)[2] == month_name(b)[2]);
}

/// The grammar is unambiguous: one string is the textual form of at most
/// one timestamp.
pub proof fn lemma_created_at_unique(s: Seq<char>, a: DateTime, b: DateTime)
    requires
        a.wf(),
        b.wf(),
        is_created_at(s, a),
        is_created_at(s, b),
    ensures
        a == b,
{
    lemma_month_name_injective(a.month as nat, b.month as nat);
    lemma_padded2_injective(a.day as nat, b.day as nat);
    lemma_padded2_injective(a.hour as nat, b.hour as nat);
    lemma_padded2_injective(a.minute as nat, b.minute as nat);
    lemma_padded2_injective(a.second as nat, b.second as nat);
    lemma_padded2_injective(a.offset_hour as nat, b.offset_hour as nat);
    lemma_padded2_injective(a.offset_minute as nat, b.offset_minute as nat);
    lemma_padded4_injective(a.year as nat, b.year as nat);
}

/// Days in a month, executable form.
pub fn days_in_month_u64(y: u64, m: u64) -> (r: u64)
    requires
        1 <= m <= 12,
    ensures
        r as nat == days_in_month(y as nat, m as nat),
{
    if m == 2 {
        if y % 4 == 0 && (y % 100 != 0 || y % 400 == 0) {
            29
        } else {
            28
        }
    } else if m == 4 || m == 6 || m == 9 || m == 11 {
        30
    } else {
        31
    }
}

/// The digit a character stands for, if any.
fn digit_val(c: char) -> (r: Option<u64>)
    ensures
        r matches Some(d) ==> d < 10 && c == digit_char(d as nat),
        r is None ==> !is_digit(c),
{
    if c == '0' {
        Some(0)
    } else if c == '1' {
        Some(1)
    } else if c == '2' {
        Some(2)
    } else if c == '3' {
        Some(3)
    } else if c == '4' {
        Some(4)
    } else if c == '5' {
        Some(5)
    } else if c == '6' {
        Some(6)
    } else if c == '7' {
        Some(7)
    } else if c == '8' {
        Some(8)
    } else if c == '9' {
        Some(9)
    } else {
        proof {
            assert forall|d: nat| d < 10 implies c != digit_char(d) by {}
        }
        None
    }
}

/// Reads the two characters at `i` as a zero-padded two-digit number.
fn read_2digits(s: &str, i: usize) -> (r: Option<u64>)
    requires
        i + 2 <= s@.len(),
        i + 2 <= usize::MAX,
    ensures
        r matches Some(n) ==> n < 100 && s@.subrange(i as int, i + 2) == padded2(n as nat),
        r is None ==> forall|n: nat| n < 100 ==> s@.subrange(i as int, i + 2) != padded2(n),
{
    let c1 = s.get_char(i);
    let c2 = s.get_char(i + 1);
    proof {
        assert(s@.subrange(i as int, i + 2) =~= seq![c1, c2]);
    }
    let d1 = digit_val(c1);
    let d2 = digit_val(c2);
    match (d1, d2) {
        (Some(a), Some(b)) => {
            let n = a * 10 + b;
            proof {
                lemma_padded2_digits(n as nat);
                assert(n as nat / 10 == a && n as nat % 10 == b);
                assert(s@.subrange(i as int, i + 2) =~= padded2(n as nat));
            }
            Some(n)
        },
        _ => {
            proof {
                assert forall|n: nat| n < 100 implies s@.subrange(i as int, i + 2) != padded2(n) by {
                    lemma_padded2_digits(n);
                    assert(padded2(n)[0] == digit_char(n / 10));
                    assert(padded2(n)[1] == digit_char(n % 10));
                    if s@.subrange(i as int, i + 2) == padded2(n) {
                        assert(c1 == digit_char(n / 10) && c2 == digit_char(n % 10));
                        assert(is_digit(c1) && is_digit(c2));
                    }
                }
            }
            None
        },
    }
}

/// Reads the four characters at `i` as a zero-padded four-digit number.
fn read_4digits(s: &str, i: usize) -> (r: Option<u64>)
    requires
        i + 4 <= s@.len(),
        i + 4 <= usize::MAX,
    ensures
        r matches Some(n) ==> n < 10000 && s@.subrange(i as int, i + 4) == padded4(n as nat),
        r is None ==> forall|n: nat| n < 10000 ==> s@.subrange(i as int, i + 4) != padded4(n),
{
    let c1 = s.get_char(i);
    let c2 = s.get_char(i + 1);
    let c3 = s.get_char(i + 2);
    let c4 = s.get_char(i + 3);
    proof {
        assert(s@.subrange(i as int, i + 4) =~= seq![c1, c2, c3, c4]);
    }
    let d1 = digit_val(c1);
    let d2 = digit_val(c2);
    let d3 = digit_val(c3);
    let d4 = digit_val(c4);
    match (d1, d2, d3, d4) {
        (Some(a), Some(b), Some(c), Some(d)) => {
            let n = a * 1000 + b * 100 + c * 10 + d;
            proof {
                lemma_padded4_digits(n as nat);
                assert(n as nat / 1000 == a && n as nat / 100 % 10 == b && n as nat / 10 % 10 == c
                    && n as nat % 10 == d) by (nonlinear_arith)
                    requires a < 10 && b < 10 && c < 10 && d < 10 && n == a * 1000 + b * 100 + c * 10 + d;
                assert(s@.subrange(i as int, i + 4) =~= padded4(n as nat));
            }
            Some(n)
        },
        _ => {
            proof {
                assert forall|n: nat| n < 10000 implies s@.subrange(i as int, i + 4) != padded4(n) by {
                    lemma_padded4_digits(n);
                    assert(padded4(n)[0] == digit_char(n / 1000));
                    assert(padded4(n)[1] == digit_char(n / 100 % 10));
                    assert(padded4(n)[2] == digit_char(n / 10 % 10));
                    assert(padded4(n)[3] == digit_char(n % 10));
                    if s@.subrange(i as int, i + 4) == padded4(n) {
                        assert(is_digit(c1) && is_digit(c2) && is_digit(c3) && is_digit(c4));
                    }
                }
            }
            None
        },
    }
}

/// Recognizes the three characters at the start of `s` as a weekday name.
fn check_weekday(s: &str) -> (r: bool)
    requires
        s@.len() >= 3,
    ensures
        r == is_weekday_name(s@.subrange(0, 3)),
{
    let c0 = s.get_char(0);
    let c1 = s.get_char(1);
    let c2 = s.get_char(2);
    proof {
        assert(s@.subrange(0, 3) =~= seq![c0, c1, c2]);
    }
    (c0 == 'S' && c1 == 'u' && c2 == 'n') || (c0 == 'M' && c1 == 'o' && c2 == 'n') || (c0 == 'T'
        && c1 == 'u' && c2 == 'e') || (c0 == 'W' && c1 == 'e' && c2 == 'd') || (c0 == 'T' && c1
        == 'h' && c2 == 'u') || (c0 == 'F' && c1 == 'r' && c2 == 'i') || (c0 == 'S' && c1 == 'a'
        && c2 == 't')
}

/// Recognizes three characters as a month name, months numbered from 1.
fn month_from_chars(c0: char, c1: char, c2: char) -> (r: Option<u64>)
    ensures
        r matches Some(m) ==> 1 <= m <= 12 && month_name(m as nat) == seq![c0, c1, c2],
        r is None ==> forall|m: nat| 1 <= m <= 12 ==> month_name(m) != seq![c0, c1, c2],
{
    let r: Option<u64> = if c0 == 'J' && c1 == 'a' && c2 == 'n' {
        Some(1)
    } else if c0 == 'F' && c1 == 'e' && c2 == 'b' {
        Some(2)
    } else if c0 == 'M' && c1 == 'a' && c2 == 'r' {
        Some(3)
    } else if c0 == 'A' && c1 == 'p' && c2 == 'r' {
        Some(4)
    } else if c0 == 'M' && c1 == 'a' && c2 == 'y' {
        Some(5)
    } else if c0 == 'J' && c1 == 'u' && c2 == 'n' {
        Some(6)
    } else if c0 == 'J' && c1 == 'u' && c2 == 'l' {
        Some(7)
    } else if c0 == 'A' && c1 == 'u' && c2 == 'g' {
        Some(8)
    } else if c0 == 'S' && c1 == 'e' && c2 == 'p' {
        Some(9)
    } else if c0 == 'O' && c1 == 'c' && c2 == 't' {
        Some(10)
    } else if c0 == 'N' && c1 == 'o' && c2 == 'v' {
        Some(11)
    } else if c0 == 'D' && c1 == 'e' && c2 == 'c' {
        Some(12)
    } else {
        None
    };
    proof {
        match r {
            Some(m) => {
                assert(month_name(m as nat) =~= seq![c0, c1, c2]);
            },
            None => {
                assert forall|m: nat| 1 <= m <= 12 implies month_name(m) != seq![c0, c1, c2] by {
                    if month_name(m) == seq![c0, c1, c2] {
                        assert(month_name(m)[0] == c0 && month_name(m)[1] == c1 && month_name(m)[2]
                            == c2);
                    }
                }
            },
        }
    }
    r
}

impl DateTime {
    /// Parses the API's textual timestamp. Returns the timestamp exactly when
    /// the input is the API's 30-character form of a valid timestamp, and an
    /// error on every other input.
    pub fn parse_created_at(s: &str) -> (r: Result<DateTime, DateTimeParseError>)
        ensures
            r matches Ok(dt) ==> dt.wf() && is_created_at(s@, dt),
            r is Err ==> forall|dt: DateTime| dt.wf() ==> !is_created_at(s@, dt),
    {
        if s.unicode_len() != 30 {
            return Err(DateTimeParseError);
        }
        if !check_weekday(s) {
            return Err(DateTimeParseError);
        }
        if s.get_char(3) != ' ' || s.get_char(7) != ' ' || s.get_char(10) != ' ' || s.get_char(13)
            != ':' || s.get_char(16) != ':' || s.get_char(19) != ' ' || s.get_char(25) != ' ' {
            return Err(DateTimeParseError);
        }
        let c4 = s.get_char(4);
        let c5 = s.get_char(5);
        let c6 = s.get_char(6);
        proof {
            assert(s@.subrange(4, 7) =~= seq![c4, c5, c6]);
        }
        let month = match month_from_chars(c4, c5, c6) {
            Some(m) => m,
            None => {
                return Err(DateTimeParseError);
            },
        };
        let day = match read_2digits(s, 8) {
            Some(n) => n,
            None => {
                return Err(DateTimeParseError);
            },
        };
        let hour = match read_2digits(s, 11) {
            Some(n) => n,
            None => {
                return Err(DateTimeParseError);
            },
        };
        let minute = match read_2digits(s, 14) {
            Some(n) => n,
            None => {
                return Err(DateTimeParseError);
            },
        };
        let second = match read_2digits(s, 17) {
            Some(n) => n,
            None => {
                return Err(DateTimeParseError);
            },
        };
        let sign = s.get_char(20);
        if sign != '+' && sign != '-' {
            return Err(DateTimeParseError);
        }
        let offset_negative = sign == '-';
        let offset_hour = match read_2digits(s, 21) {
            Some(n) => n,
            None => {
                return Err(DateTimeParseError);
            },
        };
        let offset_minute = match read_2digits(s, 23) {
            Some(n) => n,
            None => {
                return Err(DateTimeParseError);
            },
        };
        let year = match read_4digits(s, 26) {
            Some(n) => n,
            None => {
                return Err(DateTimeParseError);
            },
        };
        if day == 0 || day > days_in_month_u64(year, month) {
            proof {
                assert forall|dt: DateTime| dt.wf() implies !is_created_at(s@, dt) by {
                    if is_created_at(s@, dt) {
                        lemma_month_name_injective(dt.month as nat, month as nat);
                        lemma_padded4_injective(dt.year as nat, year as nat);
                        lemma_padded2_injective(dt.day as nat, day as nat);
                    }
                }
            }
            return Err(DateTimeParseError);
        }
        if hour >= 24 || minute >= 60 || second >= 60 || offset_hour >= 24 || offset_minute >= 60 {
            proof {
                assert forall|dt: DateTime| dt.wf() implies !is_created_at(s@, dt) by {
                    if is_created_at(s@, dt) {
                        lemma_padded2_injective(dt.hour as nat, hour as nat);
                        lemma_padded2_injective(dt.minute as nat, minute as nat);
                        lemma_padded2_injective(dt.second as nat, second as nat);
                        lemma_padded2_injective(dt.offset_hour as nat, offset_hour as nat);
                        lemma_padded2_injective(dt.offset_minute as nat, offset_minute as nat);
                    }
                }
            }
            return Err(DateTimeParseError);
        }
        let dt = DateTime {
            year,
            month,
            day,
            hour,
            minute,
            second,
            offset_negative,
            offset_hour,
            offset_minute,
        };
        Ok(dt)
    }

    /// The compact `YYYYMMDD` date used in directory names.
    pub open spec fn compact_date_chars(self) -> Seq<char> {
        padded4(self.year as nat) + padded2(self.month as nat) + padded2(self.day as nat)
    }

    /// Renders the compact `YYYYMMDD` date.
    pub fn format_compact_date(&self) -> (r: String)
        ensures
            r@ == self.compact_date_chars(),
    {
        let mut s = four_digit(self.year);
        let mo = two_digit(self.month);
        let d = two_digit(self.day);
        s.append(mo.as_str());
        s.append(d.as_str());
        proof {
            assert(s@ =~= self.compact_date_chars());
        }
        s
    }

    /// The RFC 3339 rendering, offset always written as a signed `hh:mm`.
    pub open spec fn rfc3339_chars(self) -> Seq<char> {
        padded4(self.year as nat) + seq!['-'] + padded2(self.month as nat) + seq!['-'] + padded2(
            self.day as nat,
        ) + seq!['T'] + padded2(self.hour as nat) + seq![':'] + padded2(self.minute as nat)
            + seq![':'] + padded2(self.second as nat) + seq![sign_char(self.offset_negative)]
            + padded2(self.offset_hour as nat) + seq![':'] + padded2(self.offset_minute as nat)
    }

    /// Renders the timestamp in RFC 3339 form.
    pub fn format_rfc3339(&self) -> (r: String)
        ensures
            r@ == self.rfc3339_chars(),
    {
        let mut s = four_digit(self.year);
        s.append("-");
        let mo = two_digit(self.month);
        s.append(mo.as_str());
        s.append("-");
        let d = two_digit(self.day);
        s.append(d.as_str());
        s.append("T");
        let h = two_digit(self.hour);
        s.append(h.as_str());
        s.append(":");
        let mi = two_digit(self.minute);
        s.append(mi.as_str());
        s.append(":");
        let sec = two_digit(self.second);
        s.append(sec.as_str());
        if self.offset_negative {
            s.append("-");
        } else {
            s.append("+");
        }
        let oh = two_digit(self.offset_hour);
        s.append(oh.as_str());
        s.append(":");
        let om = two_digit(self.offset_minute);
        s.append(om.as_str());
        proof {
            reveal_strlit("-");
            reveal_strlit("T");
            reveal_strlit(":");
            reveal_strlit("+");
            assert(s@ =~= self.rfc3339_chars());
        }
        s
    }
}

} // verus!
