//! Calendar timestamps: strict parsing of the `YYYY/MM/DD HH:MM:SS` input
//! pattern and reformatting to `YYYY-MM-DDTHH:MM:SS`.

use vstd::prelude::*;

verus! {

/// The value of a decimal digit character, or 10 for any other character.
pub open spec fn digit_val(c: char) -> int {
    if c == '0' {
        0
    } else if c == '1' {
        1
    } else if c == '2' {
        2
    } else if c == '3' {
        3
    } else if c == '4' {
        4
    } else if c == '5' {
        5
    } else if c == '6' {
        6
    } else if c == '7' {
        7
    } else if c == '8' {
        8
    } else if c == '9' {
        9
    } else {
        10
    }
}

pub open spec fn is_digit(c: char) -> bool {
    digit_val(c) <= 9
}

/// The character for a decimal digit value (meaningful for 0 through 9).
pub open spec fn digit_char(d: int) -> char {
    if d == 0 {
        '0'
    } else if d == 1 {
        '1'
    } else if d == 2 {
        '2'
    } else if d == 3 {
        '3'
    } else if d == 4 {
        '4'
    } else if d == 5 {
        '5'
    } else if d == 6 {
        '6'
    } else if d == 7 {
        '7'
    } else if d == 8 {
        '8'
    } else {
        '9'
    }
}

/// The value of the two digits of `s` at positions `i` and `i + 1`.
pub open spec fn num2(s: Seq<char>, i: int) -> int {
    digit_val(s[i]) * 10 + digit_val(s[i + 1])
}

/// The value of the four digits of `s` at positions `i` through `i + 3`.
pub open spec fn num4(s: Seq<char>, i: int) -> int {
    digit_val(s[i]) * 1000 + digit_val(s[i + 1]) * 100 + digit_val(s[i + 2]) * 10 + digit_val(
        s[i + 3],
    )
}

/// The two decimal digits of `v % 100`, high digit first.
pub open spec fn digits2(v: int) -> Seq<char> {
    seq![digit_char(v / 10 % 10), digit_char(v % 10)]
}

/// The four decimal digits of `v % 10000`, high digit first.
pub open spec fn digits4(v: int) -> Seq<char> {
    seq![
        digit_char(v / 1000 % 10),
        digit_char(v / 100 % 10),
        digit_char(v / 10 % 10),
        digit_char(v % 10),
    ]
}

pub open spec fn is_leap_year(y: int) -> bool {
    y % 4 == 0 && (y % 100 != 0 || y % 400 == 0)
}

/// How many days the month `m` of the year `y` has (meaningful for
/// `1 <= m <= 12`).
pub open spec fn days_in_month(y: int, m: int) -> int {
    if m == 2 {
        if is_leap_year(y) {
            29
        } else {
            28
        }
    } else if m == 4 || m == 6 || m == 9 || m == 11 {
        30
    } else {
        31
    }
}

/// A calendar timestamp, second precision, no time zone.
#[derive(Clone, Copy, Debug, PartialEq, Eq, Structural)]
pub struct Timestamp {
    pub year: u16,
    pub month: u8,
    pub day: u8,
    pub hour: u8,
    pub minute: u8,
    pub second: u8,
}

impl Timestamp {
    /// A well-formed timestamp: a real calendar date (leap years included)
    /// and a 24-hour clock time.
    pub open spec fn wf(self) -> bool {
        &&& self.year <= 9999
        &&& 1 <= self.month <= 12
        &&& 1 <= self.day <= days_in_month(self.year as int, self.month as int)
        &&& self.hour <= 23
        &&& self.minute <= 59
        &&& self.second <= 59
    }
}

/// Whether `s` has exactly the shape `YYYY/MM/DD HH:MM:SS`: 19 characters,
/// digits and separators at fixed positions, nothing else.
pub open spec fn ts_shape(s: Seq<char>) -> bool {
    &&& s.len() == 19
    &&& is_digit(s[0]) && is_digit(s[1]) && is_digit(s[2]) && is_digit(s[3])
    &&& s[4] == '/'
    &&& is_digit(s[5]) && is_digit(s[6])
    &&& s[7] == '/'
    &&& is_digit(s[8]) && is_digit(s[9])
    &&& s[10] == ' '
    &&& is_digit(s[11]) && is_digit(s[12])
    &&& s[13] == ':'
    &&& is_digit(s[14]) && is_digit(s[15])
    &&& s[16] == ':'
    &&& is_digit(s[17]) && is_digit(s[18])
}

/// The timestamp read off a text of shape `YYYY/MM/DD HH:MM:SS`.
pub open spec fn ts_of(s: Seq<char>) -> Timestamp {
    Timestamp {
        year: num4(s, 0) as u16,
        month: num2(s, 5) as u8,
        day: num2(s, 8) as u8,
        hour: num2(s, 11) as u8,
        minute: num2(s, 14) as u8,
        second: num2(s, 17) as u8,
    }
}

/// Strict parsing: `Some` exactly when `s` has the fixed numeric pattern and
/// the fields form a well-formed calendar timestamp.
pub open spec fn spec_parse_timestamp(s: Seq<char>) -> Option<Timestamp> {
    if ts_shape(s) && ts_of(s).wf() {
        Some(ts_of(s))
    } else {
        None
    }
}

/// The `YYYY-MM-DDTHH:MM:SS` rendering of a timestamp.
pub open spec fn spec_format_timestamp(t: Timestamp) -> Seq<char> {
    digits4(t.year as int) + seq!['-'] + digits2(t.month as int) + seq!['-'] + digits2(
        t.day as int,
    ) + seq!['T'] + digits2(t.hour as int) + seq![':'] + digits2(t.minute as int) + seq![':']
        + digits2(t.second as int)
}

proof fn lemma_digit_char_val(c: char)
    requires
        is_digit(c),
    ensures
        digit_char(digit_val(c)) == c,
{
}

proof fn lemma_two_digits(a: int, b: int)
    requires
        0 <= a <= 9,
        0 <= b <= 9,
    ensures
        (a * 10 + b) / 10 % 10 == a,
        (a * 10 + b) % 10 == b,
{
    assert((a * 10 + b) / 10 % 10 == a && (a * 10 + b) % 10 == b) by (nonlinear_arith)
        requires
            0 <= a <= 9 && 0 <= b <= 9,
    ;
}

proof fn lemma_four_digits(a: int, b: int, c: int, d: int)
    requires
        0 <= a <= 9,
        0 <= b <= 9,
        0 <= c <= 9,
        0 <= d <= 9,
    ensures
        (a * 1000 + b * 100 + c * 10 + d) / 1000 % 10 == a,
        (a * 1000 + b * 100 + c * 10 + d) / 100 % 10 == b,
        (a * 1000 + b * 100 + c * 10 + d) / 10 % 10 == c,
        (a * 1000 + b * 100 + c * 10 + d) % 10 == d,
{
    assert((a * 1000 + b * 100 + c * 10 + d) / 1000 % 10 == a && (a * 1000 + b * 100 + c * 10 + d)
        / 100 % 10 == b && (a * 1000 + b * 100 + c * 10 + d) / 10 % 10 == c && (a * 1000 + b * 100
        + c * 10 + d) % 10 == d) by (nonlinear_arith)
        requires
            0 <= a <= 9 && 0 <= b <= 9 && 0 <= c <= 9 && 0 <= d <= 9,
    ;
}

/// Round trip: reformatting preserves every numeric field. The output is
/// the input text itself, with the separators at positions 4, 7 and 10
/// replaced by `'-'`, `'-'` and `'T'`; no field is shifted or renumbered.
pub proof fn lemma_timestamp_round_trip(s: Seq<char>, t: Timestamp)
    requires
        spec_parse_timestamp(s) == Some(t),
    ensures
        spec_format_timestamp(t) == s.update(4, '-').update(7, '-').update(10, 'T'),
{
    lemma_four_digits(digit_val(s[0]), digit_val(s[1]), digit_val(s[2]), digit_val(s[3]));
    lemma_two_digits(digit_val(s[5]), digit_val(s[6]));
    lemma_two_digits(digit_val(s[8]), digit_val(s[9]));
    lemma_two_digits(digit_val(s[11]), digit_val(s[12]));
    lemma_two_digits(digit_val(s[14]), digit_val(s[15]));
    lemma_two_digits(digit_val(s[17]), digit_val(s[18]));
    lemma_digit_char_val(s[0]);
    lemma_digit_char_val(s[1]);
    lemma_digit_char_val(s[2]);
    lemma_digit_char_val(s[3]);
    lemma_digit_char_val(s[5]);
    lemma_digit_char_val(s[6]);
    lemma_digit_char_val(s[8]);
    lemma_digit_char_val(s[9]);
    lemma_digit_char_val(s[11]);
    lemma_digit_char_val(s[12]);
    lemma_digit_char_val(s[14]);
    lemma_digit_char_val(s[15]);
    lemma_digit_char_val(s[17]);
    lemma_digit_char_val(s[18]);
    assert(t.year as int == num4(s, 0));
    assert(t.month as int == num2(s, 5));
    assert(t.day as int == num2(s, 8));
    assert(t.hour as int == num2(s, 11));
    assert(t.minute as int == num2(s, 14));
    assert(t.second as int == num2(s, 17));
    assert(digits4(t.year as int) == seq![s[0], s[1], s[2], s[3]]);
    assert(digits2(t.month as int) == seq![s[5], s[6]]);
    assert(digits2(t.day as int) == seq![s[8], s[9]]);
    assert(digits2(t.hour as int) == seq![s[11], s[12]]);
    assert(digits2(t.minute as int) == seq![s[14], s[15]]);
    assert(digits2(t.second as int) == seq![s[17], s[18]]);
    assert(spec_format_timestamp(t) =~= s.update(4, '-').update(7, '-').update(10, 'T'));
}

fn digit_of(c: char) -> (r: u8)
    ensures
        r as int == digit_val(c),
{
    if c == '0' {
        0
    } else if c == '1' {
        1
    } else if c == '2' {
        2
    } else if c == '3' {
        3
    } else if c == '4' {
        4
    } else if c == '5' {
        5
    } else if c == '6' {
        6
    } else if c == '7' {
        7
    } else if c == '8' {
        8
    } else if c == '9' {
        9
    } else {
        10
    }
}

fn digit_str(d: u8) -> (r: &'static str)
    requires
        d <= 9,
    ensures
        r@ == seq![digit_char(d as int)],
{
    if d == 0 {
        proof {
            reveal_strlit("0");
            assert("0"@ =~= seq![digit_char(0)]);
        }
        "0"
    } else if d == 1 {
        proof {
            reveal_strlit("1");
            assert("1"@ =~= seq![digit_char(1)]);
        }
        "1"
    } else if d == 2 {
        proof {
            reveal_strlit("2");
            assert("2"@ =~= seq![digit_char(2)]);
        }
        "2"
    } else if d == 3 {
        proof {
            reveal_strlit("3");
            assert("3"@ =~= seq![digit_char(3)]);
        }
        "3"
    } else if d == 4 {
        proof {
            reveal_strlit("4");
            assert("4"@ =~= seq![digit_char(4)]);
        }
        "4"
    } else if d == 5 {
        proof {
            reveal_strlit("5");
            assert("5"@ =~= seq![digit_char(5)]);
        }
        "5"
    } else if d == 6 {
        proof {
            reveal_strlit("6");
            assert("6"@ =~= seq![digit_char(6)]);
        }
        "6"
    } else if d == 7 {
        proof {
            reveal_strlit("7");
            assert("7"@ =~= seq![digit_char(7)]);
        }
        "7"
    } else if d == 8 {
        proof {
            reveal_strlit("8");
            assert("8"@ =~= seq![digit_char(8)]);
        }
        "8"
    } else {
        proof {
            reveal_strlit("9");
            assert("9"@ =~= seq![digit_char(9)]);
        }
        "9"
    }
}

fn days_in_month_x(y: u16, m: u8) -> (d: u8)
    requires
        1 <= m <= 12,
    ensures
        d as int == days_in_month(y as int, m as int),
{
    if m == 2 {
        if y % 4 == 0 && (y % 100 != 0 || y % 400 == 0) {
            29
        } else {
            28
        }
    } else if m == 4 || m == 6 || m == 9 || m == 11 {
        30
    } else {
        31
    }
}

/// Parse a `YYYY/MM/DD HH:MM:SS` timestamp, strictly: any deviation from the
/// fixed zero-padded pattern, and any field outside its calendar range, is
/// rejected.
pub fn parse_timestamp(s: &str) -> (r: Option<Timestamp>)
    ensures
        r == spec_parse_timestamp(s@),
{
    if s.unicode_len() != 19 {
        return None;
    }
    if s.get_char(4) != '/' || s.get_char(7) != '/' || s.get_char(10) != ' ' || s.get_char(13)
        != ':' || s.get_char(16) != ':' {
        return None;
    }
    let d0 = digit_of(s.get_char(0));
    let d1 = digit_of(s.get_char(1));
    let d2 = digit_of(s.get_char(2));
    let d3 = digit_of(s.get_char(3));
    let d5 = digit_of(s.get_char(5));
    let d6 = digit_of(s.get_char(6));
    let d8 = digit_of(s.get_char(8));
    let d9 = digit_of(s.get_char(9));
    let d11 = digit_of(s.get_char(11));
    let d12 = digit_of(s.get_char(12));
    let d14 = digit_of(s.get_char(14));
    let d15 = digit_of(s.get_char(15));
    let d17 = digit_of(s.get_char(17));
    let d18 = digit_of(s.get_char(18));
    if d0 > 9 || d1 > 9 || d2 > 9 || d3 > 9 || d5 > 9 || d6 > 9 || d8 > 9 || d9 > 9 || d11 > 9
        || d12 > 9 || d14 > 9 || d15 > 9 || d17 > 9 || d18 > 9 {
        return None;
    }
    let t = Timestamp {
        year: d0 as u16 * 1000 + d1 as u16 * 100 + d2 as u16 * 10 + d3 as u16,
        month: d5 * 10 + d6,
        day: d8 * 10 + d9,
        hour: d11 * 10 + d12,
        minute: d14 * 10 + d15,
        second: d17 * 10 + d18,
    };
    assert(ts_shape(s@));
    assert(t == ts_of(s@));
    if t.month < 1 || t.month > 12 {
        return None;
    }
    if t.day < 1 || t.day > days_in_month_x(t.year, t.month) {
        return None;
    }
    if t.hour > 23 || t.minute > 59 || t.second > 59 {
        return None;
    }
    Some(t)
}

fn push_2digits(out: &mut String, v: u8)
    ensures
        final(out)@ == old(out)@ + digits2(v as int),
{
    let ghost start = out@;
    out.append(digit_str(v / 10 % 10));
    out.append(digit_str(v % 10));
    proof {
        assert(start + seq![digit_char(v as int / 10 % 10)] + seq![digit_char(v as int % 10)]
            =~= start + digits2(v as int));
    }
}

fn push_4digits(out: &mut String, v: u16)
    ensures
        final(out)@ == old(out)@ + digits4(v as int),
{
    let ghost start = out@;
    out.append(digit_str((v / 1000 % 10) as u8));
    out.append(digit_str((v / 100 % 10) as u8));
    out.append(digit_str((v / 10 % 10) as u8));
    out.append(digit_str((v % 10) as u8));
    proof {
        assert(start + seq![digit_char(v as int / 1000 % 10)] + seq![
            digit_char(v as int / 100 % 10),
        ] + seq![digit_char(v as int / 10 % 10)] + seq![digit_char(v as int % 10)] =~= start
            + digits4(v as int));
    }
}

/// Render a timestamp as `YYYY-MM-DDTHH:MM:SS`, every field zero-padded.
pub fn format_timestamp(t: &Timestamp) -> (r: String)
    ensures
        r@ == spec_format_timestamp(*t),
{
    let mut out = String::new();
    push_4digits(&mut out, t.year);
    out.append("-");
    push_2digits(&mut out, t.month);
    out.append("-");
    push_2digits(&mut out, t.day);
    out.append("T");
    push_2digits(&mut out, t.hour);
    out.append(":");
    push_2digits(&mut out, t.minute);
    out.append(":");
    push_2digits(&mut out, t.second);
    proof {
        reveal_strlit("-");
        reveal_strlit("T");
        reveal_strlit(":");
        assert("-"@ =~= seq!['-']);
        assert("T"@ =~= seq!['T']);
        assert(":"@ =~= seq![':']);
        assert(out@ =~= spec_format_timestamp(*t));
    }
    out
}

} // verus!
