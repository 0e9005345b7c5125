//! Decimal text and the compact UTC stamp `YYYYMMDDThhmmssZ` that the
//! calendar format uses for every instant.
use crate::date::UtcDateTime;
use vstd::prelude::*;

verus! {

/// The character of a decimal digit.
#[verifier::opaque]
pub open spec fn digit_char(d: int) -> char {
    if d == 0 { '0' }
    else if d == 1 { '1' }
    else if d == 2 { '2' }
    else if d == 3 { '3' }
    else if d == 4 { '4' }
    else if d == 5 { '5' }
    else if d == 6 { '6' }
    else if d == 7 { '7' }
    else if d == 8 { '8' }
    else { '9' }
}

/// The value of a digit character.
#[verifier::opaque]
pub open spec fn digit_value(c: char) -> int {
    if c == '0' { 0 }
    else if c == '1' { 1 }
    else if c == '2' { 2 }
    else if c == '3' { 3 }
    else if c == '4' { 4 }
    else if c == '5' { 5 }
    else if c == '6' { 6 }
    else if c == '7' { 7 }
    else if c == '8' { 8 }
    else { 9 }
}

pub open spec fn is_digit(c: char) -> bool {
    '0' <= c && c <= '9'
}

/// `n` in decimal, without leading zeros.
pub open spec fn decimal(n: nat) -> Seq<char>
    decreases n,
{
    if n < 10 {
        seq![digit_char(n as int)]
    } else {
        decimal(n / 10).push(digit_char((n % 10) as int))
    }
}

/// The last two decimal digits of `n`.
pub open spec fn two_digits(n: int) -> Seq<char> {
    seq![digit_char(n / 10 % 10), digit_char(n % 10)]
}

/// Four decimal digits of `n`, for `n` below 10000.
pub open spec fn four_digits(n: int) -> Seq<char> {
    two_digits(n / 100) + two_digits(n % 100)
}

/// A year as the stamp writes it: four digits from 0 to 9999, otherwise a
/// sign and at least four digits.
pub open spec fn year_text(y: int) -> Seq<char> {
    if 0 <= y <= 9999 {
        four_digits(y)
    } else if y > 9999 {
        seq!['+'] + decimal(y as nat)
    } else if -y <= 9999 {
        seq!['-'] + four_digits(-y)
    } else {
        seq!['-'] + decimal((-y) as nat)
    }
}

/// The compact UTC stamp of an instant.
pub open spec fn stamp_of(u: UtcDateTime) -> Seq<char> {
    year_text(u.year as int) + two_digits(u.month as int) + two_digits(u.day as int) + seq!['T']
        + two_digits(u.hour as int) + two_digits(u.minute as int) + two_digits(u.second as int)
        + seq!['Z']
}

/// The value of two digit characters.
pub open spec fn value2(s: Seq<char>, at: int) -> int {
    10 * digit_value(s[at]) + digit_value(s[at + 1])
}

/// The instant that a 16-character stamp with a four-digit year denotes, if it
/// is one.
pub open spec fn stamp_parse(s: Seq<char>) -> Option<UtcDateTime> {
    if s.len() == 16 && s[8] == 'T' && s[15] == 'Z' && (forall|i: int|
        0 <= i < 15 && i != 8 ==> #[trigger] is_digit(s[i])) {
        let u = UtcDateTime {
            year: (100 * value2(s, 0) + value2(s, 2)) as i32,
            month: value2(s, 4) as u32,
            day: value2(s, 6) as u32,
            hour: value2(s, 9) as u32,
            minute: value2(s, 11) as u32,
            second: value2(s, 13) as u32,
        };
        if u.wf() { Some(u) } else { None }
    } else {
        None
    }
}

/// The text of one decimal digit.
fn digit_text(d: u32) -> (r: &'static str)
    requires
        d < 10,
    ensures
        r@ == seq![digit_char(d as int)],
{
    proof {
        reveal(digit_char);
        reveal_strlit("0");
        reveal_strlit("1");
        reveal_strlit("2");
        reveal_strlit("3");
        reveal_strlit("4");
        reveal_strlit("5");
        reveal_strlit("6");
        reveal_strlit("7");
        reveal_strlit("8");
        reveal_strlit("9");
    }
    if d == 0 { "0" }
    else if d == 1 { "1" }
    else if d == 2 { "2" }
    else if d == 3 { "3" }
    else if d == 4 { "4" }
    else if d == 5 { "5" }
    else if d == 6 { "6" }
    else if d == 7 { "7" }
    else if d == 8 { "8" }
    else { "9" }
}

/// Appends `n` in decimal.
fn append_decimal(s: &mut String, n: u32)
    ensures
        final(s)@ == old(s)@ + decimal(n as nat),
    decreases n,
{
    if n >= 10 {
        append_decimal(s, n / 10);
    }
    s.append(digit_text(n % 10));
    assert(final(s)@ =~= old(s)@ + decimal(n as nat));
}

/// `n` in decimal, as text.
pub fn decimal_text(n: u32) -> (r: String)
    ensures
        r@ == decimal(n as nat),
{
    let mut s = String::new();
    append_decimal(&mut s, n);
    assert(s@ =~= decimal(n as nat));
    s
}

fn append_two(s: &mut String, n: u32)
    ensures
        final(s)@ == old(s)@ + two_digits(n as int),
{
    s.append(digit_text(n / 10 % 10));
    s.append(digit_text(n % 10));
    assert(final(s)@ =~= old(s)@ + two_digits(n as int));
}

fn append_four(s: &mut String, n: u32)
    requires
        n < 10000,
    ensures
        final(s)@ == old(s)@ + four_digits(n as int),
{
    append_two(s, n / 100);
    append_two(s, n % 100);
    assert(final(s)@ =~= old(s)@ + four_digits(n as int));
}

/// The instant as the calendar format writes it, `YYYYMMDDThhmmssZ` in UTC.
pub fn to_string(u: &UtcDateTime) -> (r: String)
    ensures
        r@ == stamp_of(*u),
{
    proof {
        reveal_strlit("+");
        reveal_strlit("-");
        reveal_strlit("T");
        reveal_strlit("Z");
    }
    let mut s = String::new();
    let y: i32 = u.year;
    if 0 <= y && y <= 9999 {
        append_four(&mut s, y as u32);
    } else if y > 9999 {
        s.append("+");
        append_decimal(&mut s, y as u32);
    } else {
        s.append("-");
        let a: u32 = if y == i32::MIN { 2147483648u32 } else { (-y) as u32 };
        if a <= 9999 {
            append_four(&mut s, a);
        } else {
            append_decimal(&mut s, a);
        }
    }
    assert(s@ =~= year_text(u.year as int));
    append_two(&mut s, u.month);
    append_two(&mut s, u.day);
    s.append("T");
    append_two(&mut s, u.hour);
    append_two(&mut s, u.minute);
    append_two(&mut s, u.second);
    s.append("Z");
    assert(s@ =~= stamp_of(*u));
    s
}


fn digit_at(s: &str, i: usize) -> (r: Option<u32>)
    requires
        i < s@.len(),
    ensures
        is_digit(s@[i as int]) <==> r is Some,
        r matches Some(v) ==> v as int == digit_value(s@[i as int]) && v < 10,
{
    proof {
        reveal(digit_value);
    }
    let c = s.get_char(i);
    if c == '0' { Some(0) }
    else if c == '1' { Some(1) }
    else if c == '2' { Some(2) }
    else if c == '3' { Some(3) }
    else if c == '4' { Some(4) }
    else if c == '5' { Some(5) }
    else if c == '6' { Some(6) }
    else if c == '7' { Some(7) }
    else if c == '8' { Some(8) }
    else if c == '9' { Some(9) }
    else { None }
}

fn pair_at(s: &str, i: usize) -> (r: Option<u32>)
    requires
        i + 1 < s@.len(),
        i < 16,
    ensures
        (is_digit(s@[i as int]) && is_digit(s@[i + 1])) <==> r is Some,
        r matches Some(v) ==> v as int == value2(s@, i as int) && v < 100,
{
    let a = digit_at(s, i)?;
    let b = digit_at(s, i + 1)?;
    Some(10 * a + b)
}

/// Reads a stamp `YYYYMMDDThhmmssZ` with a four-digit year back into an instant.
pub fn parse_stamp(s: &str) -> (r: Option<UtcDateTime>)
    ensures
        r == stamp_parse(s@),
{
    let n = s.unicode_len();
    if n != 16 || s.get_char(8) != 'T' || s.get_char(15) != 'Z' {
        return None;
    }
    let mut i: usize = 0;
    while i < 15
        invariant
            s@.len() == 16,
            0 <= i <= 15,
            forall|k: int| 0 <= k < i && k != 8 ==> #[trigger] is_digit(s@[k]),
        decreases 15 - i,
    {
        if i != 8 && digit_at(s, i).is_none() {
            return None;
        }
        i = i + 1;
    }
    let y1 = pair_at(s, 0).unwrap();
    let y2 = pair_at(s, 2).unwrap();
    let u = UtcDateTime {
        year: (100 * y1 + y2) as i32,
        month: pair_at(s, 4).unwrap(),
        day: pair_at(s, 6).unwrap(),
        hour: pair_at(s, 9).unwrap(),
        minute: pair_at(s, 11).unwrap(),
        second: pair_at(s, 13).unwrap(),
    };
    if 1 <= u.month && u.month <= 12 && 1 <= u.day && u.day <= 31 && u.hour < 24 && u.minute < 60
        && u.second < 60 {
        Some(u)
    } else {
        None
    }
}

proof fn lemma_digit_round_trip(d: int)
    requires
        0 <= d < 10,
    ensures
        is_digit(digit_char(d)),
        digit_value(digit_char(d)) == d,
{
    reveal(digit_char);
    reveal(digit_value);
}

proof fn lemma_two_digits_round_trip(n: int)
    requires
        0 <= n < 100,
    ensures
        is_digit(two_digits(n)[0]),
        is_digit(two_digits(n)[1]),
        value2(two_digits(n), 0) == n,
{
    lemma_digit_round_trip(n / 10 % 10);
    lemma_digit_round_trip(n % 10);
}

proof fn lemma_four_split(y: int)
    requires
        0 <= y <= 9999,
    ensures
        four_digits(y) == two_digits(y / 100) + two_digits(y % 100),
        100 * (y / 100) + y % 100 == y,
        0 <= y / 100 < 100,
{
}

/// The stamp of a well-formed instant, as the sequence of its two-digit fields.
proof fn lemma_stamp_fields(u: UtcDateTime) -> (parts: Seq<Seq<char>>)
    requires
        u.wf(),
        0 <= u.year <= 9999,
    ensures
        parts.len() == 7,
        stamp_of(u) =~= parts[0] + parts[1] + parts[2] + parts[3] + seq!['T'] + parts[4]
            + parts[5] + parts[6] + seq!['Z'],
        forall|k: int|
            0 <= k < 7 ==> #[trigger] parts[k].len() == 2 && is_digit(parts[k][0]) && is_digit(
                parts[k][1],
            ),
        value2(parts[0], 0) == u.year / 100,
        value2(parts[1], 0) == u.year % 100,
        value2(parts[2], 0) == u.month,
        value2(parts[3], 0) == u.day,
        value2(parts[4], 0) == u.hour,
        value2(parts[5], 0) == u.minute,
        value2(parts[6], 0) == u.second,
{
    let y = u.year as int;
    lemma_four_split(y);
    lemma_two_digits_round_trip(y / 100);
    lemma_two_digits_round_trip(y % 100);
    lemma_two_digits_round_trip(u.month as int);
    lemma_two_digits_round_trip(u.day as int);
    lemma_two_digits_round_trip(u.hour as int);
    lemma_two_digits_round_trip(u.minute as int);
    lemma_two_digits_round_trip(u.second as int);
    seq![
        two_digits(y / 100),
        two_digits(y % 100),
        two_digits(u.month as int),
        two_digits(u.day as int),
        two_digits(u.hour as int),
        two_digits(u.minute as int),
        two_digits(u.second as int),
    ]
}

/// For an instant with a four-digit year, formatting it and reading the stamp
/// back gives the instant again, so formatting a second time gives the same
/// text.
pub proof fn lemma_stamp_stable(u: UtcDateTime)
    requires
        u.wf(),
        0 <= u.year <= 9999,
    ensures
        stamp_parse(stamp_of(u)) == Some(u),
        stamp_of(stamp_parse(stamp_of(u)).unwrap()) == stamp_of(u),
{
    let s = stamp_of(u);
    let p = lemma_stamp_fields(u);
    assert(s.len() == 16);
    assert forall|k: int| 0 <= k < 7 implies s[offset(k)] == #[trigger] p[k][0] && s[offset(k)
        + 1] == p[k][1] by {}
    assert(value2(s, 0) == value2(p[0], 0));
    assert(value2(s, 2) == value2(p[1], 0));
    assert(value2(s, 4) == value2(p[2], 0));
    assert(value2(s, 6) == value2(p[3], 0));
    assert(value2(s, 9) == value2(p[4], 0));
    assert(value2(s, 11) == value2(p[5], 0));
    assert(value2(s, 13) == value2(p[6], 0));
    assert forall|i: int| 0 <= i < 15 && i != 8 implies #[trigger] is_digit(s[i]) by {
        let k = if i < 8 { i / 2 } else { (i - 1) / 2 };
        assert(p[k].len() == 2);
        if i < 8 {
            assert(offset(k) == i - i % 2);
        } else {
            assert(offset(k) == i - (i - 1) % 2);
        }
    }
    assert(100 * (u.year / 100) + u.year % 100 == u.year) by {
        lemma_four_split(u.year as int);
    }
}

/// Where the `k`-th two-digit field of a stamp starts.
spec fn offset(k: int) -> int {
    if k < 4 { 2 * k } else { 2 * k + 1 }
}

} // verus!
