//! UTF-16 text for the operating system's wide interfaces, time stamps, and
//! when old files are dropped.

use vstd::prelude::*;

use crate::text;
use crate::text_laws;

verus! {

/// The UTF-16 code units of a character: itself, or a surrogate pair.
pub open spec fn units(c: char) -> Seq<u16> {
    if (c as u32) < 0x10000 {
        seq![c as u16]
    } else {
        seq![
            (0xd800 + (c as u32 - 0x10000) / 0x400) as u16,
            (0xdc00 + (c as u32 - 0x10000) % 0x400) as u16,
        ]
    }
}

/// `s` in UTF-16.
pub open spec fn utf16(s: Seq<char>) -> Seq<u16>
    decreases s.len(),
{
    if s.len() == 0 {
        seq![]
    } else {
        utf16(s.drop_last()) + units(s.last())
    }
}

/// Whether a code unit is the first of a surrogate pair.
pub open spec fn high_surrogate(u: u16) -> bool {
    0xd800 <= u < 0xdc00
}

/// Whether a code unit is the second of a surrogate pair.
pub open spec fn low_surrogate(u: u16) -> bool {
    0xdc00 <= u < 0xe000
}

/// The character of a surrogate pair.
pub open spec fn pair_char(high: u16, low: u16) -> char {
    (0x10000 + (high - 0xd800) * 0x400 + (low - 0xdc00)) as char
}

/// The text that UTF-16 code units spell, U+FFFD for each unpaired surrogate.
pub open spec fn utf16_text(u: Seq<u16>) -> Seq<char>
    decreases u.len(),
{
    if u.len() == 0 {
        seq![]
    } else if high_surrogate(u[0]) && u.len() >= 2 && low_surrogate(u[1]) {
        seq![pair_char(u[0], u[1])] + utf16_text(u.skip(2))
    } else if high_surrogate(u[0]) || low_surrogate(u[0]) {
        seq!['\u{fffd}'] + utf16_text(u.skip(1))
    } else {
        seq![u[0] as char] + utf16_text(u.skip(1))
    }
}

/// What stands before the first NUL; all of it where there is none.
pub open spec fn before_nul(u: Seq<u16>) -> Seq<u16>
    decreases u.len(),
{
    if u.len() == 0 || u[0] == 0 {
        seq![]
    } else {
        seq![u[0]] + before_nul(u.drop_first())
    }
}

/// `char::from_u32`: the character of a Unicode scalar value, and none for any
/// other number.
pub assume_specification[ char::from_u32 ](i: u32) -> (r: Option<char>)
    ensures
        r == (if i < 0xd800 || 0xe000 <= i <= 0x10ffff {
            Some(i as char)
        } else {
            None
        }),
;

/// Append the UTF-16 code units of a character.
fn push_units(out: &mut Vec<u16>, c: char)
    ensures
        final(out)@ == old(out)@ + units(c),
{
    let u = c as u32;
    if u < 0x10000 {
        out.push(u as u16);
    } else {
        out.push((0xd800 + (u - 0x10000) / 0x400) as u16);
        out.push((0xdc00 + (u - 0x10000) % 0x400) as u16);
    }
}

/// Convert a string to a NUL-terminated UTF-16 buffer.
pub fn wide(s: &str) -> (r: Vec<u16>)
    ensures
        r@ == utf16(s@).push(0),
{
    let mut out: Vec<u16> = Vec::new();
    for c in it: s.chars()
        invariant
            out@ == utf16(it.seq().take(it.index() as int)),
    {
        proof {
            let upto = it.seq().take(it.index() + 1);
            assert(upto.drop_last() == it.seq().take(it.index() as int));
        }
        push_units(&mut out, c);
    }
    assert(s@.take(s@.len() as int) == s@);
    out.push(0);
    out
}

/// Convert UTF-16, up to the first NUL or to the end, to a string. An unpaired
/// surrogate becomes U+FFFD.
pub fn from_wide(buf: &[u16]) -> (r: String)
    ensures
        r@ == utf16_text(before_nul(buf@)),
{
    let mut len: usize = 0;
    assert(buf@.take(0) + before_nul(buf@.skip(0)) == before_nul(buf@)) by {
        assert(buf@.skip(0) == buf@);
    }
    while len < buf.len() && buf[len] != 0
        invariant
            len <= buf.len(),
            buf@.take(len as int) + before_nul(buf@.skip(len as int)) == before_nul(buf@),
        decreases buf.len() - len,
    {
        assert(buf@.skip(len as int).drop_first() == buf@.skip(len + 1));
        assert(buf@.take(len + 1) == buf@.take(len as int) + seq![buf@[len as int]]);
        len = len + 1;
    }
    let ghost kept = buf@.take(len as int);
    assert(kept == before_nul(buf@));
    let mut out = String::new();
    let mut i: usize = 0;
    assert(kept.skip(0) == kept);
    while i < len
        invariant
            i <= len <= buf.len(),
            kept == buf@.take(len as int),
            utf16_text(kept) == out@ + utf16_text(kept.skip(i as int)),
        decreases len - i,
    {
        let u = buf[i];
        assert(kept.skip(i as int)[0] == u);
        assert(kept.skip(i as int).skip(1) == kept.skip(i + 1));
        if 0xd800 <= u && u < 0xdc00 && len - i >= 2 && 0xdc00 <= buf[i + 1] && buf[i + 1]
            < 0xe000 {
            assert(kept.skip(i as int)[1] == buf@[i + 1]);
            assert(kept.skip(i as int).skip(2) == kept.skip(i + 2));
            let n = 0x10000 + (u as u32 - 0xd800) * 0x400 + (buf[i + 1] as u32 - 0xdc00);
            out.push(char::from_u32(n).unwrap());
            i = i + 2;
        } else if 0xd800 <= u && u < 0xe000 {
            assert(kept.skip(i as int).len() >= 2 ==> kept.skip(i as int)[1] == buf@[i + 1]);
            out.push('\u{fffd}');
            i = i + 1;
        } else {
            out.push(char::from_u32(u as u32).unwrap());
            i = i + 1;
        }
    }
    out
}

/// A local date and time.
#[derive(Clone, Copy)]
pub struct LocalTime {
    pub year: u16,
    pub month: u16,
    pub day: u16,
    pub hour: u16,
    pub minute: u16,
    pub second: u16,
}

/// The `yyyyMMdd-HHmmss` form of a time.
pub open spec fn stamp(t: LocalTime) -> Seq<char> {
    text::padded(t.year as nat, 4) + text::padded(t.month as nat, 2) + text::padded(
        t.day as nat,
        2,
    ) + seq!['-'] + text::padded(t.hour as nat, 2) + text::padded(t.minute as nat, 2)
        + text::padded(t.second as nat, 2)
}

/// `yyyyMMdd-HHmmss`, for the local time that the clock shows.
pub fn now_stamp(now: &LocalTime) -> (r: String)
    ensures
        r@ == stamp(*now),
{
    let mut out = String::new();
    text::push_padded(&mut out, now.year as usize, 4);
    text::push_padded(&mut out, now.month as usize, 2);
    text::push_padded(&mut out, now.day as usize, 2);
    out.push('-');
    text::push_padded(&mut out, now.hour as usize, 2);
    text::push_padded(&mut out, now.minute as usize, 2);
    text::push_padded(&mut out, now.second as usize, 2);
    out
}

/// The log is started anew once it is longer than this many bytes.
pub const LOG_LIMIT: u64 = 1_000_000;

/// A saved clipboard image is dropped once it is older than this many seconds.
pub const CLIP_LIFETIME: u64 = 86_400;

/// Whether to start the log anew, given its length where there is one.
pub fn log_outgrown(len: Option<u64>) -> (r: bool)
    ensures
        r == (len matches Some(n) && n > LOG_LIMIT),
{
    match len {
        Some(n) => n > LOG_LIMIT,
        None => false,
    }
}

/// Whether to drop a saved image, given its age in seconds where it is known.
pub fn clip_expired(age: Option<u64>) -> (r: bool)
    ensures
        r == (age matches Some(n) && n > CLIP_LIFETIME),
{
    match age {
        Some(n) => n > CLIP_LIFETIME,
        None => false,
    }
}

proof fn lemma_utf16_first(s: Seq<char>)
    requires
        s.len() > 0,
    ensures
        utf16(s) == units(s[0]) + utf16(s.drop_first()),
    decreases s.len(),
{
    if s.len() > 1 {
        lemma_utf16_first(s.drop_last());
        assert(s.drop_last().drop_first() == s.drop_first().drop_last());
    } else {
        assert(s.drop_last() == Seq::<char>::empty());
        assert(s.drop_first() == Seq::<char>::empty());
    }
}

proof fn lemma_units_text(c: char, rest: Seq<u16>)
    ensures
        utf16_text(units(c) + rest) == seq![c] + utf16_text(rest),
        c != '\0' ==> before_nul(units(c) + rest) == units(c) + before_nul(rest),
        c == '\0' ==> before_nul(units(c) + rest) == Seq::<u16>::empty(),
{
    reveal_with_fuel(before_nul, 3);
    let u = units(c) + rest;
    if (c as u32) < 0x10000 {
        assert(u.skip(1) == rest);
        assert(u.drop_first() == rest);
    } else {
        assert(u.skip(2) == rest);
        assert(u.drop_first().drop_first() == rest);
        let k = c as u32 - 0x10000;
        assert((k / 0x400) * 0x400 + k % 0x400 == k);
    }
}

/// What `wide` makes of a text, `from_wide` reads back, up to the first NUL in
/// the text: all of it where it holds none.
pub proof fn law_wide_round_trip(s: Seq<char>)
    ensures
        utf16_text(before_nul(utf16(s).push(0))) == s.take(text::position(s, '\0')),
    decreases s.len(),
{
    if s.len() == 0 {
        assert(utf16(s).push(0)[0] == 0);
        assert(s.take(0) == s);
    } else {
        let rest = s.drop_first();
        lemma_utf16_first(s);
        lemma_units_text(s[0], utf16(rest).push(0));
        assert(utf16(s).push(0) == units(s[0]) + utf16(rest).push(0));
        law_wide_round_trip(rest);
        if s[0] != '\0' {
            text::lemma_position_bounds(rest, '\0');
            lemma_units_text(s[0], before_nul(utf16(rest).push(0)));
            assert(s.take(text::position(s, '\0')) == seq![s[0]] + rest.take(
                text::position(rest, '\0'),
            ));
        }
    }
}

proof fn lemma_padded_two(n: nat)
    requires
        n < 100,
    ensures
        text::padded(n, 2) == seq![text::digit(n / 10), text::digit(n % 10)],
{
    reveal_with_fuel(text::decimal, 3);
}

proof fn lemma_padded_four(n: nat)
    requires
        n < 10000,
    ensures
        text::padded(n, 4) == seq![
            text::digit(n / 1000),
            text::digit(n / 100 % 10),
            text::digit(n / 10 % 10),
            text::digit(n % 10),
        ],
{
    reveal_with_fuel(text::decimal, 5);
    assert(n / 10 / 10 == n / 100);
    assert(n / 100 / 10 == n / 1000);
}

/// A time whose fields have as many digits as a stamp has room for.
pub open spec fn stampable(t: LocalTime) -> bool {
    &&& t.year < 10000
    &&& t.month < 100
    &&& t.day < 100
    &&& t.hour < 100
    &&& t.minute < 100
    &&& t.second < 100
}

/// The parts of a stamp, put together.
proof fn lemma_parts_joined(
    year: (char, char, char, char),
    month: (char, char),
    day: (char, char),
    hour: (char, char),
    minute: (char, char),
    second: (char, char),
)
    ensures
        seq![year.0, year.1, year.2, year.3] + seq![month.0, month.1] + seq![day.0, day.1] + seq![
            '-',
        ] + seq![hour.0, hour.1] + seq![minute.0, minute.1] + seq![second.0, second.1] == seq![
            year.0,
            year.1,
            year.2,
            year.3,
            month.0,
            month.1,
            day.0,
            day.1,
            '-',
            hour.0,
            hour.1,
            minute.0,
            minute.1,
            second.0,
            second.1,
        ],
{
}

/// The two digits of a number below a hundred.
spec fn two(n: nat) -> (char, char) {
    (text::digit(n / 10), text::digit(n % 10))
}

proof fn lemma_stamp_digits(t: LocalTime)
    requires
        stampable(t),
    ensures
        stamp(t) == seq![
            text::digit(t.year as nat / 1000),
            text::digit(t.year as nat / 100 % 10),
            text::digit(t.year as nat / 10 % 10),
            text::digit(t.year as nat % 10),
            text::digit(t.month as nat / 10),
            text::digit(t.month as nat % 10),
            text::digit(t.day as nat / 10),
            text::digit(t.day as nat % 10),
            '-',
            text::digit(t.hour as nat / 10),
            text::digit(t.hour as nat % 10),
            text::digit(t.minute as nat / 10),
            text::digit(t.minute as nat % 10),
            text::digit(t.second as nat / 10),
            text::digit(t.second as nat % 10),
        ],
{
    lemma_padded_four(t.year as nat);
    lemma_padded_two(t.month as nat);
    lemma_padded_two(t.day as nat);
    lemma_padded_two(t.hour as nat);
    lemma_padded_two(t.minute as nat);
    lemma_padded_two(t.second as nat);
    let year = t.year as nat;
    lemma_parts_joined(
        (
            text::digit(year / 1000),
            text::digit(year / 100 % 10),
            text::digit(year / 10 % 10),
            text::digit(year % 10),
        ),
        two(t.month as nat),
        two(t.day as nat),
        two(t.hour as nat),
        two(t.minute as nat),
        two(t.second as nat),
    );
}

/// A stamp has fifteen characters: eight digits, a hyphen, six digits.
pub proof fn law_stamp_shape(t: LocalTime)
    requires
        stampable(t),
    ensures
        stamp(t).len() == 15,
        stamp(t)[8] == '-',
        forall|i: int| 0 <= i < 15 && i != 8 ==> '0' <= #[trigger] stamp(t)[i] <= '9',
{
    lemma_stamp_digits(t);
}

proof fn lemma_digits_differ(d: nat, e: nat)
    requires
        d < 10,
        e < 10,
        text::digit(d) == text::digit(e),
    ensures
        d == e,
{
}

proof fn lemma_two_digits(a: nat, b: nat)
    requires
        a < 100,
        b < 100,
        text::digit(a / 10) == text::digit(b / 10),
        text::digit(a % 10) == text::digit(b % 10),
    ensures
        a == b,
{
}

proof fn lemma_four_digits(a: nat, b: nat)
    requires
        a < 10000,
        b < 10000,
        text::digit(a / 1000) == text::digit(b / 1000),
        text::digit(a / 100 % 10) == text::digit(b / 100 % 10),
        text::digit(a / 10 % 10) == text::digit(b / 10 % 10),
        text::digit(a % 10) == text::digit(b % 10),
    ensures
        a == b,
{
    lemma_digits_differ(a / 1000, b / 1000);
    lemma_digits_differ(a / 100 % 10, b / 100 % 10);
    lemma_digits_differ(a / 10 % 10, b / 10 % 10);
    lemma_digits_differ(a % 10, b % 10);
    assert(a / 10 / 10 == a / 100 && a / 100 / 10 == a / 1000);
    assert(b / 10 / 10 == b / 100 && b / 100 / 10 == b / 1000);
    assert(a / 100 == b / 100);
    assert(a / 10 == b / 10);
}

/// Different times have different stamps.
pub proof fn law_stamps_differ(a: LocalTime, b: LocalTime)
    requires
        stampable(a),
        stampable(b),
        stamp(a) == stamp(b),
    ensures
        a == b,
{
    lemma_stamp_digits(a);
    lemma_stamp_digits(b);
    let s = stamp(a);
    let r = stamp(b);
    assert(s[0] == r[0] && s[1] == r[1] && s[2] == r[2] && s[3] == r[3]);
    lemma_four_digits(a.year as nat, b.year as nat);
    assert(s[4] == r[4] && s[5] == r[5] && s[6] == r[6] && s[7] == r[7]);
    lemma_two_digits(a.month as nat, b.month as nat);
    lemma_two_digits(a.day as nat, b.day as nat);
    assert(s[9] == r[9] && s[10] == r[10] && s[11] == r[11]);
    lemma_two_digits(a.hour as nat, b.hour as nat);
    assert(s[12] == r[12] && s[13] == r[13] && s[14] == r[14]);
    lemma_two_digits(a.minute as nat, b.minute as nat);
    lemma_two_digits(a.second as nat, b.second as nat);
}

/// UTF-16 goes character by character: one below 2^16 is its own unit, and another one
/// a high and a low surrogate that make it up.
pub proof fn law_utf16_goes_by_characters(a: Seq<char>, c: char, b: Seq<char>)
    ensures
        utf16(Seq::empty()) == Seq::<u16>::empty(),
        utf16(a + b) == utf16(a) + utf16(b),
        (c as u32) < 0x10000 ==> utf16(seq![c]).len() == 1 && utf16(seq![c])[0] == c as u32,
        (c as u32) >= 0x10000 ==> {
            let u = utf16(seq![c]);
            &&& u.len() == 2
            &&& 0xd800 <= u[0] < 0xdc00
            &&& 0xdc00 <= u[1] < 0xe000
            &&& 0x10000 + (u[0] - 0xd800) * 0x400 + (u[1] - 0xdc00) == c as u32
        },
    decreases b.len(),
{
    reveal_with_fuel(utf16, 2);
    assert(seq![c].drop_last() == Seq::<char>::empty());
    assert(utf16(seq![c]) == units(c));
    if b.len() == 0 {
        assert(a + b == a);
    } else {
        law_utf16_goes_by_characters(a, c, b.drop_last());
        assert((a + b).drop_last() == a + b.drop_last());
    }
}

/// Reading UTF-16 takes a surrogate pair as one character, replaces a surrogate
/// without its other half, and takes any other unit as the character of its number.
pub proof fn law_utf16_is_read_by_units(u: u16, rest: Seq<u16>)
    ensures
        utf16_text(Seq::empty()) == Seq::<char>::empty(),
        !(0xd800 <= u < 0xe000) ==> utf16_text(seq![u] + rest) == seq![u as char] + utf16_text(
            rest,
        ),
        0xdc00 <= u < 0xe000 ==> utf16_text(seq![u] + rest) == seq!['\u{fffd}'] + utf16_text(rest),
        0xd800 <= u < 0xdc00 && !(rest.len() > 0 && 0xdc00 <= rest[0] < 0xe000) ==> utf16_text(
            seq![u] + rest,
        ) == seq!['\u{fffd}'] + utf16_text(rest),
        0xd800 <= u < 0xdc00 && rest.len() > 0 && 0xdc00 <= rest[0] < 0xe000 ==> utf16_text(
            seq![u] + rest,
        ) == seq![(0x10000 + (u - 0xd800) * 0x400 + (rest[0] - 0xdc00)) as char] + utf16_text(
            rest.drop_first(),
        ),
{
    let all = seq![u] + rest;
    assert(all[0] == u);
    assert(all.skip(1) == rest);
    if rest.len() > 0 {
        assert(all[1] == rest[0]);
        assert(all.skip(2) == rest.drop_first());
    }
}

/// What stands before the first NUL is the longest beginning without one.
pub proof fn law_before_nul(u: Seq<u16>)
    ensures
        before_nul(u).is_prefix_of(u),
        forall|i: int| 0 <= i < before_nul(u).len() ==> #[trigger] before_nul(u)[i] != 0,
        before_nul(u).len() < u.len() ==> u[before_nul(u).len() as int] == 0,
    decreases u.len(),
{
    if u.len() > 0 && u[0] != 0 {
        let rest = u.drop_first();
        law_before_nul(rest);
        let b = before_nul(u);
        let r = before_nul(rest);
        assert(b == seq![u[0]] + r);
        assert forall|i: int| 0 <= i < b.len() implies #[trigger] b[i] != 0 by {
            if i > 0 {
                assert(b[i] == r[i - 1]);
            }
        }
        assert forall|i: int| 0 <= i < b.len() implies #[trigger] b[i] == u[i] by {
            if i > 0 {
                assert(r == rest.take(r.len() as int));
                assert(r[i - 1] == rest[i - 1]);
            }
        }
        assert(b =~= u.take(b.len() as int));
        if b.len() < u.len() {
            assert(u[b.len() as int] == rest[r.len() as int]);
        }
    }
}

/// A stamp reads back as its time: year, month and day, a hyphen, hour, minute and
/// second.
pub proof fn law_stamp_reads_back(t: LocalTime)
    requires
        stampable(t),
    ensures
        stamp(t).len() == 15,
        text_laws::number(stamp(t).subrange(0, 4)) == t.year,
        text_laws::number(stamp(t).subrange(4, 6)) == t.month,
        text_laws::number(stamp(t).subrange(6, 8)) == t.day,
        stamp(t)[8] == '-',
        text_laws::number(stamp(t).subrange(9, 11)) == t.hour,
        text_laws::number(stamp(t).subrange(11, 13)) == t.minute,
        text_laws::number(stamp(t).subrange(13, 15)) == t.second,
{
    lemma_stamp_digits(t);
    lemma_padded_four(t.year as nat);
    lemma_padded_two(t.month as nat);
    lemma_padded_two(t.day as nat);
    lemma_padded_two(t.hour as nat);
    lemma_padded_two(t.minute as nat);
    lemma_padded_two(t.second as nat);
    text_laws::law_padded_reads_back(t.year as nat, 4);
    text_laws::law_padded_reads_back(t.month as nat, 2);
    text_laws::law_padded_reads_back(t.day as nat, 2);
    text_laws::law_padded_reads_back(t.hour as nat, 2);
    text_laws::law_padded_reads_back(t.minute as nat, 2);
    text_laws::law_padded_reads_back(t.second as nat, 2);
    assert(stamp(t).subrange(0, 4) == text::padded(t.year as nat, 4));
    assert(stamp(t).subrange(4, 6) == text::padded(t.month as nat, 2));
    assert(stamp(t).subrange(6, 8) == text::padded(t.day as nat, 2));
    assert(stamp(t).subrange(9, 11) == text::padded(t.hour as nat, 2));
    assert(stamp(t).subrange(11, 13) == text::padded(t.minute as nat, 2));
    assert(stamp(t).subrange(13, 15) == text::padded(t.second as nat, 2));
}

} // verus!
