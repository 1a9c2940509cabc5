//! Character classes and character-level string helpers.

use vstd::prelude::*;
use vstd::slice::slice_subrange;

verus! {

/// The characters that have the Unicode property White_Space.
pub open spec fn white_space(c: char) -> bool {
    let u = c as u32;
    ||| 0x09 <= u <= 0x0d
    ||| u == 0x20
    ||| u == 0x85
    ||| u == 0xa0
    ||| u == 0x1680
    ||| 0x2000 <= u <= 0x200a
    ||| u == 0x2028
    ||| u == 0x2029
    ||| u == 0x202f
    ||| u == 0x205f
    ||| u == 0x3000
}

/// `char::is_whitespace`: true exactly of the characters with the Unicode
/// property White_Space, which `white_space` lists.
pub assume_specification[ char::is_whitespace ](c: char) -> (r: bool)
    ensures
        r == white_space(c),
;

/// The ASCII letters and digits.
pub open spec fn ascii_alphanumeric(c: char) -> bool {
    ||| '0' <= c <= '9'
    ||| 'A' <= c <= 'Z'
    ||| 'a' <= c <= 'z'
}

/// Whether Unicode counts a character beyond ASCII as alphabetic or numeric. What
/// is white space is neither, so that this says something of other characters
/// alone.
pub uninterp spec fn unicode_alphanumeric(c: char) -> bool;

/// Letters and digits: the ASCII ones, and beyond ASCII what Unicode says. None of
/// them is white space.
pub open spec fn alphanumeric(c: char) -> bool {
    if (c as u32) < 0x80 {
        ascii_alphanumeric(c)
    } else {
        unicode_alphanumeric(c) && !white_space(c)
    }
}

/// `char::is_alphanumeric`: among the ASCII characters exactly the letters and
/// digits; beyond ASCII a property of the character alone, named
/// `unicode_alphanumeric`, and false of white space.
pub assume_specification[ char::is_alphanumeric ](c: char) -> (r: bool)
    ensures
        r == (if (c as u32) < 0x80 {
            ascii_alphanumeric(c)
        } else {
            unicode_alphanumeric(c) && !white_space(c)
        }),
;

/// `String::push`: appends one character.
pub assume_specification[ String::push ](s: &mut String, c: char)
    ensures
        final(s)@ == old(s)@.push(c),
;

/// The strings of a list, each by its characters.
pub open spec fn texts(v: Seq<String>) -> Seq<Seq<char>> {
    v.map_values(|s: String| s@)
}

/// The characters of `s`, in order.
pub fn chars_of(s: &str) -> (r: Vec<char>)
    ensures
        r@ == s@,
{
    let mut out: Vec<char> = Vec::new();
    for c in it: s.chars()
        invariant
            out@ == it.seq().take(it.index() as int),
    {
        out.push(c);
    }
    out
}

/// The string made of the given characters.
pub fn string_of(chars: &[char]) -> (r: String)
    ensures
        r@ == chars@,
{
    let mut out = String::new();
    for i in 0..chars.len()
        invariant
            out@ == chars@.take(i as int),
    {
        out.push(chars[i]);
    }
    assert(chars@.take(chars.len() as int) == chars@);
    out
}

/// `s` without the leading characters that `f` holds of.
pub open spec fn drop_leading(s: Seq<char>, f: spec_fn(char) -> bool) -> Seq<char>
    decreases s.len(),
{
    if s.len() > 0 && f(s[0]) {
        drop_leading(s.drop_first(), f)
    } else {
        s
    }
}

/// `s` without the trailing characters that `f` holds of.
pub open spec fn drop_trailing(s: Seq<char>, f: spec_fn(char) -> bool) -> Seq<char>
    decreases s.len(),
{
    if s.len() > 0 && f(s.last()) {
        drop_trailing(s.drop_last(), f)
    } else {
        s
    }
}

/// `s` without the white space at either end.
pub open spec fn trimmed(s: Seq<char>) -> Seq<char> {
    drop_trailing(drop_leading(s, |c: char| white_space(c)), |c: char| white_space(c))
}

/// The test for being `c`.
pub open spec fn equal_to(c: char) -> spec_fn(char) -> bool {
    |x: char| x == c
}

/// `s` without leading copies of `c`.
pub open spec fn without_leading(s: Seq<char>, c: char) -> Seq<char> {
    drop_leading(s, equal_to(c))
}

/// `s` without trailing copies of `c`.
pub open spec fn without_trailing(s: Seq<char>, c: char) -> Seq<char> {
    drop_trailing(s, equal_to(c))
}

/// `s` without the white space at either end.
pub fn trim(s: &[char]) -> (r: &[char])
    ensures
        r@ == trimmed(s@),
{
    let ghost f = |c: char| white_space(c);
    let mut i: usize = 0;
    assert(s@.skip(0) == s@);
    while i < s.len() && s[i].is_whitespace()
        invariant
            i <= s.len(),
            f == (|c: char| white_space(c)),
            drop_leading(s@, f) == drop_leading(s@.skip(i as int), f),
        decreases s.len() - i,
    {
        assert(s@.skip(i as int).drop_first() == s@.skip(i + 1));
        i = i + 1;
    }
    let mut j: usize = s.len();
    assert(s@.subrange(i as int, j as int) == s@.skip(i as int));
    while j > i && s[j - 1].is_whitespace()
        invariant
            i <= j <= s.len(),
            f == (|c: char| white_space(c)),
            trimmed(s@) == drop_trailing(s@.subrange(i as int, j as int), f),
        decreases j,
    {
        assert(s@.subrange(i as int, j as int).drop_last() == s@.subrange(i as int, j - 1));
        j = j - 1;
    }
    slice_subrange(s, i, j)
}

/// `s` without leading copies of `c`.
pub fn trim_start_matches(s: &[char], c: char) -> (r: &[char])
    ensures
        r@ == without_leading(s@, c),
{
    let ghost f = equal_to(c);
    let mut i: usize = 0;
    assert(s@.skip(0) == s@);
    while i < s.len() && s[i] == c
        invariant
            i <= s.len(),
            f == equal_to(c),
            drop_leading(s@, f) == drop_leading(s@.skip(i as int), f),
        decreases s.len() - i,
    {
        assert(s@.skip(i as int).drop_first() == s@.skip(i + 1));
        i = i + 1;
    }
    assert(s@.subrange(i as int, s.len() as int) == s@.skip(i as int));
    slice_subrange(s, i, s.len())
}

/// `s` without trailing copies of `c`.
pub fn trim_end_matches(s: &[char], c: char) -> (r: &[char])
    ensures
        r@ == without_trailing(s@, c),
{
    let ghost f = equal_to(c);
    let mut j: usize = s.len();
    assert(s@.take(j as int) == s@);
    while j > 0 && s[j - 1] == c
        invariant
            j <= s.len(),
            f == equal_to(c),
            drop_trailing(s@, f) == drop_trailing(s@.take(j as int), f),
        decreases j,
    {
        assert(s@.take(j as int).drop_last() == s@.take(j - 1));
        j = j - 1;
    }
    assert(s@.subrange(0, j as int) == s@.take(j as int));
    slice_subrange(s, 0, j)
}

/// The index of the first `c` in `s`; the length of `s` where there is none.
pub open spec fn position(s: Seq<char>, c: char) -> int
    decreases s.len(),
{
    if s.len() == 0 || s[0] == c {
        0
    } else {
        1 + position(s.drop_first(), c)
    }
}

/// The first `c` stands within `s`, or else the position is the length of `s`.
pub proof fn lemma_position_bounds(s: Seq<char>, c: char)
    ensures
        0 <= position(s, c) <= s.len(),
        position(s, c) < s.len() ==> s[position(s, c)] == c,
    decreases s.len(),
{
    if s.len() > 0 && s[0] != c {
        lemma_position_bounds(s.drop_first(), c);
    }
}

/// The first `c` of a text that has one is the first `c` of every text that
/// continues it.
pub proof fn lemma_position_append(a: Seq<char>, c: char, b: Seq<char>)
    ensures
        0 <= position(a, c) <= a.len(),
        position(a, c) < a.len() ==> position(a + b, c) == position(a, c),
        position(a, c) == a.len() && b.len() > 0 && b[0] == c ==> position(a + b, c) == a.len(),
    decreases a.len(),
{
    if a.len() > 0 && a[0] != c {
        lemma_position_append(a.drop_first(), c, b);
        assert((a + b).drop_first() == a.drop_first() + b);
    } else if a.len() == 0 {
        assert(a + b == b);
    }
}

/// What stands before, between and behind the copies of `c` in `s`.
pub open spec fn split(s: Seq<char>, c: char) -> Seq<Seq<char>>
    decreases s.len(),
{
    let at = position(s, c);
    if 0 <= at < s.len() {
        seq![s.take(at)] + split(s.skip(at + 1), c)
    } else {
        seq![s]
    }
}

/// Two texts joined by a `c` split into what the one and what the other splits
/// into.
pub proof fn lemma_split_joined(a: Seq<char>, c: char, b: Seq<char>)
    ensures
        split(a.push(c) + b, c) == split(a, c) + split(b, c),
    decreases a.len(),
{
    let s = a.push(c) + b;
    let tail = seq![c] + b;
    assert(s == a + tail);
    let at = position(a, c);
    lemma_position_append(a, c, tail);
    assert(s.take(at) == a.take(at));
    if at < a.len() {
        lemma_split_joined(a.skip(at + 1), c, b);
        assert(s.skip(at + 1) == a.skip(at + 1).push(c) + b);
    } else {
        assert(a.take(at) == a);
        assert(s.skip(at + 1) == b);
    }
}

/// The index of the first `c` in `s`; the length of `s` where there is none.
pub fn find(s: &[char], c: char) -> (r: usize)
    ensures
        r == position(s@, c),
        r <= s@.len(),
{
    let mut i: usize = 0;
    assert(s@.skip(0) == s@);
    while i < s.len() && s[i] != c
        invariant
            i <= s.len(),
            position(s@, c) == i + position(s@.skip(i as int), c),
        decreases s.len() - i,
    {
        assert(s@.skip(i as int).drop_first() == s@.skip(i + 1));
        i = i + 1;
    }
    i
}

/// Whether `s` begins with `prefix`.
pub fn starts_with(s: &[char], prefix: &[char]) -> (r: bool)
    ensures
        r == prefix@.is_prefix_of(s@),
{
    if s.len() < prefix.len() {
        return false;
    }
    for i in 0..prefix.len()
        invariant
            prefix.len() <= s.len(),
            forall|j: int| 0 <= j < i ==> prefix@[j] == s@[j],
    {
        if s[i] != prefix[i] {
            assert(s@.take(prefix@.len() as int)[i as int] != prefix@[i as int]);
            return false;
        }
    }
    assert(s@.take(prefix@.len() as int) == prefix@);
    true
}

/// `c`, an ASCII capital turned into its small letter.
pub open spec fn lower(c: char) -> char {
    if 'A' <= c <= 'Z' {
        (c as u32 + 32) as char
    } else {
        c
    }
}

/// `s` with its ASCII capitals turned into small letters.
pub open spec fn lowered(s: Seq<char>) -> Seq<char> {
    s.map_values(|c: char| lower(c))
}

/// Whether `s`, its ASCII capitals turned into small letters, is `word`.
pub fn lowers_to(s: &[char], word: &[char]) -> (r: bool)
    ensures
        r == (lowered(s@) == word@),
{
    if s.len() != word.len() {
        return false;
    }
    for i in 0..s.len()
        invariant
            s.len() == word.len(),
            forall|j: int| 0 <= j < i ==> lowered(s@)[j] == word@[j],
    {
        let c = s[i];
        let d = if 'A' <= c && c <= 'Z' {
            (c as u8 + 32) as char
        } else {
            c
        };
        assert(d == lowered(s@)[i as int]);
        if d != word[i] {
            return false;
        }
    }
    assert(lowered(s@) == word@);
    true
}

/// The character of a decimal digit.
pub open spec fn digit(d: nat) -> char
    recommends
        d < 10,
{
    ('0' as u32 + d) as char
}

/// `n` in decimal, without leading zeros.
pub open spec fn decimal(n: nat) -> Seq<char>
    decreases n,
{
    if n < 10 {
        seq![digit(n)]
    } else {
        decimal(n / 10).push(digit(n % 10))
    }
}

/// `n` in decimal, with leading zeros where it has fewer than `width` digits.
pub open spec fn padded(n: nat, width: nat) -> Seq<char> {
    if decimal(n).len() < width {
        Seq::new((width - decimal(n).len()) as nat, |i: int| '0') + decimal(n)
    } else {
        decimal(n)
    }
}

/// Append `n` in decimal.
pub fn push_decimal(out: &mut String, n: usize)
    ensures
        final(out)@ == old(out)@ + decimal(n as nat),
    decreases n,
{
    if n >= 10 {
        push_decimal(out, n / 10);
    }
    out.push((48u8 + (n % 10) as u8) as char);
}

/// How many digits `n` has in decimal.
fn count_digits(n: usize) -> (r: usize)
    ensures
        r == decimal(n as nat).len(),
        n < 10 ==> r == 1,
        n >= 10 ==> r <= n,
    decreases n,
{
    if n < 10 {
        1
    } else {
        1 + count_digits(n / 10)
    }
}

/// Append `n` in decimal, padded with zeros to at least `width` digits.
pub fn push_padded(out: &mut String, n: usize, width: usize)
    ensures
        final(out)@ == old(out)@ + padded(n as nat, width as nat),
{
    let digits = count_digits(n);
    let ghost start = out@;
    if digits < width {
        for i in digits..width
            invariant
                digits < width,
                out@ == start + Seq::new((i - digits) as nat, |j: int| '0'),
        {
            out.push('0');
        }
    }
    push_decimal(out, n);
}

/// A decimal is made of digits, of at least one.
pub proof fn lemma_decimal_digits(n: nat)
    ensures
        decimal(n).len() > 0,
        forall|i: int|
            0 <= i < decimal(n).len() ==> '0' <= #[trigger] decimal(n)[i] <= '9',
    decreases n,
{
    if n >= 10 {
        lemma_decimal_digits(n / 10);
        let short = decimal(n / 10);
        assert forall|i: int| 0 <= i < decimal(n).len() implies '0'
            <= #[trigger] decimal(n)[i] <= '9' by {
            if i < short.len() {
                assert(decimal(n)[i] == short[i]);
            }
        }
    }
}

/// Different numbers have different decimals.
pub proof fn lemma_decimals_differ(a: nat, b: nat)
    requires
        decimal(a) == decimal(b),
    ensures
        a == b,
    decreases a + b,
{
    lemma_decimal_digits(a / 10);
    lemma_decimal_digits(b / 10);
    assert(decimal(a).last() == digit(a % 10));
    assert(decimal(b).last() == digit(b % 10));
    if a < 10 {
        assert(decimal(a).len() == 1);
        assert(b < 10);
    } else {
        assert(decimal(a).len() > 1);
        assert(b >= 10);
        assert(decimal(a).drop_last() == decimal(a / 10));
        assert(decimal(b).drop_last() == decimal(b / 10));
        lemma_decimals_differ(a / 10, b / 10);
    }
}

} // verus!
