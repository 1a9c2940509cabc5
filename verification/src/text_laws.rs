//! What the text helpers promise: numbers that read back, and what trimming takes.

use vstd::prelude::*;

use crate::text;

verus! {

/// The number that decimal digits spell.
pub open spec fn number(digits: Seq<char>) -> int
    decreases digits.len(),
{
    if digits.len() == 0 {
        0
    } else {
        number(digits.drop_last()) * 10 + (digits.last() as int - '0' as int)
    }
}

/// Whether a text is made of decimal digits alone.
pub open spec fn all_digits(s: Seq<char>) -> bool {
    forall|i: int| 0 <= i < s.len() ==> '0' <= #[trigger] s[i] <= '9'
}

/// A decimal reads back as its number, and has no zero before it.
pub proof fn law_decimal_reads_back(n: nat)
    ensures
        number(text::decimal(n)) == n,
        all_digits(text::decimal(n)),
        text::decimal(n).len() > 0,
        text::decimal(n).len() > 1 ==> text::decimal(n)[0] != '0',
    decreases n,
{
    text::lemma_decimal_digits(n);
    let d = text::decimal(n);
    if n < 10 {
        reveal_with_fuel(number, 2);
        assert(d.drop_last() == Seq::<char>::empty());
    } else {
        law_decimal_reads_back(n / 10);
        let short = text::decimal(n / 10);
        assert(d.drop_last() == short);
        assert(d[0] == short[0]);
        if n / 10 < 10 {
            assert(short == seq![text::digit(n / 10)]);
            assert(n / 10 > 0);
        } else {
            text::lemma_decimal_digits(n / 10 / 10);
            assert(short.len() > 1);
        }
    }
}

proof fn lemma_zeros_before(k: nat, s: Seq<char>)
    ensures
        number(Seq::new(k, |i: int| '0') + s) == number(s),
    decreases s.len(), k,
{
    let zeros = Seq::new(k, |i: int| '0');
    if s.len() > 0 {
        lemma_zeros_before(k, s.drop_last());
        assert((zeros + s).drop_last() == zeros + s.drop_last());
    } else if k > 0 {
        let fewer = Seq::new((k - 1) as nat, |i: int| '0');
        lemma_zeros_before((k - 1) as nat, s);
        assert(zeros + s == zeros);
        assert(fewer + s == fewer);
        assert(zeros.drop_last() == fewer);
    } else {
        assert(zeros + s == s);
    }
}

/// A padded number reads back as the number; it has at least the width asked for, and
/// no zero before it beyond that.
pub proof fn law_padded_reads_back(n: nat, width: nat)
    ensures
        number(text::padded(n, width)) == n,
        all_digits(text::padded(n, width)),
        text::padded(n, width).len() >= width,
        text::padded(n, width).len() > width && text::padded(n, width).len() > 1 ==> text::padded(
            n,
            width,
        )[0] != '0',
{
    law_decimal_reads_back(n);
    let d = text::decimal(n);
    let p = text::padded(n, width);
    if d.len() < width {
        lemma_zeros_before((width - d.len()) as nat, d);
        assert forall|i: int| 0 <= i < p.len() implies '0' <= #[trigger] p[i] <= '9' by {
            let k = width - d.len();
            if i >= k {
                assert(p[i] == d[i - k]);
            }
        }
    }
}

/// Whether a text is white space alone.
pub open spec fn blank(s: Seq<char>) -> bool {
    forall|i: int| 0 <= i < s.len() ==> text::white_space(#[trigger] s[i])
}

/// Whether `t` stands in `s` at `at`, with white space alone around it.
pub open spec fn stands_padded(s: Seq<char>, t: Seq<char>, at: int) -> bool {
    &&& 0 <= at
    &&& at + t.len() <= s.len()
    &&& t == s.subrange(at, at + t.len())
    &&& blank(s.take(at))
    &&& blank(s.skip(at + t.len()))
}

/// Trimming takes white space from the ends, all of it, and nothing else.
pub proof fn law_trimming_takes_white_space(s: Seq<char>)
    ensures
        exists|at: int| stands_padded(s, text::trimmed(s), at),
        text::trimmed(s).len() > 0 ==> !text::white_space(text::trimmed(s)[0])
            && !text::white_space(text::trimmed(s).last()),
    decreases s.len(),
{
    let t = text::trimmed(s);
    if s.len() == 0 {
        assert(t == s.subrange(0, 0));
        assert(stands_padded(s, t, 0));
    } else if text::white_space(s[0]) {
        let rest = s.drop_first();
        law_trimming_takes_white_space(rest);
        assert(t == text::trimmed(rest));
        let at = choose|at: int| stands_padded(rest, t, at);
        assert(s.subrange(at + 1, at + 1 + t.len()) == rest.subrange(at, at + t.len()));
        assert(s.skip(at + 1 + t.len()) == rest.skip(at + t.len()));
        let front = s.take(at + 1);
        assert forall|i: int| 0 <= i < front.len() implies text::white_space(
            #[trigger] front[i],
        ) by {
            if i > 0 {
                assert(front[i] == rest.take(at)[i - 1]);
            }
        }
        assert(stands_padded(s, t, at + 1));
    } else {
        lemma_trim_end_only(s);
    }
}

/// A text that begins with no white space loses some at its end alone.
proof fn lemma_trim_end_only(s: Seq<char>)
    requires
        s.len() > 0,
        !text::white_space(s[0]),
    ensures
        stands_padded(s, text::trimmed(s), 0),
        text::trimmed(s).len() > 0,
        text::trimmed(s)[0] == s[0],
        !text::white_space(text::trimmed(s).last()),
    decreases s.len(),
{
    let t = text::trimmed(s);
    if text::white_space(s.last()) {
        let short = s.drop_last();
        assert(short[0] == s[0]);
        lemma_trim_end_only(short);
        assert(t == text::trimmed(short));
        assert(s.subrange(0, t.len() as int) == short.subrange(0, t.len() as int));
        let back = s.skip(t.len() as int);
        assert forall|i: int| 0 <= i < back.len() implies text::white_space(#[trigger] back[i]) by {
            if i < back.len() - 1 {
                assert(back[i] == short.skip(t.len() as int)[i]);
            }
        }
        assert(s.take(0) == Seq::<char>::empty());
    } else {
        assert(t == s);
        assert(s.take(0) == Seq::<char>::empty());
        assert(s.skip(s.len() as int) == Seq::<char>::empty());
        assert(s.subrange(0, s.len() as int) == s);
    }
}

/// Not empty, and no white space at either end.
pub open spec fn tidy(s: Seq<char>) -> bool {
    &&& s.len() > 0
    &&& !text::white_space(s[0])
    &&& !text::white_space(s.last())
}

/// A tidy text between white space is what trimming leaves.
pub proof fn law_trimming_undoes_padding(a: Seq<char>, s: Seq<char>, b: Seq<char>)
    requires
        blank(a),
        blank(b),
        tidy(s) || s.len() == 0,
    ensures
        text::trimmed(a + s + b) == s,
{
    let all = a + s + b;
    let t = text::trimmed(all);
    law_trimming_takes_white_space(all);
    let at = choose|at: int| stands_padded(all, t, at);
    if t.len() > 0 {
        assert(t[0] == all[at]);
        assert(t.last() == all[at + t.len() - 1]);
        if at < a.len() {
            assert(all[at] == a[at]);
        }
        if at + t.len() > a.len() + s.len() {
            assert(all[at + t.len() - 1] == b[at + t.len() - 1 - a.len() - s.len()]);
        }
    }
    if s.len() > 0 {
        assert(all[a.len() as int] == s[0]);
        assert(all[a.len() + s.len() - 1] == s.last());
        if at > a.len() {
            assert(all.take(at)[a.len() as int] == s[0]);
        }
        if at + t.len() < a.len() + s.len() {
            let k = a.len() + s.len() - 1;
            assert(all.skip(at + t.len())[k - at - t.len()] == s.last());
        }
        assert(t =~= s);
    } else if t.len() > 0 {
        assert(all == a + b);
    }
}

} // verus!
