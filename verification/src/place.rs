//! The parts of a path, however it is spelled.

use vstd::prelude::*;
use vstd::slice::slice_subrange;

use crate::text;

verus! {

/// Whether a word of a path leads anywhere: nothing and `.` do not.
pub open spec fn leads(word: Seq<char>) -> bool {
    word.len() > 0 && word != seq!['.']
}

/// The words that lead anywhere, in their order.
pub open spec fn leading(words: Seq<Seq<char>>) -> Seq<Seq<char>>
    decreases words.len(),
{
    if words.len() == 0 {
        seq![]
    } else if leads(words.last()) {
        leading(words.drop_last()).push(words.last())
    } else {
        leading(words.drop_last())
    }
}

/// The parts of a path: what stands between its slashes, but for what leads
/// nowhere. The root has none. `..` is a part like any other: where it leads, the
/// spelling does not tell, since the part before it may be a link.
pub open spec fn parts(path: Seq<char>) -> Seq<Seq<char>> {
    leading(text::split(path, '/'))
}

/// Follow a word of a path.
fn follow(at: &mut Vec<String>, word: &[char])
    ensures
        text::texts(final(at)@) == if leads(word@) {
            text::texts(old(at)@).push(word@)
        } else {
            text::texts(old(at)@)
        },
{
    if word.len() == 0 {
        return;
    }
    if word.len() == 1 && word[0] == '.' {
        assert(word@ == seq!['.']);
        return;
    }
    let ghost before = at@;
    at.push(text::string_of(word));
    assert(text::texts(at@) == text::texts(before).push(word@));
}

/// The parts of a path.
pub fn parts_of(path: &str) -> (r: Vec<String>)
    ensures
        text::texts(r@) == parts(path@),
{
    let chars = text::chars_of(path);
    let mut rest: &[char] = chars.as_slice();
    let mut out: Vec<String> = Vec::new();
    let mut more = true;
    let ghost mut seen: Seq<Seq<char>> = seq![];
    let ghost mut left = text::split(chars@, '/');
    assert(seen + left == left);
    assert(text::texts(out@) == Seq::<Seq<char>>::empty());
    while more
        invariant
            more ==> left == text::split(rest@, '/'),
            !more ==> left.len() == 0,
            seen + left == text::split(path@, '/'),
            text::texts(out@) == leading(seen),
        decreases left.len(),
    {
        let slash = text::find(rest, '/');
        let word = slice_subrange(rest, 0, slash);
        assert(word@ == left[0]);
        follow(&mut out, word);
        if slash < rest.len() {
            rest = slice_subrange(rest, slash + 1, rest.len());
        } else {
            more = false;
        }
        proof {
            let next = seen.push(word@);
            assert(next.drop_last() == seen);
            assert(next + left.drop_first() == seen + left);
            seen = next;
            left = left.drop_first();
        }
    }
    assert(seen == text::split(path@, '/'));
    out
}

/// Whether two lists hold the same strings.
fn same_texts(a: &Vec<String>, b: &Vec<String>) -> (r: bool)
    ensures
        r == (text::texts(a@) == text::texts(b@)),
{
    assert(text::texts(a@).len() == a.len());
    assert(text::texts(b@).len() == b.len());
    if a.len() != b.len() {
        return false;
    }
    for i in 0..a.len()
        invariant
            a.len() == b.len(),
            forall|j: int| 0 <= j < i ==> text::texts(a@)[j] == text::texts(b@)[j],
    {
        if a[i] != b[i] {
            assert(text::texts(a@)[i as int] == a@[i as int]@);
            assert(text::texts(b@)[i as int] == b@[i as int]@);
            return false;
        }
        assert(text::texts(a@)[i as int] == text::texts(b@)[i as int]);
    }
    assert(text::texts(a@) == text::texts(b@));
    true
}

/// Whether two paths have the same parts.
pub fn same_place(a: &str, b: &str) -> (r: bool)
    ensures
        r == (parts(a@) == parts(b@)),
{
    same_texts(&parts_of(a), &parts_of(b))
}

proof fn lemma_leading_joined(a: Seq<Seq<char>>, b: Seq<Seq<char>>)
    ensures
        leading(a + b) == leading(a) + leading(b),
    decreases b.len(),
{
    if b.len() == 0 {
        assert(a + b == a);
    } else {
        lemma_leading_joined(a, b.drop_last());
        assert((a + b).drop_last() == a + b.drop_last());
    }
}

/// A path put under another one adds its parts.
pub proof fn law_parts_of_joined_paths(a: Seq<char>, b: Seq<char>)
    ensures
        parts(a.push('/') + b) == parts(a) + parts(b),
{
    text::lemma_split_joined(a, '/', b);
    lemma_leading_joined(text::split(a, '/'), text::split(b, '/'));
}

proof fn lemma_no_parts()
    ensures
        parts(Seq::empty()) == Seq::<Seq<char>>::empty(),
        parts(seq!['.']) == Seq::<Seq<char>>::empty(),
{
    reveal_with_fuel(leading, 2);
    let empty = Seq::<char>::empty();
    let dot = seq!['.'];
    assert(text::split(empty, '/') == seq![empty]);
    text::lemma_position_bounds(dot, '/');
    assert(text::split(dot, '/') == seq![dot]);
    assert(seq![empty].drop_last() == Seq::<Seq<char>>::empty());
    assert(seq![dot].drop_last() == Seq::<Seq<char>>::empty());
}

/// A slash or a `.` at the end of a path, or a `.` or a second slash within it,
/// changes none of its parts.
pub proof fn law_spelling_does_not_matter(path: Seq<char>, rest: Seq<char>)
    ensures
        parts(path.push('/')) == parts(path),
        parts(path.push('/') + seq!['.']) == parts(path),
        parts(path.push('/').push('/') + rest) == parts(path.push('/') + rest),
        parts((path.push('/') + seq!['.']).push('/') + rest) == parts(path.push('/') + rest),
{
    lemma_no_parts();
    let empty = Seq::<char>::empty();
    let dot = seq!['.'];
    law_parts_of_joined_paths(path, empty);
    assert(path.push('/') + empty == path.push('/'));
    law_parts_of_joined_paths(path, dot);
    law_parts_of_joined_paths(path, rest);
    law_parts_of_joined_paths(path.push('/'), rest);
    law_parts_of_joined_paths(path.push('/') + dot, rest);
}

/// The slashes at the end of a path change none of its parts.
pub proof fn lemma_slashes_at_end(path: Seq<char>)
    ensures
        parts(text::without_trailing(path, '/')) == parts(path),
    decreases path.len(),
{
    if path.len() > 0 && path.last() == '/' {
        let short = path.drop_last();
        lemma_slashes_at_end(short);
        law_spelling_does_not_matter(short, Seq::empty());
        assert(short.push('/') == path);
    }
}

/// A word without a slash is a part by itself, unless it is empty or `.`.
pub proof fn law_parts_of_a_word(word: Seq<char>)
    requires
        !word.contains('/'),
    ensures
        word.len() > 0 && word != seq!['.'] ==> parts(word) == seq![word],
        word.len() == 0 || word == seq!['.'] ==> parts(word) == Seq::<Seq<char>>::empty(),
{
    reveal_with_fuel(leading, 2);
    text::lemma_position_bounds(word, '/');
    if text::position(word, '/') < word.len() {
        assert(word.contains(word[text::position(word, '/')]));
    }
    assert(text::split(word, '/') == seq![word]);
    assert(seq![word].drop_last() == Seq::<Seq<char>>::empty());
}

} // verus!
