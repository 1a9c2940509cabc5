//! How the lines of a configuration are written: headers and settings, with white
//! space wherever a writer may put it.

use vstd::prelude::*;

use crate::config;
use crate::config::Entry;
use crate::text;
use crate::text_laws;

verus! {

/// Whether `key` spells `word`, of small letters, in any ASCII case.
pub open spec fn spells(key: Seq<char>, word: Seq<char>) -> bool {
    &&& key.len() == word.len()
    &&& forall|i: int|
        0 <= i < key.len() ==> (#[trigger] key[i]) == word[i] || 'A' <= key[i] <= 'Z' && key[i] as int
            + 32 == word[i] as int
}

proof fn lemma_lowered(key: Seq<char>, word: Seq<char>)
    requires
        forall|i: int| 0 <= i < word.len() ==> !('A' <= #[trigger] word[i] <= 'Z'),
    ensures
        spells(key, word) <==> text::lowered(key) == word,
{
    let low = text::lowered(key);
    if spells(key, word) {
        assert forall|i: int| 0 <= i < low.len() implies #[trigger] low[i] == word[i] by {
            assert(key[i] == word[i] || key[i] as int + 32 == word[i] as int);
            assert(!('A' <= word[i] <= 'Z'));
        }
        assert(low =~= word);
    }
    if low == word {
        assert(key.len() == word.len());
        assert forall|i: int| 0 <= i < key.len() implies (#[trigger] key[i]) == word[i] || 'A'
            <= key[i] <= 'Z' && key[i] as int + 32 == word[i] as int by {
            assert(low[i] == text::lower(key[i]));
            assert(low[i] == word[i]);
        }
    }
}

proof fn lemma_first_equals(a: Seq<char>, b: Seq<char>)
    requires
        !a.contains('='),
    ensures
        text::position(a.push('=') + b, '=') == a.len(),
    decreases a.len(),
{
    let s = a.push('=') + b;
    if a.len() > 0 {
        assert(a.contains(a[0]));
        let rest = a.drop_first();
        assert forall|i: int| 0 <= i < rest.len() implies #[trigger] rest[i] != '=' by {
            assert(a.contains(a[i + 1]));
        }
        lemma_first_equals(rest, b);
        assert(s.drop_first() == rest.push('=') + b);
    }
}

/// The written form of a setting: a key and a value around `=`, with white space
/// before, between and behind.
pub open spec fn setting_line(
    before: Seq<char>,
    key: Seq<char>,
    left: Seq<char>,
    right: Seq<char>,
    value: Seq<char>,
    behind: Seq<char>,
) -> Seq<char> {
    before + ((key + left).push('=') + (right + value)) + behind
}

/// A setting line gives its value to what its key names, in any ASCII case, and white
/// space around the key and the value does not matter. Another key gives nothing.
pub proof fn law_setting_lines(
    before: Seq<char>,
    key: Seq<char>,
    left: Seq<char>,
    right: Seq<char>,
    value: Seq<char>,
    behind: Seq<char>,
)
    requires
        text_laws::blank(before),
        text_laws::blank(left),
        text_laws::blank(right),
        text_laws::blank(behind),
        text_laws::tidy(key),
        text_laws::tidy(value),
        !key.contains('='),
        key[0] != '#',
        key[0] != ';',
        key[0] == '[' ==> value.last() != ']',
    ensures
        ({
            let e = config::entry(setting_line(before, key, left, right, value, behind));
            &&& spells(key, seq!['a', 'l', 'i', 'a', 's']) ==> e == Entry::Alias(value)
            &&& spells(key, seq!['r', 'e', 'm', 'o', 't', 'e', 'd', 'i', 'r']) ==> e
                == Entry::RemoteDir(value)
            &&& !spells(key, seq!['a', 'l', 'i', 'a', 's']) && !spells(
                key,
                seq!['r', 'e', 'm', 'o', 't', 'e', 'd', 'i', 'r'],
            ) ==> e == Entry::<Seq<char>>::Ignored
        }),
{
    let alias = seq!['a', 'l', 'i', 'a', 's'];
    let dir = seq!['r', 'e', 'm', 'o', 't', 'e', 'd', 'i', 'r'];
    reveal_strlit("alias");
    reveal_strlit("remotedir");
    assert(alias == "alias"@);
    assert(dir == "remotedir"@);
    let front = key + left;
    let t = front.push('=') + (right + value);
    assert(t[0] == key[0]);
    assert(t.last() == value.last());
    text_laws::law_trimming_undoes_padding(before, t, behind);
    assert forall|i: int| 0 <= i < front.len() implies #[trigger] front[i] != '=' by {
        if i < key.len() {
            assert(key.contains(key[i]));
        } else {
            assert(front[i] == left[i - key.len()]);
        }
    }
    lemma_first_equals(front, right + value);
    assert(t.take(front.len() as int) == front);
    assert(t.skip(front.len() as int + 1) == right + value);
    let none = Seq::<char>::empty();
    text_laws::law_trimming_undoes_padding(none, key, left);
    assert(none + key + left == front);
    text_laws::law_trimming_undoes_padding(right, value, none);
    assert(right + value + none == right + value);
    lemma_lowered(key, alias);
    lemma_lowered(key, dir);
}

/// A setting line without a value gives nothing, and so does a line that is neither a
/// setting nor a header.
pub proof fn law_lines_that_give_nothing(
    before: Seq<char>,
    key: Seq<char>,
    left: Seq<char>,
    behind: Seq<char>,
)
    requires
        text_laws::blank(before),
        text_laws::blank(left),
        text_laws::blank(behind),
        text_laws::tidy(key),
        !key.contains('='),
    ensures
        config::entry(before + (key + left).push('=') + behind) == Entry::<Seq<char>>::Ignored,
        !(key.len() >= 2 && key[0] == '[' && key.last() == ']') ==> config::entry(
            before + key + behind,
        ) == Entry::<Seq<char>>::Ignored,
{
    let none = Seq::<char>::empty();
    let front = key + left;
    let t = front.push('=');
    assert(t[0] == key[0]);
    text_laws::law_trimming_undoes_padding(before, t, behind);
    assert forall|i: int| 0 <= i < front.len() implies #[trigger] front[i] != '=' by {
        if i < key.len() {
            assert(key.contains(key[i]));
        } else {
            assert(front[i] == left[i - key.len()]);
        }
    }
    lemma_first_equals(front, none);
    assert(t + none == t);
    assert(t.skip(t.len() as int) == none);
    text_laws::law_trimming_undoes_padding(none, none, none);
    assert(none + none + none == none);
    text_laws::law_trimming_undoes_padding(before, key, behind);
    text::lemma_position_bounds(key, '=');
    if text::position(key, '=') < key.len() {
        assert(key.contains(key[text::position(key, '=')]));
    }
}

/// A header `[Server:<name>]` begins the section of that server, with white space
/// wherever it may stand. One without a name, and one that begins otherwise, begins a
/// section that is no server.
pub proof fn law_section_headers(
    before: Seq<char>,
    a: Seq<char>,
    b: Seq<char>,
    name: Seq<char>,
    c: Seq<char>,
    other: Seq<char>,
    behind: Seq<char>,
)
    requires
        text_laws::blank(before),
        text_laws::blank(a),
        text_laws::blank(b),
        text_laws::blank(c),
        text_laws::blank(behind),
        text_laws::tidy(name),
        text_laws::tidy(other) || other.len() == 0,
        !(other.len() >= 7 && other.take(7) == seq!['S', 'e', 'r', 'v', 'e', 'r', ':']),
    ensures
        ({
            let tag = seq!['S', 'e', 'r', 'v', 'e', 'r', ':'];
            &&& config::entry(
                before + (seq!['['] + (a + (tag + b + name) + c)).push(']') + behind,
            ) == Entry::Section(name)
            &&& config::entry(before + (seq!['['] + (a + tag + b)).push(']') + behind) == Entry::<
                Seq<char>,
            >::OtherSection
            &&& config::entry(before + (seq!['['] + (a + other + c)).push(']') + behind) == Entry::<
                Seq<char>,
            >::OtherSection
        }),
{
    let tag = seq!['S', 'e', 'r', 'v', 'e', 'r', ':'];
    let none = Seq::<char>::empty();
    reveal_strlit("Server:");
    assert(tag == "Server:"@);
    let full = tag + b + name;
    lemma_header(before, a + full + c, behind);
    text_laws::law_trimming_undoes_padding(a, full, c);
    assert(full.take(7) == tag);
    assert(full.skip(7) == b + name);
    text_laws::law_trimming_undoes_padding(b, name, none);
    assert(b + name + none == b + name);
    lemma_header(before, a + tag + b, behind);
    text_laws::law_trimming_undoes_padding(a, tag, b);
    assert(tag.take(7) == tag);
    assert(tag.skip(7) == none);
    text_laws::law_trimming_undoes_padding(none, none, none);
    assert(none + none + none == none);
    lemma_header(before, a + other + c, behind);
    text_laws::law_trimming_undoes_padding(a, other, c);
}

/// What stands between brackets tells the section.
proof fn lemma_header(before: Seq<char>, inner: Seq<char>, behind: Seq<char>)
    requires
        text_laws::blank(before),
        text_laws::blank(behind),
    ensures
        config::entry(before + (seq!['['] + inner).push(']') + behind) == config::section_entry(
            inner,
        ),
{
    let t = (seq!['['] + inner).push(']');
    text_laws::law_trimming_undoes_padding(before, t, behind);
    assert(t.subrange(1, t.len() - 1) == inner);
}

} // verus!
