//! Quoting for the remote shell, and remote-safe file names.

use vstd::prelude::*;

use crate::text;

verus! {

/// `s` with a backslash put before each double quote.
pub open spec fn escape_quotes(s: Seq<char>) -> Seq<char>
    decreases s.len(),
{
    if s.len() == 0 {
        seq![]
    } else if s.last() == '"' {
        escape_quotes(s.drop_last()).push('\\').push('"')
    } else {
        escape_quotes(s.drop_last()).push(s.last())
    }
}

/// `s` between double quotes, its own double quotes escaped.
pub open spec fn quoted(s: Seq<char>) -> Seq<char> {
    seq!['"'] + escape_quotes(s) + seq!['"']
}

/// Wrap in double quotes, escaping embedded quotes: for the remote portion of
/// ssh commands, which the remote shell parses.
pub fn shell_quote(s: &str) -> (r: String)
    ensures
        r@ == quoted(s@),
{
    let mut out = String::new();
    out.push('"');
    for c in it: s.chars()
        invariant
            out@ == seq!['"'] + escape_quotes(it.seq().take(it.index() as int)),
    {
        proof {
            let upto = it.seq().take(it.index() + 1);
            assert(upto.drop_last() == it.seq().take(it.index() as int));
        }
        if c == '"' {
            out.push('\\');
        }
        out.push(c);
    }
    out.push('"');
    assert(s@.take(s@.len() as int) == s@);
    out
}

/// What becomes of white space in a file name: each run of it is one `_`.
pub open spec fn collapse_space(s: Seq<char>) -> Seq<char>
    decreases s.len(),
{
    if s.len() == 0 {
        seq![]
    } else if !text::white_space(s.last()) {
        collapse_space(s.drop_last()).push(s.last())
    } else if s.len() >= 2 && text::white_space(s[s.len() - 2]) {
        collapse_space(s.drop_last())
    } else {
        collapse_space(s.drop_last()).push('_')
    }
}

/// The characters that a remote file name may hold.
pub open spec fn filename_char(c: char) -> bool {
    text::alphanumeric(c) || c == '.' || c == '_' || c == '-'
}

/// `s` without the characters that a remote file name may not hold.
pub open spec fn filename_chars(s: Seq<char>) -> Seq<char> {
    s.filter(|c: char| filename_char(c))
}

/// The remote form of a file name.
pub open spec fn sanitized(name: Seq<char>) -> Seq<char> {
    filename_chars(collapse_space(name))
}

/// Collapse white space to `_` and drop anything that is not alphanumeric,
/// `.`, `_`, or `-`.
pub fn sanitize_filename(name: &str) -> (r: String)
    ensures
        r@ == sanitized(name@),
{
    let mut out = String::new();
    let mut prev_space = false;
    for c in it: name.chars()
        invariant
            out@ == sanitized(it.seq().take(it.index() as int)),
            prev_space == (it.index() > 0 && text::white_space(it.seq()[it.index() - 1])),
    {
        proof {
            let upto = it.seq().take(it.index() + 1);
            let before = it.seq().take(it.index() as int);
            assert(upto.drop_last() == before);
            lemma_filter_push(collapse_space(before), c);
            lemma_filter_push(collapse_space(before), '_');
        }
        if c.is_whitespace() {
            if !prev_space {
                out.push('_');
            }
            prev_space = true;
        } else {
            if c.is_alphanumeric() || c == '.' || c == '_' || c == '-' {
                out.push(c);
            }
            prev_space = false;
        }
    }
    assert(name@.take(name@.len() as int) == name@);
    out
}

proof fn lemma_filter_push(s: Seq<char>, c: char)
    ensures
        filename_chars(s.push(c)) == if filename_char(c) {
            filename_chars(s).push(c)
        } else {
            filename_chars(s)
        },
{
    reveal(Seq::filter);
    assert(s.push(c).drop_last() == s);
}

proof fn lemma_collapsed_has_no_space(s: Seq<char>)
    ensures
        forall|i: int|
            0 <= i < collapse_space(s).len() ==> !text::white_space(
                #[trigger] collapse_space(s)[i],
            ),
    decreases s.len(),
{
    if s.len() > 0 {
        lemma_collapsed_has_no_space(s.drop_last());
        let short = collapse_space(s.drop_last());
        assert forall|i: int| 0 <= i < collapse_space(s).len() implies !text::white_space(
            #[trigger] collapse_space(s)[i],
        ) by {
            if i < short.len() {
                assert(collapse_space(s)[i] == short[i]);
            }
        }
    }
}

proof fn lemma_filter_keeps(s: Seq<char>)
    ensures
        forall|i: int|
            #![trigger filename_chars(s)[i]]
            0 <= i < filename_chars(s).len() ==> filename_char(filename_chars(s)[i])
                && s.contains(filename_chars(s)[i]),
    decreases s.len(),
{
    reveal(Seq::filter);
    if s.len() > 0 {
        let short = s.drop_last();
        lemma_filter_keeps(short);
        assert(s == short.push(s.last()));
        lemma_filter_push(short, s.last());
        let kept = filename_chars(s);
        assert forall|i: int| 0 <= i < kept.len() implies filename_char(#[trigger] kept[i])
            && s.contains(kept[i]) by {
            if i < filename_chars(short).len() {
                let c = filename_chars(short)[i];
                assert(short.contains(c));
                let k = choose|k: int| 0 <= k < short.len() && short[k] == c;
                assert(s[k] == c);
            } else {
                assert(s[s.len() - 1] == kept[i]);
            }
        }
    }
}

/// A remote file name holds letters, digits, `.`, `_` and `-` alone; so no white
/// space, no quote and no slash.
pub proof fn law_sanitized_is_safe(name: Seq<char>)
    ensures
        forall|i: int|
            #![trigger sanitized(name)[i]]
            0 <= i < sanitized(name).len() ==> {
                let c = sanitized(name)[i];
                &&& filename_char(c)
                &&& !text::white_space(c)
                &&& c != '\'' && c != '"' && c != '\\' && c != '/' && c != '$' && c != '`'
            },
{
    lemma_collapsed_has_no_space(name);
    lemma_filter_keeps(collapse_space(name));
    assert forall|i: int| 0 <= i < sanitized(name).len() implies filename_char(
        #[trigger] sanitized(name)[i],
    ) && !text::white_space(sanitized(name)[i]) by {
        assert(collapse_space(name).contains(sanitized(name)[i]));
    }
}

/// A name made of such characters, without white space, is its own remote name.
proof fn lemma_safe_name_kept(s: Seq<char>)
    requires
        forall|i: int|
            0 <= i < s.len() ==> filename_char(#[trigger] s[i]) && !text::white_space(s[i]),
    ensures
        sanitized(s) == s,
    decreases s.len(),
{
    reveal(Seq::filter);
    if s.len() > 0 {
        let short = s.drop_last();
        assert forall|i: int| 0 <= i < short.len() implies filename_char(#[trigger] short[i])
            && !text::white_space(short[i]) by {
            assert(short[i] == s[i]);
        }
        lemma_safe_name_kept(short);
        lemma_filter_push(collapse_space(short), s.last());
        assert(filename_char(s[s.len() - 1]) && !text::white_space(s[s.len() - 1]));
        assert(s == short.push(s.last()));
    }
}

/// The remote form of a remote file name is that name itself.
pub proof fn law_sanitize_once(name: Seq<char>)
    ensures
        sanitized(sanitized(name)) == sanitized(name),
{
    law_sanitized_is_safe(name);
    lemma_safe_name_kept(sanitized(name));
}

/// A name is its own remote form exactly where a remote file name may hold each of
/// its characters.
pub proof fn law_sanitize_keeps_remote_names(name: Seq<char>)
    ensures
        sanitized(name) == name <==> forall|i: int|
            0 <= i < name.len() ==> filename_char(#[trigger] name[i]),
{
    if sanitized(name) == name {
        law_sanitized_is_safe(name);
        assert forall|i: int| 0 <= i < name.len() implies filename_char(#[trigger] name[i]) by {
            assert(sanitized(name)[i] == name[i]);
        }
    }
    if forall|i: int| 0 <= i < name.len() ==> filename_char(#[trigger] name[i]) {
        lemma_safe_name_kept(name);
    }
}

/// What a POSIX shell makes of the rest of a word, read from inside double
/// quotes: the characters, up to the quote that ends the word. `None` where that
/// quote is missing or not the last character, and where the shell would expand
/// something.
pub open spec fn unquoted(s: Seq<char>) -> Option<Seq<char>>
    decreases s.len(),
{
    if s.len() == 0 || s[0] == '$' || s[0] == '`' {
        None
    } else if s[0] == '"' {
        if s.len() == 1 {
            Some(seq![])
        } else {
            None
        }
    } else if s[0] == '\\' && s.len() >= 2 && (s[1] == '"' || s[1] == '\\' || s[1] == '$' || s[1]
        == '`') {
        match unquoted(s.skip(2)) {
            Some(rest) => Some(seq![s[1]] + rest),
            None => None,
        }
    } else if s[0] == '\\' && s.len() >= 2 && s[1] == '\n' {
        unquoted(s.skip(2))
    } else {
        match unquoted(s.skip(1)) {
            Some(rest) => Some(seq![s[0]] + rest),
            None => None,
        }
    }
}

/// Nothing in `s` that keeps its meaning between double quotes, but for the
/// double quote: no `$`, no backquote, and no backslash that escapes.
pub open spec fn literal_in_quotes(s: Seq<char>) -> bool {
    forall|i: int|
        0 <= i < s.len() ==> {
            &&& #[trigger] s[i] != '$'
            &&& s[i] != '`'
            &&& s[i] == '\\' ==> i + 1 < s.len() && s[i + 1] != '"' && s[i + 1] != '\\' && s[i
                + 1] != '\n'
        }
}

/// What the first character adds to the escaped text.
pub proof fn lemma_escape_first(s: Seq<char>)
    requires
        s.len() > 0,
    ensures
        escape_quotes(s) == (if s[0] == '"' {
            seq!['\\', '"']
        } else {
            seq![s[0]]
        }) + escape_quotes(s.drop_first()),
    decreases s.len(),
{
    if s.len() > 1 {
        lemma_escape_first(s.drop_last());
        assert(s.drop_last().drop_first() == s.drop_first().drop_last());
    } else {
        assert(s.drop_last() == Seq::<char>::empty());
        assert(s.drop_first() == Seq::<char>::empty());
    }
}

proof fn lemma_unquote_escaped(s: Seq<char>)
    requires
        literal_in_quotes(s),
    ensures
        unquoted(escape_quotes(s) + seq!['"']) == Some(s),
    decreases s.len(),
{
    let q = escape_quotes(s) + seq!['"'];
    if s.len() > 0 {
        let rest = s.drop_first();
        assert forall|i: int| 0 <= i < rest.len() implies {
            &&& #[trigger] rest[i] != '$'
            &&& rest[i] != '`'
            &&& rest[i] == '\\' ==> i + 1 < rest.len() && rest[i + 1] != '"' && rest[i + 1]
                != '\\' && rest[i + 1] != '\n'
        } by {
            assert(rest[i] == s[i + 1]);
        }
        lemma_escape_first(s);
        lemma_unquote_escaped(rest);
        let rest_q = escape_quotes(rest) + seq!['"'];
        assert(s[0] != '$');
        if s[0] == '"' {
            assert(q.skip(2) == rest_q);
        } else {
            assert(q.skip(1) == rest_q);
            if s[0] == '\\' {
                assert(rest[0] != '$');
                lemma_escape_first(rest);
                assert(q[1] == rest_q[0]);
                assert(rest_q[0] == rest[0]);
            }
        }
        assert(seq![s[0]] + rest == s);
    }
}

/// The remote shell takes a quoted text back to the text itself, where the text
/// holds nothing that the shell expands or unescapes between double quotes.
pub proof fn law_shell_quote_round_trip(s: Seq<char>)
    requires
        literal_in_quotes(s),
    ensures
        quoted(s)[0] == '"',
        unquoted(quoted(s).skip(1)) == Some(s),
{
    lemma_unquote_escaped(s);
    assert(quoted(s).skip(1) == escape_quotes(s) + seq!['"']);
}

/// Which characters a remote file name may hold: of ASCII the letters, the digits, `.`,
/// `_` and `-`, and beyond ASCII all that Unicode counts as letters or numbers.
pub proof fn law_filename_chars(c: char)
    ensures
        (c as u32) < 0x80 ==> (filename_char(c) <==> {
            ||| 'a' <= c <= 'z'
            ||| 'A' <= c <= 'Z'
            ||| '0' <= c <= '9'
            ||| c == '.'
            ||| c == '_'
            ||| c == '-'
        }),
        (c as u32) >= 0x80 ==> (filename_char(c) <==> text::unicode_alphanumeric(c)
            && !text::white_space(c)),
{
}

/// What one more character adds to the remote form of a name: itself, where a
/// remote file name may hold it; one `_`, where it begins a run of white space; and
/// else nothing.
pub proof fn law_sanitize_one_more(name: Seq<char>, c: char)
    ensures
        sanitized(Seq::empty()) == Seq::<char>::empty(),
        filename_char(c) ==> sanitized(name.push(c)) == sanitized(name).push(c),
        text::white_space(c) && (name.len() == 0 || !text::white_space(name.last()))
            ==> sanitized(name.push(c)) == sanitized(name).push('_'),
        text::white_space(c) && name.len() > 0 && text::white_space(name.last()) ==> sanitized(
            name.push(c),
        ) == sanitized(name),
        !text::white_space(c) && !filename_char(c) ==> sanitized(name.push(c)) == sanitized(name),
{
    reveal(Seq::filter);
    assert(name.push(c).drop_last() == name);
    lemma_filter_push(collapse_space(name), c);
    lemma_filter_push(collapse_space(name), '_');
}

/// A character that the remote form of a name takes over as it is, and puts in for
/// no other.
pub open spec fn taken_over(c: char) -> bool {
    filename_char(c) && c != '_'
}

/// Sanitizing loses no character that it may keep, and makes up none: underscores
/// aside, the remote form holds the very filename characters of the name, in their
/// order and number.
pub proof fn law_sanitize_loses_no_character(name: Seq<char>)
    ensures
        sanitized(name).filter(|c: char| taken_over(c)) == name.filter(|c: char| taken_over(c)),
    decreases name.len(),
{
    let f = |c: char| taken_over(c);
    reveal(Seq::filter);
    if name.len() == 0 {
        law_sanitize_one_more(name, '_');
        assert(name == Seq::<char>::empty());
    } else {
        let short = name.drop_last();
        let c = name.last();
        assert(short.push(c) == name);
        law_sanitize_loses_no_character(short);
        law_sanitize_one_more(short, c);
        assert(sanitized(short).push(c).drop_last() == sanitized(short));
        assert(sanitized(short).push('_').drop_last() == sanitized(short));
    }
}

/// Quoting goes character by character: a double quote gets a backslash before it,
/// any other character stands as it is, and one pair of quotes goes around all.
pub proof fn law_quoting_goes_by_characters(a: Seq<char>, c: char, b: Seq<char>)
    ensures
        quoted(Seq::empty()) == seq!['"', '"'],
        c != '"' ==> quoted(seq![c]) == seq!['"', c, '"'],
        c == '"' ==> quoted(seq![c]) == seq!['"', '\\', '"', '"'],
        quoted(a + b) == quoted(a).drop_last() + quoted(b).drop_first(),
{
    reveal_with_fuel(escape_quotes, 2);
    assert(seq![c].drop_last() == Seq::<char>::empty());
    lemma_escape_joined(a, b);
}

proof fn lemma_escape_joined(a: Seq<char>, b: Seq<char>)
    ensures
        escape_quotes(a + b) == escape_quotes(a) + escape_quotes(b),
    decreases b.len(),
{
    if b.len() == 0 {
        assert(a + b == a);
    } else {
        lemma_escape_joined(a, b.drop_last());
        assert((a + b).drop_last() == a + b.drop_last());
    }
}

} // verus!
