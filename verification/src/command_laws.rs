//! What a remote shell makes of the commands: the words that it reads from them, and
//! which files the clearing of a directory removes.

use vstd::prelude::*;

use crate::flush;
use crate::text;
use crate::upload;
use crate::util;

verus! {

/// A token of a shell command.
#[verifier::ext_equal]
pub enum Token {
    Word(Seq<char>),
    And,
    Or,
    Open,
    Close,
}

/// A character that stands for itself outside quotes.
pub open spec fn plain(c: char) -> bool {
    &&& !text::white_space(c)
    &&& c != '"' && c != '\'' && c != '\\' && c != '$' && c != '`'
    &&& c != '&' && c != '|' && c != '(' && c != ')' && c != ';' && c != '<' && c != '>'
    &&& c != '*' && c != '?' && c != '[' && c != '#' && c != '~'
}

/// The token that a word makes where it ends.
pub open spec fn ended(word: Option<Seq<char>>) -> Seq<Token> {
    match word {
        Some(w) => seq![Token::Word(w)],
        None => seq![],
    }
}

/// A word so far, with more behind it.
pub open spec fn longer(word: Option<Seq<char>>, more: Seq<char>) -> Option<Seq<char>> {
    match word {
        Some(w) => Some(w + more),
        None => Some(more),
    }
}

/// Tokens before others.
pub open spec fn before(front: Seq<Token>, rest: Option<Seq<Token>>) -> Option<Seq<Token>> {
    match rest {
        Some(r) => Some(front + r),
        None => None,
    }
}

/// The variable that a shell expands to the home, at the end of a quoted part.
pub open spec fn home_variable() -> Seq<char> {
    seq!['$', 'H', 'O', 'M', 'E', '"']
}

/// The tokens that a POSIX shell reads from `s` from index `i` on, given the word that
/// it is reading and whether it is between double quotes. `home` is what `$HOME`
/// stands for. `None` where the shell would do anything else.
pub open spec fn tokens(
    s: Seq<char>,
    i: int,
    home: Seq<char>,
    word: Option<Seq<char>>,
    quoted: bool,
) -> Option<Seq<Token>>
    decreases s.len() - i,
{
    if i < 0 {
        None
    } else if i >= s.len() {
        if quoted {
            None
        } else {
            Some(ended(word))
        }
    } else if quoted {
        if s[i] == '"' {
            tokens(s, i + 1, home, word, false)
        } else if s[i] == '$' {
            if i + 6 <= s.len() && s.subrange(i, i + 6) == home_variable() {
                tokens(s, i + 6, home, longer(word, home), false)
            } else {
                None
            }
        } else if s[i] == '`' {
            None
        } else if s[i] == '\\' && i + 1 < s.len() && (s[i + 1] == '"' || s[i + 1] == '\\'
            || s[i + 1] == '$' || s[i + 1] == '`') {
            tokens(s, i + 2, home, longer(word, seq![s[i + 1]]), true)
        } else if s[i] == '\\' && i + 1 < s.len() && s[i + 1] == '\n' {
            tokens(s, i + 2, home, word, true)
        } else {
            tokens(s, i + 1, home, longer(word, seq![s[i]]), true)
        }
    } else if s[i] == ' ' {
        before(ended(word), tokens(s, i + 1, home, None, false))
    } else if s[i] == '"' {
        tokens(s, i + 1, home, longer(word, seq![]), true)
    } else if s[i] == '(' {
        before(ended(word).push(Token::Open), tokens(s, i + 1, home, None, false))
    } else if s[i] == ')' {
        before(ended(word).push(Token::Close), tokens(s, i + 1, home, None, false))
    } else if s[i] == '&' && i + 1 < s.len() && s[i + 1] == '&' {
        before(ended(word).push(Token::And), tokens(s, i + 2, home, None, false))
    } else if s[i] == '|' && i + 1 < s.len() && s[i + 1] == '|' {
        before(ended(word).push(Token::Or), tokens(s, i + 2, home, None, false))
    } else if plain(s[i]) {
        tokens(s, i + 1, home, longer(word, seq![s[i]]), false)
    } else {
        None
    }
}

/// The tokens that a POSIX shell reads from a command.
pub open spec fn shell_reads(command: Seq<char>, home: Seq<char>) -> Option<Seq<Token>> {
    tokens(command, 0, home, None, false)
}

/// A piece of a command as it is written.
enum Piece {
    Plain(Seq<char>),
    Space,
    Quoted(Seq<char>),
    Home,
    And,
    Or,
    Open,
    Close,
}

/// How a piece is written.
spec fn written(piece: Piece) -> Seq<char> {
    match piece {
        Piece::Plain(w) => w,
        Piece::Space => seq![' '],
        Piece::Quoted(d) => util::quoted(d),
        Piece::Home => seq!['"'] + home_variable(),
        Piece::And => seq!['&', '&'],
        Piece::Or => seq!['|', '|'],
        Piece::Open => seq!['('],
        Piece::Close => seq![')'],
    }
}

/// Whether a shell reads a piece as it is meant.
spec fn readable(piece: Piece) -> bool {
    match piece {
        Piece::Plain(w) => w.len() > 0 && forall|k: int|
            0 <= k < w.len() ==> plain(#[trigger] w[k]),
        Piece::Quoted(d) => util::literal_in_quotes(d),
        _ => true,
    }
}

spec fn all_written(pieces: Seq<Piece>) -> Seq<char>
    decreases pieces.len(),
{
    if pieces.len() == 0 {
        seq![]
    } else {
        written(pieces[0]) + all_written(pieces.drop_first())
    }
}

/// What has been read: tokens, and the word being read.
#[verifier::ext_equal]
struct Reading {
    done: Seq<Token>,
    word: Option<Seq<char>>,
}

spec fn ends(r: Reading, token: Token) -> Reading {
    Reading { done: r.done + ended(r.word).push(token), word: None }
}

spec fn read_one(r: Reading, piece: Piece, home: Seq<char>) -> Reading {
    match piece {
        Piece::Plain(w) => Reading { word: longer(r.word, w), ..r },
        Piece::Space => Reading { done: r.done + ended(r.word), word: None },
        Piece::Quoted(d) => Reading { word: longer(r.word, d), ..r },
        Piece::Home => Reading { word: longer(r.word, home), ..r },
        Piece::And => ends(r, Token::And),
        Piece::Or => ends(r, Token::Or),
        Piece::Open => ends(r, Token::Open),
        Piece::Close => ends(r, Token::Close),
    }
}

spec fn read_all(r: Reading, pieces: Seq<Piece>, home: Seq<char>) -> Reading
    decreases pieces.len(),
{
    if pieces.len() == 0 {
        r
    } else {
        read_all(read_one(r, pieces[0], home), pieces.drop_first(), home)
    }
}

proof fn lemma_plain_word(
    s: Seq<char>,
    i: int,
    w: Seq<char>,
    home: Seq<char>,
    word: Option<Seq<char>>,
)
    requires
        0 <= i,
        i + w.len() <= s.len(),
        s.subrange(i, i + w.len()) == w,
        forall|k: int| 0 <= k < w.len() ==> plain(#[trigger] w[k]),
        w.len() > 0,
    ensures
        tokens(s, i, home, word, false) == tokens(s, i + w.len(), home, longer(word, w), false),
    decreases w.len(),
{
    assert(s[i] == s.subrange(i, i + w.len())[0]);
    assert(plain(w[0]));
    let first = seq![w[0]];
    if w.len() == 1 {
        assert(w == first);
    } else {
        let rest = w.drop_first();
        assert(s.subrange(i + 1, i + 1 + rest.len()) == rest) by {
            assert forall|k: int| 0 <= k < rest.len() implies s.subrange(
                i + 1,
                i + 1 + rest.len(),
            )[k] == rest[k] by {
                assert(s.subrange(i, i + w.len())[k + 1] == w[k + 1]);
            }
        }
        assert forall|k: int| 0 <= k < rest.len() implies plain(#[trigger] rest[k]) by {
            assert(rest[k] == w[k + 1]);
        }
        lemma_plain_word(s, i + 1, rest, home, longer(word, first));
        assert(first + rest == w);
        if let Some(x) = word {
            assert(x + first + rest == x + w);
        }
    }
}

proof fn lemma_escaped(s: Seq<char>, i: int, d: Seq<char>, home: Seq<char>, w: Seq<char>)
    requires
        0 <= i,
        util::literal_in_quotes(d),
        i + util::escape_quotes(d).len() + 1 <= s.len(),
        s.subrange(i, i + util::escape_quotes(d).len() + 1) == util::escape_quotes(d).push('"'),
    ensures
        tokens(s, i, home, Some(w), true) == tokens(
            s,
            i + util::escape_quotes(d).len() + 1,
            home,
            Some(w + d),
            false,
        ),
    decreases d.len(),
{
    let e = util::escape_quotes(d);
    let part = s.subrange(i, i + e.len() + 1);
    assert(s[i] == part[0]);
    if d.len() == 0 {
        assert(e == Seq::<char>::empty());
        assert(w + d == w);
    } else {
        let rest = d.drop_first();
        let er = util::escape_quotes(rest);
        util::lemma_escape_first(d);
        assert forall|k: int| 0 <= k < rest.len() implies {
            &&& #[trigger] rest[k] != '$'
            &&& rest[k] != '`'
            &&& rest[k] == '\\' ==> k + 1 < rest.len() && rest[k + 1] != '"' && rest[k + 1] != '\\'
                && rest[k + 1] != '\n'
        } by {
            assert(rest[k] == d[k + 1]);
        }
        assert(d[0] != '$');
        let n: int = if d[0] == '"' {
            2
        } else {
            1
        };
        assert(part.skip(n) == er.push('"'));
        assert(s.subrange(i + n, i + n + er.len() + 1) == part.skip(n));
        assert(s[i + 1] == part[1]);
        lemma_escaped(s, i + n, rest, home, w + seq![d[0]]);
        assert(w + seq![d[0]] + rest == w + d);
        if d[0] == '\\' {
            util::lemma_escape_first(rest);
            assert(rest[0] != '$');
            assert(part[1] == er.push('"')[0]);
            assert(part[1] == rest[0]);
        }
    }
}

proof fn lemma_quoted_word(
    s: Seq<char>,
    i: int,
    d: Seq<char>,
    home: Seq<char>,
    word: Option<Seq<char>>,
)
    requires
        0 <= i,
        util::literal_in_quotes(d),
        i + util::quoted(d).len() <= s.len(),
        s.subrange(i, i + util::quoted(d).len()) == util::quoted(d),
    ensures
        tokens(s, i, home, word, false) == tokens(
            s,
            i + util::quoted(d).len(),
            home,
            longer(word, d),
            false,
        ),
{
    let q = util::quoted(d);
    let e = util::escape_quotes(d);
    assert(s[i] == s.subrange(i, i + q.len())[0]);
    assert(s.subrange(i + 1, i + 1 + e.len() + 1) == e.push('"')) by {
        assert(s.subrange(i, i + q.len()).skip(1) == q.skip(1));
        assert(q.skip(1) == e.push('"'));
        assert(s.subrange(i + 1, i + 1 + e.len() + 1) == s.subrange(i, i + q.len()).skip(1));
    }
    let w = match word {
        Some(x) => x,
        None => seq![],
    };
    assert(longer(word, seq![]) == Some(w));
    lemma_escaped(s, i + 1, d, home, w);
    assert(longer(word, d) == Some(w + d));
}

proof fn lemma_piece(s: Seq<char>, i: int, piece: Piece, r: Reading, home: Seq<char>)
    requires
        0 <= i,
        readable(piece),
        i + written(piece).len() <= s.len(),
        s.subrange(i, i + written(piece).len()) == written(piece),
    ensures
        before(r.done, tokens(s, i, home, r.word, false)) == before(
            read_one(r, piece, home).done,
            tokens(s, i + written(piece).len(), home, read_one(r, piece, home).word, false),
        ),
{
    let w = written(piece);
    let part = s.subrange(i, i + w.len());
    if w.len() > 0 {
        assert(s[i] == part[0]);
    }
    if w.len() > 1 {
        assert(s[i + 1] == part[1]);
    }
    let after = tokens(s, i + w.len(), home, read_one(r, piece, home).word, false);
    match piece {
        Piece::Plain(p) => {
            lemma_plain_word(s, i, p, home, r.word);
        },
        Piece::Quoted(d) => {
            lemma_quoted_word(s, i, d, home, r.word);
        },
        Piece::Home => {
            assert(s.subrange(i + 1, i + 7) == part.skip(1));
            assert(part.skip(1) == home_variable());
            assert(s[i + 1] == '$');
            let x = longer(r.word, seq![]);
            assert(longer(x, home) == longer(r.word, home)) by {
                assert(Seq::<char>::empty() + home == home);
                if let Some(y) = r.word {
                    assert(y + Seq::<char>::empty() == y);
                }
            }
            assert(tokens(s, i, home, r.word, false) == tokens(s, i + 1, home, x, true));
            assert(tokens(s, i + 1, home, x, true) == tokens(
                s,
                i + 7,
                home,
                longer(x, home),
                false,
            ));
        },
        _ => {
            let front = read_one(r, piece, home).done;
            if let Some(rest) = after {
                if piece is Space {
                    assert(r.done + (ended(r.word) + rest) == front + rest);
                } else {
                    let token = match piece {
                        Piece::And => Token::And,
                        Piece::Or => Token::Or,
                        Piece::Open => Token::Open,
                        _ => Token::Close,
                    };
                    assert(r.done + (ended(r.word).push(token) + rest) == front + rest);
                }
            }
        },
    }
}

proof fn lemma_pieces(s: Seq<char>, i: int, pieces: Seq<Piece>, r: Reading, home: Seq<char>)
    requires
        0 <= i,
        forall|k: int| 0 <= k < pieces.len() ==> readable(#[trigger] pieces[k]),
        i + all_written(pieces).len() <= s.len(),
        s.subrange(i, i + all_written(pieces).len()) == all_written(pieces),
    ensures
        before(r.done, tokens(s, i, home, r.word, false)) == before(
            read_all(r, pieces, home).done,
            tokens(s, i + all_written(pieces).len(), home, read_all(r, pieces, home).word, false),
        ),
    decreases pieces.len(),
{
    if pieces.len() > 0 {
        let w = written(pieces[0]);
        let rest = pieces.drop_first();
        let all = all_written(pieces);
        let part = s.subrange(i, i + all.len());
        assert(readable(pieces[0]));
        assert(part.take(w.len() as int) == w);
        assert(s.subrange(i, i + w.len()) == part.take(w.len() as int));
        lemma_piece(s, i, pieces[0], r, home);
        assert(part.skip(w.len() as int) == all_written(rest));
        assert(s.subrange(i + w.len(), i + w.len() + all_written(rest).len()) == part.skip(
            w.len() as int,
        ));
        assert forall|k: int| 0 <= k < rest.len() implies readable(#[trigger] rest[k]) by {
            assert(rest[k] == pieces[k + 1]);
        }
        lemma_pieces(s, i + w.len(), rest, read_one(r, pieces[0], home), home);
    }
}

/// A command made of pieces is read as they are meant.
proof fn lemma_command(pieces: Seq<Piece>, home: Seq<char>)
    requires
        forall|k: int| 0 <= k < pieces.len() ==> readable(#[trigger] pieces[k]),
    ensures
        ({
            let r = read_all(Reading { done: seq![], word: None }, pieces, home);
            shell_reads(all_written(pieces), home) == Some(r.done + ended(r.word))
        }),
{
    let s = all_written(pieces);
    let start = Reading { done: seq![], word: None };
    assert(s.subrange(0, s.len() as int) == s);
    lemma_pieces(s, 0, pieces, start, home);
    if let Some(t) = shell_reads(s, home) {
        assert(start.done + t == t);
    }
}

proof fn lemma_written_joined(a: Seq<Piece>, b: Seq<Piece>)
    ensures
        all_written(a + b) == all_written(a) + all_written(b),
    decreases a.len(),
{
    if a.len() == 0 {
        assert(a + b == b);
    } else {
        lemma_written_joined(a.drop_first(), b);
        assert((a + b).drop_first() == a.drop_first() + b);
    }
}

proof fn lemma_read_joined(r: Reading, a: Seq<Piece>, b: Seq<Piece>, home: Seq<char>)
    ensures
        read_all(r, a + b, home) == read_all(read_all(r, a, home), b, home),
    decreases a.len(),
{
    if a.len() == 0 {
        assert(a + b == b);
    } else {
        lemma_read_joined(read_one(r, a[0], home), a.drop_first(), b, home);
        assert((a + b).drop_first() == a.drop_first() + b);
    }
}

/// The pieces of the commands, as far as they are the same for all directories.
spec fn guard_root_pieces() -> Seq<Piece> {
    seq![
        Piece::Plain("test"@),
        Piece::Space,
        Piece::Plain("!"@),
        Piece::Space,
    ]
}

#[verifier::spinoff_prover]
#[verifier::rlimit(60)]
proof fn lemma_guard_root(home: Seq<char>)
    ensures
        all_written(guard_root_pieces()) == "test ! "@,
        forall|k: int|
            0 <= k < guard_root_pieces().len() ==> readable(#[trigger] guard_root_pieces()[k]),
        read_all(Reading { done: seq![], word: None }, guard_root_pieces(), home) == (Reading {
            done: seq![
                Token::Word("test"@),
                Token::Word("!"@),
            ],
            word: None,
        }),
{
    reveal_strlit("!");
    reveal_strlit("test");
    reveal_strlit("test ! ");
    let p0 = guard_root_pieces();
    reveal_with_fuel(all_written, 5);
    reveal_with_fuel(read_all, 5);
    let p1 = p0.drop_first();
    assert(p0[0] == Piece::Plain("test"@));
    let p2 = p1.drop_first();
    assert(p1[0] == Piece::Space);
    let p3 = p2.drop_first();
    assert(p2[0] == Piece::Plain("!"@));
    let p4 = p3.drop_first();
    assert(p3[0] == Piece::Space);
}

spec fn guard_home_pieces() -> Seq<Piece> {
    seq![
        Piece::Space,
        Piece::Plain("-ef"@),
        Piece::Space,
        Piece::Plain("/"@),
        Piece::Space,
        Piece::And,
        Piece::Space,
        Piece::Plain("test"@),
        Piece::Space,
        Piece::Plain("!"@),
        Piece::Space,
    ]
}

#[verifier::spinoff_prover]
#[verifier::rlimit(60)]
proof fn lemma_guard_home(done: Seq<Token>, w: Seq<char>, home: Seq<char>)
    ensures
        all_written(guard_home_pieces()) == " -ef / && test ! "@,
        forall|k: int|
            0 <= k < guard_home_pieces().len() ==> readable(#[trigger] guard_home_pieces()[k]),
        read_all(Reading { done, word: Some(w) }, guard_home_pieces(), home) == (Reading {
            done: done + seq![
                Token::Word(w),
                Token::Word("-ef"@),
                Token::Word("/"@),
                Token::And,
                Token::Word("test"@),
                Token::Word("!"@),
            ],
            word: None,
        }),
{
    reveal_strlit("!");
    reveal_strlit("-ef");
    reveal_strlit("/");
    reveal_strlit("test");
    reveal_strlit(" -ef / && test ! ");
    let p0 = guard_home_pieces();
    reveal_with_fuel(all_written, 12);
    reveal_with_fuel(read_all, 12);
    let p1 = p0.drop_first();
    assert(p0[0] == Piece::Space);
    let p2 = p1.drop_first();
    assert(p1[0] == Piece::Plain("-ef"@));
    let p3 = p2.drop_first();
    assert(p2[0] == Piece::Space);
    let p4 = p3.drop_first();
    assert(p3[0] == Piece::Plain("/"@));
    let p5 = p4.drop_first();
    assert(p4[0] == Piece::Space);
    let p6 = p5.drop_first();
    assert(p5[0] == Piece::And);
    let p7 = p6.drop_first();
    assert(p6[0] == Piece::Space);
    let p8 = p7.drop_first();
    assert(p7[0] == Piece::Plain("test"@));
    let p9 = p8.drop_first();
    assert(p8[0] == Piece::Space);
    let p10 = p9.drop_first();
    assert(p9[0] == Piece::Plain("!"@));
    let p11 = p10.drop_first();
    assert(p10[0] == Piece::Space);
}

spec fn guard_missing_pieces() -> Seq<Piece> {
    seq![
        Piece::Space,
        Piece::Plain("-ef"@),
        Piece::Space,
        Piece::Home,
        Piece::Space,
        Piece::And,
        Piece::Space,
        Piece::Open,
        Piece::Plain("test"@),
        Piece::Space,
        Piece::Plain("!"@),
        Piece::Space,
        Piece::Plain("-d"@),
        Piece::Space,
    ]
}

#[verifier::spinoff_prover]
#[verifier::rlimit(60)]
proof fn lemma_guard_missing(done: Seq<Token>, w: Seq<char>, home: Seq<char>)
    ensures
        all_written(guard_missing_pieces()) == " -ef \"$HOME\" && (test ! -d "@,
        forall|k: int|
            0 <= k < guard_missing_pieces().len() ==> readable(#[trigger] guard_missing_pieces()[k]),
        read_all(Reading { done, word: Some(w) }, guard_missing_pieces(), home) == (Reading {
            done: done + seq![
                Token::Word(w),
                Token::Word("-ef"@),
                Token::Word(home),
                Token::And,
                Token::Open,
                Token::Word("test"@),
                Token::Word("!"@),
                Token::Word("-d"@),
            ],
            word: None,
        }),
{
    reveal_strlit("!");
    reveal_strlit("-d");
    reveal_strlit("-ef");
    reveal_strlit("test");
    reveal_strlit(" -ef \"$HOME\" && (test ! -d ");
    let p0 = guard_missing_pieces();
    reveal_with_fuel(all_written, 15);
    reveal_with_fuel(read_all, 15);
    let p1 = p0.drop_first();
    assert(p0[0] == Piece::Space);
    let p2 = p1.drop_first();
    assert(p1[0] == Piece::Plain("-ef"@));
    let p3 = p2.drop_first();
    assert(p2[0] == Piece::Space);
    let p4 = p3.drop_first();
    assert(p3[0] == Piece::Home);
    let p5 = p4.drop_first();
    assert(p4[0] == Piece::Space);
    let p6 = p5.drop_first();
    assert(p5[0] == Piece::And);
    let p7 = p6.drop_first();
    assert(p6[0] == Piece::Space);
    let p8 = p7.drop_first();
    assert(p7[0] == Piece::Open);
    let p9 = p8.drop_first();
    assert(p8[0] == Piece::Plain("test"@));
    let p10 = p9.drop_first();
    assert(p9[0] == Piece::Space);
    let p11 = p10.drop_first();
    assert(p10[0] == Piece::Plain("!"@));
    let p12 = p11.drop_first();
    assert(p11[0] == Piece::Space);
    let p13 = p12.drop_first();
    assert(p12[0] == Piece::Plain("-d"@));
    let p14 = p13.drop_first();
    assert(p13[0] == Piece::Space);
}

spec fn search_pieces() -> Seq<Piece> {
    seq![
        Piece::Space,
        Piece::Or,
        Piece::Space,
        Piece::Plain("find"@),
        Piece::Space,
    ]
}

#[verifier::spinoff_prover]
#[verifier::rlimit(60)]
proof fn lemma_search(done: Seq<Token>, w: Seq<char>, home: Seq<char>)
    ensures
        all_written(search_pieces()) == " || find "@,
        forall|k: int| 0 <= k < search_pieces().len() ==> readable(#[trigger] search_pieces()[k]),
        read_all(Reading { done, word: Some(w) }, search_pieces(), home) == (Reading {
            done: done + seq![
                Token::Word(w),
                Token::Or,
                Token::Word("find"@),
            ],
            word: None,
        }),
{
    reveal_strlit("find");
    reveal_strlit(" || find ");
    let p0 = search_pieces();
    reveal_with_fuel(all_written, 6);
    reveal_with_fuel(read_all, 6);
    let p1 = p0.drop_first();
    assert(p0[0] == Piece::Space);
    let p2 = p1.drop_first();
    assert(p1[0] == Piece::Or);
    let p3 = p2.drop_first();
    assert(p2[0] == Piece::Space);
    let p4 = p3.drop_first();
    assert(p3[0] == Piece::Plain("find"@));
    let p5 = p4.drop_first();
    assert(p4[0] == Piece::Space);
}

spec fn expression_pieces() -> Seq<Piece> {
    seq![
        Piece::Plain("/."@),
        Piece::Space,
        Piece::Plain("!"@),
        Piece::Space,
        Piece::Plain("-name"@),
        Piece::Space,
        Piece::Plain("."@),
        Piece::Space,
        Piece::Plain("-prune"@),
        Piece::Space,
        Piece::Plain("!"@),
        Piece::Space,
        Piece::Plain("-type"@),
        Piece::Space,
        Piece::Plain("d"@),
        Piece::Space,
        Piece::Plain("-exec"@),
        Piece::Space,
        Piece::Plain("rm"@),
        Piece::Space,
        Piece::Plain("-f"@),
        Piece::Space,
        Piece::Plain("{}"@),
        Piece::Space,
        Piece::Plain("+"@),
        Piece::Close,
    ]
}

#[verifier::spinoff_prover]
#[verifier::rlimit(60)]
proof fn lemma_expression(done: Seq<Token>, w: Seq<char>, home: Seq<char>)
    ensures
        all_written(expression_pieces()) == "/. ! -name . -prune ! -type d -exec rm -f {} +)"@,
        forall|k: int|
            0 <= k < expression_pieces().len() ==> readable(#[trigger] expression_pieces()[k]),
        read_all(Reading { done, word: Some(w) }, expression_pieces(), home) == (Reading {
            done: done + seq![
                Token::Word(w + "/."@),
                Token::Word("!"@),
                Token::Word("-name"@),
                Token::Word("."@),
                Token::Word("-prune"@),
                Token::Word("!"@),
                Token::Word("-type"@),
                Token::Word("d"@),
                Token::Word("-exec"@),
                Token::Word("rm"@),
                Token::Word("-f"@),
                Token::Word("{}"@),
                Token::Word("+"@),
                Token::Close,
            ],
            word: None,
        }),
{
    reveal_strlit("!");
    reveal_strlit("+");
    reveal_strlit("-exec");
    reveal_strlit("-f");
    reveal_strlit("-name");
    reveal_strlit("-prune");
    reveal_strlit("-type");
    reveal_strlit(".");
    reveal_strlit("/.");
    reveal_strlit("d");
    reveal_strlit("rm");
    reveal_strlit("{}");
    reveal_strlit("/. ! -name . -prune ! -type d -exec rm -f {} +)");
    let p0 = expression_pieces();
    reveal_with_fuel(all_written, 27);
    reveal_with_fuel(read_all, 27);
    let p1 = p0.drop_first();
    assert(p0[0] == Piece::Plain("/."@));
    let p2 = p1.drop_first();
    assert(p1[0] == Piece::Space);
    let p3 = p2.drop_first();
    assert(p2[0] == Piece::Plain("!"@));
    let p4 = p3.drop_first();
    assert(p3[0] == Piece::Space);
    let p5 = p4.drop_first();
    assert(p4[0] == Piece::Plain("-name"@));
    let p6 = p5.drop_first();
    assert(p5[0] == Piece::Space);
    let p7 = p6.drop_first();
    assert(p6[0] == Piece::Plain("."@));
    let p8 = p7.drop_first();
    assert(p7[0] == Piece::Space);
    let p9 = p8.drop_first();
    assert(p8[0] == Piece::Plain("-prune"@));
    let p10 = p9.drop_first();
    assert(p9[0] == Piece::Space);
    let p11 = p10.drop_first();
    assert(p10[0] == Piece::Plain("!"@));
    let p12 = p11.drop_first();
    assert(p11[0] == Piece::Space);
    let p13 = p12.drop_first();
    assert(p12[0] == Piece::Plain("-type"@));
    let p14 = p13.drop_first();
    assert(p13[0] == Piece::Space);
    let p15 = p14.drop_first();
    assert(p14[0] == Piece::Plain("d"@));
    let p16 = p15.drop_first();
    assert(p15[0] == Piece::Space);
    let p17 = p16.drop_first();
    assert(p16[0] == Piece::Plain("-exec"@));
    let p18 = p17.drop_first();
    assert(p17[0] == Piece::Space);
    let p19 = p18.drop_first();
    assert(p18[0] == Piece::Plain("rm"@));
    let p20 = p19.drop_first();
    assert(p19[0] == Piece::Space);
    let p21 = p20.drop_first();
    assert(p20[0] == Piece::Plain("-f"@));
    let p22 = p21.drop_first();
    assert(p21[0] == Piece::Space);
    let p23 = p22.drop_first();
    assert(p22[0] == Piece::Plain("{}"@));
    let p24 = p23.drop_first();
    assert(p23[0] == Piece::Space);
    let p25 = p24.drop_first();
    assert(p24[0] == Piece::Plain("+"@));
    let p26 = p25.drop_first();
    assert(p25[0] == Piece::Close);
}

spec fn make_pieces() -> Seq<Piece> {
    seq![
        Piece::Plain("mkdir"@),
        Piece::Space,
        Piece::Plain("-p"@),
        Piece::Space,
    ]
}

#[verifier::spinoff_prover]
#[verifier::rlimit(60)]
proof fn lemma_make(home: Seq<char>)
    ensures
        all_written(make_pieces()) == "mkdir -p "@,
        forall|k: int| 0 <= k < make_pieces().len() ==> readable(#[trigger] make_pieces()[k]),
        read_all(Reading { done: seq![], word: None }, make_pieces(), home) == (Reading {
            done: seq![
                Token::Word("mkdir"@),
                Token::Word("-p"@),
            ],
            word: None,
        }),
{
    reveal_strlit("-p");
    reveal_strlit("mkdir");
    reveal_strlit("mkdir -p ");
    let p0 = make_pieces();
    reveal_with_fuel(all_written, 5);
    reveal_with_fuel(read_all, 5);
    let p1 = p0.drop_first();
    assert(p0[0] == Piece::Plain("mkdir"@));
    let p2 = p1.drop_first();
    assert(p1[0] == Piece::Space);
    let p3 = p2.drop_first();
    assert(p2[0] == Piece::Plain("-p"@));
    let p4 = p3.drop_first();
    assert(p3[0] == Piece::Space);
}

spec fn touch_pieces() -> Seq<Piece> {
    seq![
        Piece::Space,
        Piece::And,
        Piece::Space,
        Piece::Plain("touch"@),
    ]
}

#[verifier::spinoff_prover]
#[verifier::rlimit(60)]
proof fn lemma_touch(done: Seq<Token>, w: Seq<char>, home: Seq<char>)
    ensures
        all_written(touch_pieces()) == " && touch"@,
        forall|k: int| 0 <= k < touch_pieces().len() ==> readable(#[trigger] touch_pieces()[k]),
        read_all(Reading { done, word: Some(w) }, touch_pieces(), home) == (Reading {
            done: done + seq![
                Token::Word(w),
                Token::And,
            ],
            word: Some("touch"@),
        }),
{
    reveal_strlit("touch");
    reveal_strlit(" && touch");
    let p0 = touch_pieces();
    reveal_with_fuel(all_written, 5);
    reveal_with_fuel(read_all, 5);
    let p1 = p0.drop_first();
    assert(p0[0] == Piece::Space);
    let p2 = p1.drop_first();
    assert(p1[0] == Piece::And);
    let p3 = p2.drop_first();
    assert(p2[0] == Piece::Space);
    let p4 = p3.drop_first();
    assert(p3[0] == Piece::Plain("touch"@));
}

proof fn lemma_all_readable(a: Seq<Piece>, b: Seq<Piece>)
    requires
        forall|k: int| 0 <= k < a.len() ==> readable(#[trigger] a[k]),
        forall|k: int| 0 <= k < b.len() ==> readable(#[trigger] b[k]),
    ensures
        forall|k: int| 0 <= k < (a + b).len() ==> readable(#[trigger] (a + b)[k]),
{
    assert forall|k: int| 0 <= k < (a + b).len() implies readable(#[trigger] (a + b)[k]) by {
        if k < a.len() {
            assert((a + b)[k] == a[k]);
        } else {
            assert((a + b)[k] == b[k - a.len()]);
        }
    }
}

/// More pieces behind those that were read.
proof fn lemma_read_on(a: Seq<Piece>, b: Seq<Piece>, home: Seq<char>)
    requires
        forall|k: int| 0 <= k < a.len() ==> readable(#[trigger] a[k]),
        forall|k: int| 0 <= k < b.len() ==> readable(#[trigger] b[k]),
    ensures
        all_written(a + b) == all_written(a) + all_written(b),
        forall|k: int| 0 <= k < (a + b).len() ==> readable(#[trigger] (a + b)[k]),
        read_all(Reading { done: seq![], word: None }, a + b, home) == read_all(
            read_all(Reading { done: seq![], word: None }, a, home),
            b,
            home,
        ),
{
    lemma_written_joined(a, b);
    lemma_all_readable(a, b);
    lemma_read_joined(Reading { done: seq![], word: None }, a, b, home);
}

proof fn lemma_quoted_piece(
    done: Seq<Token>,
    word: Option<Seq<char>>,
    d: Seq<char>,
    home: Seq<char>,
)
    requires
        util::literal_in_quotes(d),
    ensures
        all_written(seq![Piece::Quoted(d)]) == util::quoted(d),
        forall|k: int| 0 <= k < 1 ==> readable(#[trigger] seq![Piece::Quoted(d)][k]),
        read_all(Reading { done, word }, seq![Piece::Quoted(d)], home) == (Reading {
            done,
            word: longer(word, d),
        }),
{
    reveal_with_fuel(all_written, 2);
    reveal_with_fuel(read_all, 2);
    let p = seq![Piece::Quoted(d)];
    assert(p.drop_first() == Seq::<Piece>::empty());
    assert(util::quoted(d) + Seq::<char>::empty() == util::quoted(d));
}

/// Words as tokens.
pub open spec fn worded(words: Seq<Seq<char>>) -> Seq<Token> {
    words.map_values(|w: Seq<char>| Token::Word(w))
}

/// What `find` is asked for each file when a directory is cleared.
pub open spec fn clear_expression() -> Seq<Seq<char>> {
    seq![
        "!"@,
        "-name"@,
        "."@,
        "-prune"@,
        "!"@,
        "-type"@,
        "d"@,
        "-exec"@,
        "rm"@,
        "-f"@,
        "{}"@,
        "+"@,
    ]
}

/// The remote shell reads the command that clears a directory as meant: it goes on
/// only where the directory is neither the root nor the home, and, where there is such
/// a directory, starts `find` inside it, with one expression for all directories.
#[verifier::rlimit(60)]
pub proof fn law_clear_command_reads_as_meant(dir: Seq<char>, home: Seq<char>)
    requires
        util::literal_in_quotes(dir),
    ensures
        shell_reads(flush::clear_command(dir), home) == Some(
            seq![
                Token::Word("test"@),
                Token::Word("!"@),
                Token::Word(dir),
                Token::Word("-ef"@),
                Token::Word("/"@),
                Token::And,
                Token::Word("test"@),
                Token::Word("!"@),
                Token::Word(dir),
                Token::Word("-ef"@),
                Token::Word(home),
                Token::And,
                Token::Open,
                Token::Word("test"@),
                Token::Word("!"@),
                Token::Word("-d"@),
                Token::Word(dir),
                Token::Or,
                Token::Word("find"@),
                Token::Word(dir + "/."@),
            ] + worded(clear_expression()) + seq![Token::Close],
        ),
{
    let q = seq![Piece::Quoted(dir)];
    let start = Reading { done: seq![], word: None };
    lemma_guard_root(home);
    let a1 = guard_root_pieces();
    let r1 = read_all(start, a1, home);
    lemma_quoted_piece(r1.done, r1.word, dir, home);
    lemma_read_on(a1, q, home);
    let a2 = a1 + q;
    let r2 = read_all(start, a2, home);
    lemma_guard_home(r2.done, dir, home);
    lemma_read_on(a2, guard_home_pieces(), home);
    let a3 = a2 + guard_home_pieces();
    let r3 = read_all(start, a3, home);
    lemma_quoted_piece(r3.done, r3.word, dir, home);
    lemma_read_on(a3, q, home);
    let a4 = a3 + q;
    let r4 = read_all(start, a4, home);
    lemma_guard_missing(r4.done, dir, home);
    lemma_read_on(a4, guard_missing_pieces(), home);
    let a5 = a4 + guard_missing_pieces();
    let r5 = read_all(start, a5, home);
    lemma_quoted_piece(r5.done, r5.word, dir, home);
    lemma_read_on(a5, q, home);
    let a6 = a5 + q;
    let r6 = read_all(start, a6, home);
    lemma_search(r6.done, dir, home);
    lemma_read_on(a6, search_pieces(), home);
    let a7 = a6 + search_pieces();
    let r7 = read_all(start, a7, home);
    lemma_quoted_piece(r7.done, r7.word, dir, home);
    lemma_read_on(a7, q, home);
    let a8 = a7 + q;
    let r8 = read_all(start, a8, home);
    lemma_expression(r8.done, dir, home);
    lemma_read_on(a8, expression_pieces(), home);
    let a9 = a8 + expression_pieces();
    let r9 = read_all(start, a9, home);
    lemma_command(a9, home);
    assert(all_written(a9) == flush::clear_command(dir));
    assert(r9.done + ended(r9.word) == r9.done);
}

/// What `find` does with a file: whether it leaves what is below it alone, and whether
/// it removes it.
pub struct Fate {
    pub pruned: bool,
    pub removed: bool,
}

/// What `find` does with a file, given its name and whether it is a directory: the
/// parts of the expression hold one after the other, up to the first that does not.
/// `None` of an expression with anything else in it.
pub open spec fn fate(expression: Seq<Seq<char>>, name: Seq<char>, is_dir: bool) -> Option<Fate>
    decreases expression.len(),
{
    if expression.len() == 0 {
        Some(Fate { pruned: false, removed: false })
    } else {
        let negated = expression[0] == seq!['!'];
        let e = if negated {
            expression.skip(1)
        } else {
            expression
        };
        if e.len() >= 2 && e[0] == "-name"@ {
            if (name == e[1]) != negated {
                fate(e.skip(2), name, is_dir)
            } else {
                Some(Fate { pruned: false, removed: false })
            }
        } else if e.len() >= 2 && e[0] == "-type"@ && e[1] == "d"@ {
            if is_dir != negated {
                fate(e.skip(2), name, is_dir)
            } else {
                Some(Fate { pruned: false, removed: false })
            }
        } else if e.len() >= 1 && e[0] == "-prune"@ && !negated {
            match fate(e.skip(1), name, is_dir) {
                Some(f) => Some(Fate { pruned: true, ..f }),
                None => None,
            }
        } else if e == seq!["-exec"@, "rm"@, "-f"@, "{}"@, "+"@] && !negated {
            Some(Fate { pruned: false, removed: true })
        } else {
            None
        }
    }
}

/// Clearing removes exactly what is no directory and stands in the directory itself:
/// the directory, which `find` meets as `.`, is entered and kept; whatever stands in
/// it is not entered, and removed where it is no directory.
pub proof fn law_clear_removes_top_level_files_alone(name: Seq<char>, is_dir: bool)
    ensures
        fate(clear_expression(), seq!['.'], true) == Some(Fate { pruned: false, removed: false }),
        name != seq!['.'] ==> fate(clear_expression(), name, is_dir) == Some(
            Fate { pruned: true, removed: !is_dir },
        ),
{
    reveal_strlit("!");
    reveal_strlit("-name");
    reveal_strlit(".");
    reveal_strlit("-prune");
    reveal_strlit("-type");
    reveal_strlit("d");
    reveal_strlit("-exec");
    reveal_strlit("rm");
    reveal_strlit("-f");
    reveal_strlit("{}");
    reveal_strlit("+");
    assert("!"@ == seq!['!']);
    assert("."@ == seq!['.']);
    let e = clear_expression();
    let e1 = e.skip(1);
    let e2 = e1.skip(2);
    let e3 = e2.skip(1);
    let e4 = e3.skip(1);
    let e5 = e4.skip(2);
    assert(e1[0] == "-name"@ && e1[1] == "."@);
    assert(e2[0] == "-prune"@);
    assert("-prune"@.len() == 6 && "-name"@.len() == 5 && "-type"@.len() == 5);
    assert("-name"@[1] == 'n' && "-type"@[1] == 't');
    assert(e3[0] == "!"@);
    assert(e4[0] == "-type"@ && e4[1] == "d"@);
    assert(e5 == seq!["-exec"@, "rm"@, "-f"@, "{}"@, "+"@]);
    assert("-exec"@[1] == 'e' && "-exec"@.len() == 5);
    assert(fate(e5, name, is_dir) == Some(Fate { pruned: false, removed: true }));
    assert(fate(e3, name, is_dir) == Some(Fate { pruned: false, removed: !is_dir }));
    assert(fate(e2, name, is_dir) == Some(Fate { pruned: true, removed: !is_dir }));
}

/// Texts with a filling between each two.
pub open spec fn woven(texts: Seq<Seq<char>>, filling: Seq<char>) -> Seq<char>
    decreases texts.len(),
{
    if texts.len() == 0 {
        seq![]
    } else if texts.len() == 1 {
        texts[0]
    } else {
        texts[0] + filling + woven(texts.drop_first(), filling)
    }
}

/// The commands that clear two directories are alike but for the directories: both
/// are woven of the same texts, each with its own directory quoted.
pub proof fn law_clear_commands_are_alike(a: Seq<char>, b: Seq<char>)
    ensures
        exists|texts: Seq<Seq<char>>|
            texts.len() == 5 && flush::clear_command(a) == #[trigger] woven(texts, util::quoted(a))
                && flush::clear_command(b) == woven(texts, util::quoted(b)),
{
    let texts = seq![
        "test ! "@,
        " -ef / && test ! "@,
        " -ef \"$HOME\" && (test ! -d "@,
        " || find "@,
        "/. ! -name . -prune ! -type d -exec rm -f {} +)"@,
    ];
    lemma_woven(texts, util::quoted(a));
    lemma_woven(texts, util::quoted(b));
    assert(flush::clear_command(a) == woven(texts, util::quoted(a)));
    assert(flush::clear_command(b) == woven(texts, util::quoted(b)));
}

proof fn lemma_woven(t: Seq<Seq<char>>, q: Seq<char>)
    requires
        t.len() == 5,
    ensures
        woven(t, q) == t[0] + q + t[1] + q + t[2] + q + t[3] + q + t[4],
{
    reveal_with_fuel(woven, 6);
    let t1 = t.drop_first();
    let t2 = t1.drop_first();
    let t3 = t2.drop_first();
    let t4 = t3.drop_first();
    assert(t1[0] == t[1] && t2[0] == t[2] && t3[0] == t[3] && t4[0] == t[4]);
    assert(woven(t3, q) == t[3] + q + t[4]);
    assert(woven(t2, q) == t[2] + q + (t[3] + q + t[4]));
    assert(woven(t2, q) == t[2] + q + t[3] + q + t[4]);
    assert(woven(t1, q) == t[1] + q + t[2] + q + t[3] + q + t[4]);
}

/// The command that prepares the remote takes one more quoted path for each file.
pub proof fn law_setup_command_goes_by_paths(dir: Seq<char>, paths: Seq<Seq<char>>, path: Seq<char>)
    ensures
        upload::setup_command(dir, Seq::empty()) == "mkdir -p "@ + util::quoted(dir) + " && touch"@,
        upload::setup_command(dir, paths.push(path)) == upload::setup_command(dir, paths)
            + seq![' '] + util::quoted(path),
{
    assert(paths.push(path).drop_last() == paths);
    assert(upload::quoted_words(Seq::empty()) == Seq::<char>::empty());
}

/// The pieces that touch the paths.
spec fn path_pieces(paths: Seq<Seq<char>>) -> Seq<Piece>
    decreases paths.len(),
{
    if paths.len() == 0 {
        seq![]
    } else {
        path_pieces(paths.drop_last()) + (seq![Piece::Space] + seq![Piece::Quoted(paths.last())])
    }
}

proof fn lemma_path_pieces(paths: Seq<Seq<char>>, done: Seq<Token>, w: Seq<char>, home: Seq<char>)
    requires
        forall|i: int| 0 <= i < paths.len() ==> util::literal_in_quotes(#[trigger] paths[i]),
    ensures
        all_written(path_pieces(paths)) == upload::quoted_words(paths),
        forall|k: int|
            0 <= k < path_pieces(paths).len() ==> readable(#[trigger] path_pieces(paths)[k]),
        ({
            let r = read_all(Reading { done, word: Some(w) }, path_pieces(paths), home);
            &&& r.word is Some
            &&& r.done.push(Token::Word(r.word->0)) == done.push(Token::Word(w)) + worded(paths)
        }),
    decreases paths.len(),
{
    let start = Reading { done, word: Some(w) };
    if paths.len() == 0 {
        assert(done.push(Token::Word(w)) + worded(paths) == done.push(Token::Word(w)));
    } else {
        let short = paths.drop_last();
        let p = paths.last();
        assert forall|i: int| 0 <= i < short.len() implies util::literal_in_quotes(
            #[trigger] short[i],
        ) by {
            assert(short[i] == paths[i]);
        }
        assert(util::literal_in_quotes(paths[paths.len() - 1]));
        lemma_path_pieces(short, done, w, home);
        let front = path_pieces(short);
        let space = seq![Piece::Space];
        let quoted = seq![Piece::Quoted(p)];
        let r = read_all(start, front, home);
        let spaced = Reading { done: r.done + ended(r.word), word: None };
        reveal_with_fuel(all_written, 2);
        reveal_with_fuel(read_all, 2);
        assert(space.drop_first() == Seq::<Piece>::empty());
        assert(all_written(space) == seq![' ']);
        assert(read_all(r, space, home) == spaced);
        lemma_quoted_piece(spaced.done, None, p, home);
        lemma_written_joined(space, quoted);
        lemma_written_joined(front, space + quoted);
        lemma_all_readable(space, quoted);
        lemma_all_readable(front, space + quoted);
        lemma_read_joined(r, space, quoted, home);
        lemma_read_joined(start, front, space + quoted, home);
        assert(upload::quoted_words(paths) == upload::quoted_words(short) + (seq![' ']
            + util::quoted(p)));
        assert(worded(paths) == worded(short).push(Token::Word(p)));
        assert(spaced.done == r.done.push(Token::Word(r.word->0)));
    }
}

/// The remote shell reads the command that prepares the remote as meant: it makes the
/// directory, and then touches the paths, all of them and no other.
#[verifier::rlimit(60)]
pub proof fn law_setup_command_reads_as_meant(
    dir: Seq<char>,
    paths: Seq<Seq<char>>,
    home: Seq<char>,
)
    requires
        util::literal_in_quotes(dir),
        forall|i: int| 0 <= i < paths.len() ==> util::literal_in_quotes(#[trigger] paths[i]),
    ensures
        shell_reads(upload::setup_command(dir, paths), home) == Some(
            seq![
                Token::Word("mkdir"@),
                Token::Word("-p"@),
                Token::Word(dir),
                Token::And,
                Token::Word("touch"@),
            ] + worded(paths),
        ),
{
    let q = seq![Piece::Quoted(dir)];
    let start = Reading { done: seq![], word: None };
    lemma_make(home);
    let a1 = make_pieces();
    let r1 = read_all(start, a1, home);
    lemma_quoted_piece(r1.done, r1.word, dir, home);
    lemma_read_on(a1, q, home);
    let a2 = a1 + q;
    let r2 = read_all(start, a2, home);
    lemma_touch(r2.done, dir, home);
    lemma_read_on(a2, touch_pieces(), home);
    let a3 = a2 + touch_pieces();
    let r3 = read_all(start, a3, home);
    lemma_path_pieces(paths, r3.done, "touch"@, home);
    lemma_read_on(a3, path_pieces(paths), home);
    let a4 = a3 + path_pieces(paths);
    let r4 = read_all(start, a4, home);
    lemma_command(a4, home);
    assert(all_written(a4) == upload::setup_command(dir, paths));
    assert(r4.done + ended(r4.word) == r4.done.push(Token::Word(r4.word->0)));
}

} // verus!
