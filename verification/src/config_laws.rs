//! What the configuration promises: what the file of the first run describes,
//! what every server read from a text has, and how texts compose.

use vstd::prelude::*;

use crate::config;
use crate::config::ServerView;
use crate::text;
use crate::text_laws;

verus! {

/// No `c` stands in `s` from index `i` on, before index `j`.
spec fn free_of(s: Seq<char>, i: int, j: int, c: char) -> bool
    decreases j - i,
{
    i >= j || (s[i] != c && free_of(s, i + 1, j, c))
}

proof fn lemma_position(s: Seq<char>, i: int, j: int, c: char)
    requires
        0 <= i <= j < s.len(),
        free_of(s, i, j, c),
        s[j] == c,
    ensures
        text::position(s.skip(i), c) == j - i,
    decreases j - i,
{
    if i < j {
        lemma_position(s, i + 1, j, c);
        assert(s.skip(i).drop_first() == s.skip(i + 1));
    }
}

/// A newline ends the line before it.
proof fn lemma_first_line(s: Seq<char>, i: int, j: int)
    requires
        0 <= i <= j < s.len(),
        free_of(s, i, j, '\n'),
        s[j] == '\n',
    ensures
        config::lines(s.skip(i)) == seq![s.subrange(i, j)] + config::lines(s.skip(j + 1)),
{
    lemma_position(s, i, j, '\n');
    assert(s.skip(i).take(j - i) == s.subrange(i, j));
    assert(s.skip(i).skip(j - i + 1) == s.skip(j + 1));
}

/// Trimming keeps a first character that is no white space.
proof fn lemma_trim_keeps_first(s: Seq<char>)
    requires
        s.len() > 0,
        !text::white_space(s[0]),
    ensures
        text::trimmed(s).len() > 0,
        text::trimmed(s)[0] == s[0],
    decreases s.len(),
{
    if text::white_space(s.last()) {
        lemma_trim_keeps_first(s.drop_last());
    }
}

/// A line that starts with a semicolon says nothing.
proof fn lemma_comment(s: Seq<char>)
    requires
        s.len() > 0,
        s[0] == ';',
    ensures
        config::entry(s) == config::Entry::<Seq<char>>::Ignored,
{
    lemma_trim_keeps_first(s);
}

#[verifier::rlimit(50)]
proof fn lemma_default_ini_text()
    ensures
        config::DEFAULT_INI@.len() == 513,
        free_of(config::DEFAULT_INI@, 0, 63, '\n') && config::DEFAULT_INI@[63] == '\n',
        free_of(config::DEFAULT_INI@, 64, 149, '\n') && config::DEFAULT_INI@[149] == '\n',
        free_of(config::DEFAULT_INI@, 150, 227, '\n') && config::DEFAULT_INI@[227] == '\n',
        free_of(config::DEFAULT_INI@, 228, 295, '\n') && config::DEFAULT_INI@[295] == '\n',
        free_of(config::DEFAULT_INI@, 296, 376, '\n') && config::DEFAULT_INI@[376] == '\n',
        free_of(config::DEFAULT_INI@, 377, 402, '\n') && config::DEFAULT_INI@[402] == '\n',
        free_of(config::DEFAULT_INI@, 403, 416, '\n') && config::DEFAULT_INI@[416] == '\n',
        free_of(config::DEFAULT_INI@, 417, 431, '\n') && config::DEFAULT_INI@[431] == '\n',
        free_of(config::DEFAULT_INI@, 432, 462, '\n') && config::DEFAULT_INI@[462] == '\n',
        free_of(config::DEFAULT_INI@, 463, 463, '\n') && config::DEFAULT_INI@[463] == '\n',
        free_of(config::DEFAULT_INI@, 464, 477, '\n') && config::DEFAULT_INI@[477] == '\n',
        free_of(config::DEFAULT_INI@, 478, 491, '\n') && config::DEFAULT_INI@[491] == '\n',
        free_of(config::DEFAULT_INI@, 492, 512, '\n') && config::DEFAULT_INI@[512] == '\n',
        config::DEFAULT_INI@[0] == ';',
        config::DEFAULT_INI@[64] == ';',
        config::DEFAULT_INI@[150] == ';',
        config::DEFAULT_INI@[228] == ';',
        config::DEFAULT_INI@[296] == ';',
        config::DEFAULT_INI@[377] == ';',
        config::DEFAULT_INI@[464] == ';',
        config::DEFAULT_INI@[478] == ';',
        config::DEFAULT_INI@[492] == ';',
        config::DEFAULT_INI@.subrange(403, 416) == seq![
            '[', 'S', 'e', 'r', 'v', 'e', 'r', ':', 'p', 'r', 'o', 'd', ']',
        ],
        config::DEFAULT_INI@.subrange(417, 431) == seq![
            'A', 'l', 'i', 'a', 's', '=', 'm', 'y', 's', 'e', 'r', 'v', 'e', 'r',
        ],
        config::DEFAULT_INI@.subrange(432, 462) == seq![
            'R', 'e', 'm', 'o', 't', 'e', 'D', 'i', 'r', '=', '~', '/', '.', 'c', 'u', 'r', 's',
            'o', 'r', '-', 'd', 'r', 'o', 'p', '-', 'f', 'i', 'l', 'e', 's',
        ],
{
    reveal_strlit("\
; CursorDrop config — list servers as [Server:<name>] sections.
;   Alias     = SSH host alias from your ~/.ssh/config (the host the session runs on)
;   RemoteDir = upload target on the remote. '~' expands to the remote $HOME;
;               an absolute path (starting with '/') is used as-is.
; Right-click the widget to switch the active server. The first server listed is
; the default active one.
[Server:prod]
Alias=myserver
RemoteDir=~/.cursor-drop-files

;[Server:dev]
;Alias=devbox
;RemoteDir=~/uploads
");
    reveal_with_fuel(free_of, 90);
}

proof fn lemma_default_section()
    ensures
        config::entry(seq![
            '[', 'S', 'e', 'r', 'v', 'e', 'r', ':', 'p', 'r', 'o', 'd', ']',
        ]) == config::Entry::Section("prod"@),
{
    let t = seq!['[', 'S', 'e', 'r', 'v', 'e', 'r', ':', 'p', 'r', 'o', 'd', ']'];
    let section = seq!['S', 'e', 'r', 'v', 'e', 'r', ':', 'p', 'r', 'o', 'd'];
    let name = seq!['p', 'r', 'o', 'd'];
    reveal_strlit("Server:");
    reveal_strlit("prod");
    assert(text::trimmed(t) == t);
    assert(t.subrange(1, t.len() - 1) == section);
    assert(text::trimmed(section) == section);
    assert("Server:"@ == seq!['S', 'e', 'r', 'v', 'e', 'r', ':']);
    assert(section.take(7) == "Server:"@);
    assert(section.skip(7) == name);
    assert(text::trimmed(name) == name);
    assert(name == "prod"@);
}

proof fn lemma_default_alias()
    ensures
        config::entry(seq![
            'A', 'l', 'i', 'a', 's', '=', 'm', 'y', 's', 'e', 'r', 'v', 'e', 'r',
        ]) == config::Entry::Alias("myserver"@),
{
    let t = seq!['A', 'l', 'i', 'a', 's', '=', 'm', 'y', 's', 'e', 'r', 'v', 'e', 'r'];
    let key = seq!['A', 'l', 'i', 'a', 's'];
    let value = seq!['m', 'y', 's', 'e', 'r', 'v', 'e', 'r'];
    reveal_strlit("alias");
    reveal_strlit("myserver");
    reveal_with_fuel(free_of, 6);
    lemma_position(t, 0, 5, '=');
    assert(t.skip(0) == t);
    assert(text::trimmed(t) == t);
    assert(t.take(5) == key);
    assert(text::trimmed(key) == key);
    assert(text::lowered(key) == seq!['a', 'l', 'i', 'a', 's']);
    assert("alias"@ == seq!['a', 'l', 'i', 'a', 's']);
    assert(t.skip(6) == value);
    assert(text::trimmed(value) == value);
    assert(value == "myserver"@);
}

proof fn lemma_default_remote_dir()
    ensures
        config::entry(seq![
            'R', 'e', 'm', 'o', 't', 'e', 'D', 'i', 'r', '=', '~', '/', '.', 'c', 'u', 'r', 's',
            'o', 'r', '-', 'd', 'r', 'o', 'p', '-', 'f', 'i', 'l', 'e', 's',
        ]) == config::Entry::RemoteDir(
            config::DEFAULT_REMOTE_DIR@,
        ),
{
    let t = seq![
        'R', 'e', 'm', 'o', 't', 'e', 'D', 'i', 'r', '=', '~', '/', '.', 'c', 'u', 'r', 's',
        'o', 'r', '-', 'd', 'r', 'o', 'p', '-', 'f', 'i', 'l', 'e', 's',
    ];
    let key = seq!['R', 'e', 'm', 'o', 't', 'e', 'D', 'i', 'r'];
    let value = seq![
        '~', '/', '.', 'c', 'u', 'r', 's', 'o', 'r', '-', 'd', 'r', 'o', 'p', '-', 'f', 'i',
        'l', 'e', 's',
    ];
    reveal_strlit("alias");
    reveal_strlit("remotedir");
    reveal_strlit("~/.cursor-drop-files");
    reveal_with_fuel(free_of, 10);
    lemma_position(t, 0, 9, '=');
    assert(t.skip(0) == t);
    assert(text::trimmed(t) == t);
    assert(t.take(9) == key);
    assert(text::trimmed(key) == key);
    assert(text::lowered(key) == seq!['r', 'e', 'm', 'o', 't', 'e', 'd', 'i', 'r']);
    assert("remotedir"@ == seq!['r', 'e', 'm', 'o', 't', 'e', 'd', 'i', 'r']);
    assert(t.skip(10) == value);
    assert(text::trimmed(value) == value);
    assert(value == config::DEFAULT_REMOTE_DIR@);
}

/// An ignored line before others changes nothing.
proof fn lemma_ignored(line: Seq<char>, ls: Seq<Seq<char>>)
    requires
        config::entry(line) is Ignored,
    ensures
        config::servers_in(seq![line] + ls) == config::servers_in(ls),
        config::last_alias(seq![line] + ls) == config::last_alias(ls),
        config::last_remote_dir(seq![line] + ls) == config::last_remote_dir(ls),
{
    assert((seq![line] + ls).drop_first() == ls);
}

/// The file of the first run describes one server: `prod`, reached by the alias
/// `myserver`, with the default directory.
pub proof fn law_default_ini_has_one_server()
    ensures
        config::configured(config::DEFAULT_INI@) == seq![
            config::ServerView {
                name: "prod"@,
                alias: "myserver"@,
                remote_dir: config::DEFAULT_REMOTE_DIR@,
            },
        ],
{
    let t = config::DEFAULT_INI@;
    lemma_default_ini_text();
    lemma_default_section();
    lemma_default_alias();
    lemma_default_remote_dir();
    reveal_strlit("myserver");
    reveal_strlit("~/.cursor-drop-files");
    let end = config::lines(t.skip(513));
    assert(t.skip(513) == Seq::<char>::empty());
    assert(end == seq![Seq::<char>::empty()] + Seq::<Seq<char>>::empty());
    lemma_ignored(Seq::empty(), Seq::empty());
    lemma_first_line(t, 492, 512);
    lemma_comment(t.subrange(492, 512));
    lemma_ignored(t.subrange(492, 512), config::lines(t.skip(513)));
    lemma_first_line(t, 478, 491);
    lemma_comment(t.subrange(478, 491));
    lemma_ignored(t.subrange(478, 491), config::lines(t.skip(492)));
    lemma_first_line(t, 464, 477);
    lemma_comment(t.subrange(464, 477));
    lemma_ignored(t.subrange(464, 477), config::lines(t.skip(478)));
    lemma_first_line(t, 463, 463);
    assert(t.subrange(463, 463) == Seq::<char>::empty());
    lemma_ignored(t.subrange(463, 463), config::lines(t.skip(464)));
    lemma_first_line(t, 432, 462);
    assert(config::servers_in(config::lines(t.skip(463))).len() == 0);
    assert(config::last_alias(config::lines(t.skip(463))).len() == 0);
    assert(config::last_remote_dir(config::lines(t.skip(463))).len() == 0);
    let from_432 = config::lines(t.skip(432));
    assert(from_432.drop_first() == config::lines(t.skip(463)));
    assert(config::servers_in(from_432).len() == 0);
    assert(config::last_alias(from_432).len() == 0);
    assert(config::last_remote_dir(from_432) == config::DEFAULT_REMOTE_DIR@);
    lemma_first_line(t, 417, 431);
    let from_417 = config::lines(t.skip(417));
    assert(from_417.drop_first() == config::lines(t.skip(432)));
    assert(config::servers_in(from_417).len() == 0);
    assert(config::last_alias(from_417) == "myserver"@);
    assert(config::last_remote_dir(from_417) == config::DEFAULT_REMOTE_DIR@);
    lemma_first_line(t, 403, 416);
    let from_403 = config::lines(t.skip(403));
    assert(from_403.drop_first() == config::lines(t.skip(417)));
    assert(config::servers_in(from_403) == seq![
            config::ServerView {
                name: "prod"@,
                alias: "myserver"@,
                remote_dir: config::DEFAULT_REMOTE_DIR@,
            },
        ]);
    lemma_first_line(t, 377, 402);
    lemma_comment(t.subrange(377, 402));
    lemma_ignored(t.subrange(377, 402), config::lines(t.skip(403)));
    lemma_first_line(t, 296, 376);
    lemma_comment(t.subrange(296, 376));
    lemma_ignored(t.subrange(296, 376), config::lines(t.skip(377)));
    lemma_first_line(t, 228, 295);
    lemma_comment(t.subrange(228, 295));
    lemma_ignored(t.subrange(228, 295), config::lines(t.skip(296)));
    lemma_first_line(t, 150, 227);
    lemma_comment(t.subrange(150, 227));
    lemma_ignored(t.subrange(150, 227), config::lines(t.skip(228)));
    lemma_first_line(t, 64, 149);
    lemma_comment(t.subrange(64, 149));
    lemma_ignored(t.subrange(64, 149), config::lines(t.skip(150)));
    lemma_first_line(t, 0, 63);
    lemma_comment(t.subrange(0, 63));
    lemma_ignored(t.subrange(0, 63), config::lines(t.skip(64)));
    assert(t.skip(0) == t);
}

/// The lines of two texts joined by a newline are those of the one and those of
/// the other.
pub proof fn law_lines_of_joined_texts(a: Seq<char>, b: Seq<char>)
    ensures
        config::lines(a.push('\n') + b) == config::lines(a) + config::lines(b),
{
    text::lemma_split_joined(a, '\n', b);
}

/// Lines that begin with a section header add what they describe, and nothing
/// to the servers before them.
proof fn lemma_servers_of_joined_lines(a: Seq<Seq<char>>, b: Seq<Seq<char>>)
    requires
        b.len() > 0,
        config::starts_section(config::entry(b[0])),
    ensures
        config::servers_in(a + b) == config::servers_in(a) + config::servers_in(b),
        config::last_alias(a + b) == config::last_alias(a),
        config::last_remote_dir(a + b) == config::last_remote_dir(a),
    decreases a.len(),
{
    if a.len() == 0 {
        assert(a + b == b);
    } else {
        lemma_servers_of_joined_lines(a.drop_first(), b);
        assert((a + b).drop_first() == a.drop_first() + b);
    }
}

/// A text that begins with a section header, put after another text, adds its
/// servers behind those of the other and changes none of them.
pub proof fn law_sections_append(a: Seq<char>, b: Seq<char>)
    requires
        config::starts_section(config::entry(config::lines(b)[0])),
    ensures
        config::configured(a.push('\n') + b) == config::configured(a) + config::configured(b),
{
    law_lines_of_joined_texts(a, b);
    lemma_servers_of_joined_lines(config::lines(a), config::lines(b));
}

proof fn lemma_ignored_between(a: Seq<Seq<char>>, line: Seq<char>, b: Seq<Seq<char>>)
    requires
        config::entry(line) is Ignored,
    ensures
        config::servers_in(a + (seq![line] + b)) == config::servers_in(a + b),
        config::last_alias(a + (seq![line] + b)) == config::last_alias(a + b),
        config::last_remote_dir(a + (seq![line] + b)) == config::last_remote_dir(a + b),
    decreases a.len(),
{
    if a.len() == 0 {
        lemma_ignored(line, b);
        assert(a + (seq![line] + b) == seq![line] + b);
        assert(a + b == b);
    } else {
        lemma_ignored_between(a.drop_first(), line, b);
        assert((a + (seq![line] + b)).drop_first() == a.drop_first() + (seq![line] + b));
        assert((a + b).drop_first() == a.drop_first() + b);
    }
}

/// Trimming leaves nothing of a text exactly where all of it is white space.
proof fn lemma_trimmed_blank(s: Seq<char>)
    requires
        forall|i: int| 0 <= i < s.len() ==> text::white_space(#[trigger] s[i]),
    ensures
        text::trimmed(s).len() == 0,
    decreases s.len(),
{
    if s.len() > 0 {
        lemma_trimmed_blank(s.drop_first());
        assert(text::trimmed(s) == text::trimmed(s.drop_first()));
    }
}

/// A line of white space alone, or one whose first other character is `;` or `#`.
pub open spec fn blank_or_comment(line: Seq<char>) -> bool {
    ||| forall|i: int| 0 <= i < line.len() ==> text::white_space(#[trigger] line[i])
    ||| exists|k: int| comment_from(line, k)
}

/// Whether a comment begins at `k`, behind white space alone.
pub open spec fn comment_from(line: Seq<char>, k: int) -> bool {
    &&& 0 <= k < line.len()
    &&& forall|i: int| 0 <= i < k ==> text::white_space(#[trigger] line[i])
    &&& line[k] == ';' || line[k] == '#'
}

proof fn lemma_blank_or_comment(line: Seq<char>)
    requires
        blank_or_comment(line),
    ensures
        config::entry(line) is Ignored,
{
    if forall|i: int| 0 <= i < line.len() ==> text::white_space(#[trigger] line[i]) {
        lemma_trimmed_blank(line);
    } else {
        lemma_trimmed_indented(line, choose|k: int| comment_from(line, k));
    }
}

/// Blank lines and comments are ignored, wherever they stand: without such a line,
/// be it the first, the last or any other, the servers are the same.
pub proof fn law_comments_and_blank_lines_ignored(s: Seq<char>, i: int)
    requires
        0 <= i < config::lines(s).len(),
        blank_or_comment(config::lines(s)[i]),
    ensures
        config::configured(s) == config::servers_in(config::lines(s).remove(i)),
{
    let ls = config::lines(s);
    let a = ls.take(i);
    let b = ls.skip(i + 1);
    lemma_blank_or_comment(ls[i]);
    lemma_ignored_between(a, ls[i], b);
    assert(a + (seq![ls[i]] + b) == ls);
    assert(a + b == ls.remove(i));
}

/// A blank line or a comment put before a text, behind it, or between two texts
/// changes no server.
pub proof fn law_comments_and_blank_lines_add_nothing(
    a: Seq<char>,
    line: Seq<char>,
    b: Seq<char>,
)
    requires
        !line.contains('\n'),
        blank_or_comment(line),
    ensures
        config::configured(line.push('\n') + b) == config::configured(b),
        config::configured(a.push('\n') + line) == config::configured(a),
        config::configured(a.push('\n') + (line.push('\n') + b)) == config::configured(
            a.push('\n') + b,
        ),
{
    let none = Seq::<Seq<char>>::empty();
    law_lines_of_joined_texts(a, line.push('\n') + b);
    law_lines_of_joined_texts(a, line);
    law_lines_of_joined_texts(line, b);
    law_lines_of_joined_texts(a, b);
    lemma_no_newline(line);
    lemma_blank_or_comment(line);
    lemma_ignored(line, config::lines(b));
    lemma_ignored_between(config::lines(a), line, config::lines(b));
    lemma_ignored_between(config::lines(a), line, none);
    assert(seq![line] + none == seq![line]);
    assert(config::lines(a) + none == config::lines(a));
}

proof fn lemma_no_newline(s: Seq<char>)
    requires
        !s.contains('\n'),
    ensures
        text::position(s, '\n') == s.len(),
        config::lines(s) == seq![s],
    decreases s.len(),
{
    if s.len() > 0 {
        assert(s[0] != '\n');
        assert(!s.drop_first().contains('\n')) by {
            assert forall|i: int| 0 <= i < s.len() - 1 implies s.drop_first()[i] != '\n' by {
                assert(s.drop_first()[i] == s[i + 1]);
            }
        }
        lemma_no_newline(s.drop_first());
    }
}

proof fn lemma_trimmed_indented(s: Seq<char>, k: int)
    requires
        0 <= k < s.len(),
        forall|i: int| 0 <= i < k ==> text::white_space(#[trigger] s[i]),
        !text::white_space(s[k]),
    ensures
        text::trimmed(s).len() > 0,
        text::trimmed(s)[0] == s[k],
    decreases k,
{
    if k == 0 {
        lemma_trim_keeps_first(s);
    } else {
        assert(text::white_space(s[0]));
        lemma_trimmed_indented(s.drop_first(), k - 1);
        assert(text::trimmed(s) == text::trimmed(s.drop_first()));
    }
}

/// Nothing at either end of a trimmed text is white space.
proof fn lemma_trimmed_ends(s: Seq<char>)
    ensures
        text::trimmed(s).len() > 0 ==> !text::white_space(text::trimmed(s)[0])
            && !text::white_space(text::trimmed(s).last()),
    decreases s.len(),
{
    if s.len() > 0 {
        if text::white_space(s[0]) {
            lemma_trimmed_ends(s.drop_first());
            assert(text::trimmed(s) == text::trimmed(s.drop_first()));
        } else {
            lemma_trim_keeps_first(s);
            if text::white_space(s.last()) {
                lemma_trimmed_ends(s.drop_last());
                assert(s.drop_last()[0] == s[0]);
                assert(text::trimmed(s) == text::trimmed(s.drop_last()));
            }
        }
    }
}

/// Not empty, and no white space at either end.
pub open spec fn tidy(s: Seq<char>) -> bool {
    text_laws::tidy(s)
}

proof fn lemma_last_values_tidy(ls: Seq<Seq<char>>)
    ensures
        config::last_alias(ls).len() > 0 ==> tidy(config::last_alias(ls)),
        config::last_remote_dir(ls).len() > 0 ==> tidy(config::last_remote_dir(ls)),
    decreases ls.len(),
{
    if ls.len() > 0 {
        lemma_last_values_tidy(ls.drop_first());
        let t = text::trimmed(ls[0]);
        lemma_trimmed_ends(t.skip(text::position(t, '=') + 1));
    }
}

proof fn lemma_servers_tidy(ls: Seq<Seq<char>>)
    ensures
        forall|i: int|
            0 <= i < config::servers_in(ls).len() ==> {
                let server = #[trigger] config::servers_in(ls)[i];
                tidy(server.name) && tidy(server.alias) && tidy(server.remote_dir)
            },
    decreases ls.len(),
{
    if ls.len() > 0 {
        let rest = ls.drop_first();
        lemma_servers_tidy(rest);
        lemma_last_values_tidy(rest);
        reveal_strlit("~/.cursor-drop-files");
        let t = text::trimmed(ls[0]);
        let section = text::trimmed(t.subrange(1, t.len() - 1));
        lemma_trimmed_ends(section.skip("Server:"@.len() as int));
        let all = config::servers_in(ls);
        assert forall|i: int| 0 <= i < all.len() implies {
            let server = #[trigger] all[i];
            tidy(server.name) && tidy(server.alias) && tidy(server.remote_dir)
        } by {
            let k = all.len() - config::servers_in(rest).len();
            if i >= k {
                assert(all[i] == config::servers_in(rest)[i - k]);
            }
        }
    }
}

/// Every server read from a text has a name, an alias and a directory, none of
/// them empty, none with white space at either end.
pub proof fn law_servers_are_complete(s: Seq<char>)
    ensures
        forall|i: int|
            0 <= i < config::configured(s).len() ==> {
                let server = #[trigger] config::configured(s)[i];
                tidy(server.name) && tidy(server.alias) && tidy(server.remote_dir)
            },
{
    lemma_servers_tidy(config::lines(s));
}

/// Whether `k` tells the last line that gives an alias; `None` where none does.
pub open spec fn last_alias_line(ls: Seq<Seq<char>>, k: Option<int>) -> bool {
    let from = match k {
        Some(i) => i + 1,
        None => 0,
    };
    &&& k matches Some(i) ==> 0 <= i < ls.len() && config::entry(ls[i]) is Alias
    &&& forall|j: int| from <= j < ls.len() ==> !(config::entry(#[trigger] ls[j]) is Alias)
}

/// Whether `k` tells the last line that gives a directory; `None` where none does.
pub open spec fn last_dir_line(ls: Seq<Seq<char>>, k: Option<int>) -> bool {
    let from = match k {
        Some(i) => i + 1,
        None => 0,
    };
    &&& k matches Some(i) ==> 0 <= i < ls.len() && config::entry(ls[i]) is RemoteDir
    &&& forall|j: int| from <= j < ls.len() ==> !(config::entry(#[trigger] ls[j]) is RemoteDir)
}

/// Whether no line begins a section.
pub open spec fn one_section(ls: Seq<Seq<char>>) -> bool {
    forall|j: int| 0 <= j < ls.len() ==> !config::starts_section(config::entry(#[trigger] ls[j]))
}

proof fn lemma_one_section_rest(ls: Seq<Seq<char>>)
    requires
        one_section(ls),
        ls.len() > 0,
    ensures
        one_section(ls.drop_first()),
        !config::starts_section(config::entry(ls[0])),
{
    assert forall|j: int| 0 <= j < ls.len() - 1 implies !config::starts_section(
        config::entry(#[trigger] ls.drop_first()[j]),
    ) by {
        assert(ls.drop_first()[j] == ls[j + 1]);
    }
}

/// The index of a line among those after the first.
spec fn one_less(k: Option<int>) -> Option<int> {
    match k {
        Some(i) if i > 0 => Some(i - 1),
        _ => None,
    }
}

proof fn lemma_values_not_empty(line: Seq<char>)
    ensures
        config::entry(line) matches config::Entry::Alias(v) ==> v.len() > 0,
        config::entry(line) matches config::Entry::RemoteDir(v) ==> v.len() > 0,
{
}

proof fn lemma_last_alias(ls: Seq<Seq<char>>, b: Seq<Seq<char>>, k: Option<int>)
    requires
        one_section(ls),
        b.len() == 0 || config::starts_section(config::entry(b[0])),
        last_alias_line(ls, k),
    ensures
        config::last_alias(ls + b) == match k {
            Some(i) => config::entry(ls[i])->Alias_0,
            None => seq![],
        },
    decreases ls.len(),
{
    if ls.len() == 0 {
        assert(ls + b == b);
    } else {
        let rest = ls.drop_first();
        lemma_one_section_rest(ls);
        lemma_values_not_empty(ls[0]);
        if let Some(i) = k {
            lemma_values_not_empty(ls[i]);
            if i > 0 {
                assert(rest[i - 1] == ls[i]);
            }
        } else {
            assert(!(config::entry(ls[0]) is Alias));
        }
        let from = match one_less(k) {
            Some(i) => i + 1,
            None => 0,
        };
        assert forall|j: int| from <= j < rest.len() implies !(config::entry(
            #[trigger] rest[j],
        ) is Alias) by {
            assert(rest[j] == ls[j + 1]);
        }
        lemma_last_alias(rest, b, one_less(k));
        assert((ls + b).drop_first() == rest + b);
        assert((ls + b)[0] == ls[0]);
    }
}

proof fn lemma_last_dir(ls: Seq<Seq<char>>, b: Seq<Seq<char>>, k: Option<int>)
    requires
        one_section(ls),
        b.len() == 0 || config::starts_section(config::entry(b[0])),
        last_dir_line(ls, k),
    ensures
        config::last_remote_dir(ls + b) == match k {
            Some(i) => config::entry(ls[i])->RemoteDir_0,
            None => seq![],
        },
    decreases ls.len(),
{
    if ls.len() == 0 {
        assert(ls + b == b);
    } else {
        let rest = ls.drop_first();
        lemma_one_section_rest(ls);
        lemma_values_not_empty(ls[0]);
        if let Some(i) = k {
            lemma_values_not_empty(ls[i]);
            if i > 0 {
                assert(rest[i - 1] == ls[i]);
            }
        } else {
            assert(!(config::entry(ls[0]) is RemoteDir));
        }
        let from = match one_less(k) {
            Some(i) => i + 1,
            None => 0,
        };
        assert forall|j: int| from <= j < rest.len() implies !(config::entry(
            #[trigger] rest[j],
        ) is RemoteDir) by {
            assert(rest[j] == ls[j + 1]);
        }
        lemma_last_dir(rest, b, one_less(k));
        assert((ls + b).drop_first() == rest + b);
        assert((ls + b)[0] == ls[0]);
    }
}

proof fn lemma_no_section_no_server(ls: Seq<Seq<char>>, b: Seq<Seq<char>>)
    requires
        one_section(ls),
    ensures
        config::servers_in(ls + b) == config::servers_in(b),
    decreases ls.len(),
{
    if ls.len() == 0 {
        assert(ls + b == b);
    } else {
        lemma_one_section_rest(ls);
        lemma_no_section_no_server(ls.drop_first(), b);
        assert((ls + b).drop_first() == ls.drop_first() + b);
        assert((ls + b)[0] == ls[0]);
    }
}

/// What stands before the first section, and in a section that is no server, adds no
/// server.
pub proof fn law_only_server_sections_add_servers(
    other: Seq<char>,
    ls: Seq<Seq<char>>,
    b: Seq<Seq<char>>,
)
    requires
        config::entry(other) is OtherSection,
        one_section(ls),
    ensures
        config::servers_in(ls) == Seq::<ServerView>::empty(),
        config::servers_in(ls + b) == config::servers_in(b),
        config::servers_in(seq![other] + (ls + b)) == config::servers_in(b),
{
    lemma_no_section_no_server(ls, b);
    lemma_no_section_no_server(ls, Seq::empty());
    assert(ls + Seq::<Seq<char>>::empty() == ls);
    assert((seq![other] + (ls + b)).drop_first() == ls + b);
}

/// A server section describes one server: its name is the header's, its alias the
/// value of the last alias line up to the next section, and its directory the value
/// of the last directory line there, wherever the two stand; the default directory
/// where there is no such line. Without an alias line it describes none. Sections
/// before and after it are not touched.
pub proof fn law_section_describes_its_server(
    a: Seq<Seq<char>>,
    header: Seq<char>,
    name: Seq<char>,
    body: Seq<Seq<char>>,
    alias: Option<int>,
    dir: Option<int>,
    b: Seq<Seq<char>>,
)
    requires
        config::entry(header) == config::Entry::Section(name),
        one_section(body),
        last_alias_line(body, alias),
        last_dir_line(body, dir),
        b.len() == 0 || config::starts_section(config::entry(b[0])),
    ensures
        config::servers_in(a + (seq![header] + (body + b))) == config::servers_in(a) + match alias {
            None => seq![],
            Some(i) => seq![
                ServerView {
                    name,
                    alias: config::entry(body[i])->Alias_0,
                    remote_dir: match dir {
                        None => "~/.cursor-drop-files"@,
                        Some(j) => config::entry(body[j])->RemoteDir_0,
                    },
                },
            ],
        } + config::servers_in(b),
{
    let rest = body + b;
    let section = seq![header] + rest;
    lemma_servers_of_joined_lines(a, section);
    assert(section.drop_first() == rest);
    lemma_last_alias(body, b, alias);
    lemma_last_dir(body, b, dir);
    lemma_no_section_no_server(body, b);
    if let Some(i) = alias {
        lemma_values_not_empty(body[i]);
    }
    if let Some(j) = dir {
        lemma_values_not_empty(body[j]);
    }
    let middle = config::described(name, config::last_alias(rest), config::last_remote_dir(rest));
    assert(config::servers_in(section) == middle + config::servers_in(b));
    assert(config::servers_in(a) + (middle + config::servers_in(b)) == config::servers_in(a)
        + middle + config::servers_in(b));
}

/// An alias line and a directory line next to each other may change places.
pub proof fn law_alias_and_directory_lines_commute(
    a: Seq<Seq<char>>,
    x: Seq<char>,
    y: Seq<char>,
    b: Seq<Seq<char>>,
)
    requires
        config::entry(x) is Alias,
        config::entry(y) is RemoteDir,
    ensures
        config::servers_in(a + (seq![x, y] + b)) == config::servers_in(a + (seq![y, x] + b)),
        config::last_alias(a + (seq![x, y] + b)) == config::last_alias(a + (seq![y, x] + b)),
        config::last_remote_dir(a + (seq![x, y] + b)) == config::last_remote_dir(
            a + (seq![y, x] + b),
        ),
    decreases a.len(),
{
    let xy = seq![x, y] + b;
    let yx = seq![y, x] + b;
    if a.len() == 0 {
        reveal_with_fuel(config::servers_in, 3);
        reveal_with_fuel(config::last_alias, 3);
        reveal_with_fuel(config::last_remote_dir, 3);
        assert(a + xy == xy);
        assert(a + yx == yx);
        assert(xy.drop_first().drop_first() == b);
        assert(yx.drop_first().drop_first() == b);
        assert(xy.drop_first()[0] == y);
        assert(yx.drop_first()[0] == x);
    } else {
        law_alias_and_directory_lines_commute(a.drop_first(), x, y, b);
        assert((a + xy).drop_first() == a.drop_first() + xy);
        assert((a + yx).drop_first() == a.drop_first() + yx);
    }
}

/// Lines joined by newlines.
pub open spec fn joined_lines(ls: Seq<Seq<char>>) -> Seq<char>
    decreases ls.len(),
{
    if ls.len() == 0 {
        seq![]
    } else if ls.len() == 1 {
        ls[0]
    } else {
        ls[0].push('\n') + joined_lines(ls.drop_first())
    }
}

/// The lines of a text hold no newline, and joined by newlines they are the text.
pub proof fn law_lines_make_up_the_text(s: Seq<char>)
    ensures
        config::lines(s).len() > 0,
        joined_lines(config::lines(s)) == s,
        forall|i: int|
            0 <= i < config::lines(s).len() ==> !(#[trigger] config::lines(s)[i]).contains('\n'),
    decreases s.len(),
{
    let nl = text::position(s, '\n');
    lemma_none_before(s, '\n');
    text::lemma_position_bounds(s, '\n');
    let ls = config::lines(s);
    if nl < s.len() {
        let rest = s.skip(nl + 1);
        law_lines_make_up_the_text(rest);
        assert(ls.drop_first() == config::lines(rest));
        assert(s.take(nl).push('\n') + rest == s);
        assert forall|i: int| 0 <= i < ls.len() implies !(#[trigger] ls[i]).contains('\n') by {
            if i > 0 {
                assert(ls[i] == config::lines(rest)[i - 1]);
            }
        }
    } else {
        assert(s.take(nl) == s);
    }
}

proof fn lemma_none_before(s: Seq<char>, c: char)
    ensures
        !s.take(text::position(s, c)).contains(c),
    decreases s.len(),
{
    text::lemma_position_bounds(s, c);
    if s.len() > 0 && s[0] != c {
        let rest = s.drop_first();
        lemma_none_before(rest, c);
        text::lemma_position_bounds(rest, c);
        let p = text::position(rest, c);
        let front = s.take(p + 1);
        assert forall|i: int| 0 <= i < front.len() implies #[trigger] front[i] != c by {
            if i > 0 {
                assert(front[i] == rest.take(p)[i - 1]);
                assert(rest.take(p).contains(rest.take(p)[i - 1]));
            }
        }
    }
}

/// The servers to work with are those of the file, where its text describes any, and
/// else the one of the first run.
pub proof fn law_loaded_servers(read: config::FileRead)
    ensures
        match read {
            config::FileRead::Text(s) if config::configured(s@).len() > 0 => config::loaded(read)
                == config::configured(s@),
            _ => config::loaded(read) == seq![
                ServerView {
                    name: "prod"@,
                    alias: "myserver"@,
                    remote_dir: "~/.cursor-drop-files"@,
                },
            ],
        },
{
    law_default_ini_has_one_server();
}

} // verus!
