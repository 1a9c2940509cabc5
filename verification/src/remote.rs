//! Where files go on the remote host: its home directory, asked for once and
//! remembered, and the configured directory made absolute.

use vstd::hash_map::StringHashMap;
use vstd::prelude::*;

use crate::place;
use crate::ssh;
use crate::text;
use crate::text_laws;

verus! {

/// Whether a directory is given from the root.
pub open spec fn absolute(dir: Seq<char>) -> bool {
    dir.len() > 0 && dir[0] == '/'
}

/// The directory under home that a configured directory names: what follows its
/// leading `~` and slashes.
pub open spec fn under_home(dir: Seq<char>) -> Seq<char> {
    text::without_leading(text::without_leading(dir, '~'), '/')
}

/// A path without the slashes at its end; of one that is nothing but slashes, the
/// root.
pub open spec fn without_end(path: Seq<char>) -> Seq<char> {
    let kept = text::without_trailing(path, '/');
    if kept.len() == 0 && path.len() > 0 {
        seq!['/']
    } else {
        kept
    }
}

/// The configured directory as a path on the remote: one given from the root
/// stands as it is, but for slashes at its end; another one is taken from the
/// remote home, if that is known.
pub open spec fn resolved(dir: Seq<char>, home: Option<Seq<char>>) -> Option<Seq<char>> {
    if absolute(dir) {
        Some(without_end(dir))
    } else {
        match home {
            Some(h) => {
                let rest = under_home(dir);
                Some(
                    if rest.len() == 0 {
                        without_end(h)
                    } else {
                        text::without_trailing(h, '/').push('/') + rest
                    },
                )
            },
            None => None,
        }
    }
}

/// The characters of an optional string.
pub open spec fn opt_view(s: Option<String>) -> Option<Seq<char>> {
    match s {
        Some(s) => Some(s@),
        None => None,
    }
}

/// Whether the remote home has to be known to resolve a directory.
pub fn needs_home(dir: &str) -> (r: bool)
    ensures
        r == !absolute(dir@),
{
    dir.is_empty() || dir.get_char(0) != '/'
}

/// Take the slashes from the end of a path, but for the root's.
fn trim_end(path: &[char]) -> (r: String)
    ensures
        r@ == without_end(path@),
{
    let kept = text::trim_end_matches(path, '/');
    if kept.len() == 0 && path.len() > 0 {
        let mut root = String::new();
        root.push('/');
        root
    } else {
        text::string_of(kept)
    }
}

/// Turn the configured remote dir into an absolute path on the remote, expanding
/// a leading `~` to the remote `$HOME`. `None` where the home is needed and not
/// known.
pub fn resolve_remote_dir(dir: &str, home: &Option<String>) -> (r: Option<String>)
    ensures
        opt_view(r) == resolved(dir@, opt_view(*home)),
{
    let chars = text::chars_of(dir);
    if !needs_home(dir) {
        return Some(trim_end(chars.as_slice()));
    }
    match home {
        None => None,
        Some(h) => {
            let home_chars = text::chars_of(h.as_str());
            let rest = text::trim_start_matches(
                text::trim_start_matches(chars.as_slice(), '~'),
                '/',
            );
            if rest.len() == 0 {
                return Some(trim_end(home_chars.as_slice()));
            }
            let mut full = text::string_of(text::trim_end_matches(home_chars.as_slice(), '/'));
            full.push('/');
            full.append(text::string_of(rest).as_str());
            Some(full)
        },
    }
}

/// What `String::from_utf8_lossy` makes of bytes that are no UTF-8.
pub uninterp spec fn repaired_utf8(bytes: Seq<u8>) -> Seq<char>;

/// The text that bytes spell: UTF-8 decoded, and repaired where it is invalid.
pub open spec fn lossy_text(bytes: Seq<u8>) -> Seq<char> {
    if vstd::utf8::valid_utf8(bytes) {
        vstd::utf8::decode_utf8(bytes)
    } else {
        repaired_utf8(bytes)
    }
}

/// `String::from_utf8_lossy`: valid UTF-8 is decoded; what becomes of other bytes
/// depends on them alone, and is named `repaired_utf8`.
#[verifier::external_body]
fn from_utf8_lossy(bytes: &[u8]) -> (r: String)
    ensures
        r@ == (if vstd::utf8::valid_utf8(bytes@) {
            vstd::utf8::decode_utf8(bytes@)
        } else {
            repaired_utf8(bytes@)
        }),
{
    String::from_utf8_lossy(bytes).into_owned()
}

/// What a remote command came to: whether it succeeded, and what it printed.
pub struct Output {
    pub success: bool,
    pub stdout: Vec<u8>,
}

/// The home that a reply to `echo $HOME` tells: none where the command did not
/// run, failed or printed nothing.
pub open spec fn told_home(reply: Option<Output>) -> Option<Seq<char>> {
    match reply {
        Some(out) if out.success && text::trimmed(lossy_text(out.stdout@)).len() > 0 => Some(
            text::trimmed(lossy_text(out.stdout@)),
        ),
        _ => None,
    }
}

/// The home that a command's output tells.
fn read_home(out: &Output) -> (r: Option<String>)
    ensures
        opt_view(r) == told_home(Some(*out)),
{
    if !out.success {
        return None;
    }
    let printed = from_utf8_lossy(out.stdout.as_slice());
    let chars = text::chars_of(printed.as_str());
    let home = text::trim(chars.as_slice());
    if home.len() == 0 {
        None
    } else {
        Some(text::string_of(home))
    }
}

/// The home directories of the hosts that have been asked, by alias.
pub struct HomeCache {
    homes: StringHashMap<String>,
}

impl View for HomeCache {
    type V = Map<Seq<char>, Seq<char>>;

    closed spec fn view(&self) -> Map<Seq<char>, Seq<char>> {
        self.homes@.map_values(|home: String| home@)
    }
}

/// The home that is known for an alias, if any.
pub open spec fn known_home(
    homes: Map<Seq<char>, Seq<char>>,
    alias: Seq<char>,
) -> Option<Seq<char>> {
    if homes.contains_key(alias) {
        Some(homes[alias])
    } else {
        None
    }
}

/// The homes that are known after a host was asked.
pub open spec fn homes_after(
    homes: Map<Seq<char>, Seq<char>>,
    alias: Seq<char>,
    reply: Option<Output>,
) -> Map<Seq<char>, Seq<char>> {
    match told_home(reply) {
        Some(h) => homes.insert(alias, h),
        None => homes,
    }
}

/// What looking a home up comes to.
pub enum Lookup {
    /// The home is known.
    Known(String),
    /// The host has to be asked, by `ssh` with these arguments.
    Ask(Vec<String>),
}

impl HomeCache {
    /// No host has been asked.
    pub fn new() -> (r: HomeCache)
        ensures
            r@ == Map::<Seq<char>, Seq<char>>::empty(),
    {
        let r = HomeCache { homes: StringHashMap::new() };
        assert(r@ == Map::<Seq<char>, Seq<char>>::empty());
        r
    }

    /// Look the home of an alias up: it is known, or the host has to be asked.
    pub fn look_up(&self, alias: &str) -> (r: Lookup)
        ensures
            match r {
                Lookup::Known(home) => known_home(self@, alias@) == Some(home@),
                Lookup::Ask(args) => known_home(self@, alias@) is None && text::texts(args@)
                    == ssh::options() + seq![alias@, "echo $HOME"@],
            },
    {
        match self.get(alias) {
            Some(home) => Lookup::Known(home),
            None => Lookup::Ask(ssh::run_ssh(alias, "echo $HOME")),
        }
    }

    /// The home that is known for an alias.
    pub fn get(&self, alias: &str) -> (r: Option<String>)
        ensures
            opt_view(r) == known_home(self@, alias@),
    {
        match self.homes.get(alias) {
            Some(home) => Some(home.clone()),
            None => None,
        }
    }

    /// The home that a host tells, remembered where it tells one.
    pub fn remote_home(&mut self, alias: &str, reply: &Option<Output>) -> (r: Option<String>)
        ensures
            opt_view(r) == told_home(*reply),
            final(self)@ == homes_after(old(self)@, alias@, *reply),
    {
        let told = match reply {
            Some(out) => read_home(out),
            None => None,
        };
        if let Some(home) = &told {
            self.homes.insert(alias.to_owned(), home.clone());
            assert(self@ == old(self)@.insert(alias@, home@));
        }
        told
    }
}

proof fn lemma_drop_trailing_prefix(s: Seq<char>, f: spec_fn(char) -> bool)
    ensures
        text::drop_trailing(s, f).is_prefix_of(s),
        text::drop_trailing(s, f).len() > 0 ==> !f(text::drop_trailing(s, f).last()),
    decreases s.len(),
{
    if s.len() > 0 && f(s.last()) {
        lemma_drop_trailing_prefix(s.drop_last(), f);
    }
}

/// A resolved directory is a path from the root, where the home is one. It ends in
/// no slash, but where it is the root itself, or where the configured one under
/// home does.
pub proof fn law_resolved_from_root(dir: Seq<char>, home: Option<Seq<char>>)
    requires
        !absolute(dir) ==> home is Some && absolute(home->0),
    ensures
        resolved(dir, home) is Some,
        absolute(resolved(dir, home)->0),
        absolute(dir) || under_home(dir).len() == 0 ==> resolved(dir, home)->0 == seq!['/']
            || resolved(dir, home)->0.last() != '/',
{
    lemma_drop_trailing_prefix(dir, text::equal_to('/'));
    if !absolute(dir) {
        lemma_drop_trailing_prefix(home->0, text::equal_to('/'));
        let base = text::without_trailing(home->0, '/');
        if base.len() > 0 {
            assert(base[0] == home->0[0]);
        }
    } else {
        let d = text::without_trailing(dir, '/');
        if d.len() > 0 {
            assert(d[0] == dir[0]);
        }
    }
}

proof fn lemma_without_end_place(path: Seq<char>)
    ensures
        place::parts(without_end(path)) == place::parts(path),
{
    place::lemma_slashes_at_end(path);
    place::lemma_slashes_at_end(seq!['/']);
    assert(seq!['/'].drop_last() == Seq::<char>::empty());
    reveal_with_fuel(text::drop_trailing, 2);
    if without_end(path) == seq!['/'] {
        lemma_drop_trailing_prefix(path, text::equal_to('/'));
        assert(text::without_trailing(path, '/') == Seq::<char>::empty());
        assert(text::without_trailing(seq!['/'], '/') == Seq::<char>::empty());
    }
}

/// A directory given from the root keeps its parts, once resolved.
pub proof fn law_resolved_keeps_the_parts(dir: Seq<char>, home: Option<Seq<char>>)
    requires
        absolute(dir),
    ensures
        resolved(dir, home) matches Some(d) && place::parts(d) == place::parts(dir),
{
    lemma_without_end_place(dir);
}

/// `~` names the home, with or without slashes and `.` behind it, and however the
/// home is told.
pub proof fn law_tilde_names_the_home(dir: Seq<char>, home: Seq<char>)
    requires
        !absolute(dir),
        place::parts(under_home(dir)).len() == 0,
    ensures
        resolved(dir, Some(home)) matches Some(d) && place::parts(d) == place::parts(home),
{
    let rest = under_home(dir);
    lemma_without_end_place(home);
    if rest.len() > 0 {
        let base = text::without_trailing(home, '/');
        place::lemma_slashes_at_end(home);
        place::law_parts_of_joined_paths(base, rest);
    }
}

/// A directory given from the root needs no home, and none changes it: it is used
/// as it is, but for slashes at its end.
pub proof fn law_absolute_needs_no_home(
    dir: Seq<char>,
    home: Option<Seq<char>>,
    other: Option<Seq<char>>,
)
    requires
        absolute(dir),
    ensures
        resolved(dir, home) is Some,
        resolved(dir, home) == resolved(dir, other),
        dir.last() != '/' || dir == seq!['/'] ==> resolved(dir, home) == Some(dir),
{
    if dir == seq!['/'] {
        assert(dir.drop_last() == Seq::<char>::empty());
        reveal_with_fuel(text::drop_trailing, 2);
    }
}

/// A leading `~` expands to the remote home: `~/x` is `x` under the home, with one
/// slash between the two.
pub proof fn law_tilde_expands(rest: Seq<char>, home: Seq<char>)
    requires
        rest.len() > 0,
        rest[0] != '/',
    ensures
        resolved(seq!['~', '/'] + rest, Some(home)) == Some(
            text::without_trailing(home, '/').push('/') + rest,
        ),
        home.len() > 0 && home.last() != '/' ==> resolved(seq!['~', '/'] + rest, Some(home))
            == Some(home.push('/') + rest),
{
    let dir = seq!['~', '/'] + rest;
    let slash = seq!['/'] + rest;
    reveal_with_fuel(text::drop_leading, 3);
    assert(dir.drop_first() == slash);
    assert(slash.drop_first() == rest);
}

/// A host that has told its home is known from then on, until it tells another;
/// a failed question changes nothing, and one host says nothing of another.
pub proof fn law_home_is_remembered(
    homes: Map<Seq<char>, Seq<char>>,
    alias: Seq<char>,
    reply: Option<Output>,
    other: Seq<char>,
)
    ensures
        told_home(reply) is Some ==> known_home(homes_after(homes, alias, reply), alias)
            == told_home(reply),
        told_home(reply) is None ==> homes_after(homes, alias, reply) == homes,
        other != alias ==> known_home(homes_after(homes, alias, reply), other) == known_home(
            homes,
            other,
        ),
{
}

/// The text of `k` times `c`.
pub open spec fn times(c: char, k: nat) -> Seq<char> {
    Seq::new(k, |i: int| c)
}

proof fn lemma_leading_times(c: char, k: nat, s: Seq<char>)
    ensures
        text::without_leading(times(c, k) + s, c) == text::without_leading(s, c),
    decreases k,
{
    let all = times(c, k) + s;
    if k == 0 {
        assert(all == s);
    } else {
        lemma_leading_times(c, (k - 1) as nat, s);
        assert(all.drop_first() == times(c, (k - 1) as nat) + s);
    }
}

proof fn lemma_trailing_times(s: Seq<char>, c: char, k: nat)
    ensures
        text::without_trailing(s + times(c, k), c) == text::without_trailing(s, c),
    decreases k,
{
    let all = s + times(c, k);
    if k == 0 {
        assert(all == s);
    } else {
        lemma_trailing_times(s, c, (k - 1) as nat);
        assert(all.drop_last() == s + times(c, (k - 1) as nat));
    }
}

/// A directory given from the root loses the slashes at its end and nothing else;
/// slashes alone are the root.
pub proof fn law_absolute_directory_resolved(dir: Seq<char>, slashes: nat, home: Option<Seq<char>>)
    requires
        absolute(dir),
        dir.last() != '/',
    ensures
        resolved(dir + times('/', slashes), home) == Some(dir),
        slashes > 0 ==> resolved(times('/', slashes), home) == Some(seq!['/']),
{
    lemma_trailing_times(dir, '/', slashes);
    assert((dir + times('/', slashes))[0] == dir[0]);
    let none = Seq::<char>::empty();
    lemma_trailing_times(none, '/', slashes);
    assert(none + times('/', slashes) == times('/', slashes));
}

/// A directory that is not given from the root is taken from the home: what follows
/// its leading `~` and slashes stands under the home, with one slash between the two,
/// whatever slashes the home is told with at its end.
pub proof fn law_directory_resolved_under_home(
    tildes: nat,
    slashes: nat,
    rest: Seq<char>,
    base: Seq<char>,
    ends: nat,
)
    requires
        tildes > 0 || slashes == 0,
        rest.len() > 0 ==> rest[0] != '/' && (slashes == 0 ==> rest[0] != '~'),
        base.len() > 0 ==> base.last() != '/',
        base.len() == 0 ==> ends > 0,
    ensures
        resolved(times('~', tildes) + (times('/', slashes) + rest), Some(base + times('/', ends)))
            == Some(
            if rest.len() > 0 {
                base + seq!['/'] + rest
            } else if base.len() > 0 {
                base
            } else {
                seq!['/']
            },
        ),
        resolved(times('~', tildes) + (times('/', slashes) + rest), None) is None,
{
    let tail = times('/', slashes) + rest;
    let dir = times('~', tildes) + tail;
    lemma_leading_times('~', tildes, tail);
    lemma_leading_times('/', slashes, rest);
    if tildes > 0 {
        assert(dir[0] == '~');
    } else {
        assert(dir == rest);
    }
    if slashes > 0 {
        assert(tail[0] == '/');
    } else {
        assert(tail == rest);
    }
    assert(under_home(dir) == rest);
    lemma_trailing_times(base, '/', ends);
    assert(base.push('/') + rest == base + seq!['/'] + rest);
}

/// The home is what the host printed, without the white space around it. A host that
/// did not answer, failed, or printed white space alone tells none.
pub proof fn law_home_is_what_was_printed(a: Seq<char>, home: Seq<char>, b: Seq<char>, out: Output)
    requires
        text_laws::blank(a),
        text_laws::blank(b),
        text_laws::tidy(home) || home.len() == 0,
        out.stdout@ == vstd::utf8::encode_utf8(a + home + b),
    ensures
        told_home(None) is None,
        !out.success ==> told_home(Some(out)) is None,
        out.success && home.len() > 0 ==> told_home(Some(out)) == Some(home),
        home.len() == 0 ==> told_home(Some(out)) is None,
{
    vstd::utf8::encode_utf8_valid_utf8(a + home + b);
    vstd::utf8::encode_utf8_decode_utf8(a + home + b);
    text_laws::law_trimming_undoes_padding(a, home, b);
}

} // verus!
