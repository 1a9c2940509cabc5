//! Tiny INI configuration. The SSH alias and the remote directory of each
//! server stand in a `[Server:<name>]` section; the menu switches the active
//! server for the session, and nothing is ever written back.

use vstd::prelude::*;
use vstd::slice::slice_subrange;

use crate::config_laws;
use crate::text;

verus! {

/// A remote host to upload to.
pub struct Server {
    pub name: String,
    pub alias: String,
    pub remote_dir: String,
}

/// What a `Server` says, as character sequences.
#[verifier::ext_equal]
pub struct ServerView {
    pub name: Seq<char>,
    pub alias: Seq<char>,
    pub remote_dir: Seq<char>,
}

impl View for Server {
    type V = ServerView;

    open spec fn view(&self) -> ServerView {
        ServerView { name: self.name@, alias: self.alias@, remote_dir: self.remote_dir@ }
    }
}

impl Clone for Server {
    fn clone(&self) -> (r: Server)
        ensures
            r@ == self@,
    {
        Server {
            name: self.name.clone(),
            alias: self.alias.clone(),
            remote_dir: self.remote_dir.clone(),
        }
    }
}

/// The servers of a list, each by its view.
pub open spec fn views(servers: Seq<Server>) -> Seq<ServerView> {
    servers.map_values(|s: Server| s@)
}

/// Where files go when a section names no directory.
pub const DEFAULT_REMOTE_DIR: &'static str = "~/.cursor-drop-files";

/// The file written on the first run.
pub const DEFAULT_INI: &'static str = "\
; CursorDrop config — list servers as [Server:<name>] sections.
;   Alias     = SSH host alias from your ~/.ssh/config (the host the session runs on)
;   RemoteDir = upload target on the remote. '~' expands to the remote $HOME;
;               an absolute path (starting with '/') is used as-is.
; Right-click the widget to switch the active server. The first server listed is
; the default active one.
[Server:prod]
Alias=myserver
RemoteDir=~/.cursor-drop-files

;[Server:dev]
;Alias=devbox
;RemoteDir=~/uploads
";

/// What one line of the file says.
pub enum Entry<T> {
    /// Nothing: a blank line, a comment, an unknown key, an empty value.
    Ignored,
    /// The start of a section that is no server.
    OtherSection,
    /// The start of the section of the server with this name.
    Section(T),
    /// A value for the current server's alias.
    Alias(T),
    /// A value for the current server's directory.
    RemoteDir(T),
}

impl View for Entry<String> {
    type V = Entry<Seq<char>>;

    open spec fn view(&self) -> Entry<Seq<char>> {
        match self {
            Entry::Ignored => Entry::Ignored,
            Entry::OtherSection => Entry::OtherSection,
            Entry::Section(s) => Entry::Section(s@),
            Entry::Alias(s) => Entry::Alias(s@),
            Entry::RemoteDir(s) => Entry::RemoteDir(s@),
        }
    }
}

/// What a section header stands for, given the text between its brackets.
pub open spec fn section_entry(inner: Seq<char>) -> Entry<Seq<char>> {
    let section = text::trimmed(inner);
    let tag = "Server:"@;
    let name = text::trimmed(section.skip(tag.len() as int));
    if tag.is_prefix_of(section) && name.len() > 0 {
        Entry::Section(name)
    } else {
        Entry::OtherSection
    }
}

/// What a `key=value` line stands for. Keys match in any ASCII case.
pub open spec fn setting_entry(line: Seq<char>) -> Entry<Seq<char>> {
    let eq = text::position(line, '=');
    let key = text::lowered(text::trimmed(line.take(eq)));
    let value = text::trimmed(line.skip(eq + 1));
    if eq >= line.len() || value.len() == 0 {
        Entry::Ignored
    } else if key == "alias"@ {
        Entry::Alias(value)
    } else if key == "remotedir"@ {
        Entry::RemoteDir(value)
    } else {
        Entry::Ignored
    }
}

/// What a line says.
pub open spec fn entry(line: Seq<char>) -> Entry<Seq<char>> {
    let t = text::trimmed(line);
    if t.len() == 0 || t[0] == '#' || t[0] == ';' {
        Entry::Ignored
    } else if t.len() >= 2 && t[0] == '[' && t.last() == ']' {
        section_entry(t.subrange(1, t.len() - 1))
    } else {
        setting_entry(t)
    }
}

/// Whether an entry begins a section.
pub open spec fn starts_section(e: Entry<Seq<char>>) -> bool {
    e is Section || e is OtherSection
}

/// The lines of a text: what stands between its newlines.
pub open spec fn lines(s: Seq<char>) -> Seq<Seq<char>> {
    text::split(s, '\n')
}

/// The last alias given before the next section; empty where there is none.
pub open spec fn last_alias(ls: Seq<Seq<char>>) -> Seq<char>
    decreases ls.len(),
{
    if ls.len() == 0 || starts_section(entry(ls[0])) {
        seq![]
    } else {
        let later = last_alias(ls.drop_first());
        match entry(ls[0]) {
            Entry::Alias(value) if later.len() == 0 => value,
            _ => later,
        }
    }
}

/// The last directory given before the next section; empty where there is none.
pub open spec fn last_remote_dir(ls: Seq<Seq<char>>) -> Seq<char>
    decreases ls.len(),
{
    if ls.len() == 0 || starts_section(entry(ls[0])) {
        seq![]
    } else {
        let later = last_remote_dir(ls.drop_first());
        match entry(ls[0]) {
            Entry::RemoteDir(value) if later.len() == 0 => value,
            _ => later,
        }
    }
}

/// The server that a section describes: none without an alias, and the default
/// directory where the section gives none.
pub open spec fn described(
    name: Seq<char>,
    alias: Seq<char>,
    remote_dir: Seq<char>,
) -> Seq<ServerView> {
    if alias.len() == 0 {
        seq![]
    } else if remote_dir.len() == 0 {
        seq![ServerView { name, alias, remote_dir: DEFAULT_REMOTE_DIR@ }]
    } else {
        seq![ServerView { name, alias, remote_dir }]
    }
}

/// The servers that the lines describe, in their order.
pub open spec fn servers_in(ls: Seq<Seq<char>>) -> Seq<ServerView>
    decreases ls.len(),
{
    if ls.len() == 0 {
        seq![]
    } else {
        let rest = ls.drop_first();
        match entry(ls[0]) {
            Entry::Section(name) => described(name, last_alias(rest), last_remote_dir(rest))
                + servers_in(rest),
            _ => servers_in(rest),
        }
    }
}

/// The servers that a configuration text describes, in its order.
pub open spec fn configured(s: Seq<char>) -> Seq<ServerView> {
    servers_in(lines(s))
}

/// `a`, or `b` where `a` is empty.
spec fn or_else(a: Seq<char>, b: Seq<char>) -> Seq<char> {
    if a.len() == 0 {
        b
    } else {
        a
    }
}

/// What is still to come of the list: the server being read, finished by the
/// lines that are left, and the servers that those describe.
spec fn still_to_come(cur: Option<ServerView>, ls: Seq<Seq<char>>) -> Seq<ServerView> {
    match cur {
        Some(c) => described(
            c.name,
            or_else(last_alias(ls), c.alias),
            or_else(last_remote_dir(ls), c.remote_dir),
        ) + servers_in(ls),
        None => servers_in(ls),
    }
}

/// What the text between a header's brackets stands for.
fn read_section(inner: &[char]) -> (r: Entry<String>)
    ensures
        r@ == section_entry(inner@),
{
    let section = text::trim(inner);
    let tag = text::chars_of("Server:");
    if text::starts_with(section, tag.as_slice()) {
        let name = text::trim(slice_subrange(section, tag.len(), section.len()));
        assert(section@.subrange(tag@.len() as int, section@.len() as int) == section@.skip(
            tag@.len() as int,
        ));
        if name.len() > 0 {
            return Entry::Section(text::string_of(name));
        }
    }
    Entry::OtherSection
}

/// What a `key=value` line stands for.
fn read_setting(line: &[char]) -> (r: Entry<String>)
    ensures
        r@ == setting_entry(line@),
{
    let eq = text::find(line, '=');
    if eq >= line.len() {
        return Entry::Ignored;
    }
    let key = text::trim(slice_subrange(line, 0, eq));
    let value = text::trim(slice_subrange(line, eq + 1, line.len()));
    assert(line@.subrange(0, eq as int) == line@.take(eq as int));
    assert(line@.subrange(eq + 1, line@.len() as int) == line@.skip(eq + 1));
    if value.len() == 0 {
        Entry::Ignored
    } else if text::lowers_to(key, text::chars_of("alias").as_slice()) {
        Entry::Alias(text::string_of(value))
    } else if text::lowers_to(key, text::chars_of("remotedir").as_slice()) {
        Entry::RemoteDir(text::string_of(value))
    } else {
        Entry::Ignored
    }
}

/// What a line says.
fn read_line(line: &[char]) -> (r: Entry<String>)
    ensures
        r@ == entry(line@),
{
    let t = text::trim(line);
    if t.len() == 0 || t[0] == '#' || t[0] == ';' {
        Entry::Ignored
    } else if t.len() >= 2 && t[0] == '[' && t[t.len() - 1] == ']' {
        read_section(slice_subrange(t, 1, t.len() - 1))
    } else {
        read_setting(t)
    }
}

/// Append the server that has been read, if any, to the list.
fn finish(cur: Option<Server>, out: &mut Vec<Server>)
    ensures
        views(final(out)@) == views(old(out)@) + match cur {
            Some(c) => described(c.name@, c.alias@, c.remote_dir@),
            None => seq![],
        },
{
    if let Some(mut server) = cur {
        if !server.alias.as_str().is_empty() {
            if server.remote_dir.as_str().is_empty() {
                server.remote_dir = DEFAULT_REMOTE_DIR.to_owned();
            }
            out.push(server);
        }
    }
}

/// Parse INI text into a list of servers.
///
/// A new server starts at a `[Server:<name>]` header; other section headers end
/// the server before them and start none. `Alias` and `RemoteDir` keys apply to
/// the server being read. A server is only kept if it has a non-empty `Alias`;
/// its `RemoteDir` falls back to the default when omitted.
pub fn parse(text: &str) -> (r: Vec<Server>)
    ensures
        views(r@) == configured(text@),
{
    let chars = text::chars_of(text);
    let mut rest: &[char] = chars.as_slice();
    let mut out: Vec<Server> = Vec::new();
    let mut cur: Option<Server> = None;
    let mut more = true;
    let ghost mut left = lines(chars@);
    while more
        invariant
            more ==> left == lines(rest@),
            !more ==> left.len() == 0,
            configured(text@) == views(out@) + still_to_come(
                match cur {
                    Some(c) => Some(c@),
                    None => None,
                },
                left,
            ),
        decreases left.len(),
    {
        let nl = text::find(rest, '\n');
        let line = slice_subrange(rest, 0, nl);
        assert(line@ == left[0]);
        if nl < rest.len() {
            rest = slice_subrange(rest, nl + 1, rest.len());
        } else {
            more = false;
        }
        proof {
            left = left.drop_first();
        }
        match read_line(line) {
            Entry::Ignored => {},
            Entry::OtherSection => {
                finish(cur, &mut out);
                cur = None;
            },
            Entry::Section(name) => {
                finish(cur, &mut out);
                cur = Some(Server { name, alias: String::new(), remote_dir: String::new() });
            },
            Entry::Alias(value) => {
                if let Some(mut server) = cur {
                    server.alias = value;
                    cur = Some(server);
                }
            },
            Entry::RemoteDir(value) => {
                if let Some(mut server) = cur {
                    server.remote_dir = value;
                    cur = Some(server);
                }
            },
        }
    }
    finish(cur, &mut out);
    out
}

/// What reading the file came to.
pub enum FileRead {
    /// It holds this text.
    Text(String),
    /// There is none.
    Missing,
    /// There is one, and it could not be read as text.
    Unreadable,
}

/// Whether `DEFAULT_INI` is written: on the first run, when there is no file yet. A
/// file that could not be read is left alone.
pub fn writes_default(read: &FileRead) -> (r: bool)
    ensures
        r == (read is Missing),
{
    match read {
        FileRead::Missing => true,
        _ => false,
    }
}

/// The servers to work with, given what reading the file came to: those that its
/// text describes, or those of `DEFAULT_INI` where there is no text or it describes
/// none.
pub open spec fn loaded(read: FileRead) -> Seq<ServerView> {
    match read {
        FileRead::Text(s) if configured(s@).len() > 0 => configured(s@),
        _ => configured(DEFAULT_INI@),
    }
}

/// The configured servers, given what reading the file came to. There is always at
/// least one.
pub fn load(read: &FileRead) -> (r: Vec<Server>)
    ensures
        views(r@) == loaded(*read),
        r@.len() > 0,
{
    proof {
        config_laws::law_default_ini_has_one_server();
    }
    let servers = match read {
        FileRead::Text(text) => parse(text.as_str()),
        _ => parse(DEFAULT_INI),
    };
    let servers = if servers.len() == 0 {
        parse(DEFAULT_INI)
    } else {
        servers
    };
    assert(views(servers@).len() == servers@.len());
    servers
}

} // verus!
