//! The configured servers with the active one, and the context menu.

use vstd::prelude::*;

use crate::config;
use crate::config::{Server, ServerView};

verus! {

/// The servers of a session and which of them is active. The choice lasts for
/// the session; nothing is written back.
pub struct Session {
    servers: Vec<Server>,
    active: usize,
}

/// What a `Session` says.
#[verifier::ext_equal]
pub struct SessionView {
    pub servers: Seq<ServerView>,
    pub active: int,
}

impl View for Session {
    type V = SessionView;

    closed spec fn view(&self) -> SessionView {
        SessionView { servers: config::views(self.servers@), active: self.active as int }
    }
}

impl SessionView {
    /// There is a server, and the active one is one of the list.
    pub open spec fn wf(self) -> bool {
        0 <= self.active < self.servers.len()
    }

    /// The server that uploads go to.
    pub open spec fn active_server(self) -> ServerView {
        self.servers[self.active]
    }

    /// The session with another server active.
    pub open spec fn selecting(self, i: int) -> SessionView {
        SessionView { active: i, ..self }
    }
}

impl Session {
    /// A session with the given servers; the first one is active.
    pub fn new(servers: Vec<Server>) -> (r: Session)
        requires
            servers@.len() > 0,
        ensures
            r@.wf(),
            r@ == (SessionView { servers: config::views(servers@), active: 0 }),
    {
        Session { servers, active: 0 }
    }

    /// The configured servers.
    pub fn servers(&self) -> (r: &Vec<Server>)
        ensures
            config::views(r@) == self@.servers,
    {
        &self.servers
    }

    /// The server that uploads go to.
    pub fn active_server(&self) -> (r: Server)
        requires
            self@.wf(),
        ensures
            r@ == self@.active_server(),
    {
        self.servers[self.active].clone()
    }

    /// Ask before the active server's files are deleted.
    pub fn ask_flush(&self) -> (r: FlushPrompt)
        requires
            self@.wf(),
        ensures
            r@ == self@.active_server(),
    {
        FlushPrompt { server: self.active_server() }
    }

    /// Make another server the active one.
    pub fn select(&mut self, i: usize)
        requires
            i < old(self)@.servers.len(),
        ensures
            final(self)@.wf(),
            final(self)@ == old(self)@.selecting(i as int),
    {
        self.active = i;
    }

    /// The entries of the context menu: the servers, where there is a choice, the
    /// active one checked; then what can be done.
    pub fn menu_items(&self) -> (r: Vec<MenuItem>)
        requires
            self@.wf(),
            self@.servers.len() <= usize::MAX - ID_SERVER_BASE,
        ensures
            item_views(r@) == menu(self@),
    {
        let mut out: Vec<MenuItem> = Vec::new();
        let n = self.servers.len();
        if n > 1 {
            for i in 0..n
                invariant
                    n == self.servers.len(),
                    n <= usize::MAX - ID_SERVER_BASE,
                    self@.servers == config::views(self.servers@),
                    self@.active == self.active,
                    item_views(out@) == server_items(self@).take(i as int),
            {
                let ghost before = out@;
                out.push(
                    MenuItem::Entry {
                        id: ID_SERVER_BASE + i,
                        label: self.servers[i].name.clone(),
                        checked: i == self.active,
                    },
                );
                assert(item_views(out@) == item_views(before).push(out@.last()@));
                assert(server_items(self@)[i as int] == out@.last()@);
            }
            assert(server_items(self@).take(n as int) == server_items(self@));
            push_separator(&mut out);
        }
        let ghost head = out@;
        assert(item_views(head) == server_part(self@));
        push_entry(&mut out, ID_PASTE, "Paste clipboard");
        push_entry(&mut out, ID_FLUSH, "Flush remote files");
        push_separator(&mut out);
        push_entry(&mut out, ID_LOG, "Show log");
        push_separator(&mut out);
        push_entry(&mut out, ID_EXIT, "Exit");
        assert(item_views(out@) == item_views(head) + action_items());
        out
    }
}

pub const ID_PASTE: usize = 101;

pub const ID_LOG: usize = 102;

pub const ID_EXIT: usize = 103;

pub const ID_FLUSH: usize = 104;

/// Server menu items get command IDs `ID_SERVER_BASE + index`.
pub const ID_SERVER_BASE: usize = 200;

/// A line of the menu.
pub enum MenuItem {
    Entry { id: usize, label: String, checked: bool },
    Separator,
}

/// A line of the menu, its label as characters.
#[verifier::ext_equal]
pub enum ItemView {
    Entry { id: int, label: Seq<char>, checked: bool },
    Separator,
}

impl View for MenuItem {
    type V = ItemView;

    open spec fn view(&self) -> ItemView {
        match self {
            MenuItem::Entry { id, label, checked } => ItemView::Entry {
                id: *id as int,
                label: label@,
                checked: *checked,
            },
            MenuItem::Separator => ItemView::Separator,
        }
    }
}

/// The lines of a menu, each by its view.
pub open spec fn item_views(items: Seq<MenuItem>) -> Seq<ItemView> {
    items.map_values(|m: MenuItem| m@)
}

/// An entry without a check mark.
pub open spec fn plain(id: int, label: Seq<char>) -> ItemView {
    ItemView::Entry { id, label, checked: false }
}

/// An entry for each server, labelled by its name, the active one checked.
pub open spec fn server_items(s: SessionView) -> Seq<ItemView> {
    Seq::new(
        s.servers.len(),
        |i: int|
            ItemView::Entry {
                id: ID_SERVER_BASE + i,
                label: s.servers[i].name,
                checked: i == s.active,
            },
    )
}

/// The part of the menu that offers the servers: none where there is one alone.
pub open spec fn server_part(s: SessionView) -> Seq<ItemView> {
    if s.servers.len() > 1 {
        server_items(s).push(ItemView::Separator)
    } else {
        seq![]
    }
}

/// The part of the menu that offers what can be done.
pub open spec fn action_items() -> Seq<ItemView> {
    seq![
        plain(ID_PASTE as int, "Paste clipboard"@),
        plain(ID_FLUSH as int, "Flush remote files"@),
        ItemView::Separator,
        plain(ID_LOG as int, "Show log"@),
        ItemView::Separator,
        plain(ID_EXIT as int, "Exit"@),
    ]
}

/// The lines of the context menu.
pub open spec fn menu(s: SessionView) -> Seq<ItemView> {
    server_part(s) + action_items()
}

/// Append an entry without a check mark.
fn push_entry(out: &mut Vec<MenuItem>, id: usize, label: &str)
    ensures
        item_views(final(out)@) == item_views(old(out)@).push(plain(id as int, label@)),
{
    out.push(MenuItem::Entry { id, label: label.to_owned(), checked: false });
}

/// Append a separator.
fn push_separator(out: &mut Vec<MenuItem>)
    ensures
        item_views(final(out)@) == item_views(old(out)@).push(ItemView::Separator),
{
    out.push(MenuItem::Separator);
}

/// What a menu command does.
pub enum MenuCommand {
    Select(usize),
    Paste,
    Flush,
    ShowLog,
    Exit,
    Nothing,
}

/// What a command of the menu of `n` servers does.
pub open spec fn command(cmd: int, n: int) -> MenuCommand {
    if ID_SERVER_BASE <= cmd < ID_SERVER_BASE + n {
        MenuCommand::Select((cmd - ID_SERVER_BASE) as usize)
    } else if cmd == ID_PASTE {
        MenuCommand::Paste
    } else if cmd == ID_FLUSH {
        MenuCommand::Flush
    } else if cmd == ID_LOG {
        MenuCommand::ShowLog
    } else if cmd == ID_EXIT {
        MenuCommand::Exit
    } else {
        MenuCommand::Nothing
    }
}

/// What a command of the menu of `n` servers does. A menu that is closed without
/// a choice gives 0, which does nothing.
pub fn menu_command(cmd: usize, n: usize) -> (r: MenuCommand)
    ensures
        r == command(cmd as int, n as int),
        r matches MenuCommand::Select(i) ==> i < n,
{
    if cmd >= ID_SERVER_BASE && cmd - ID_SERVER_BASE < n {
        MenuCommand::Select(cmd - ID_SERVER_BASE)
    } else if cmd == ID_PASTE {
        MenuCommand::Paste
    } else if cmd == ID_FLUSH {
        MenuCommand::Flush
    } else if cmd == ID_LOG {
        MenuCommand::ShowLog
    } else if cmd == ID_EXIT {
        MenuCommand::Exit
    } else {
        MenuCommand::Nothing
    }
}

/// The question before a flush, which cannot be undone.
pub open spec fn question(server: ServerView) -> Seq<char> {
    "Delete all files in "@ + server.alias + seq![':'] + server.remote_dir
        + " ?\n\nThis cannot be undone."@
}

/// A flush that waits for a confirmation. It knows the server that it asks about,
/// so that the answer holds for that one, whatever is active by then.
pub struct FlushPrompt {
    server: Server,
}

impl View for FlushPrompt {
    type V = ServerView;

    closed spec fn view(&self) -> ServerView {
        self.server@
    }
}

impl FlushPrompt {
    /// The question before a flush, which cannot be undone.
    pub fn flush_question(&self) -> (r: String)
        ensures
            r@ == question(self@),
    {
        let mut out = "Delete all files in ".to_owned();
        out.append(self.server.alias.as_str());
        out.push(':');
        out.append(self.server.remote_dir.as_str());
        out.append(" ?\n\nThis cannot be undone.");
        out
    }

    /// The server to flush: the one that the question named, on a yes, and none on
    /// any other answer.
    pub fn answer(self, yes: bool) -> (r: Option<Server>)
        ensures
            match r {
                Some(server) => yes && server@ == self@,
                None => !yes,
            },
    {
        if yes {
            Some(self.server)
        } else {
            None
        }
    }
}

/// Each entry of the menu does what it says: a server's entry selects that
/// server, and every other entry is told apart from all others.
pub proof fn law_menu_entries_do_what_they_say(s: SessionView, i: int)
    requires
        s.wf(),
        s.servers.len() <= usize::MAX - ID_SERVER_BASE,
        0 <= i < menu(s).len(),
    ensures
        menu(s)[i] matches ItemView::Entry { id, label, checked } ==> ({
            let done = command(id, s.servers.len() as int);
            let k = i - server_part(s).len();
            &&& s.servers.len() > 1 && i < s.servers.len() ==> done == MenuCommand::Select(
                i as usize,
            ) && label == s.servers[i].name && checked == (i == s.active)
            &&& k == 0 ==> done is Paste && label == "Paste clipboard"@
            &&& k == 1 ==> done is Flush && label == "Flush remote files"@
            &&& k == 3 ==> done is ShowLog && label == "Show log"@
            &&& k == 5 ==> done is Exit && label == "Exit"@
            &&& k >= 0 ==> !checked
        }),
        menu(s)[i] is Separator <==> (s.servers.len() > 1 && i == s.servers.len()) || i
            - server_part(s).len() == 2 || i - server_part(s).len() == 4,
{
}

/// No two entries of the menu give the same command.
pub proof fn law_menu_ids_differ(s: SessionView, i: int, j: int)
    requires
        s.wf(),
        0 <= i < menu(s).len(),
        0 <= j < menu(s).len(),
        menu(s)[i] is Entry,
        menu(s)[j] is Entry,
        menu(s)[i]->id == menu(s)[j]->id,
    ensures
        i == j,
{
}

/// With one server alone there is nothing to choose, and the menu offers none.
pub proof fn law_one_server_no_choice(s: SessionView)
    requires
        s.servers.len() == 1,
    ensures
        menu(s) == action_items(),
{
}

/// Choosing a server makes it the active one and changes nothing else; the
/// choice before it is forgotten.
pub proof fn law_selection_replaces_selection(s: SessionView, i: int, j: int)
    requires
        0 <= i < s.servers.len(),
        0 <= j < s.servers.len(),
    ensures
        s.selecting(i).selecting(j) == s.selecting(j),
        s.selecting(j).wf(),
        s.selecting(j).servers == s.servers,
        s.selecting(j).active_server() == s.servers[j],
{
}

/// Each command does one thing, and every number that is none of them does nothing.
pub proof fn law_commands(cmd: int, n: int, i: usize)
    requires
        0 <= cmd,
        0 <= n <= usize::MAX - 200,
    ensures
        command(cmd, n) == MenuCommand::Select(i) <==> i < n && cmd == 200 + i,
        command(cmd, n) is Paste <==> cmd == 101,
        command(cmd, n) is ShowLog <==> cmd == 102,
        command(cmd, n) is Exit <==> cmd == 103,
        command(cmd, n) is Flush <==> cmd == 104,
        command(cmd, n) is Nothing <==> !(101 <= cmd <= 104) && !(200 <= cmd < 200 + n),
{
}

/// The menu has an entry for each server and a separator, where there is a choice, and
/// then the same six lines.
pub proof fn law_menu_length(s: SessionView)
    ensures
        menu(s).len() == if s.servers.len() > 1 {
            s.servers.len() + 7
        } else {
            6
        },
{
}

/// The question before a flush names the host and the directory.
pub proof fn law_question_names_the_target(server: ServerView)
    ensures
        question(server) == "Delete all files in "@ + (server.alias + ":"@ + server.remote_dir)
            + " ?\n\nThis cannot be undone."@,
{
    reveal_strlit(":");
    assert(":"@ == seq![':']);
    assert("Delete all files in "@ + server.alias + ":"@ + server.remote_dir
        == "Delete all files in "@ + (server.alias + ":"@ + server.remote_dir));
}

} // verus!
