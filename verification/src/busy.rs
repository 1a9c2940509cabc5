//! The flag that lets one transfer run at a time.

use vstd::prelude::*;

use crate::config::{Server, ServerView};
use crate::ui::{Notice, NoticeView, StateKind};

verus! {

/// Lets one transfer run at a time: two would overwrite each other's clipboard
/// text, and a flush would delete what is arriving.
pub struct Busy {
    set: bool,
}

impl View for Busy {
    type V = bool;

    closed spec fn view(&self) -> bool {
        self.set
    }
}

impl Busy {
    /// Nothing runs.
    pub fn new() -> (r: Busy)
        ensures
            !r@,
    {
        Busy { set: false }
    }

    /// Start a transfer, unless one runs. Whether it started.
    pub fn enter(&mut self) -> (r: bool)
        ensures
            r == !old(self)@,
            final(self)@,
    {
        let free = !self.set;
        self.set = true;
        free
    }

    /// The transfer is over.
    pub fn leave(&mut self)
        ensures
            !final(self)@,
    {
        self.set = false;
    }
}

/// The report with which work on a server starts.
pub open spec fn started(title: Seq<char>, server: ServerView) -> NoticeView {
    NoticeView { kind: StateKind::Uploading, title, sub: server.name }
}

/// Start to upload to a server. `None` where a transfer is running already: that
/// one goes on, and what is shown of it stays.
pub fn handle_files(flag: &mut Busy, server: &Server) -> (r: Option<Notice>)
    ensures
        final(flag)@,
        match r {
            Some(n) => !old(flag)@ && n@ == started("Preparing"@, server@),
            None => old(flag)@,
        },
{
    if flag.enter() {
        Some(Notice::new(StateKind::Uploading, "Preparing", server.name.as_str()))
    } else {
        None
    }
}

/// Start to clear a server's directory. `None` where a transfer is running: the
/// two share the flag.
pub fn flush(flag: &mut Busy, server: &Server) -> (r: Option<Notice>)
    ensures
        final(flag)@,
        match r {
            Some(n) => !old(flag)@ && n@ == started("Clearing remote"@, server@),
            None => old(flag)@,
        },
{
    if flag.enter() {
        Some(Notice::new(StateKind::Uploading, "Clearing remote", server.name.as_str()))
    } else {
        None
    }
}

/// Work on a server starts with a report of a running transfer, under the server's
/// name.
pub proof fn law_start_names_the_server(title: Seq<char>, server: ServerView)
    ensures
        started(title, server).kind is Uploading,
        started(title, server).title == title,
        started(title, server).sub == server.name,
{
}

} // verus!
