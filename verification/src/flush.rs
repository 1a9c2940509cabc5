//! Clearing a server's remote directory, as the decisions between one outside
//! call and the next.

use vstd::prelude::*;

use crate::config::{Server, ServerView};
use crate::place;
use crate::remote;
use crate::text;
use crate::ui::{Notice, NoticeView, StateKind};
use crate::util;

verus! {

/// The remote command that deletes the files of a directory, hidden ones too, and
/// leaves its subdirectories alone. No glob takes part, so that it does not hang on
/// the remote shell which names are found. A directory that is not there has no
/// files to delete.
///
/// Where a path leads in the end, through links and `..`, the remote alone can tell.
/// So the command looks there once more, and fails before it deletes anything where
/// the directory is the root or the home.
pub open spec fn clear_command(dir: Seq<char>) -> Seq<char> {
    let d = util::quoted(dir);
    "test ! "@ + d + " -ef / && test ! "@ + d + " -ef \"$HOME\" && (test ! -d "@ + d + " || find "@
        + d + "/. ! -name . -prune ! -type d -exec rm -f {} +)"@
}

/// A directory that is never cleared: one of fewer than two bytes, the root, and
/// the remote home, with whatever slashes and `.` they are spelled.
pub open spec fn off_limits(dir: Seq<char>, home: Option<Seq<char>>) -> bool {
    ||| vstd::utf8::encode_utf8(dir).len() < 2
    ||| place::parts(dir).len() == 0
    ||| home matches Some(h) && place::parts(dir) == place::parts(h)
}

/// The remote command that deletes the files of a directory.
pub fn remote_clear(dir: &str) -> (r: String)
    ensures
        r@ == clear_command(dir@),
{
    let quoted = util::shell_quote(dir);
    let mut out = "test ! ".to_owned();
    out.append(quoted.as_str());
    out.append(" -ef / && test ! ");
    out.append(quoted.as_str());
    out.append(" -ef \"$HOME\" && (test ! -d ");
    out.append(quoted.as_str());
    out.append(" || find ");
    out.append(quoted.as_str());
    out.append("/. ! -name . -prune ! -type d -exec rm -f {} +)");
    out
}

/// Whether a directory is one that is never cleared.
fn is_off_limits(dir: &String, home: &Option<String>) -> (r: bool)
    ensures
        r == off_limits(dir@, remote::opt_view(*home)),
{
    if dir.as_str().as_bytes().len() < 2 {
        return true;
    }
    let parts = place::parts_of(dir.as_str());
    assert(text::texts(parts@).len() == parts.len());
    if parts.len() == 0 {
        return true;
    }
    match home {
        Some(h) => place::same_place(dir.as_str(), h.as_str()),
        None => false,
    }
}

/// What a flush waits for.
pub enum FlushStage<S> {
    /// The remote home, to resolve the directory and to hold it against.
    Home,
    /// The remote home, to hold the directory against.
    Guard { dir: S },
    /// The remote command.
    Clear,
    /// Nothing: the flush is over.
    Done,
}

/// How a flush ended.
#[derive(Clone, Copy, PartialEq, Eq, Structural)]
pub enum FlushEnd {
    /// The files were deleted.
    Cleared,
    /// The remote command failed.
    Failed,
    /// The remote home is needed, and not known.
    Unreachable,
    /// The directory is never cleared.
    Refused,
}

/// What a flush asks for.
pub enum FlushRequest<S> {
    /// The home on the remote.
    Home,
    /// To run a command on the remote.
    Ssh(S),
    /// Nothing more: how the flush ended.
    Done(FlushEnd),
}

/// What came of a request.
pub enum FlushEvent<S> {
    /// The home on the remote, if it is known.
    Home(Option<S>),
    /// Whether the remote command succeeded.
    Ssh(bool),
}

impl View for FlushStage<String> {
    type V = FlushStage<Seq<char>>;

    open spec fn view(&self) -> FlushStage<Seq<char>> {
        match self {
            FlushStage::Home => FlushStage::Home,
            FlushStage::Guard { dir } => FlushStage::Guard { dir: dir@ },
            FlushStage::Clear => FlushStage::Clear,
            FlushStage::Done => FlushStage::Done,
        }
    }
}

impl View for FlushRequest<String> {
    type V = FlushRequest<Seq<char>>;

    open spec fn view(&self) -> FlushRequest<Seq<char>> {
        match self {
            FlushRequest::Home => FlushRequest::Home,
            FlushRequest::Ssh(s) => FlushRequest::Ssh(s@),
            FlushRequest::Done(end) => FlushRequest::Done(*end),
        }
    }
}

impl View for FlushEvent<String> {
    type V = FlushEvent<Seq<char>>;

    open spec fn view(&self) -> FlushEvent<Seq<char>> {
        match self {
            FlushEvent::Home(home) => FlushEvent::Home(remote::opt_view(*home)),
            FlushEvent::Ssh(ok) => FlushEvent::Ssh(*ok),
        }
    }
}

/// What to do next: show a report, and see to a request, in this order.
pub struct FlushStep {
    pub notice: Option<Notice>,
    pub request: FlushRequest<String>,
}

/// What a `FlushStep` says.
#[verifier::ext_equal]
pub struct FlushStepView {
    pub notice: Option<NoticeView>,
    pub request: FlushRequest<Seq<char>>,
}

impl View for FlushStep {
    type V = FlushStepView;

    open spec fn view(&self) -> FlushStepView {
        FlushStepView {
            notice: match self.notice {
                Some(n) => Some(n@),
                None => None,
            },
            request: self.request@,
        }
    }
}

/// The end of a flush, with its report.
pub open spec fn flush_over(end: FlushEnd, sub: Seq<char>) -> (
    FlushStage<Seq<char>>,
    FlushStepView,
) {
    let (kind, title) = match end {
        FlushEnd::Cleared => (StateKind::Success, "Remote cleared"@),
        FlushEnd::Failed => (StateKind::Error, "Clear failed"@),
        FlushEnd::Unreachable => (StateKind::Error, "Host unreachable"@),
        FlushEnd::Refused => (StateKind::Error, "Unsafe RemoteDir"@),
    };
    (
        FlushStage::Done,
        FlushStepView {
            notice: Some(NoticeView { kind, title, sub }),
            request: FlushRequest::Done(end),
        },
    )
}

/// What a flush does with a directory, once the home is known or known to be
/// unknown: refuse it, or delete its files.
pub open spec fn clear_or_refuse(dir: Seq<char>, home: Option<Seq<char>>) -> (
    FlushStage<Seq<char>>,
    FlushStepView,
) {
    if off_limits(dir, home) {
        flush_over(FlushEnd::Refused, dir)
    } else {
        (
            FlushStage::Clear,
            FlushStepView { notice: None, request: FlushRequest::Ssh(clear_command(dir)) },
        )
    }
}

/// How a flush of a server's directory begins.
pub open spec fn flush_begin(server: ServerView) -> (FlushStage<Seq<char>>, FlushStepView) {
    let ask_home = FlushStepView { notice: None, request: FlushRequest::Home };
    match remote::resolved(server.remote_dir, None) {
        Some(dir) => if off_limits(dir, None) {
            flush_over(FlushEnd::Refused, dir)
        } else {
            (FlushStage::Guard { dir }, ask_home)
        },
        None => (FlushStage::Home, ask_home),
    }
}

/// How a flush goes on after an event that answers its last request.
pub open spec fn flush_next(
    server: ServerView,
    stage: FlushStage<Seq<char>>,
    event: FlushEvent<Seq<char>>,
) -> (FlushStage<Seq<char>>, FlushStepView) {
    match (stage, event) {
        (FlushStage::Home, FlushEvent::Home(home)) => match remote::resolved(
            server.remote_dir,
            home,
        ) {
            Some(dir) => clear_or_refuse(dir, home),
            None => flush_over(FlushEnd::Unreachable, server.alias),
        },
        (FlushStage::Guard { dir }, FlushEvent::Home(home)) => clear_or_refuse(dir, home),
        (FlushStage::Clear, FlushEvent::Ssh(ok)) => if ok {
            flush_over(FlushEnd::Cleared, server.name)
        } else {
            flush_over(FlushEnd::Failed, server.alias)
        },
        _ => flush_over(FlushEnd::Failed, server.alias),
    }
}

/// Whether an event answers what a stage waits for.
pub open spec fn flush_answers(
    stage: FlushStage<Seq<char>>,
    event: FlushEvent<Seq<char>>,
) -> bool {
    match stage {
        FlushStage::Home => event is Home,
        FlushStage::Guard { .. } => event is Home,
        FlushStage::Clear => event is Ssh,
        FlushStage::Done => false,
    }
}

/// A flush on its way.
pub struct Flush {
    server: Server,
    stage: FlushStage<String>,
}

/// What a `Flush` says.
pub struct FlushView {
    pub server: ServerView,
    pub stage: FlushStage<Seq<char>>,
}

impl View for Flush {
    type V = FlushView;

    closed spec fn view(&self) -> FlushView {
        FlushView { server: self.server@, stage: self.stage@ }
    }
}

/// Delete every file in the server's remote dir (top level only, no recursion):
/// the start.
///
/// An absolute directory is cleared even where the host does not tell its home. It
/// cannot be held against the home then; that it is not the home is seen to by the
/// remote command alone.
pub fn run_flush(server: &Server) -> (r: (Flush, FlushStep))
    ensures
        r.0@.server == server@,
        (r.0@.stage, r.1@) == flush_begin(server@),
{
    let server = server.clone();
    match remote::resolve_remote_dir(server.remote_dir.as_str(), &None) {
        Some(dir) => {
            if is_off_limits(&dir, &None) {
                Flush::over(server, FlushEnd::Refused, dir.as_str())
            } else {
                (
                    Flush { server, stage: FlushStage::Guard { dir } },
                    FlushStep { notice: None, request: FlushRequest::Home },
                )
            }
        },
        None => (
            Flush { server, stage: FlushStage::Home },
            FlushStep { notice: None, request: FlushRequest::Home },
        ),
    }
}

impl Flush {
    /// End, with a report.
    fn over(server: Server, end: FlushEnd, sub: &str) -> (r: (Flush, FlushStep))
        ensures
            r.0@.server == server@,
            (r.0@.stage, r.1@) == flush_over(end, sub@),
    {
        let notice = match end {
            FlushEnd::Cleared => Notice::new(StateKind::Success, "Remote cleared", sub),
            FlushEnd::Failed => Notice::new(StateKind::Error, "Clear failed", sub),
            FlushEnd::Unreachable => Notice::new(StateKind::Error, "Host unreachable", sub),
            FlushEnd::Refused => Notice::new(StateKind::Error, "Unsafe RemoteDir", sub),
        };
        (
            Flush { server, stage: FlushStage::Done },
            FlushStep { notice: Some(notice), request: FlushRequest::Done(end) },
        )
    }

    /// Refuse a directory, or delete its files.
    fn clear(server: Server, dir: String, home: &Option<String>) -> (r: (Flush, FlushStep))
        ensures
            r.0@.server == server@,
            (r.0@.stage, r.1@) == clear_or_refuse(dir@, remote::opt_view(*home)),
    {
        if is_off_limits(&dir, home) {
            Flush::over(server, FlushEnd::Refused, dir.as_str())
        } else {
            let command = remote_clear(dir.as_str());
            (
                Flush { server, stage: FlushStage::Clear },
                FlushStep { notice: None, request: FlushRequest::Ssh(command) },
            )
        }
    }

    /// Go on after an event that answers the last request.
    pub fn step(self, event: FlushEvent<String>) -> (r: (Flush, FlushStep))
        requires
            flush_answers(self@.stage, event@),
        ensures
            r.0@.server == self@.server,
            (r.0@.stage, r.1@) == flush_next(self@.server, self@.stage, event@),
    {
        let Flush { server, stage } = self;
        match (stage, event) {
            (FlushStage::Home, FlushEvent::Home(home)) => {
                match remote::resolve_remote_dir(server.remote_dir.as_str(), &home) {
                    Some(dir) => Flush::clear(server, dir, &home),
                    None => {
                        let alias = server.alias.clone();
                        Flush::over(server, FlushEnd::Unreachable, alias.as_str())
                    },
                }
            },
            (FlushStage::Guard { dir }, FlushEvent::Home(home)) => {
                Flush::clear(server, dir, &home)
            },
            (FlushStage::Clear, FlushEvent::Ssh(ok)) => {
                if ok {
                    let name = server.name.clone();
                    Flush::over(server, FlushEnd::Cleared, name.as_str())
                } else {
                    let alias = server.alias.clone();
                    Flush::over(server, FlushEnd::Failed, alias.as_str())
                }
            },
            _ => vstd::pervasive::unreached(),
        }
    }
}

/// What a flush runs on the remote deletes the files of the server's directory,
/// which is neither the root nor the home that was told.
pub proof fn law_flush_clears_only_the_directory(
    server: ServerView,
    stage: FlushStage<Seq<char>>,
    home: Option<Seq<char>>,
)
    requires
        stage is Home || (stage matches FlushStage::Guard { dir } && remote::resolved(
            server.remote_dir,
            None,
        ) == Some(dir)),
    ensures
        flush_next(server, stage, FlushEvent::Home(home)).1.request matches FlushRequest::Ssh(
            command,
        ) ==> {
            &&& remote::resolved(server.remote_dir, home) matches Some(dir)
            &&& command == clear_command(dir)
            &&& place::parts(dir).len() > 0
            &&& home matches Some(h) ==> place::parts(dir) != place::parts(h)
        },
        !(flush_begin(server).1.request is Ssh),
        flush_begin(server).0 matches FlushStage::Guard { dir } ==> remote::resolved(
            server.remote_dir,
            None,
        ) == Some(dir),
{
}

/// Whether a flush ends with the refusal of `dir`, and runs nothing on the remote,
/// where the remote home is as told.
pub open spec fn refuses(server: ServerView, home: Option<Seq<char>>, dir: Seq<char>) -> bool {
    let begun = flush_begin(server);
    let refused = flush_over(FlushEnd::Refused, dir);
    ||| begun == refused
    ||| flush_answers(begun.0, FlushEvent::Home(home)) && flush_next(
        server,
        begun.0,
        FlushEvent::Home(home),
    ) == refused
}

/// A directory that resolves to the root is refused.
pub proof fn law_flush_refuses_the_root(
    server: ServerView,
    home: Option<Seq<char>>,
    dir: Seq<char>,
)
    requires
        remote::resolved(server.remote_dir, home) == Some(dir),
        place::parts(dir).len() == 0,
    ensures
        refuses(server, home, dir),
{
}

/// A directory that resolves to the remote home is refused.
pub proof fn law_flush_refuses_the_home(server: ServerView, home: Seq<char>, dir: Seq<char>)
    requires
        remote::resolved(server.remote_dir, Some(home)) == Some(dir),
        place::parts(dir) == place::parts(home),
    ensures
        refuses(server, Some(home), dir),
{
}

/// The root and the remote home are refused, however the configured directory
/// spells them: as paths from the root, or as `~`, with or without slashes and `.`
/// behind them.
pub proof fn law_flush_refuses_every_spelling(server: ServerView, home: Seq<char>)
    requires
        if remote::absolute(server.remote_dir) {
            ||| place::parts(server.remote_dir).len() == 0
            ||| place::parts(server.remote_dir) == place::parts(home)
        } else {
            place::parts(remote::under_home(server.remote_dir)).len() == 0
        },
    ensures
        remote::resolved(server.remote_dir, Some(home)) matches Some(dir) && refuses(
            server,
            Some(home),
            dir,
        ),
{
    if remote::absolute(server.remote_dir) {
        remote::law_resolved_keeps_the_parts(server.remote_dir, Some(home));
    } else {
        remote::law_tilde_names_the_home(server.remote_dir, home);
    }
}

/// Whether a request asks for what a stage waits for.
pub open spec fn flush_waits_for(
    stage: FlushStage<Seq<char>>,
    request: FlushRequest<Seq<char>>,
) -> bool {
    match stage {
        FlushStage::Home => request is Home,
        FlushStage::Guard { .. } => request is Home,
        FlushStage::Clear => request is Ssh,
        FlushStage::Done => request is Done,
    }
}

/// A flush asks for what it waits for, from its start to its end.
pub proof fn law_flush_asks_for_what_it_waits_for(
    server: ServerView,
    stage: FlushStage<Seq<char>>,
    event: FlushEvent<Seq<char>>,
)
    requires
        flush_answers(stage, event),
    ensures
        flush_waits_for(flush_begin(server).0, flush_begin(server).1.request),
        flush_waits_for(
            flush_next(server, stage, event).0,
            flush_next(server, stage, event).1.request,
        ),
{
}

/// How many events a flush still takes at most.
pub open spec fn flush_events_left(stage: FlushStage<Seq<char>>) -> int {
    match stage {
        FlushStage::Home => 2,
        FlushStage::Guard { .. } => 2,
        FlushStage::Clear => 1,
        FlushStage::Done => 0,
    }
}

/// Every event brings a flush nearer to its end, and its end is reported.
pub proof fn law_flush_ends(
    server: ServerView,
    stage: FlushStage<Seq<char>>,
    event: FlushEvent<Seq<char>>,
)
    requires
        flush_answers(stage, event),
    ensures
        flush_events_left(flush_next(server, stage, event).0) < flush_events_left(stage),
        flush_next(server, stage, event).0 is Done ==> flush_next(
            server,
            stage,
            event,
        ).1.notice is Some,
{
}

/// A directory that is neither the root nor the home, and has at least two bytes, is
/// cleared: its files are deleted by one command on the remote, and the outcome of
/// that is reported.
pub proof fn law_flush_clears_any_other_directory(
    server: ServerView,
    home: Option<Seq<char>>,
    dir: Seq<char>,
    ok: bool,
)
    requires
        remote::resolved(server.remote_dir, home) == Some(dir),
        vstd::utf8::encode_utf8(dir).len() >= 2,
        place::parts(dir).len() > 0,
        home matches Some(h) ==> place::parts(dir) != place::parts(h),
    ensures
        ({
            let begun = flush_begin(server);
            let asked = flush_next(server, begun.0, FlushEvent::Home(home));
            let over = flush_next(server, asked.0, FlushEvent::Ssh(ok));
            &&& begun.1 == (FlushStepView { notice: None, request: FlushRequest::Home })
            &&& flush_answers(begun.0, FlushEvent::Home(home))
            &&& asked.1 == (FlushStepView {
                notice: None,
                request: FlushRequest::Ssh(clear_command(dir)),
            })
            &&& flush_answers(asked.0, FlushEvent::Ssh(ok))
            &&& ok ==> over.1 == (FlushStepView {
                notice: Some(
                    NoticeView {
                        kind: StateKind::Success,
                        title: "Remote cleared"@,
                        sub: server.name,
                    },
                ),
                request: FlushRequest::Done(FlushEnd::Cleared),
            })
            &&& !ok ==> over.1 == (FlushStepView {
                notice: Some(
                    NoticeView {
                        kind: StateKind::Error,
                        title: "Clear failed"@,
                        sub: server.alias,
                    },
                ),
                request: FlushRequest::Done(FlushEnd::Failed),
            })
        }),
{
}

/// A refusal is reported with the directory, and a host that tells no home where it is
/// needed with its alias.
pub proof fn law_flush_reports_refusals(server: ServerView, dir: Seq<char>)
    ensures
        flush_over(FlushEnd::Refused, dir).1.notice == Some(
            NoticeView { kind: StateKind::Error, title: "Unsafe RemoteDir"@, sub: dir },
        ),
        !remote::absolute(server.remote_dir) ==> flush_next(
            server,
            flush_begin(server).0,
            FlushEvent::Home(None),
        ).1 == (FlushStepView {
            notice: Some(
                NoticeView {
                    kind: StateKind::Error,
                    title: "Host unreachable"@,
                    sub: server.alias,
                },
            ),
            request: FlushRequest::Done(FlushEnd::Unreachable),
        }),
{
}

/// A directory of fewer than two bytes is refused.
pub proof fn law_flush_refuses_short_directories(
    server: ServerView,
    home: Option<Seq<char>>,
    dir: Seq<char>,
)
    requires
        remote::resolved(server.remote_dir, home) == Some(dir),
        vstd::utf8::encode_utf8(dir).len() < 2,
    ensures
        refuses(server, home, dir),
{
}

} // verus!
