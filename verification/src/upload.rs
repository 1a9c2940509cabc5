//! An upload, as the decisions between one outside call and the next: name the
//! files on the remote, put their paths on the clipboard, prepare the remote,
//! and send the files one by one.

use vstd::prelude::*;

use crate::config::{Server, ServerView};
use crate::remote;
use crate::sys;
use crate::sys::LocalTime;
use crate::text;
use crate::ui::{Notice, NoticeView, Progress, StateKind};
use crate::util;

verus! {

/// The name that a file gets on the remote: the stamp of its batch, its index in
/// the batch, and its own name made safe, or `file` where it has none.
pub open spec fn remote_name(t: Seq<char>, i: nat, name: Option<Seq<char>>) -> Seq<char> {
    t + seq!['-'] + text::decimal(i) + seq!['-'] + util::sanitized(
        match name {
            Some(n) => n,
            None => "file"@,
        },
    )
}

/// What the paths of the files in a directory begin with: the directory, and a
/// slash where it is not the root.
pub open spec fn inside(dir: Seq<char>) -> Seq<char> {
    if dir == seq!['/'] {
        dir
    } else {
        dir.push('/')
    }
}

/// The path that a file gets on the remote.
pub open spec fn remote_path(
    dir: Seq<char>,
    t: Seq<char>,
    i: nat,
    name: Option<Seq<char>>,
) -> Seq<char> {
    inside(dir) + remote_name(t, i, name)
}

/// The paths that the files of a batch get.
pub open spec fn remote_paths(
    dir: Seq<char>,
    t: Seq<char>,
    names: Seq<Option<Seq<char>>>,
) -> Seq<Seq<char>> {
    Seq::new(names.len(), |i: int| remote_path(dir, t, i as nat, names[i]))
}

/// The paths as they are pasted: each between single quotes, one space between
/// two.
pub open spec fn payload(paths: Seq<Seq<char>>) -> Seq<char>
    decreases paths.len(),
{
    if paths.len() == 0 {
        seq![]
    } else {
        let word = seq!['\''] + paths.last() + seq!['\''];
        if paths.len() == 1 {
            word
        } else {
            payload(paths.drop_last()) + seq![' '] + word
        }
    }
}

/// The quoted paths, a space before each.
pub open spec fn quoted_words(paths: Seq<Seq<char>>) -> Seq<char>
    decreases paths.len(),
{
    if paths.len() == 0 {
        seq![]
    } else {
        quoted_words(paths.drop_last()) + seq![' '] + util::quoted(paths.last())
    }
}

/// The remote command that makes the directory and the files, so that the paths
/// exist before the transfer ends.
pub open spec fn setup_command(dir: Seq<char>, paths: Seq<Seq<char>>) -> Seq<char> {
    "mkdir -p "@ + util::quoted(dir) + " && touch"@ + quoted_words(paths)
}

/// A file on the way: where it stands in the list that was handed in, and its
/// name.
pub struct Picked {
    pub source: usize,
    pub name: Option<String>,
}

/// What a `Picked` says.
#[verifier::ext_equal]
pub struct PickedView {
    pub source: usize,
    pub name: Option<Seq<char>>,
}

impl View for Picked {
    type V = PickedView;

    open spec fn view(&self) -> PickedView {
        PickedView { source: self.source, name: remote::opt_view(self.name) }
    }
}

/// A file that was handed in: its name, where its path has one, and whether it
/// is there.
pub struct LocalFile {
    pub name: Option<String>,
    pub exists: bool,
}

/// The files that are there, in their order.
pub open spec fn existing(files: Seq<LocalFile>) -> Seq<PickedView>
    decreases files.len(),
{
    if files.len() == 0 {
        seq![]
    } else {
        let before = existing(files.drop_last());
        if files.last().exists {
            before.push(
                PickedView {
                    source: (files.len() - 1) as usize,
                    name: remote::opt_view(files.last().name),
                },
            )
        } else {
            before
        }
    }
}

/// The names of the files of a batch.
pub open spec fn names(files: Seq<PickedView>) -> Seq<Option<Seq<char>>> {
    files.map_values(|f: PickedView| f.name)
}

/// The files of a batch, each by its view.
pub open spec fn picked_views(files: Seq<Picked>) -> Seq<PickedView> {
    files.map_values(|f: Picked| f@)
}

/// Keep the files that are there.
fn pick(files: Vec<LocalFile>) -> (r: Vec<Picked>)
    ensures
        picked_views(r@) == existing(files@),
{
    let mut out: Vec<Picked> = Vec::new();
    for i in 0..files.len()
        invariant
            picked_views(out@) == existing(files@.take(i as int)),
    {
        assert(files@.take(i + 1).drop_last() == files@.take(i as int));
        let file = &files[i];
        if file.exists {
            let ghost before = out@;
            out.push(Picked { source: i, name: file.name.clone() });
            assert(picked_views(out@) == picked_views(before).push(out@.last()@));
        }
    }
    assert(files@.take(files.len() as int) == files@);
    out
}

/// What the paths of the files in a directory begin with.
fn begin_path(dir: &str) -> (r: String)
    ensures
        r@ == inside(dir@),
{
    let mut out = dir.to_owned();
    let chars = text::chars_of(dir);
    if chars.len() == 1 && chars[0] == '/' {
        assert(dir@ == seq!['/']);
    } else {
        out.push('/');
    }
    out
}

/// Compute the remote paths of a batch.
pub fn remote_files(dir: &str, now: &LocalTime, files: &Vec<Picked>) -> (r: Vec<String>)
    ensures
        text::texts(r@) == remote_paths(dir@, sys::stamp(*now), names(picked_views(files@))),
{
    let t = sys::now_stamp(now);
    let mut out: Vec<String> = Vec::new();
    let ghost all = names(picked_views(files@));
    for i in 0..files.len()
        invariant
            t@ == sys::stamp(*now),
            all == names(picked_views(files@)),
            text::texts(out@) == remote_paths(dir@, t@, all).take(i as int),
    {
        let mut path = begin_path(dir);
        path.append(t.as_str());
        path.push('-');
        text::push_decimal(&mut path, i);
        path.push('-');
        match &files[i].name {
            Some(name) => {
                path.append(util::sanitize_filename(name.as_str()).as_str());
            },
            None => {
                path.append(util::sanitize_filename("file").as_str());
            },
        }
        assert(all[i as int] == files@[i as int]@.name);
        assert(path@ == remote_path(dir@, t@, i as nat, all[i as int]));
        let ghost before = out@;
        out.push(path);
        assert(text::texts(out@) == text::texts(before).push(path@));
    }
    out
}

/// The paths as they are pasted: single-quoted, so that each pastes as one
/// literal absolute path.
pub fn clipboard_payload(paths: &Vec<String>) -> (r: String)
    ensures
        r@ == payload(text::texts(paths@)),
{
    let mut out = String::new();
    for i in 0..paths.len()
        invariant
            out@ == payload(text::texts(paths@).take(i as int)),
    {
        assert(text::texts(paths@).take(i + 1).drop_last() == text::texts(paths@).take(i as int));
        assert(text::texts(paths@).take(i + 1).last() == paths@[i as int]@);
        if i > 0 {
            out.push(' ');
        }
        out.push('\'');
        out.append(paths[i].as_str());
        out.push('\'');
    }
    assert(text::texts(paths@).take(paths.len() as int) == text::texts(paths@));
    out
}

/// The remote command that makes the directory and the files.
pub fn remote_setup(dir: &str, paths: &Vec<String>) -> (r: String)
    ensures
        r@ == setup_command(dir@, text::texts(paths@)),
{
    let mut out = "mkdir -p ".to_owned();
    out.append(util::shell_quote(dir).as_str());
    out.append(" && touch");
    let ghost head = out@;
    for i in 0..paths.len()
        invariant
            out@ == head + quoted_words(text::texts(paths@).take(i as int)),
    {
        assert(text::texts(paths@).take(i + 1).drop_last() == text::texts(paths@).take(i as int));
        assert(text::texts(paths@).take(i + 1).last() == paths@[i as int]@);
        out.push(' ');
        out.append(util::shell_quote(paths[i].as_str()).as_str());
    }
    assert(text::texts(paths@).take(paths.len() as int) == text::texts(paths@));
    out
}

/// What an upload waits for.
pub enum Stage<S, P, R> {
    /// The remote home.
    Home,
    /// The time, with the remote directory known.
    Clock { dir: S },
    /// The clipboard, with the remote paths known.
    Clipboard { dir: S, paths: P },
    /// The remote to be prepared.
    Setup { paths: P },
    /// The next file to be sent, with how those before it fared.
    Sending { paths: P, results: R },
    /// Nothing: the upload is over.
    Done { ok: bool },
}

/// What an upload asks for.
pub enum Request<S> {
    /// The home on the remote.
    Home,
    /// The local time.
    Clock,
    /// To put a text on the clipboard.
    Clipboard(S),
    /// To run a command on the remote.
    Ssh(S),
    /// To copy the file at a place in the list that was handed in to a remote
    /// path.
    Scp { source: usize, remote: S },
    /// Nothing more: the upload came out well, or not.
    Done(bool),
}

/// What came of a request.
pub enum Event<S> {
    /// The home on the remote, if it is known.
    Home(Option<S>),
    /// The local time.
    Clock(LocalTime),
    /// Whether the clipboard took the text.
    Clipboard(bool),
    /// Whether the remote command succeeded.
    Ssh(bool),
    /// Whether the file was copied.
    Scp(bool),
}

/// What to do next: show how far the transfer is, show a report, and see to a
/// request, in this order.
pub struct Step {
    pub progress: Option<Progress>,
    pub notice: Option<Notice>,
    pub request: Request<String>,
}

/// What a `Step` says.
#[verifier::ext_equal]
pub struct StepView {
    pub progress: Option<Progress>,
    pub notice: Option<NoticeView>,
    pub request: Request<Seq<char>>,
}

impl View for Request<String> {
    type V = Request<Seq<char>>;

    open spec fn view(&self) -> Request<Seq<char>> {
        match self {
            Request::Home => Request::Home,
            Request::Clock => Request::Clock,
            Request::Clipboard(s) => Request::Clipboard(s@),
            Request::Ssh(s) => Request::Ssh(s@),
            Request::Scp { source, remote } => Request::Scp { source: *source, remote: remote@ },
            Request::Done(ok) => Request::Done(*ok),
        }
    }
}

impl View for Event<String> {
    type V = Event<Seq<char>>;

    open spec fn view(&self) -> Event<Seq<char>> {
        match self {
            Event::Home(home) => Event::Home(remote::opt_view(*home)),
            Event::Clock(t) => Event::Clock(*t),
            Event::Clipboard(ok) => Event::Clipboard(*ok),
            Event::Ssh(ok) => Event::Ssh(*ok),
            Event::Scp(ok) => Event::Scp(*ok),
        }
    }
}

impl View for Step {
    type V = StepView;

    open spec fn view(&self) -> StepView {
        StepView {
            progress: self.progress,
            notice: match self.notice {
                Some(n) => Some(n@),
                None => None,
            },
            request: self.request@,
        }
    }
}

/// A stage, its parts as sequences.
pub type StageView = Stage<Seq<char>, Seq<Seq<char>>, Seq<bool>>;

impl View for Stage<String, Vec<String>, Vec<bool>> {
    type V = StageView;

    open spec fn view(&self) -> StageView {
        match self {
            Stage::Home => Stage::Home,
            Stage::Clock { dir } => Stage::Clock { dir: dir@ },
            Stage::Clipboard { dir, paths } => Stage::Clipboard {
                dir: dir@,
                paths: text::texts(paths@),
            },
            Stage::Setup { paths } => Stage::Setup { paths: text::texts(paths@) },
            Stage::Sending { paths, results } => Stage::Sending {
                paths: text::texts(paths@),
                results: results@,
            },
            Stage::Done { ok } => Stage::Done { ok: *ok },
        }
    }
}

/// How many of the files were not copied.
pub open spec fn failures(results: Seq<bool>) -> nat
    decreases results.len(),
{
    if results.len() == 0 {
        0
    } else if results.last() {
        failures(results.drop_last())
    } else {
        failures(results.drop_last()) + 1
    }
}

/// A step that only makes a request.
pub open spec fn ask(request: Request<Seq<char>>) -> StepView {
    StepView { progress: None, notice: None, request }
}

/// A step that ends an upload with an error.
pub open spec fn fail(title: Seq<char>, sub: Seq<char>) -> StepView {
    StepView {
        progress: None,
        notice: Some(NoticeView { kind: StateKind::Error, title, sub }),
        request: Request::Done(false),
    }
}

/// What goes on when `results` tells how the files so far fared: the next file,
/// or the end.
pub open spec fn send_next(
    files: Seq<PickedView>,
    paths: Seq<Seq<char>>,
    results: Seq<bool>,
    progress: Option<Progress>,
) -> (StageView, StepView) {
    let total = files.len();
    let k = results.len() as int;
    if k < total {
        let title = "Sending "@ + text::decimal((k + 1) as nat) + seq!['/'] + text::decimal(total);
        let sub = match files[k].name {
            Some(name) => name,
            None => seq![],
        };
        (
            Stage::Sending { paths, results },
            StepView {
                progress,
                notice: Some(NoticeView { kind: StateKind::Uploading, title, sub }),
                request: Request::Scp { source: files[k].source, remote: paths[k] },
            },
        )
    } else if failures(results) > 0 {
        let title = text::decimal(failures(results)) + " of "@ + text::decimal(total)
            + " failed"@;
        (
            Stage::Done { ok: false },
            StepView {
                progress,
                notice: Some(
                    NoticeView { kind: StateKind::Error, title, sub: "See the log"@ },
                ),
                request: Request::Done(false),
            },
        )
    } else {
        let sub = text::decimal(total) + (if total > 1 {
            " files"@
        } else {
            " file"@
        }) + " · Ctrl+Shift+V"@;
        (
            Stage::Done { ok: true },
            StepView {
                progress,
                notice: Some(
                    NoticeView { kind: StateKind::Success, title: "Path copied"@, sub },
                ),
                request: Request::Done(true),
            },
        )
    }
}

/// How an upload of the given files to a server begins.
pub open spec fn begin(server: ServerView, files: Seq<PickedView>) -> (StageView, StepView) {
    if files.len() == 0 {
        (Stage::Done { ok: false }, fail("No files"@, "Nothing readable in that drop"@))
    } else {
        match remote::resolved(server.remote_dir, None) {
            Some(dir) => (Stage::Clock { dir }, ask(Request::Clock)),
            None => (Stage::Home, ask(Request::Home)),
        }
    }
}

/// How an upload goes on after an event that answers its last request.
pub open spec fn next(
    server: ServerView,
    files: Seq<PickedView>,
    stage: StageView,
    event: Event<Seq<char>>,
) -> (StageView, StepView) {
    let failed: StageView = Stage::Done { ok: false };
    match (stage, event) {
        (Stage::Home, Event::Home(home)) => match remote::resolved(server.remote_dir, home) {
            Some(dir) => (Stage::Clock { dir }, ask(Request::Clock)),
            None => (failed, fail("Host unreachable"@, server.alias)),
        },
        (Stage::Clock { dir }, Event::Clock(t)) => {
            let paths = remote_paths(dir, sys::stamp(t), names(files));
            (Stage::Clipboard { dir, paths }, ask(Request::Clipboard(payload(paths))))
        },
        (Stage::Clipboard { dir, paths }, Event::Clipboard(ok)) => if ok {
            (Stage::Setup { paths }, ask(Request::Ssh(setup_command(dir, paths))))
        } else {
            (failed, fail("Clipboard is busy"@, "Nothing was sent"@))
        },
        (Stage::Setup { paths }, Event::Ssh(ok)) => if ok {
            send_next(files, paths, seq![], None)
        } else {
            (failed, fail("Remote setup failed"@, server.alias))
        },
        (Stage::Sending { paths, results }, Event::Scp(ok)) => {
            let done = results.push(ok);
            let progress = if ok {
                Some(Progress { done: done.len() as usize, total: files.len() as usize })
            } else {
                None
            };
            send_next(files, paths, done, progress)
        },
        _ => (failed, ask(Request::Done(false))),
    }
}

/// Whether an event answers what a stage waits for.
pub open spec fn answers(stage: StageView, event: Event<Seq<char>>) -> bool {
    match stage {
        Stage::Home => event is Home,
        Stage::Clock { .. } => event is Clock,
        Stage::Clipboard { .. } => event is Clipboard,
        Stage::Setup { .. } => event is Ssh,
        Stage::Sending { .. } => event is Scp,
        Stage::Done { .. } => false,
    }
}

/// What holds of the stages of an upload of `n` files: it has files, a path for
/// each, and while it sends, one is still to be answered for.
pub open spec fn stage_wf(n: nat, stage: StageView) -> bool {
    match stage {
        Stage::Home => n > 0,
        Stage::Clock { .. } => n > 0,
        Stage::Clipboard { paths, .. } => n > 0 && paths.len() == n,
        Stage::Setup { paths } => n > 0 && paths.len() == n,
        Stage::Sending { paths, results } => n > 0 && paths.len() == n && results.len() < n,
        Stage::Done { .. } => true,
    }
}

/// An upload on its way.
pub struct Upload {
    server: Server,
    files: Vec<Picked>,
    stage: Stage<String, Vec<String>, Vec<bool>>,
}

/// What an `Upload` says.
pub struct UploadView {
    pub server: ServerView,
    pub files: Seq<PickedView>,
    pub stage: StageView,
}

impl View for Upload {
    type V = UploadView;

    closed spec fn view(&self) -> UploadView {
        UploadView {
            server: self.server@,
            files: picked_views(self.files@),
            stage: self.stage@,
        }
    }
}

impl UploadView {
    /// What holds of every upload.
    pub open spec fn wf(self) -> bool {
        stage_wf(self.files.len(), self.stage)
    }
}

/// Count the files that were not copied.
fn count_failures(results: &Vec<bool>) -> (r: usize)
    ensures
        r == failures(results@),
        r <= results.len(),
{
    let mut n: usize = 0;
    for i in 0..results.len()
        invariant
            n == failures(results@.take(i as int)),
            n <= i,
    {
        assert(results@.take(i + 1).drop_last() == results@.take(i as int));
        if !results[i] {
            n = n + 1;
        }
    }
    assert(results@.take(results.len() as int) == results@);
    n
}

/// The step that ends an upload with an error.
fn failed(title: &str, sub: &str) -> (r: Step)
    ensures
        r@ == fail(title@, sub@),
{
    Step {
        progress: None,
        notice: Some(Notice::new(StateKind::Error, title, sub)),
        request: Request::Done(false),
    }
}

/// The step that only makes a request.
fn asking(request: Request<String>) -> (r: Step)
    ensures
        r@ == ask(request@),
{
    Step { progress: None, notice: None, request }
}

/// Start to upload files to a server: the ones that are there.
pub fn run(files: Vec<LocalFile>, server: &Server) -> (r: (Upload, Step))
    ensures
        r.0@.wf(),
        r.0@.server == server@,
        r.0@.files == existing(files@),
        (r.0@.stage, r.1@) == begin(server@, existing(files@)),
{
    let server = server.clone();
    let files = pick(files);
    assert(picked_views(files@).len() == files@.len());
    if files.len() == 0 {
        let step = failed("No files", "Nothing readable in that drop");
        return (Upload { server, files, stage: Stage::Done { ok: false } }, step);
    }
    match remote::resolve_remote_dir(server.remote_dir.as_str(), &None) {
        Some(dir) => (
            Upload { server, files, stage: Stage::Clock { dir } },
            asking(Request::Clock),
        ),
        None => (Upload { server, files, stage: Stage::Home }, asking(Request::Home)),
    }
}

impl Upload {
    /// Send the next file, or end.
    fn send(
        server: Server,
        files: Vec<Picked>,
        paths: Vec<String>,
        results: Vec<bool>,
        progress: Option<Progress>,
    ) -> (r: (Upload, Step))
        requires
            files@.len() > 0,
            paths@.len() == files@.len(),
            results@.len() <= files@.len(),
        ensures
            r.0@.wf(),
            r.0@.server == server@,
            r.0@.files == picked_views(files@),
            (r.0@.stage, r.1@) == send_next(
                picked_views(files@),
                text::texts(paths@),
                results@,
                progress,
            ),
    {
        let total = files.len();
        let k = results.len();
        assert(picked_views(files@).len() == total);
        assert(text::texts(paths@).len() == total);
        if k < total {
            let mut title = "Sending ".to_owned();
            text::push_decimal(&mut title, k + 1);
            title.push('/');
            text::push_decimal(&mut title, total);
            let sub = match &files[k].name {
                Some(name) => name.clone(),
                None => String::new(),
            };
            let source = files[k].source;
            let remote = paths[k].clone();
            assert(picked_views(files@)[k as int] == files@[k as int]@);
            assert(text::texts(paths@)[k as int] == paths@[k as int]@);
            let step = Step {
                progress,
                notice: Some(Notice { kind: StateKind::Uploading, title, sub }),
                request: Request::Scp { source, remote },
            };
            (Upload { server, files, stage: Stage::Sending { paths, results } }, step)
        } else {
            let fails = count_failures(&results);
            if fails > 0 {
                let mut title = String::new();
                text::push_decimal(&mut title, fails);
                title.append(" of ");
                text::push_decimal(&mut title, total);
                title.append(" failed");
                let step = Step {
                    progress,
                    notice: Some(Notice::new(StateKind::Error, title.as_str(), "See the log")),
                    request: Request::Done(false),
                };
                (Upload { server, files, stage: Stage::Done { ok: false } }, step)
            } else {
                let mut sub = String::new();
                text::push_decimal(&mut sub, total);
                if total > 1 {
                    sub.append(" files");
                } else {
                    sub.append(" file");
                }
                sub.append(" · Ctrl+Shift+V");
                let step = Step {
                    progress,
                    notice: Some(Notice::new(StateKind::Success, "Path copied", sub.as_str())),
                    request: Request::Done(true),
                };
                (Upload { server, files, stage: Stage::Done { ok: true } }, step)
            }
        }
    }

    /// Go on after an event that answers the last request.
    pub fn step(self, event: Event<String>) -> (r: (Upload, Step))
        requires
            self@.wf(),
            answers(self@.stage, event@),
        ensures
            r.0@.wf(),
            r.0@.server == self@.server,
            r.0@.files == self@.files,
            (r.0@.stage, r.1@) == next(self@.server, self@.files, self@.stage, event@),
    {
        let Upload { server, files, stage } = self;
        assert(picked_views(files@).len() == files@.len());
        match (stage, event) {
            (Stage::Home, Event::Home(home)) => {
                match remote::resolve_remote_dir(server.remote_dir.as_str(), &home) {
                    Some(dir) => (
                        Upload { server, files, stage: Stage::Clock { dir } },
                        asking(Request::Clock),
                    ),
                    None => {
                        let step = failed("Host unreachable", server.alias.as_str());
                        (Upload { server, files, stage: Stage::Done { ok: false } }, step)
                    },
                }
            },
            (Stage::Clock { dir }, Event::Clock(now)) => {
                let paths = remote_files(dir.as_str(), &now, &files);
                let text = clipboard_payload(&paths);
                (
                    Upload { server, files, stage: Stage::Clipboard { dir, paths } },
                    asking(Request::Clipboard(text)),
                )
            },
            (Stage::Clipboard { dir, paths }, Event::Clipboard(ok)) => {
                if ok {
                    let command = remote_setup(dir.as_str(), &paths);
                    (
                        Upload { server, files, stage: Stage::Setup { paths } },
                        asking(Request::Ssh(command)),
                    )
                } else {
                    let step = failed("Clipboard is busy", "Nothing was sent");
                    (Upload { server, files, stage: Stage::Done { ok: false } }, step)
                }
            },
            (Stage::Setup { paths }, Event::Ssh(ok)) => {
                if ok {
                    assert(text::texts(paths@).len() == paths@.len());
                    Upload::send(server, files, paths, Vec::new(), None)
                } else {
                    let step = failed("Remote setup failed", server.alias.as_str());
                    (Upload { server, files, stage: Stage::Done { ok: false } }, step)
                }
            },
            (Stage::Sending { paths, mut results }, Event::Scp(ok)) => {
                assert(text::texts(paths@).len() == paths@.len());
                results.push(ok);
                let progress = if ok {
                    Some(Progress { done: results.len(), total: files.len() })
                } else {
                    None
                };
                Upload::send(server, files, paths, results, progress)
            },
            _ => vstd::pervasive::unreached(),
        }
    }
}

} // verus!
