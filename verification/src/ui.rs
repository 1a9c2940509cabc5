//! What the widget shows: its state, and the colours that carry it.

use vstd::prelude::*;

verus! {

/// What the widget reports.
#[derive(Clone, Copy, PartialEq, Eq, Structural)]
pub enum StateKind {
    Idle,
    Uploading,
    Success,
    Error,
}

/// How much of a transfer is done: `done` of `total` parts.
#[derive(Clone, Copy, PartialEq, Eq, Structural)]
pub struct Progress {
    pub done: usize,
    pub total: usize,
}

/// No bar.
pub open spec fn no_progress() -> Progress {
    Progress { done: 0, total: 1 }
}

/// The state that the widget shows.
pub struct UiState {
    pub kind: StateKind,
    pub title: String,
    pub sub: String,
    /// Nothing done means no bar; otherwise the fraction of the transfer that is
    /// done.
    pub progress: Progress,
}

/// What a `UiState` says, its texts as character sequences.
#[verifier::ext_equal]
pub struct UiView {
    pub kind: StateKind,
    pub title: Seq<char>,
    pub sub: Seq<char>,
    pub progress: Progress,
}

impl View for UiState {
    type V = UiView;

    open spec fn view(&self) -> UiView {
        UiView { kind: self.kind, title: self.title@, sub: self.sub@, progress: self.progress }
    }
}

/// Nothing to report.
pub open spec fn idle() -> UiView {
    UiView { kind: StateKind::Idle, title: seq![], sub: seq![], progress: no_progress() }
}

/// The state after a new report. A running transfer keeps its bar across the
/// per-file label changes; any other report ends it.
pub open spec fn reported(ui: UiView, kind: StateKind, title: Seq<char>, sub: Seq<char>) -> UiView {
    UiView {
        kind,
        title,
        sub,
        progress: if kind is Uploading {
            ui.progress
        } else {
            no_progress()
        },
    }
}

/// The state after `done` of `total` parts; a total of nothing says nothing.
pub open spec fn progressed(ui: UiView, done: usize, total: usize) -> UiView {
    if total > 0 {
        UiView { progress: Progress { done, total }, ..ui }
    } else {
        ui
    }
}

impl UiState {
    /// The state at the start: nothing to report.
    pub fn new() -> (r: UiState)
        ensures
            r@ == idle(),
    {
        UiState {
            kind: StateKind::Idle,
            title: String::new(),
            sub: String::new(),
            progress: Progress { done: 0, total: 1 },
        }
    }

    /// Back to having nothing to report.
    pub fn revert(&mut self)
        ensures
            final(self)@ == idle(),
    {
        *self = UiState::new();
    }
}

/// Report a state, with its two lines.
pub fn set_state(ui: &mut UiState, kind: StateKind, title: &str, sub: &str)
    ensures
        final(ui)@ == reported(old(ui)@, kind, title@, sub@),
{
    ui.kind = kind;
    ui.title = title.to_owned();
    ui.sub = sub.to_owned();
    match kind {
        StateKind::Uploading => {},
        _ => {
            ui.progress = Progress { done: 0, total: 1 };
        },
    }
}

/// How far along the current transfer is (drives the bar at the bottom edge).
/// Whether there is something to draw anew.
pub fn set_progress(ui: &mut UiState, done: usize, total: usize) -> (r: bool)
    ensures
        final(ui)@ == progressed(old(ui)@, done, total),
        r == (total > 0),
{
    if total > 0 {
        ui.progress = Progress { done, total };
        true
    } else {
        false
    }
}

/// A report: a state with its two lines.
pub struct Notice {
    pub kind: StateKind,
    pub title: String,
    pub sub: String,
}

/// What a `Notice` says, its texts as character sequences.
#[verifier::ext_equal]
pub struct NoticeView {
    pub kind: StateKind,
    pub title: Seq<char>,
    pub sub: Seq<char>,
}

impl View for Notice {
    type V = NoticeView;

    open spec fn view(&self) -> NoticeView {
        NoticeView { kind: self.kind, title: self.title@, sub: self.sub@ }
    }
}

impl Notice {
    /// A report of the given lines.
    pub fn new(kind: StateKind, title: &str, sub: &str) -> (r: Notice)
        ensures
            r@ == (NoticeView { kind, title: title@, sub: sub@ }),
    {
        Notice { kind, title: title.to_owned(), sub: sub.to_owned() }
    }
}

/// A colour, as its red, green and blue parts.
pub type Rgb = (u8, u8, u8);

/// A colour as the number in which blue stands highest and red lowest.
pub open spec fn colour_number(c: Rgb) -> int {
    c.0 + c.1 * 0x100 + c.2 * 0x10000
}

/// The number by which drawing calls know a colour.
pub fn rgb(c: Rgb) -> (n: u32)
    ensures
        n == colour_number(c),
{
    let (r, g, b) = c;
    assert((r as u32) | ((g as u32) << 8) | ((b as u32) << 16) == r + g * 0x100 + b * 0x10000)
        by (bit_vector);
    (r as u32) | ((g as u32) << 8) | ((b as u32) << 16)
}

/// The colours of a state.
pub struct Pal {
    pub surface: Rgb,
    pub border: Rgb,
    pub title: Rgb,
    pub sub: Rgb,
    pub accent: Rgb,
}

/// The one colour that carries the state.
pub open spec fn accent(kind: StateKind, dark: bool) -> Rgb {
    match (kind, dark) {
        (StateKind::Idle, true) => (0x55, 0x60, 0x70),
        (StateKind::Uploading, true) => (0xe0, 0xa6, 0x4a),
        (StateKind::Success, true) => (0x58, 0xc9, 0x8b),
        (StateKind::Error, true) => (0xe4, 0x68, 0x5e),
        (StateKind::Idle, false) => (0x9a, 0xa2, 0xaf),
        (StateKind::Uploading, false) => (0xc8, 0x8a, 0x1e),
        (StateKind::Success, false) => (0x2f, 0xa0, 0x66),
        (StateKind::Error, false) => (0xd0, 0x4a, 0x40),
    }
}

/// The colours of a state on a dark or a light desktop.
pub open spec fn colours(kind: StateKind, dark: bool) -> Pal {
    if dark {
        Pal {
            surface: (0x1a, 0x1a, 0x1f),
            border: (0x30, 0x30, 0x3a),
            title: (0xf1, 0xf0, 0xf4),
            sub: (0x8c, 0x89, 0x96),
            accent: accent(kind, true),
        }
    } else {
        Pal {
            surface: (0xff, 0xff, 0xff),
            border: (0xde, 0xdc, 0xe2),
            title: (0x16, 0x15, 0x1a),
            sub: (0x74, 0x71, 0x7c),
            accent: accent(kind, false),
        }
    }
}

/// The colours of a state on a dark or a light desktop.
pub fn palette(kind: StateKind, dark: bool) -> (r: Pal)
    ensures
        r == colours(kind, dark),
{
    let accent = if dark {
        match kind {
            StateKind::Idle => (0x55, 0x60, 0x70),
            StateKind::Uploading => (0xe0, 0xa6, 0x4a),
            StateKind::Success => (0x58, 0xc9, 0x8b),
            StateKind::Error => (0xe4, 0x68, 0x5e),
        }
    } else {
        match kind {
            StateKind::Idle => (0x9a, 0xa2, 0xaf),
            StateKind::Uploading => (0xc8, 0x8a, 0x1e),
            StateKind::Success => (0x2f, 0xa0, 0x66),
            StateKind::Error => (0xd0, 0x4a, 0x40),
        }
    };
    if dark {
        Pal {
            surface: (0x1a, 0x1a, 0x1f),
            border: (0x30, 0x30, 0x3a),
            title: (0xf1, 0xf0, 0xf4),
            sub: (0x8c, 0x89, 0x96),
            accent,
        }
    } else {
        Pal {
            surface: (0xff, 0xff, 0xff),
            border: (0xde, 0xdc, 0xe2),
            title: (0x16, 0x15, 0x1a),
            sub: (0x74, 0x71, 0x7c),
            accent,
        }
    }
}

/// What is drawn: colours, two lines, and the bar.
pub struct Visual {
    pub pal: Pal,
    pub title: String,
    pub sub: String,
    pub progress: Progress,
}

/// What is drawn for a state. A state without a title has nothing to report, so
/// the widget speaks for itself.
pub fn current_visual(ui: &UiState, dark: bool) -> (r: Visual)
    ensures
        r.pal == colours(ui.kind, dark),
        ui.title@.len() == 0 ==> {
            &&& r.title@ == "Drop or paste"@
            &&& r.sub@ == "Ctrl+V or drag files here"@
            &&& r.progress == no_progress()
        },
        ui.title@.len() > 0 ==> {
            &&& r.title@ == ui.title@
            &&& r.sub@ == ui.sub@
            &&& r.progress == ui.progress
        },
{
    let pal = palette(ui.kind, dark);
    if ui.title.as_str().is_empty() {
        Visual {
            pal,
            title: "Drop or paste".to_owned(),
            sub: "Ctrl+V or drag files here".to_owned(),
            progress: Progress { done: 0, total: 1 },
        }
    } else {
        Visual { pal, title: ui.title.clone(), sub: ui.sub.clone(), progress: ui.progress }
    }
}

/// Different colours have different numbers.
pub proof fn law_colour_numbers_differ(a: Rgb, b: Rgb)
    requires
        colour_number(a) == colour_number(b),
    ensures
        a == b,
{
}

/// The accent tells the states apart, on a dark and on a light desktop.
pub proof fn law_accent_tells_states_apart(a: StateKind, b: StateKind, dark: bool)
    requires
        colours(a, dark).accent == colours(b, dark).accent,
    ensures
        a == b,
{
}

/// The bar outlives the reports of a running transfer, and no other report.
pub proof fn law_bar_only_while_uploading(
    ui: UiView,
    kind: StateKind,
    title: Seq<char>,
    sub: Seq<char>,
)
    ensures
        kind is Uploading ==> reported(ui, kind, title, sub).progress == ui.progress,
        !(kind is Uploading) ==> reported(ui, kind, title, sub).progress.done == 0,
{
}

/// A report is shown as it is, and progress changes the bar alone.
pub proof fn law_reports_are_shown(
    ui: UiView,
    kind: StateKind,
    title: Seq<char>,
    sub: Seq<char>,
    done: usize,
    total: usize,
)
    ensures
        reported(ui, kind, title, sub).kind == kind,
        reported(ui, kind, title, sub).title == title,
        reported(ui, kind, title, sub).sub == sub,
        progressed(ui, done, total).kind == ui.kind,
        progressed(ui, done, total).title == ui.title,
        progressed(ui, done, total).sub == ui.sub,
        total > 0 ==> progressed(ui, done, total).progress == (Progress { done, total }),
        total == 0 ==> progressed(ui, done, total).progress == ui.progress,
        idle().kind is Idle,
        idle().title.len() == 0,
        idle().sub.len() == 0,
        idle().progress.done == 0,
        idle().progress.total > 0,
{
}

/// The parts of a colour read back from its number, red lowest and blue highest.
pub proof fn law_colour_numbers_read_back(c: Rgb)
    ensures
        colour_number(c) % 0x100 == c.0,
        colour_number(c) / 0x100 % 0x100 == c.1,
        colour_number(c) / 0x10000 == c.2,
{
}

} // verus!
