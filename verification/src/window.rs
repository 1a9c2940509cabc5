//! The window: what each message asks for, and where everything stands on it.

use vstd::prelude::*;

use crate::ui;
use crate::ui::{StateKind, UiState, UiView};

verus! {

pub const PILL_W: i32 = 216;

pub const PILL_H: i32 = 64;

pub const RADIUS: i32 = 16;

pub const PAD: i32 = 16;

pub const RAIL_W: i32 = 3;

pub const RAIL_H: i32 = 30;

pub const TEXT_X: i32 = 34;

pub const TITLE_H: i32 = 20;

pub const SUB_H: i32 = 18;

pub const TITLE_SIZE: i32 = 15;

pub const SUB_SIZE: i32 = 11;

pub const BAR_BOTTOM: i32 = 11;

pub const BAR_H: i32 = 3;

/// The highest resolution at which no length of the widget overflows.
pub const MAX_DPI: i32 = 9_942_053;

/// `n / d`, rounded toward zero, for a positive `d`.
pub open spec fn truncated(n: int, d: int) -> int {
    if n >= 0 {
        n / d
    } else {
        -((-n) / d)
    }
}

/// A 96-dpi design unit in whole pixels at a resolution.
pub open spec fn pixels(v: int, dpi: int) -> int {
    truncated(v * dpi, 96)
}

/// `n / 2`, rounded toward zero.
pub open spec fn half(n: int) -> int {
    truncated(n, 2)
}

/// A 96-dpi design unit in real pixels.
pub fn px(v: i32, dpi: i32) -> (r: i32)
    requires
        i32::MIN <= v * dpi <= i32::MAX,
    ensures
        r == pixels(v as int, dpi as int),
{
    v * dpi / 96
}

/// A resolution at which the widget can be laid out.
pub open spec fn drawable(dpi: int) -> bool {
    0 <= dpi <= MAX_DPI
}

/// A rectangle.
#[derive(Clone, Copy)]
pub struct Area {
    pub x: i32,
    pub y: i32,
    pub w: i32,
    pub h: i32,
}

/// Where a line of text stands, and how it is set.
#[derive(Clone, Copy)]
pub struct Line {
    pub left: i32,
    pub top: i32,
    pub right: i32,
    pub height: i32,
    pub size: i32,
    pub weight: i32,
}

/// Where everything stands on the widget.
#[derive(Clone, Copy)]
pub struct Layout {
    /// The width of the edge.
    pub edge: i32,
    /// The size of the corner arcs.
    pub corner: i32,
    /// The upright rail that carries the state.
    pub rail: Area,
    pub title: Line,
    pub sub: Line,
    /// The bar when all is done: it hugs the bottom edge, inset past the corner
    /// arcs.
    pub bar: Area,
}

/// Whether a layout is that of a window of the given size at a resolution.
pub open spec fn lays_out(l: Layout, w: int, h: int, dpi: int) -> bool {
    let text_top = half(h - pixels(TITLE_H + SUB_H, dpi));
    &&& l.edge == if pixels(1, dpi) >= 1 {
        pixels(1, dpi)
    } else {
        1
    }
    &&& l.corner == pixels(RADIUS as int, dpi) * 2
    &&& l.rail.x == pixels(PAD as int, dpi)
    &&& l.rail.y == half(h - pixels(RAIL_H as int, dpi))
    &&& l.rail.w == pixels(RAIL_W as int, dpi)
    &&& l.rail.h == pixels(RAIL_H as int, dpi)
    &&& l.title.left == pixels(TEXT_X as int, dpi)
    &&& l.title.top == text_top
    &&& l.title.right == w - pixels(PAD as int, dpi)
    &&& l.title.height == pixels(TITLE_H as int, dpi)
    &&& l.title.size == pixels(TITLE_SIZE as int, dpi)
    &&& l.title.weight == 600
    &&& l.sub.left == pixels(TEXT_X as int, dpi)
    &&& l.sub.top == text_top + pixels(TITLE_H as int, dpi)
    &&& l.sub.right == w - pixels(PAD as int, dpi)
    &&& l.sub.height == pixels(SUB_H as int, dpi)
    &&& l.sub.size == pixels(SUB_SIZE as int, dpi)
    &&& l.sub.weight == 400
    &&& l.bar.x == pixels(PAD as int, dpi)
    &&& l.bar.y == h - pixels(BAR_BOTTOM as int, dpi)
    &&& l.bar.w == w - pixels(PAD as int, dpi) * 2
    &&& l.bar.h == pixels(BAR_H as int, dpi)
}

/// Lay the widget out in a window of the given size.
pub fn paint_layout(w: i32, h: i32, dpi: i32) -> (r: Layout)
    requires
        drawable(dpi as int),
        w - pixels(PAD as int, dpi as int) * 2 >= i32::MIN,
        h - pixels(TITLE_H + SUB_H, dpi as int) >= i32::MIN,
    ensures
        lays_out(r, w as int, h as int, dpi as int),
{
    assert(0 <= 38 * dpi <= i32::MAX);
    let hair = px(1, dpi);
    let pad = px(PAD, dpi);
    let rail_h = px(RAIL_H, dpi);
    let title_h = px(TITLE_H, dpi);
    let left = px(TEXT_X, dpi);
    let right = w - pad;
    let top = (h - px(TITLE_H + SUB_H, dpi)) / 2;
    Layout {
        edge: if hair >= 1 {
            hair
        } else {
            1
        },
        corner: px(RADIUS, dpi) * 2,
        rail: Area { x: pad, y: (h - rail_h) / 2, w: px(RAIL_W, dpi), h: rail_h },
        title: Line {
            left,
            top,
            right,
            height: title_h,
            size: px(TITLE_SIZE, dpi),
            weight: 600,
        },
        sub: Line {
            left,
            top: top + title_h,
            right,
            height: px(SUB_H, dpi),
            size: px(SUB_SIZE, dpi),
            weight: 400,
        },
        bar: Area { x: pad, y: h - px(BAR_BOTTOM, dpi), w: w - pad * 2, h: px(BAR_H, dpi) },
    }
}

/// The edges of a window.
#[derive(Clone, Copy)]
pub struct Edges {
    pub left: i32,
    pub top: i32,
    pub right: i32,
    pub bottom: i32,
}

/// How a window is placed: its resolution, its area, and the rounded region that
/// it is cut to.
#[derive(Clone, Copy)]
pub struct Placement {
    pub dpi: i32,
    pub area: Area,
    pub region_w: i32,
    pub region_h: i32,
    pub corner: i32,
}

/// The resolution to draw at, given the one that the monitor tells: 96 where it
/// tells none.
pub open spec fn told_dpi(dpi: u32) -> int {
    if dpi == 0 {
        96
    } else {
        dpi as int
    }
}

/// Whether a window's edges are apart by lengths that a rectangle can have.
pub open spec fn measurable(e: Edges) -> bool {
    &&& i32::MIN <= e.right - e.left < i32::MAX
    &&& i32::MIN <= e.bottom - e.top < i32::MAX
}

/// Place the window for a resolution: where it is told to stand, or else in the
/// middle of the screen at its own size.
pub fn apply_dpi(dpi: u32, place: Option<Edges>, screen_w: i32, screen_h: i32) -> (r: Placement)
    requires
        drawable(told_dpi(dpi)),
        place matches Some(e) ==> measurable(e),
        place is None ==> screen_w - pixels(PILL_W as int, told_dpi(dpi)) >= i32::MIN,
        place is None ==> screen_h - pixels(PILL_H as int, told_dpi(dpi)) >= i32::MIN,
    ensures
        r.dpi == told_dpi(dpi),
        match place {
            Some(e) => {
                &&& r.area.x == e.left
                &&& r.area.y == e.top
                &&& r.area.w == e.right - e.left
                &&& r.area.h == e.bottom - e.top
            },
            None => {
                &&& r.area.w == pixels(PILL_W as int, told_dpi(dpi))
                &&& r.area.h == pixels(PILL_H as int, told_dpi(dpi))
                &&& r.area.x == half(screen_w - r.area.w)
                &&& r.area.y == half(screen_h - r.area.h)
            },
        },
        r.region_w == r.area.w + 1,
        r.region_h == r.area.h + 1,
        r.corner == pixels(RADIUS as int, told_dpi(dpi)) * 2,
{
    let dpi = if dpi == 0 {
        96
    } else {
        dpi as i32
    };
    let area = match place {
        Some(e) => Area { x: e.left, y: e.top, w: e.right - e.left, h: e.bottom - e.top },
        None => {
            let w = px(PILL_W, dpi);
            let h = px(PILL_H, dpi);
            Area { x: (screen_w - w) / 2, y: (screen_h - h) / 2, w, h }
        },
    };
    Placement {
        dpi,
        area,
        region_w: area.w + 1,
        region_h: area.h + 1,
        corner: px(RADIUS, dpi) * 2,
    }
}

/// The key of a key press.
pub enum Key {
    Escape,
    V,
    Other,
}

/// A message to the window.
pub enum WindowMessage {
    EraseBackground,
    Paint,
    LeftButtonDown,
    RightButtonUp,
    /// A key was pressed, with the control key down or not.
    KeyDown { key: Key, ctrl: bool },
    DropFiles,
    /// The resolution changed: its low sixteen bits tell it.
    DpiChanged { wparam: usize },
    /// The state to show changed.
    StateChanged,
    Timer { id: usize },
    Destroy,
    Other,
}

/// What a message asks for.
pub enum WindowAction {
    /// Nothing: the background is drawn with the rest.
    Erased,
    Paint,
    /// Drag the borderless window by its body.
    DragWindow,
    ShowMenu,
    Close,
    Paste,
    Drop,
    /// Place the window for a resolution.
    SetDpi(u32),
    /// Draw anew and stop the timer; then let it run for these milliseconds, if
    /// any.
    Refresh { revert_after: Option<u32> },
    /// Stop the timer and draw anew.
    Reverted,
    Quit,
    /// Nothing.
    Handled,
    /// What the system does by itself.
    Default,
}

/// The timer after which a report makes room.
pub const TIMER_REVERT: usize = 1;

/// How long, in milliseconds, a report stays: one of a running transfer, and
/// having nothing to report, stay.
pub open spec fn stays_for(kind: StateKind) -> Option<u32> {
    match kind {
        StateKind::Success => Some(1500),
        StateKind::Error => Some(2500),
        _ => None,
    }
}

/// What a message asks for, given the state that is shown.
pub open spec fn action(kind: StateKind, msg: WindowMessage) -> WindowAction {
    match msg {
        WindowMessage::EraseBackground => WindowAction::Erased,
        WindowMessage::Paint => WindowAction::Paint,
        WindowMessage::LeftButtonDown => WindowAction::DragWindow,
        WindowMessage::RightButtonUp => WindowAction::ShowMenu,
        WindowMessage::KeyDown { key: Key::Escape, .. } => WindowAction::Close,
        WindowMessage::KeyDown { key: Key::V, ctrl: true } => WindowAction::Paste,
        WindowMessage::KeyDown { .. } => WindowAction::Handled,
        WindowMessage::DropFiles => WindowAction::Drop,
        WindowMessage::DpiChanged { wparam } => WindowAction::SetDpi((wparam % 0x10000) as u32),
        WindowMessage::StateChanged => WindowAction::Refresh { revert_after: stays_for(kind) },
        WindowMessage::Timer { id } => if id == TIMER_REVERT {
            WindowAction::Reverted
        } else {
            WindowAction::Handled
        },
        WindowMessage::Destroy => WindowAction::Quit,
        WindowMessage::Other => WindowAction::Default,
    }
}

/// The state that is shown after a message: only the timer changes it.
pub open spec fn shown_after(ui: UiView, msg: WindowMessage) -> UiView {
    if msg matches WindowMessage::Timer { id } && id == TIMER_REVERT {
        ui::idle()
    } else {
        ui
    }
}

/// How long, in milliseconds, a report stays.
pub fn revert_delay(kind: StateKind) -> (r: Option<u32>)
    ensures
        r == stays_for(kind),
{
    match kind {
        StateKind::Success => Some(1500),
        StateKind::Error => Some(2500),
        _ => None,
    }
}

/// Decide what a message asks for.
pub fn wndproc(ui: &mut UiState, msg: WindowMessage) -> (r: WindowAction)
    ensures
        r == action(old(ui).kind, msg),
        final(ui)@ == shown_after(old(ui)@, msg),
{
    match msg {
        WindowMessage::EraseBackground => WindowAction::Erased,
        WindowMessage::Paint => WindowAction::Paint,
        WindowMessage::LeftButtonDown => WindowAction::DragWindow,
        WindowMessage::RightButtonUp => WindowAction::ShowMenu,
        WindowMessage::KeyDown { key, ctrl } => match key {
            Key::Escape => WindowAction::Close,
            Key::V => {
                if ctrl {
                    WindowAction::Paste
                } else {
                    WindowAction::Handled
                }
            },
            Key::Other => WindowAction::Handled,
        },
        WindowMessage::DropFiles => WindowAction::Drop,
        WindowMessage::DpiChanged { wparam } => {
            assert(wparam & 0xffff == wparam % 0x10000) by (bit_vector);
            WindowAction::SetDpi((wparam & 0xffff) as u32)
        },
        WindowMessage::StateChanged => WindowAction::Refresh {
            revert_after: revert_delay(ui.kind),
        },
        WindowMessage::Timer { id } => {
            if id == TIMER_REVERT {
                ui.revert();
                WindowAction::Reverted
            } else {
                WindowAction::Handled
            }
        },
        WindowMessage::Destroy => WindowAction::Quit,
        WindowMessage::Other => WindowAction::Default,
    }
}

/// What the window procedure returns for an action: 1 for an erased background,
/// what the system returns where it acts by itself (`None`), and else 0.
pub fn result_of(action: &WindowAction) -> (r: Option<isize>)
    ensures
        r == match action {
            WindowAction::Erased => Some(1isize),
            WindowAction::Default => None,
            _ => Some(0isize),
        },
{
    match action {
        WindowAction::Erased => Some(1),
        WindowAction::Default => None,
        _ => Some(0),
    }
}

/// Whether the desktop is dark, given the registry's light-theme value where it
/// could be read: dark where it is 0, and where there is none.
pub fn detect_dark(light_theme: Option<u32>) -> (r: bool)
    ensures
        r == match light_theme {
            Some(v) => v == 0,
            None => true,
        },
{
    match light_theme {
        Some(v) => v == 0,
        None => true,
    }
}

/// The report of a running transfer is not blanked: a new report stops the timer,
/// and only an outcome starts it again.
pub proof fn law_transfer_is_not_blanked(kind: StateKind)
    ensures
        action(kind, WindowMessage::StateChanged) matches WindowAction::Refresh { revert_after }
            && (revert_after is Some <==> kind is Success || kind is Error),
{
}

/// At its own size the widget holds all that stands on it: the rail left of the
/// text, the title above the second line, the bar below the middle, and nothing
/// beyond the edges.
pub proof fn law_layout_fits(l: Layout, dpi: int)
    requires
        drawable(dpi),
        lays_out(l, pixels(PILL_W as int, dpi), pixels(PILL_H as int, dpi), dpi),
    ensures
        0 <= l.rail.x,
        0 <= l.rail.y,
        l.rail.y + l.rail.h <= pixels(PILL_H as int, dpi),
        l.rail.x + l.rail.w <= l.title.left,
        l.title.left <= l.title.right,
        l.title.right <= pixels(PILL_W as int, dpi),
        0 <= l.title.top,
        l.title.top + l.title.height == l.sub.top,
        l.sub.top + l.sub.height <= pixels(PILL_H as int, dpi),
        0 <= l.bar.w,
        l.bar.x + l.bar.w <= pixels(PILL_W as int, dpi),
        l.rail.y + l.rail.h <= l.bar.y,
        l.bar.y + l.bar.h <= pixels(PILL_H as int, dpi),
{
}

/// A window in the middle of a length has as much room on the one side as on the
/// other, but for one pixel.
pub proof fn law_centred(screen: int, length: int)
    ensures
        ({
            let x = half(screen - length);
            -1 <= (screen - (x + length)) - x <= 1
        }),
{
}

/// At 96 dpi a design unit is a pixel, and a higher resolution makes nothing
/// smaller.
pub proof fn law_pixels_grow(v: int, low: int, high: int)
    requires
        0 <= v,
        0 <= low <= high,
    ensures
        pixels(v, 96) == v,
        pixels(v, low) <= pixels(v, high),
{
    assert(v * low <= v * high) by (nonlinear_arith)
        requires
            0 <= v,
            low <= high,
    ;
}

/// Pixels are the whole ones that a length has at a resolution: 96 design units per
/// inch become so many dots per inch, and what is left is less than a pixel. Lengths
/// to the other side are the same.
pub proof fn law_pixels_are_the_whole_ones(v: int, dpi: int)
    ensures
        v * dpi >= 0 ==> 96 * pixels(v, dpi) <= v * dpi < 96 * pixels(v, dpi) + 96,
        v * dpi < 0 ==> 96 * pixels(v, dpi) - 96 < v * dpi <= 96 * pixels(v, dpi),
{
}

/// In a window of any size the widget is laid out evenly: as much room left as right
/// of it, the rail and the two lines in the middle of the height, but for one pixel,
/// and the lines under each other.
pub proof fn law_layout_is_even(l: Layout, w: int, h: int, dpi: int)
    requires
        drawable(dpi),
        lays_out(l, w, h, dpi),
    ensures
        l.rail.x == w - l.title.right,
        l.bar.x == w - (l.bar.x + l.bar.w),
        l.bar.x == l.rail.x,
        -1 <= (h - (l.rail.y + l.rail.h)) - l.rail.y <= 1,
        -1 <= (h - (l.title.top + pixels(38, dpi))) - l.title.top <= 1,
        l.sub.top == l.title.top + l.title.height,
        l.sub.left == l.title.left,
        l.sub.right == l.title.right,
{
}

/// The lengths of the widget, in design units.
pub proof fn law_layout_lengths(l: Layout, w: int, h: int, dpi: int)
    requires
        drawable(dpi),
        lays_out(l, w, h, dpi),
    ensures
        l.edge == 1 || l.edge == pixels(1, dpi),
        l.edge >= 1,
        l.edge >= pixels(1, dpi),
        l.corner == 2 * pixels(16, dpi),
        l.rail.x == pixels(16, dpi),
        l.rail.w == pixels(3, dpi),
        l.rail.h == pixels(30, dpi),
        l.title.left == pixels(34, dpi),
        l.title.height == pixels(20, dpi),
        l.sub.height == pixels(18, dpi),
        l.title.size == pixels(15, dpi),
        l.sub.size == pixels(11, dpi),
        l.title.weight == 600,
        l.sub.weight == 400,
        l.bar.h == pixels(3, dpi),
        h - l.bar.y == pixels(11, dpi),
{
}

/// What the messages that carry something ask for: a resolution is the low sixteen
/// bits of its message, the timer counts where it is the one for reports, and of the
/// keys escape closes, and `V` pastes with the control key down.
pub proof fn law_messages_ask_for_actions(kind: StateKind, wparam: usize, id: usize, ctrl: bool)
    ensures
        action(kind, WindowMessage::DpiChanged { wparam }) matches WindowAction::SetDpi(dpi) && dpi
            < 0x10000 && (wparam - dpi) % 0x10000 == 0,
        action(kind, WindowMessage::Timer { id }) == (if id == 1 {
            WindowAction::Reverted
        } else {
            WindowAction::Handled
        }),
        action(kind, WindowMessage::KeyDown { key: Key::Escape, ctrl }) is Close,
        action(kind, WindowMessage::KeyDown { key: Key::V, ctrl }) == (if ctrl {
            WindowAction::Paste
        } else {
            WindowAction::Handled
        }),
        action(kind, WindowMessage::KeyDown { key: Key::Other, ctrl }) is Handled,
        action(kind, WindowMessage::EraseBackground) is Erased,
        action(kind, WindowMessage::Paint) is Paint,
        action(kind, WindowMessage::LeftButtonDown) is DragWindow,
        action(kind, WindowMessage::RightButtonUp) is ShowMenu,
        action(kind, WindowMessage::DropFiles) is Drop,
        action(kind, WindowMessage::Destroy) is Quit,
        action(kind, WindowMessage::Other) is Default,
        action(kind, WindowMessage::StateChanged) == (WindowAction::Refresh {
            revert_after: match kind {
                StateKind::Success => Some(1500u32),
                StateKind::Error => Some(2500u32),
                _ => None,
            },
        }),
{
}

/// Only the timer for reports changes what is shown, and it blanks it.
pub proof fn law_only_the_timer_blanks(ui: UiView, msg: WindowMessage)
    ensures
        msg == (WindowMessage::Timer { id: 1 }) ==> {
            let shown = shown_after(ui, msg);
            &&& shown.kind is Idle
            &&& shown.title.len() == 0
            &&& shown.sub.len() == 0
            &&& shown.progress.done == 0
        },
        msg != (WindowMessage::Timer { id: 1 }) ==> shown_after(ui, msg) == ui,
{
}

} // verus!
