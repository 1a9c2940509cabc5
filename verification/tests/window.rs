use cursor_drop::ui::{set_progress, set_state, StateKind, UiState};
use cursor_drop::window::{
    apply_dpi, detect_dark, paint_layout, px, result_of, revert_delay, wndproc, Area, Edges, Key,
    Line, WindowAction, WindowMessage, MAX_DPI,
};

fn area(a: &Area) -> (i32, i32, i32, i32) {
    (a.x, a.y, a.w, a.h)
}

fn slot(l: &Line) -> (i32, i32, i32, i32, i32, i32) {
    (l.left, l.top, l.right, l.height, l.size, l.weight)
}

fn ask(msg: WindowMessage) -> WindowAction {
    let mut ui = UiState::new();
    set_state(&mut ui, StateKind::Uploading, "t", "s");
    let r = wndproc(&mut ui, msg);
    assert!(ui.kind == StateKind::Uploading);
    assert_eq!(ui.title, "t");
    r
}

#[test]
fn px_scales_and_rounds_toward_zero() {
    assert_eq!(px(16, 96), 16);
    assert_eq!(px(15, 144), 22);
    assert_eq!(px(216, 120), 270);
    assert_eq!(px(1, 95), 0);
    assert_eq!(px(-15, 144), -22);
    assert_eq!(px(216, MAX_DPI), 22_369_619);
}

#[test]
fn the_layout_at_96_dpi() {
    let l = paint_layout(216, 64, 96);
    assert_eq!((l.edge, l.corner), (1, 32));
    assert_eq!(area(&l.rail), (16, 17, 3, 30));
    assert_eq!(slot(&l.title), (34, 13, 200, 20, 15, 600));
    assert_eq!(slot(&l.sub), (34, 33, 200, 18, 11, 400));
    assert_eq!(area(&l.bar), (16, 53, 184, 3));
}

#[test]
fn the_layout_at_144_dpi() {
    let l = paint_layout(324, 96, 144);
    assert_eq!((l.edge, l.corner), (1, 48));
    assert_eq!(area(&l.rail), (24, 25, 4, 45));
    assert_eq!(slot(&l.title), (51, 19, 300, 30, 22, 600));
    assert_eq!(slot(&l.sub), (51, 49, 300, 27, 16, 400));
    assert_eq!(area(&l.bar), (24, 80, 276, 4));
}

#[test]
fn the_edge_never_vanishes() {
    assert_eq!(paint_layout(10, 10, 48).edge, 1);
    assert_eq!(paint_layout(10, 10, 0).edge, 1);
    assert_eq!(paint_layout(1000, 300, 288).edge, 3);
}

#[test]
fn a_window_too_low_is_laid_out_all_the_same() {
    let l = paint_layout(0, 0, 96);
    assert_eq!(l.rail.y, -15);
    assert_eq!(l.title.top, -19);
    assert_eq!(l.bar.w, -32);
    assert_eq!(paint_layout(0, 1, 96).rail.y, -14);
}

#[test]
fn everything_fits_at_its_own_size() {
    for dpi in [96, 97, 120, 144, 168, 192, 250, 384] {
        let (w, h) = (px(216, dpi), px(64, dpi));
        let l = paint_layout(w, h, dpi);
        assert!(l.rail.y >= 0 && l.rail.y + l.rail.h <= l.bar.y);
        assert!(l.rail.x + l.rail.w <= l.title.left && l.title.left <= l.title.right);
        assert!(l.title.right <= w && l.title.top >= 0);
        assert_eq!(l.title.top + l.title.height, l.sub.top);
        assert!(l.sub.top + l.sub.height <= h && l.bar.y + l.bar.h <= h);
        assert!(l.bar.w >= 0 && l.bar.x + l.bar.w <= w);
    }
}

#[test]
fn the_window_starts_in_the_middle() {
    let p = apply_dpi(144, None, 1920, 1081);
    assert_eq!(p.dpi, 144);
    assert_eq!(area(&p.area), (798, 492, 324, 96));
    assert_eq!((p.region_w, p.region_h, p.corner), (325, 97, 48));
}

#[test]
fn no_resolution_means_96() {
    let p = apply_dpi(0, None, 216, 64);
    assert_eq!(p.dpi, 96);
    assert_eq!(area(&p.area), (0, 0, 216, 64));
    assert_eq!(area(&apply_dpi(96, None, 101, 0).area), (-57, -32, 216, 64));
}

#[test]
fn a_told_place_is_taken() {
    let place = Edges { left: -10, top: 20, right: 400, bottom: 130 };
    let p = apply_dpi(192, Some(place), 1, 1);
    assert_eq!(p.dpi, 192);
    assert_eq!(area(&p.area), (-10, 20, 410, 110));
    assert_eq!((p.region_w, p.region_h, p.corner), (411, 111, 64));
}

#[test]
fn messages_ask_for_their_actions() {
    assert!(matches!(ask(WindowMessage::EraseBackground), WindowAction::Erased));
    assert!(matches!(ask(WindowMessage::Paint), WindowAction::Paint));
    assert!(matches!(ask(WindowMessage::LeftButtonDown), WindowAction::DragWindow));
    assert!(matches!(ask(WindowMessage::RightButtonUp), WindowAction::ShowMenu));
    assert!(matches!(ask(WindowMessage::DropFiles), WindowAction::Drop));
    assert!(matches!(ask(WindowMessage::Destroy), WindowAction::Quit));
    assert!(matches!(ask(WindowMessage::Other), WindowAction::Default));
    assert!(matches!(ask(WindowMessage::Timer { id: 2 }), WindowAction::Handled));
}

#[test]
fn keys() {
    for ctrl in [true, false] {
        assert!(matches!(
            ask(WindowMessage::KeyDown { key: Key::Escape, ctrl }),
            WindowAction::Close
        ));
        assert!(matches!(
            ask(WindowMessage::KeyDown { key: Key::Other, ctrl }),
            WindowAction::Handled
        ));
    }
    assert!(matches!(
        ask(WindowMessage::KeyDown { key: Key::V, ctrl: true }),
        WindowAction::Paste
    ));
    assert!(matches!(
        ask(WindowMessage::KeyDown { key: Key::V, ctrl: false }),
        WindowAction::Handled
    ));
}

#[test]
fn the_low_word_tells_the_resolution() {
    assert!(matches!(
        ask(WindowMessage::DpiChanged { wparam: 0x0090_0078 }),
        WindowAction::SetDpi(0x78)
    ));
    assert!(matches!(
        ask(WindowMessage::DpiChanged { wparam: usize::MAX }),
        WindowAction::SetDpi(0xffff)
    ));
}

#[test]
fn only_an_outcome_starts_the_timer() {
    let cases = [
        (StateKind::Idle, None),
        (StateKind::Uploading, None),
        (StateKind::Success, Some(1500)),
        (StateKind::Error, Some(2500)),
    ];
    for (kind, delay) in cases {
        assert_eq!(revert_delay(kind), delay);
        let mut ui = UiState::new();
        set_state(&mut ui, kind, "t", "s");
        match wndproc(&mut ui, WindowMessage::StateChanged) {
            WindowAction::Refresh { revert_after } => assert_eq!(revert_after, delay),
            _ => panic!("no refresh"),
        }
        assert_eq!(ui.title, "t");
    }
}

#[test]
fn the_timer_blanks_the_report() {
    let mut ui = UiState::new();
    set_state(&mut ui, StateKind::Uploading, "t", "s");
    set_progress(&mut ui, 1, 2);
    assert!(matches!(
        wndproc(&mut ui, WindowMessage::Timer { id: 1 }),
        WindowAction::Reverted
    ));
    assert!(ui.kind == StateKind::Idle);
    assert_eq!((ui.title.as_str(), ui.sub.as_str(), ui.progress.done), ("", "", 0));
}

#[test]
fn what_the_window_procedure_returns() {
    assert_eq!(result_of(&WindowAction::Erased), Some(1));
    assert_eq!(result_of(&WindowAction::Default), None);
    assert_eq!(result_of(&WindowAction::Paint), Some(0));
    assert_eq!(result_of(&WindowAction::Quit), Some(0));
    assert_eq!(result_of(&WindowAction::Refresh { revert_after: None }), Some(0));
}

#[test]
fn dark_unless_the_desktop_is_light() {
    assert!(detect_dark(None));
    assert!(detect_dark(Some(0)));
    assert!(!detect_dark(Some(1)));
    assert!(!detect_dark(Some(7)));
}
