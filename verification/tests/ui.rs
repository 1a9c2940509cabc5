use cursor_drop::ui::{
    current_visual, palette, rgb, set_progress, set_state, Notice, Pal, StateKind, UiState,
};

const KINDS: [StateKind; 4] =
    [StateKind::Idle, StateKind::Uploading, StateKind::Success, StateKind::Error];

fn shown(ui: &UiState) -> (&str, &str, usize, usize) {
    (ui.title.as_str(), ui.sub.as_str(), ui.progress.done, ui.progress.total)
}

fn surfaces(p: &Pal) -> [(u8, u8, u8); 4] {
    [p.surface, p.border, p.title, p.sub]
}

#[test]
fn a_new_state_has_nothing_to_report() {
    let ui = UiState::new();
    assert!(ui.kind == StateKind::Idle);
    assert_eq!(shown(&ui), ("", "", 0, 1));
}

#[test]
fn a_transfer_keeps_its_bar_and_any_other_report_ends_it() {
    let mut ui = UiState::new();
    set_state(&mut ui, StateKind::Uploading, "Preparing", "prod");
    set_progress(&mut ui, 1, 3);
    set_state(&mut ui, StateKind::Uploading, "Sending 2/3", "b.png");
    assert!(ui.kind == StateKind::Uploading);
    assert_eq!(shown(&ui), ("Sending 2/3", "b.png", 1, 3));
    for kind in [StateKind::Idle, StateKind::Success, StateKind::Error] {
        set_progress(&mut ui, 2, 3);
        set_state(&mut ui, kind, "t", "s");
        assert!(ui.kind == kind);
        assert_eq!(shown(&ui), ("t", "s", 0, 1));
    }
}

#[test]
fn a_total_of_nothing_says_nothing() {
    let mut ui = UiState::new();
    assert!(set_progress(&mut ui, 2, 5));
    assert!(!set_progress(&mut ui, 7, 0));
    assert_eq!(shown(&ui), ("", "", 2, 5));
}

#[test]
fn revert_goes_back_to_the_start() {
    let mut ui = UiState::new();
    set_state(&mut ui, StateKind::Uploading, "t", "s");
    set_progress(&mut ui, 1, 2);
    ui.revert();
    assert!(ui.kind == StateKind::Idle);
    assert_eq!(shown(&ui), ("", "", 0, 1));
}

#[test]
fn a_notice_holds_its_lines() {
    let n = Notice::new(StateKind::Error, "title", "sub");
    assert!(n.kind == StateKind::Error);
    assert_eq!((n.title.as_str(), n.sub.as_str()), ("title", "sub"));
}

#[test]
fn red_stands_lowest_in_a_colour_number() {
    assert_eq!(rgb((0, 0, 0)), 0);
    assert_eq!(rgb((0x12, 0x34, 0x56)), 0x563412);
    assert_eq!(rgb((0xff, 0xff, 0xff)), 0xffffff);
    assert_ne!(rgb((1, 2, 3)), rgb((3, 2, 1)));
}

#[test]
fn the_dark_palette() {
    let expected = [(0x55, 0x60, 0x70), (0xE0, 0xA6, 0x4A), (0x58, 0xC9, 0x8B), (0xE4, 0x68, 0x5E)];
    for (kind, accent) in KINDS.iter().zip(expected) {
        let p = palette(*kind, true);
        assert_eq!(p.accent, accent);
        assert_eq!(
            surfaces(&p),
            [(0x1A, 0x1A, 0x1F), (0x30, 0x30, 0x3A), (0xF1, 0xF0, 0xF4), (0x8C, 0x89, 0x96)]
        );
    }
}

#[test]
fn the_light_palette() {
    let expected = [(0x9A, 0xA2, 0xAF), (0xC8, 0x8A, 0x1E), (0x2F, 0xA0, 0x66), (0xD0, 0x4A, 0x40)];
    for (kind, accent) in KINDS.iter().zip(expected) {
        let p = palette(*kind, false);
        assert_eq!(p.accent, accent);
        assert_eq!(
            surfaces(&p),
            [(0xFF, 0xFF, 0xFF), (0xDE, 0xDC, 0xE2), (0x16, 0x15, 0x1A), (0x74, 0x71, 0x7C)]
        );
    }
}

#[test]
fn the_accent_tells_the_states_apart() {
    for dark in [true, false] {
        for (i, a) in KINDS.iter().enumerate() {
            for (j, b) in KINDS.iter().enumerate() {
                assert_eq!(palette(*a, dark).accent == palette(*b, dark).accent, i == j);
            }
        }
    }
}

#[test]
fn the_widget_speaks_for_itself_without_a_title() {
    let mut ui = UiState::new();
    set_state(&mut ui, StateKind::Uploading, "", "unseen");
    set_progress(&mut ui, 1, 2);
    let v = current_visual(&ui, true);
    assert_eq!((v.title.as_str(), v.sub.as_str()), ("Drop or paste", "Ctrl+V or drag files here"));
    assert_eq!((v.progress.done, v.progress.total), (0, 1));
    assert_eq!(v.pal.accent, (0xE0, 0xA6, 0x4A));
}

#[test]
fn a_report_is_drawn_as_it_is() {
    let mut ui = UiState::new();
    set_state(&mut ui, StateKind::Uploading, "Sending 2/2", "b");
    set_progress(&mut ui, 1, 2);
    let v = current_visual(&ui, false);
    assert_eq!((v.title.as_str(), v.sub.as_str()), ("Sending 2/2", "b"));
    assert_eq!((v.progress.done, v.progress.total), (1, 2));
    assert_eq!(v.pal.surface, (0xFF, 0xFF, 0xFF));
}
