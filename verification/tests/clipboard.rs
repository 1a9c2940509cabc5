use cursor_drop::clipboard::{
    bitmap_saved, do_paste, paste_bitmap, save_clipboard_bitmap_png, set_clipboard_text,
    ClipCounter, ImageStage, Paste, TextStage,
};
use cursor_drop::sys::LocalTime;
use cursor_drop::ui::StateKind;

const NOON: LocalTime =
    LocalTime { year: 2026, month: 3, day: 4, hour: 12, minute: 0, second: 9 };

/// The outcome of putting a text on the clipboard, and how often each of opening,
/// emptying and closing took place, when the calls come out as told.
fn put(alloc: bool, lock: bool, opens: &[bool], taken: bool) -> (bool, usize, usize, usize) {
    let (mut tries, mut emptied, mut closed) = (0, 0, 0);
    let mut stage = set_clipboard_text("x").1;
    loop {
        let ok = match stage {
            TextStage::Alloc => alloc,
            TextStage::Lock => lock,
            TextStage::Fill | TextStage::Pause { .. } => true,
            TextStage::Open { tried } => {
                assert_eq!(tried as usize, tries);
                tries += 1;
                opens[tries - 1]
            }
            TextStage::Empty => {
                emptied += 1;
                true
            }
            TextStage::Put => taken,
            TextStage::Close { .. } => {
                closed += 1;
                true
            }
            TextStage::Done { ok } => return (ok, tries, emptied, closed),
        };
        stage = stage.next(ok);
    }
}

#[test]
fn the_text_goes_out_in_utf16() {
    let (units, stage) = set_clipboard_text("'/a' é😀");
    assert_eq!(
        units,
        vec![0x27, 0x2f, 0x61, 0x27, 0x20, 0xe9, 0xd83d, 0xde00, 0]
    );
    assert!(matches!(stage, TextStage::Alloc));
}

#[test]
fn a_text_is_delivered() {
    assert_eq!(put(true, true, &[true], true), (true, 1, 1, 1));
}

#[test]
fn a_text_without_memory_touches_no_clipboard() {
    assert_eq!(put(false, true, &[], true), (false, 0, 0, 0));
    assert_eq!(put(true, false, &[], true), (false, 0, 0, 0));
}

#[test]
fn a_busy_clipboard_is_tried_anew() {
    assert_eq!(put(true, true, &[false, true], true), (true, 2, 1, 1));
    assert_eq!(put(true, true, &[false, false, false, false, true], true), (true, 5, 1, 1));
}

#[test]
fn a_clipboard_that_stays_busy_is_given_up_unharmed() {
    assert_eq!(put(true, true, &[false; 5], true), (false, 5, 0, 0));
}

#[test]
fn a_text_that_is_not_taken_closes_the_clipboard() {
    assert_eq!(put(true, true, &[true], false), (false, 1, 1, 1));
}

/// The outcome of saving an image, and what was given back, when the call numbered
/// `fails` fails.
fn save(fails: usize) -> (bool, &'static str) {
    let mut back = "";
    let mut stage = save_clipboard_bitmap_png();
    loop {
        let ok = match stage {
            ImageStage::Startup => fails != 1,
            ImageStage::Open => fails != 2,
            ImageStage::Get => fails != 3,
            ImageStage::Create => fails != 4,
            ImageStage::Save => fails != 5,
            ImageStage::Dispose { .. } => {
                back = "image ";
                false
            }
            ImageStage::Close { .. } => {
                back = if back == "" { "clipboard " } else { "image clipboard " };
                false
            }
            ImageStage::Shutdown { .. } => {
                back = match back {
                    "" => "library",
                    "clipboard " => "clipboard library",
                    _ => "image clipboard library",
                };
                false
            }
            ImageStage::Done { saved } => return (saved, back),
        };
        stage = stage.next(ok);
    }
}

#[test]
fn an_image_is_saved_and_everything_given_back() {
    assert_eq!(save(0), (true, "image clipboard library"));
}

#[test]
fn a_failure_gives_back_what_was_taken() {
    assert_eq!(save(1), (false, ""));
    assert_eq!(save(2), (false, "library"));
    assert_eq!(save(3), (false, "clipboard library"));
    assert_eq!(save(4), (false, "clipboard library"));
    assert_eq!(save(5), (false, "image clipboard library"));
}

fn report(p: Paste) -> (String, String) {
    match p {
        Paste::Report(n) => {
            assert!(n.kind == StateKind::Error);
            (n.title, n.sub)
        }
        _ => panic!("no report"),
    }
}

#[test]
fn files_come_before_an_image() {
    assert!(matches!(do_paste(1), Paste::UploadFiles));
    assert!(matches!(do_paste(20), Paste::UploadFiles));
    assert!(matches!(do_paste(0), Paste::CheckBitmap));
}

fn clip(counter: &mut ClipCounter) -> String {
    match paste_bitmap(true, &NOON, counter) {
        Paste::SaveBitmap(name) => name,
        _ => panic!("not saved"),
    }
}

#[test]
fn an_image_is_named_by_time_and_number() {
    let mut counter = ClipCounter::new();
    assert_eq!(clip(&mut counter), "clip-20260304-120009-0.png");
    assert_eq!(clip(&mut counter), "clip-20260304-120009-1.png");
}

#[test]
fn images_of_one_second_differ() {
    let mut counter = ClipCounter::new();
    let names: Vec<String> = (0..25).map(|_| clip(&mut counter)).collect();
    assert_eq!(names[24], "clip-20260304-120009-24.png");
    for i in 0..25 {
        for j in 0..i {
            assert_ne!(names[i], names[j]);
        }
    }
}

#[test]
fn only_an_image_draws_a_number() {
    let mut counter = ClipCounter::new();
    paste_bitmap(false, &NOON, &mut counter);
    assert_eq!(clip(&mut counter), "clip-20260304-120009-0.png");
    paste_bitmap(false, &NOON, &mut counter);
    assert_eq!(counter.take(), 1);
    assert_eq!(counter.take(), 2);
}

#[test]
fn nothing_to_paste() {
    assert_eq!(
        report(paste_bitmap(false, &NOON, &mut ClipCounter::new())),
        ("Nothing to paste".to_string(), "No files or image on the clipboard".to_string())
    );
}

#[test]
fn an_image_that_was_not_saved_is_reported() {
    assert!(matches!(bitmap_saved(true), Paste::UploadClip));
    assert_eq!(
        report(bitmap_saved(false)),
        ("Image not saved".to_string(), "Could not write the PNG".to_string())
    );
}
