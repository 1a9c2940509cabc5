//! What is done with the clipboard, as the decisions between one outside call and
//! the next: putting a text on it, saving its image, and pasting from it.

use vstd::prelude::*;

use crate::sys;
use crate::sys::LocalTime;
use crate::text;
use crate::text_laws;
use crate::ui::{Notice, NoticeView, StateKind};

verus! {

/// How often the clipboard is tried before a text is given up: others hold it for
/// a few milliseconds at a time.
pub const OPEN_TRIES: u32 = 5;

/// What putting a text on the clipboard does next.
#[derive(Clone, Copy)]
pub enum TextStage {
    /// Get a block of memory.
    Alloc,
    /// Lock the block.
    Lock,
    /// Copy the text into the block, and unlock it.
    Fill,
    /// Open the clipboard, after so many tries.
    Open { tried: u32 },
    /// Wait a moment, after so many tries.
    Pause { tried: u32 },
    /// Empty the clipboard.
    Empty,
    /// Hand the block over.
    Put,
    /// Close the clipboard.
    Close { ok: bool },
    /// Nothing: whether the text was delivered.
    Done { ok: bool },
}

/// What comes after a stage, given whether it succeeded.
pub open spec fn text_after(stage: TextStage, ok: bool) -> TextStage {
    match stage {
        TextStage::Alloc => if ok {
            TextStage::Lock
        } else {
            TextStage::Done { ok: false }
        },
        TextStage::Lock => if ok {
            TextStage::Fill
        } else {
            TextStage::Done { ok: false }
        },
        TextStage::Fill => TextStage::Open { tried: 0 },
        TextStage::Open { tried } => if ok {
            TextStage::Empty
        } else {
            TextStage::Pause { tried: (tried + 1) as u32 }
        },
        TextStage::Pause { tried } => if tried < OPEN_TRIES {
            TextStage::Open { tried }
        } else {
            TextStage::Done { ok: false }
        },
        TextStage::Empty => TextStage::Put,
        TextStage::Put => TextStage::Close { ok },
        TextStage::Close { ok: put } => TextStage::Done { ok: put },
        TextStage::Done { ok: put } => TextStage::Done { ok: put },
    }
}

/// What holds of the stages: the clipboard is tried so many times at most.
pub open spec fn text_wf(stage: TextStage) -> bool {
    match stage {
        TextStage::Open { tried } => tried < OPEN_TRIES,
        TextStage::Pause { tried } => 0 < tried <= OPEN_TRIES,
        _ => true,
    }
}

/// Start to put a text on the clipboard: the UTF-16 text, and what comes first.
pub fn set_clipboard_text(s: &str) -> (r: (Vec<u16>, TextStage))
    ensures
        r.0@ == sys::utf16(s@).push(0),
        r.1 == TextStage::Alloc,
        text_wf(r.1),
{
    (sys::wide(s), TextStage::Alloc)
}

impl TextStage {
    /// Go on, given whether the stage succeeded.
    pub fn next(self, ok: bool) -> (r: TextStage)
        requires
            text_wf(self),
        ensures
            r == text_after(self, ok),
            text_wf(r),
    {
        match self {
            TextStage::Alloc => {
                if ok {
                    TextStage::Lock
                } else {
                    TextStage::Done { ok: false }
                }
            },
            TextStage::Lock => {
                if ok {
                    TextStage::Fill
                } else {
                    TextStage::Done { ok: false }
                }
            },
            TextStage::Fill => TextStage::Open { tried: 0 },
            TextStage::Open { tried } => {
                if ok {
                    TextStage::Empty
                } else {
                    TextStage::Pause { tried: tried + 1 }
                }
            },
            TextStage::Pause { tried } => {
                if tried < OPEN_TRIES {
                    TextStage::Open { tried }
                } else {
                    TextStage::Done { ok: false }
                }
            },
            TextStage::Empty => TextStage::Put,
            TextStage::Put => TextStage::Close { ok },
            TextStage::Close { ok: put } => TextStage::Done { ok: put },
            TextStage::Done { ok: put } => TextStage::Done { ok: put },
        }
    }
}

/// What saving the clipboard's image does next.
#[derive(Clone, Copy)]
pub enum ImageStage {
    /// Start the imaging library.
    Startup,
    /// Open the clipboard.
    Open,
    /// Get the bitmap.
    Get,
    /// Make an image of the bitmap.
    Create,
    /// Save the image.
    Save,
    /// Dispose of the image.
    Dispose { saved: bool },
    /// Close the clipboard.
    Close { saved: bool },
    /// Shut the imaging library down.
    Shutdown { saved: bool },
    /// Nothing: whether the image was saved.
    Done { saved: bool },
}

/// What comes after a stage, given whether it succeeded.
pub open spec fn image_after(stage: ImageStage, ok: bool) -> ImageStage {
    match stage {
        ImageStage::Startup => if ok {
            ImageStage::Open
        } else {
            ImageStage::Done { saved: false }
        },
        ImageStage::Open => if ok {
            ImageStage::Get
        } else {
            ImageStage::Shutdown { saved: false }
        },
        ImageStage::Get => if ok {
            ImageStage::Create
        } else {
            ImageStage::Close { saved: false }
        },
        ImageStage::Create => if ok {
            ImageStage::Save
        } else {
            ImageStage::Close { saved: false }
        },
        ImageStage::Save => ImageStage::Dispose { saved: ok },
        ImageStage::Dispose { saved } => ImageStage::Close { saved },
        ImageStage::Close { saved } => ImageStage::Shutdown { saved },
        ImageStage::Shutdown { saved } => ImageStage::Done { saved },
        ImageStage::Done { saved } => ImageStage::Done { saved },
    }
}

/// Start to save the clipboard's image.
pub fn save_clipboard_bitmap_png() -> (r: ImageStage)
    ensures
        r == ImageStage::Startup,
{
    ImageStage::Startup
}

impl ImageStage {
    /// Go on, given whether the stage succeeded.
    pub fn next(self, ok: bool) -> (r: ImageStage)
        ensures
            r == image_after(self, ok),
    {
        match self {
            ImageStage::Startup => {
                if ok {
                    ImageStage::Open
                } else {
                    ImageStage::Done { saved: false }
                }
            },
            ImageStage::Open => {
                if ok {
                    ImageStage::Get
                } else {
                    ImageStage::Shutdown { saved: false }
                }
            },
            ImageStage::Get => {
                if ok {
                    ImageStage::Create
                } else {
                    ImageStage::Close { saved: false }
                }
            },
            ImageStage::Create => {
                if ok {
                    ImageStage::Save
                } else {
                    ImageStage::Close { saved: false }
                }
            },
            ImageStage::Save => ImageStage::Dispose { saved: ok },
            ImageStage::Dispose { saved } => ImageStage::Close { saved },
            ImageStage::Close { saved } => ImageStage::Shutdown { saved },
            ImageStage::Shutdown { saved } => ImageStage::Done { saved },
            ImageStage::Done { saved } => ImageStage::Done { saved },
        }
    }
}

/// What a paste does next.
pub enum Paste {
    /// Upload the files on the clipboard.
    UploadFiles,
    /// See whether there is an image on the clipboard.
    CheckBitmap,
    /// Save the image under this name.
    SaveBitmap(String),
    /// Upload the image that was saved.
    UploadClip,
    /// Report that there was nothing to upload.
    Report(Notice),
}

/// The name under which an image is saved: the time, and a number that tells it
/// from others of the same second.
pub open spec fn clip_name(t: LocalTime, n: nat) -> Seq<char> {
    "clip-"@ + sys::stamp(t) + seq!['-'] + text::decimal(n) + ".png"@
}

/// How many numbers there are for images: one for each `usize`.
pub open spec fn numbers() -> int {
    usize::MAX + 1
}

/// The number that is drawn `k` images after `n`: the numbers follow each other, and
/// begin anew when all were drawn.
pub open spec fn number_after(n: int, k: int) -> int {
    (n + k) % numbers()
}

/// The number of the next image that is saved.
pub struct ClipCounter {
    next: usize,
}

impl View for ClipCounter {
    type V = int;

    closed spec fn view(&self) -> int {
        self.next as int
    }
}

impl ClipCounter {
    /// No image was saved.
    pub fn new() -> (r: ClipCounter)
        ensures
            r@ == 0,
    {
        ClipCounter { next: 0 }
    }

    /// Draw a number.
    pub fn take(&mut self) -> (n: usize)
        ensures
            n == old(self)@,
            final(self)@ == number_after(old(self)@, 1),
    {
        let n = self.next;
        proof {
            if n == usize::MAX {
                vstd::arithmetic::div_mod::lemma_mod_self_0(numbers());
            } else {
                vstd::arithmetic::div_mod::lemma_small_mod((n + 1) as nat, numbers() as nat);
            }
        }
        self.next = if n == usize::MAX {
            0
        } else {
            n + 1
        };
        n
    }
}

/// Paste, with so many files on the clipboard: they come first.
pub fn do_paste(files: usize) -> (r: Paste)
    ensures
        files > 0 ==> r is UploadFiles,
        files == 0 ==> r is CheckBitmap,
{
    if files > 0 {
        Paste::UploadFiles
    } else {
        Paste::CheckBitmap
    }
}

/// Go on with a paste without files, given whether there is an image, and the time.
/// Every image draws a number.
pub fn paste_bitmap(has_bitmap: bool, now: &LocalTime, counter: &mut ClipCounter) -> (r: Paste)
    ensures
        has_bitmap ==> (r matches Paste::SaveBitmap(name) && name@ == clip_name(
            *now,
            old(counter)@ as nat,
        )) && final(counter)@ == number_after(old(counter)@, 1),
        !has_bitmap ==> (r matches Paste::Report(n) && n@ == (NoticeView {
            kind: StateKind::Error,
            title: "Nothing to paste"@,
            sub: "No files or image on the clipboard"@,
        })) && final(counter)@ == old(counter)@,
{
    if has_bitmap {
        let n = counter.take();
        let mut name = "clip-".to_owned();
        name.append(sys::now_stamp(now).as_str());
        name.push('-');
        text::push_decimal(&mut name, n);
        name.append(".png");
        Paste::SaveBitmap(name)
    } else {
        Paste::Report(
            Notice::new(
                StateKind::Error,
                "Nothing to paste",
                "No files or image on the clipboard",
            ),
        )
    }
}

/// Go on with a paste, given whether the image was saved.
pub fn bitmap_saved(ok: bool) -> (r: Paste)
    ensures
        ok ==> r is UploadClip,
        !ok ==> (r matches Paste::Report(n) && n@ == (NoticeView {
            kind: StateKind::Error,
            title: "Image not saved"@,
            sub: "Could not write the PNG"@,
        })),
{
    if ok {
        Paste::UploadClip
    } else {
        Paste::Report(
            Notice::new(StateKind::Error, "Image not saved", "Could not write the PNG"),
        )
    }
}

/// No two saved images have the same name: neither two of different times, nor
/// two of the same time with different numbers.
pub proof fn law_clip_names_differ(t: LocalTime, a: nat, u: LocalTime, b: nat)
    requires
        sys::stampable(t),
        sys::stampable(u),
        clip_name(t, a) == clip_name(u, b),
    ensures
        t == u,
        a == b,
{
    reveal_strlit("clip-");
    reveal_strlit(".png");
    sys::law_stamp_shape(t);
    sys::law_stamp_shape(u);
    let p = clip_name(t, a);
    let q = clip_name(u, b);
    assert(p.subrange(5, 20) == sys::stamp(t));
    assert(q.subrange(5, 20) == sys::stamp(u));
    assert(p.subrange(21, p.len() - 4) == text::decimal(a));
    assert(q.subrange(21, q.len() - 4) == text::decimal(b));
    sys::law_stamps_differ(t, u);
    text::lemma_decimals_differ(a, b);
}

/// The numbers follow each other one by one.
proof fn lemma_number_after(n: int, k: int)
    requires
        0 <= n < numbers(),
        0 <= k,
    ensures
        0 <= number_after(n, k) < numbers(),
        number_after(number_after(n, k), 1) == number_after(n, k + 1),
{
    vstd::arithmetic::div_mod::lemma_mod_bound(n + k, numbers());
    vstd::arithmetic::div_mod::lemma_add_mod_noop(n + k, 1, numbers());
    vstd::arithmetic::div_mod::lemma_small_mod(1, numbers() as nat);
}

/// Each image draws a new number, so that it gets a new name, whatever the times:
/// images `i` and `j` after a start have different ones, until as many images were
/// saved as there are numbers.
pub proof fn law_every_clip_name_is_new(start: int, i: int, t: LocalTime, j: int, u: LocalTime)
    requires
        0 <= start < numbers(),
        0 <= i < j,
        j - i < numbers(),
        sys::stampable(t),
        sys::stampable(u),
    ensures
        number_after(number_after(start, i), 1) == number_after(start, i + 1),
        number_after(start, i) != number_after(start, j),
        clip_name(t, number_after(start, i) as nat) != clip_name(
            u,
            number_after(start, j) as nat,
        ),
{
    lemma_number_after(start, i);
    lemma_number_after(start, j);
    let m = numbers();
    if number_after(start, i) == number_after(start, j) {
        vstd::arithmetic::div_mod::lemma_mod_equivalence(start + j, start + i, m);
        vstd::arithmetic::div_mod::lemma_small_mod((j - i) as nat, m as nat);
    }
    if clip_name(t, number_after(start, i) as nat) == clip_name(
        u,
        number_after(start, j) as nat,
    ) {
        law_clip_names_differ(t, number_after(start, i) as nat, u, number_after(start, j) as nat);
    }
}

/// What is on the clipboard is thrown away only when the new text is ready and
/// the clipboard is open: emptying follows a successful opening, and opening
/// follows the filling of the block.
pub proof fn law_clipboard_emptied_only_when_ready(stage: TextStage, ok: bool)
    requires
        text_wf(stage),
    ensures
        text_after(stage, ok) is Empty ==> stage is Open && ok,
        text_after(stage, ok) is Open ==> stage is Fill || (stage is Pause && stage->Pause_tried
            > 0),
        text_after(stage, ok) is Pause ==> stage is Open && !ok,
        text_after(stage, ok) is Fill ==> stage is Lock && ok,
        text_after(stage, ok) is Lock ==> stage is Alloc && ok,
{
}

/// Whether the clipboard is open at a stage of putting a text on it.
pub open spec fn text_holds_clipboard(stage: TextStage) -> bool {
    stage is Empty || stage is Put || stage is Close
}

/// The clipboard that was opened for a text is closed, and no other: it is open
/// from a successful opening up to its closing, and never at the end.
pub proof fn law_text_closes_the_clipboard(stage: TextStage, ok: bool)
    ensures
        text_holds_clipboard(text_after(stage, ok)) <==> (stage is Open && ok) || (
        text_holds_clipboard(stage) && !(stage is Close)),
        text_after(stage, ok) is Close <==> stage is Put,
{
}

/// A text counts as delivered exactly where the clipboard took the block.
pub proof fn law_text_delivered_when_taken(stage: TextStage, ok: bool)
    ensures
        stage is Put ==> text_after(text_after(stage, ok), true) == (TextStage::Done { ok }),
        text_after(stage, ok) == (TextStage::Done { ok: true }) ==> stage == (TextStage::Close {
            ok: true,
        }) || stage == (TextStage::Done { ok: true }),
        text_after(stage, ok) == (TextStage::Close { ok: true }) ==> stage is Put && ok,
{
}

/// How many stages are left at most.
pub open spec fn text_stages_left(stage: TextStage) -> int {
    match stage {
        TextStage::Alloc => 17,
        TextStage::Lock => 16,
        TextStage::Fill => 15,
        TextStage::Open { tried } => 14 - 2 * tried,
        TextStage::Pause { tried } => 15 - 2 * tried,
        TextStage::Empty => 3,
        TextStage::Put => 2,
        TextStage::Close { .. } => 1,
        TextStage::Done { .. } => 0,
    }
}

/// One refusal does not cost the text: the clipboard is tried anew up to its
/// number of tries, and then it is given up.
pub proof fn law_clipboard_tried_anew(tried: u32, ok: bool)
    requires
        tried < OPEN_TRIES,
    ensures
        text_after(TextStage::Open { tried }, false) == (TextStage::Pause {
            tried: (tried + 1) as u32,
        }),
        tried + 1 < OPEN_TRIES ==> text_after(
            TextStage::Pause { tried: (tried + 1) as u32 },
            ok,
        ) == (TextStage::Open { tried: (tried + 1) as u32 }),
        tried + 1 == OPEN_TRIES ==> text_after(
            TextStage::Pause { tried: (tried + 1) as u32 },
            ok,
        ) == (TextStage::Done { ok: false }),
{
}

/// Putting a text on the clipboard ends.
pub proof fn law_text_ends(stage: TextStage, ok: bool)
    requires
        text_wf(stage),
        !(stage is Done),
    ensures
        text_wf(text_after(stage, ok)),
        0 <= text_stages_left(text_after(stage, ok)) < text_stages_left(stage),
{
}

/// Whether the imaging library runs at a stage.
pub open spec fn image_library_runs(stage: ImageStage) -> bool {
    !(stage is Startup || stage is Done)
}

/// Whether the clipboard is open at a stage of saving its image.
pub open spec fn image_holds_clipboard(stage: ImageStage) -> bool {
    stage is Get || stage is Create || stage is Save || stage is Dispose || stage is Close
}

/// Whether there is an image in memory at a stage.
pub open spec fn image_held(stage: ImageStage) -> bool {
    stage is Save || stage is Dispose
}

/// What saving an image takes it gives back: the library, the clipboard and the
/// image are held from where they were got up to where they are given back, and
/// nothing is held at the end.
pub proof fn law_image_gives_everything_back(stage: ImageStage, ok: bool)
    ensures
        image_library_runs(image_after(stage, ok)) <==> (stage is Startup && ok) || (
        image_library_runs(stage) && !(stage is Shutdown)),
        image_holds_clipboard(image_after(stage, ok)) <==> (stage is Open && ok) || (
        image_holds_clipboard(stage) && !(stage is Close)),
        image_held(image_after(stage, ok)) <==> (stage is Create && ok) || (image_held(stage)
            && !(stage is Dispose)),
        image_after(stage, ok) is Done ==> !image_library_runs(image_after(stage, ok))
            && !image_holds_clipboard(image_after(stage, ok)) && !image_held(
            image_after(stage, ok),
        ),
{
}

/// How many stages are left at most.
pub open spec fn image_stages_left(stage: ImageStage) -> int {
    match stage {
        ImageStage::Startup => 8,
        ImageStage::Open => 7,
        ImageStage::Get => 6,
        ImageStage::Create => 5,
        ImageStage::Save => 4,
        ImageStage::Dispose { .. } => 3,
        ImageStage::Close { .. } => 2,
        ImageStage::Shutdown { .. } => 1,
        ImageStage::Done { .. } => 0,
    }
}

/// Saving an image ends, and counts as done exactly where the image was saved.
pub proof fn law_image_ends(stage: ImageStage, ok: bool)
    requires
        !(stage is Done),
    ensures
        0 <= image_stages_left(image_after(stage, ok)) < image_stages_left(stage),
        stage is Save ==> image_after(
            image_after(image_after(image_after(stage, ok), true), true),
            true,
        ) == (ImageStage::Done { saved: ok }),
        image_after(stage, ok) == (ImageStage::Dispose { saved: true }) ==> stage is Save && ok,
        image_after(stage, ok) == (ImageStage::Done { saved: true }) ==> stage
            == (ImageStage::Shutdown { saved: true }),
        image_after(stage, ok) == (ImageStage::Shutdown { saved: true }) ==> stage
            == (ImageStage::Close { saved: true }),
        image_after(stage, ok) == (ImageStage::Close { saved: true }) ==> stage
            == (ImageStage::Dispose { saved: true }),
{
}

/// The name of a saved image reads back: `clip-`, the time, a hyphen, its number, and
/// `.png`.
pub proof fn law_clip_name_reads_back(t: LocalTime, n: nat)
    ensures
        ({
            let name = clip_name(t, n);
            let hyphen = 5 + sys::stamp(t).len() as int;
            let digits = name.subrange(hyphen + 1, name.len() - 4);
            &&& hyphen + 5 < name.len()
            &&& name.take(5) == seq!['c', 'l', 'i', 'p', '-']
            &&& name.subrange(5, hyphen) == sys::stamp(t)
            &&& name[hyphen] == '-'
            &&& text_laws::all_digits(digits)
            &&& text_laws::number(digits) == n
            &&& digits.len() > 1 ==> digits[0] != '0'
            &&& name.skip(name.len() - 4) == seq!['.', 'p', 'n', 'g']
        }),
{
    reveal_strlit("clip-");
    reveal_strlit(".png");
    text_laws::law_decimal_reads_back(n);
    let name = clip_name(t, n);
    let hyphen = 5 + sys::stamp(t).len() as int;
    assert(name.subrange(hyphen + 1, name.len() - 4) == text::decimal(n));
    assert(name.subrange(5, hyphen) == sys::stamp(t));
    assert(name.take(5) == seq!['c', 'l', 'i', 'p', '-']);
    assert(name.skip(name.len() - 4) == seq!['.', 'p', 'n', 'g']);
}

/// Success leads a text on, one stage after the other, up to its delivery; where
/// there is no memory it is given up; and what cannot fail, or matters no more, decides
/// nothing.
pub proof fn law_text_goes_its_way(tried: u32, put: bool, ok: bool)
    ensures
        text_after(TextStage::Alloc, true) is Lock,
        text_after(TextStage::Lock, true) is Fill,
        text_after(TextStage::Alloc, false) == (TextStage::Done { ok: false }),
        text_after(TextStage::Lock, false) == (TextStage::Done { ok: false }),
        text_after(TextStage::Fill, ok) == (TextStage::Open { tried: 0 }),
        text_after(TextStage::Open { tried }, true) is Empty,
        text_after(TextStage::Empty, ok) is Put,
        text_after(TextStage::Put, ok) == (TextStage::Close { ok }),
        text_after(TextStage::Close { ok: put }, ok) == (TextStage::Done { ok: put }),
        text_after(TextStage::Done { ok: put }, ok) == (TextStage::Done { ok: put }),
{
}

/// Success leads an image on, one stage after the other, up to its saving; a failure
/// leads to giving back what was taken; and giving back decides nothing.
pub proof fn law_image_goes_its_way(saved: bool, ok: bool)
    ensures
        image_after(ImageStage::Startup, true) is Open,
        image_after(ImageStage::Open, true) is Get,
        image_after(ImageStage::Get, true) is Create,
        image_after(ImageStage::Create, true) is Save,
        image_after(ImageStage::Startup, false) == (ImageStage::Done { saved: false }),
        image_after(ImageStage::Open, false) == (ImageStage::Shutdown { saved: false }),
        image_after(ImageStage::Get, false) == (ImageStage::Close { saved: false }),
        image_after(ImageStage::Create, false) == (ImageStage::Close { saved: false }),
        image_after(ImageStage::Save, ok) == (ImageStage::Dispose { saved: ok }),
        image_after(ImageStage::Dispose { saved }, ok) == (ImageStage::Close { saved }),
        image_after(ImageStage::Close { saved }, ok) == (ImageStage::Shutdown { saved }),
        image_after(ImageStage::Shutdown { saved }, ok) == (ImageStage::Done { saved }),
        image_after(ImageStage::Done { saved }, ok) == (ImageStage::Done { saved }),
{
}

} // verus!
