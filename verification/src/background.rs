//! The static Windows wallpaper underneath the animation.
//!
//! Nothing here needs it, since the windows cover it completely, but anything that
//! derives its own translucency from the wallpaper bitmap does. Painting the static
//! wallpaper flat black puts such panels back in step with what is actually visible.

use crate::geometry::Rect;
use crate::settings::{at_least_one, optional, Settings, SettingsView, StaticBackground};
use crate::text::{chars_of, found_at, lower, lower_chars, lowered};
use crate::wide::{
    closed_text_ends_at_its_zero, decoded, from_utf16_lossy, length_until_zero, until_zero, utf16,
    utf16_reads_back,
};
use vstd::prelude::*;

verus! {

pub const FILE_NAME: &'static str = "flat-background.bmp";

/// The path in a buffer that the system was asked to fill.
pub open spec fn reported_path(answered: bool, buffer: Seq<u16>) -> Option<Seq<char>> {
    let path = decoded(until_zero(buffer));
    if answered && path.len() > 0 {
        Some(path)
    } else {
        None
    }
}

/// The wallpaper the system reports: what stands in its buffer up to the first
/// zero, unless the call failed or there is nothing in it.
pub fn current(answered: bool, buffer: &[u16]) -> (path: Option<String>)
    ensures
        path is Some <==> answered && decoded(until_zero(buffer@)).len() > 0,
        path matches Some(path) ==> path@ == decoded(until_zero(buffer@)),
        optional(path) == reported_path(answered, buffer@),
{
    if !answered {
        return None;
    }
    let end = length_until_zero(buffer);
    let mut units: Vec<u16> = Vec::new();
    let mut i: usize = 0;
    while i < end
        invariant
            i <= end <= buffer@.len(),
            units@ == buffer@.take(i as int),
        decreases end - i,
    {
        units.push(buffer[i]);
        i += 1;
        assert(units@ == buffer@.take(i as int));
    }
    let path = from_utf16_lossy(units.as_slice());
    if path.as_str().is_empty() {
        None
    } else {
        Some(path)
    }
}

/// Whether a path leads to the flat background, in whatever case it is written.
pub open spec fn ours(path: Seq<char>) -> bool {
    FILE_NAME@.is_suffix_of(lowered(path))
}

pub fn is_ours(path: &str) -> (is: bool)
    ensures
        is == ours(path@),
{
    let whole = lower_chars(path);
    let name = chars_of(FILE_NAME);
    if whole.len() < name.len() {
        return false;
    }
    let start = whole.len() - name.len();
    assert(lowered(path@).skip(start as int) == lowered(path@).subrange(
        start as int,
        lowered(path@).len() as int,
    ));
    found_at(&whole, &name, start)
}

/// The bytes of a row of black pixels, three to a pixel, filled up to four.
pub open spec fn stride(width: int) -> int {
    ((width * 3 + 3) / 4) * 4
}

pub open spec fn pixel_bytes(width: int, height: int) -> int {
    stride(width) * height
}

/// A number as two bytes, the low one first.
pub open spec fn two_bytes(value: int) -> Seq<u8> {
    seq![(value % 256) as u8, (value / 256 % 256) as u8]
}

/// A number as four bytes, the low one first.
pub open spec fn four_bytes(value: int) -> Seq<u8> {
    two_bytes(value % 65536) + two_bytes(value / 65536)
}

/// How long the file is and where its pixels start.
pub open spec fn file_header(pixels: int) -> Seq<u8> {
    seq![66u8, 77u8] + four_bytes(54 + pixels) + four_bytes(0) + four_bytes(54)
}

/// How large the picture is, in pixels and in bytes.
pub open spec fn picture_header(width: int, height: int, pixels: int) -> Seq<u8> {
    (four_bytes(40) + four_bytes(width) + four_bytes(height)) + (two_bytes(1) + two_bytes(24)
        + four_bytes(0) + four_bytes(pixels) + four_bytes(2835) + four_bytes(2835) + four_bytes(0)
        + four_bytes(0))
}

/// What stands in front of the pixels.
pub open spec fn bitmap_header(width: int, height: int) -> Seq<u8> {
    file_header(pixel_bytes(width, height)) + picture_header(
        width,
        height,
        pixel_bytes(width, height),
    )
}

/// A black bitmap with 24 bits to a pixel.
pub open spec fn bitmap(width: int, height: int) -> Seq<u8> {
    bitmap_header(width, height) + Seq::new(pixel_bytes(width, height) as nat, |i: int| 0u8)
}

/// Whether the bitmap for a screen fits in memory at all.
pub open spec fn bitmap_in_range(screen: Rect) -> bool {
    54 + pixel_bytes(at_least_one(screen.width as int), at_least_one(screen.height as int)) <= isize::MAX
}

fn push_two(file: &mut Vec<u8>, value: u64)
    ensures
        final(file)@ == old(file)@ + two_bytes(value as int),
{
    file.push((value % 256) as u8);
    file.push((value / 256 % 256) as u8);
    assert(file@ == old(file)@ + two_bytes(value as int));
}

fn push_four(file: &mut Vec<u8>, value: u64)
    ensures
        final(file)@ == old(file)@ + four_bytes(value as int),
{
    push_two(file, value % 65536);
    push_two(file, value / 65536);
    assert(file@ == old(file)@ + four_bytes(value as int));
}

fn length_of(length: i32) -> (shown: u64)
    ensures
        shown == at_least_one(length as int),
{
    if length < 1 {
        1
    } else {
        length as u64
    }
}

fn count_pixel_bytes(width: u64, height: u64) -> (bytes: u64)
    requires
        1 <= width <= 0x7fff_ffff,
        1 <= height <= 0x7fff_ffff,
    ensures
        bytes == pixel_bytes(width as int, height as int),
        bytes <= 0xf000_0000_0000_0000,
{
    let row: u64 = ((width * 3 + 3) / 4) * 4;
    assert(row * height <= 0x1_8000_0000 * 0x7fff_ffff) by (nonlinear_arith)
        requires
            row <= 0x1_8000_0000,
            height <= 0x7fff_ffff,
    ;
    row * height
}

/// Whether [`black_bitmap`] may be asked for.
pub fn bitmap_fits(screen: Rect) -> (fits: bool)
    ensures
        fits == bitmap_in_range(screen),
{
    let pixels = count_pixel_bytes(length_of(screen.width), length_of(screen.height));
    54 + pixels <= isize::MAX as u64
}

/// A black bitmap covering the whole virtual desktop, so it reads as solid black
/// under every wallpaper fit setting.
pub fn black_bitmap(screen: Rect) -> (file: Vec<u8>)
    requires
        bitmap_in_range(screen),
    ensures
        file@ == bitmap(at_least_one(screen.width as int), at_least_one(screen.height as int)),
{
    let width = length_of(screen.width);
    let height = length_of(screen.height);
    let pixels = count_pixel_bytes(width, height);
    let mut file: Vec<u8> = Vec::with_capacity((54 + pixels) as usize);
    file.push(66);
    file.push(77);
    assert(file@ == seq![66u8, 77u8]);
    push_four(&mut file, 54 + pixels);
    push_four(&mut file, 0);
    push_four(&mut file, 54);
    push_four(&mut file, 40);
    push_four(&mut file, width);
    push_four(&mut file, height);
    push_two(&mut file, 1);
    push_two(&mut file, 24);
    push_four(&mut file, 0);
    push_four(&mut file, pixels);
    push_four(&mut file, 2835);
    push_four(&mut file, 2835);
    push_four(&mut file, 0);
    push_four(&mut file, 0);
    let ghost header = file@;
    assert(header == bitmap_header(width as int, height as int));
    assert(header.len() == 54);
    file.resize((54 + pixels) as usize, 0);
    assert(file@ == bitmap(width as int, height as int));
    file
}

/// What has to be remembered when the static wallpaper turns black: what was there
/// before, unless that is the flat background already.
pub open spec fn previous_of(current: Option<Seq<char>>) -> Option<Seq<char>> {
    match current {
        Some(path) => if ours(path) {
            None
        } else {
            Some(path)
        },
        None => None,
    }
}

pub fn set_black(current: Option<String>) -> (previous: Option<String>)
    ensures
        optional(previous) == previous_of(optional(current)),
{
    match current {
        Some(path) => if is_ours(path.as_str()) {
            None
        } else {
            Some(path)
        },
        None => None,
    }
}

/// The wallpaper to put back. An empty path clears it, which is the right answer
/// when there was none to begin with.
pub fn restore<'a>(previous: Option<&'a str>) -> (path: &'a str)
    ensures
        path@ == (match previous {
            Some(previous) => previous@,
            None => Seq::<char>::empty(),
        }),
{
    match previous {
        Some(previous) => previous,
        None => {
            proof {
                reveal_strlit("");
                assert(""@ == Seq::<char>::empty());
            }
            ""
        },
    }
}

/// What has to happen to the static wallpaper.
pub enum BackgroundStep {
    /// There is nowhere to put the bitmap; nothing happens at all.
    Skip,
    /// Write the black bitmap, show it, and save the settings.
    Paint,
    /// Show this wallpaper and save the settings.
    Restore(String),
    /// Only save the settings.
    Keep,
}

/// What has to happen to the static wallpaper, as a value.
pub enum BackgroundStepView {
    Skip,
    Paint,
    Restore(Seq<char>),
    Keep,
}

impl View for BackgroundStep {
    type V = BackgroundStepView;

    open spec fn view(&self) -> BackgroundStepView {
        match self {
            BackgroundStep::Skip => BackgroundStepView::Skip,
            BackgroundStep::Paint => BackgroundStepView::Paint,
            BackgroundStep::Restore(path) => BackgroundStepView::Restore(path@),
            BackgroundStep::Keep => BackgroundStepView::Keep,
        }
    }
}

/// The step that the settings ask for, given the wallpaper shown now and whether
/// there is a directory for the bitmap.
pub open spec fn background_step(
    settings: SettingsView,
    current: Option<Seq<char>>,
    directory: bool,
) -> BackgroundStepView {
    match settings.static_background {
        StaticBackground::Black => if directory {
            BackgroundStepView::Paint
        } else {
            BackgroundStepView::Skip
        },
        StaticBackground::Leave => match settings.saved_wallpaper {
            Some(saved) => BackgroundStepView::Restore(saved),
            None => if current is Some && ours(current->0) {
                BackgroundStepView::Restore(Seq::empty())
            } else {
                BackgroundStepView::Keep
            },
        },
    }
}

/// The settings after that step.
pub open spec fn background_settings(
    settings: SettingsView,
    current: Option<Seq<char>>,
    directory: bool,
) -> SettingsView {
    match settings.static_background {
        StaticBackground::Black => if directory && previous_of(current) is Some {
            SettingsView { saved_wallpaper: previous_of(current), ..settings }
        } else {
            settings
        },
        StaticBackground::Leave => SettingsView { saved_wallpaper: None, ..settings },
    }
}

/// Flattens the static wallpaper, or puts the user's own back, to match the current
/// setting. Safe to call repeatedly. It is only put back where it was changed from
/// here in the first place.
pub fn apply_static_background(
    settings: &mut Settings,
    current: Option<String>,
    directory: bool,
) -> (step: BackgroundStep)
    ensures
        step@ == background_step(old(settings)@, optional(current), directory),
        final(settings)@ == background_settings(old(settings)@, optional(current), directory),
        final(settings).module_by_monitor == old(settings).module_by_monitor,
        old(settings).module_by_monitor.wf() ==> final(settings).module_by_monitor.wf(),
{
    match settings.static_background {
        StaticBackground::Black => {
            if !directory {
                return BackgroundStep::Skip;
            }
            let previous = set_black(current);
            if previous.is_some() {
                settings.saved_wallpaper = previous;
            }
            BackgroundStep::Paint
        },
        StaticBackground::Leave => {
            let saved = settings.saved_wallpaper.take();
            match saved {
                Some(saved) => BackgroundStep::Restore(saved),
                None => {
                    let mine = match current {
                        Some(path) => is_ours(path.as_str()),
                        None => false,
                    };
                    if mine {
                        BackgroundStep::Restore(String::new())
                    } else {
                        BackgroundStep::Keep
                    }
                },
            }
        },
    }
}

/// What is put back on the way out: nothing where the wallpaper was left alone, and
/// an empty path where none is remembered.
pub open spec fn put_back(settings: SettingsView) -> Option<Seq<char>> {
    match (settings.static_background, settings.saved_wallpaper) {
        (StaticBackground::Leave, _) => None,
        (StaticBackground::Black, Some(saved)) => Some(saved),
        (StaticBackground::Black, None) => Some(Seq::empty()),
    }
}

/// The wallpaper to put back on the way out, if it was flattened from here.
pub fn restore_static_background(settings: &Settings) -> (path: Option<String>)
    ensures
        optional(path) == (match settings@.static_background {
            StaticBackground::Leave => None,
            StaticBackground::Black => Some(
                match settings@.saved_wallpaper {
                    Some(saved) => saved,
                    None => Seq::empty(),
                },
            ),
        }),
        optional(path) == put_back(settings@),
{
    match settings.static_background {
        StaticBackground::Leave => None,
        StaticBackground::Black => {
            let saved = match &settings.saved_wallpaper {
                Some(saved) => Some(saved.as_str()),
                None => None,
            };
            Some(restore(saved).to_owned())
        },
    }
}

/// Painting the wallpaper black and leaving it alone again puts back what was there.
pub proof fn black_and_back(settings: SettingsView, before: Seq<char>, during: Option<Seq<char>>)
    requires
        settings.static_background == StaticBackground::Black,
        !ours(before),
    ensures
        ({
            let painted = background_settings(settings, Some(before), true);
            let left = (SettingsView { static_background: StaticBackground::Leave, ..painted });
            &&& background_step(left, during, true) == BackgroundStepView::Restore(before)
            &&& background_settings(left, during, true).saved_wallpaper is None
        }),
{
}

/// Painting it black again does not forget what was there: the flat background is
/// never remembered as the user's own.
pub proof fn painting_again_remembers(settings: SettingsView, path: Seq<char>, directory: bool)
    requires
        settings.static_background == StaticBackground::Black,
        ours(path),
    ensures
        background_settings(settings, Some(path), directory) == settings,
{
}

/// A wallpaper that was never flattened from here is never touched.
pub proof fn foreign_wallpaper_is_left_alone(
    settings: SettingsView,
    current: Option<Seq<char>>,
    directory: bool,
)
    requires
        settings.static_background == StaticBackground::Leave,
        settings.saved_wallpaper is None,
        current is Some ==> !ours(current->0),
    ensures
        background_step(settings, current, directory) == BackgroundStepView::Keep,
        background_settings(settings, current, directory) == settings,
{
}

/// Leaving the wallpaper alone settles: once the user's own is back, calling again
/// changes nothing.
pub proof fn leaving_alone_settles(
    settings: SettingsView,
    first: Option<Seq<char>>,
    later: Option<Seq<char>>,
    directory: bool,
)
    requires
        settings.static_background == StaticBackground::Leave,
        later is Some ==> !ours(later->0),
    ensures
        background_step(background_settings(settings, first, directory), later, directory)
            == BackgroundStepView::Keep,
{
}

/// The bitmap is as long as its header says, and everything behind the header is
/// black.
pub proof fn bitmap_is_black(width: int, height: int)
    requires
        1 <= width,
        1 <= height,
    ensures
        bitmap_header(width, height).len() == 54,
        bitmap(width, height).len() == 54 + pixel_bytes(width, height),
        stride(width) % 4 == 0,
        width * 3 <= stride(width) < width * 3 + 4,
        forall|i: int|
            54 <= i < bitmap(width, height).len() ==> #[trigger] bitmap(width, height)[i] == 0,
{
    lemma_stride(width);
    lemma_header_lengths(width, height, pixel_bytes(width, height));
    lemma_pixel_bytes(stride(width), height);
    lemma_black_behind(
        bitmap(width, height),
        bitmap_header(width, height),
        pixel_bytes(width, height) as nat,
    );
}

proof fn lemma_stride(width: int)
    requires
        1 <= width,
    ensures
        stride(width) % 4 == 0,
        width * 3 <= stride(width) < width * 3 + 4,
{
}

proof fn lemma_pixel_bytes(row: int, height: int)
    by (nonlinear_arith)
    requires
        row >= 0,
        height >= 1,
    ensures
        row * height >= 0,
{
}

proof fn lemma_black_behind(file: Seq<u8>, header: Seq<u8>, pixels: nat)
    requires
        file == header + Seq::new(pixels, |i: int| 0u8),
    ensures
        file.len() == header.len() + pixels,
        forall|i: int| header.len() <= i < file.len() ==> #[trigger] file[i] == 0,
{
}

proof fn lemma_header_lengths(width: int, height: int, pixels: int)
    ensures
        file_header(pixels).len() == 14,
        picture_header(width, height, pixels).len() == 40,
{
    assert forall|value: int| #[trigger] four_bytes(value).len() == 4 by {}
}

/// The number that four bytes stand for, the low one first.
pub open spec fn number_of(bytes: Seq<u8>) -> int {
    bytes[0] + 256 * bytes[1] + 65536 * bytes[2] + 16777216 * bytes[3]
}

proof fn lemma_four_bytes(value: int)
    requires
        0 <= value < 0x1_0000_0000,
    ensures
        four_bytes(value).len() == 4,
        number_of(four_bytes(value)) == value,
{
    let bytes = four_bytes(value);
    assert(bytes[0] == value % 256);
    assert(bytes[1] == value / 256 % 256) by {
        assert(value % 65536 / 256 % 256 == value / 256 % 256);
    }
    assert(bytes[2] == value / 65536 % 256);
    assert(bytes[3] == value / 16777216 % 256) by {
        assert(value / 65536 / 256 % 256 == value / 16777216 % 256);
    }
}

/// Where the system looks for a length in the header, it finds it: the length of
/// the file, and the width and the height of the picture.
pub proof fn bitmap_header_reads_back(width: int, height: int)
    requires
        1 <= width <= 0x7fff_ffff,
        1 <= height <= 0x7fff_ffff,
        54 + pixel_bytes(width, height) < 0x1_0000_0000,
    ensures
        number_of(bitmap(width, height).subrange(2, 6)) == bitmap(width, height).len(),
        number_of(bitmap(width, height).subrange(18, 22)) == width,
        number_of(bitmap(width, height).subrange(22, 26)) == height,
        number_of(bitmap(width, height).subrange(10, 14)) == 54,
        number_of(bitmap(width, height).subrange(14, 18)) == 40,
        bitmap(width, height)[0] == 'B' as int && bitmap(width, height)[1] == 'M' as int,
{
    bitmap_is_black(width, height);
    let pixels = pixel_bytes(width, height);
    let file = file_header(pixels);
    let picture = picture_header(width, height, pixels);
    assert(file.len() == 14);
    lemma_four_bytes(54 + pixels);
    lemma_four_bytes(width);
    lemma_four_bytes(height);
    assert(bitmap(width, height).subrange(2, 6) == file.subrange(2, 6));
    assert(bitmap(width, height).subrange(18, 22) == picture.subrange(4, 8));
    assert(bitmap(width, height).subrange(22, 26) == picture.subrange(8, 12));
    assert(file.subrange(2, 6) == four_bytes(54 + pixels));
    let front = four_bytes(40) + four_bytes(width) + four_bytes(height);
    assert(picture.subrange(4, 8) == front.subrange(4, 8));
    assert(picture.subrange(8, 12) == front.subrange(8, 12));
    assert(front.subrange(4, 8) == four_bytes(width));
    assert(front.subrange(8, 12) == four_bytes(height));
    lemma_four_bytes(54);
    lemma_four_bytes(40);
    assert(bitmap(width, height).subrange(10, 14) == file.subrange(10, 14));
    assert(bitmap(width, height).subrange(14, 18) == picture.subrange(0, 4));
    assert(file.subrange(10, 14) == four_bytes(54));
    assert(picture.subrange(0, 4) == front.subrange(0, 4));
    assert(front.subrange(0, 4) == four_bytes(40));
    assert(bitmap(width, height)[0] == file[0] && bitmap(width, height)[1] == file[1]);
}

/// The header says how the pixels are kept: in one plane, three bytes for each, not
/// packed, and as many bytes as there are behind it.
pub proof fn bitmap_header_tells_the_format(width: int, height: int)
    requires
        1 <= width <= 0x7fff_ffff,
        1 <= height <= 0x7fff_ffff,
        54 + pixel_bytes(width, height) < 0x1_0000_0000,
    ensures
        bitmap(width, height)[26] == 1 && bitmap(width, height)[27] == 0,
        bitmap(width, height)[28] == 24 && bitmap(width, height)[29] == 0,
        number_of(bitmap(width, height).subrange(30, 34)) == 0,
        number_of(bitmap(width, height).subrange(34, 38)) == bitmap(width, height).len() - 54,
{
    bitmap_is_black(width, height);
    let pixels = pixel_bytes(width, height);
    let file = file_header(pixels);
    let picture = picture_header(width, height, pixels);
    lemma_header_lengths(width, height, pixels);
    let front = four_bytes(40) + four_bytes(width) + four_bytes(height);
    let (planes, depth) = (two_bytes(1), two_bytes(24));
    lemma_four_bytes(0);
    lemma_four_bytes(pixels);
    assert(front.len() == 12);
    assert(bitmap(width, height)[26] == picture[12] && picture[12] == planes[0]);
    assert(bitmap(width, height)[27] == picture[13] && picture[13] == planes[1]);
    assert(bitmap(width, height)[28] == picture[14] && picture[14] == depth[0]);
    assert(bitmap(width, height)[29] == picture[15] && picture[15] == depth[1]);
    assert(bitmap(width, height).subrange(30, 34) == picture.subrange(16, 20));
    assert(picture.subrange(16, 20) == four_bytes(0));
    assert(bitmap(width, height).subrange(34, 38) == picture.subrange(20, 24));
    assert(picture.subrange(20, 24) == four_bytes(pixels));
}


/// The wallpaper is painted exactly if it is to be black and there is a place for the
/// picture; without one nothing happens at all.
pub proof fn black_is_painted(
    settings: SettingsView,
    current: Option<Seq<char>>,
    directory: bool,
)
    ensures
        background_step(settings, current, directory) == BackgroundStepView::Paint
            <==> settings.static_background == StaticBackground::Black && directory,
        settings.static_background == StaticBackground::Black && !directory ==> background_step(
            settings,
            current,
            directory,
        ) == BackgroundStepView::Skip && background_settings(settings, current, directory)
            == settings,
{
}

/// Where the wallpaper is to be left alone, what is remembered is put back, whatever
/// shows now; with nothing remembered, only the flat background is taken away.
pub proof fn remembered_wallpaper_comes_back(
    settings: SettingsView,
    saved: Seq<char>,
    current: Seq<char>,
    directory: bool,
)
    requires
        settings.static_background == StaticBackground::Leave,
    ensures
        settings.saved_wallpaper == Some(saved) ==> background_step(
            settings,
            Some(current),
            directory,
        ) == BackgroundStepView::Restore(saved) && background_step(settings, None, directory)
            == BackgroundStepView::Restore(saved),
        settings.saved_wallpaper is None && ours(current) ==> background_step(
            settings,
            Some(current),
            directory,
        ) == BackgroundStepView::Restore(Seq::empty()),
        settings.saved_wallpaper is None ==> background_step(settings, None, directory)
            == BackgroundStepView::Keep,
{
}

/// Nothing but the remembered wallpaper ever changes with the background: painting
/// remembers a wallpaper of the user's own, and keeps what it had where it finds none.
pub proof fn only_the_memory_changes(
    settings: SettingsView,
    current: Option<Seq<char>>,
    directory: bool,
)
    ensures
        ({
            let after = background_settings(settings, current, directory);
            &&& after == (SettingsView { saved_wallpaper: after.saved_wallpaper, ..settings })
            &&& settings.static_background == StaticBackground::Leave
                ==> after.saved_wallpaper is None
            &&& settings.static_background == StaticBackground::Black && directory ==> (
            current matches Some(path) ==> !ours(path) ==> after.saved_wallpaper == Some(path))
            &&& settings.static_background == StaticBackground::Black && current is None
                ==> after.saved_wallpaper == settings.saved_wallpaper
        }),
{
}

/// On the way out the wallpaper is put back exactly if it was flattened from here.
pub proof fn wallpaper_comes_back_on_the_way_out(
    settings: SettingsView,
    before: Seq<char>,
    directory: bool,
)
    requires
        settings.static_background == StaticBackground::Black,
        !ours(before),
    ensures
        put_back(background_settings(settings, Some(before), true)) == Some(before),
        put_back(SettingsView { static_background: StaticBackground::Leave, ..settings }) is None,
        settings.saved_wallpaper is None ==> put_back(settings) == Some(Seq::<char>::empty()),
{
}

/// A path is the flat background's exactly if it ends in its file name, in whatever
/// case that is written.
pub proof fn our_file_is_known_by_its_name(path: Seq<char>)
    ensures
        ours(path) <==> path.len() >= 19 && forall|i: int|
            0 <= i < 19 ==> lower(#[trigger] path[path.len() - 19 + i])
                == "flat-background.bmp"@[i],
{
    reveal_strlit("flat-background.bmp");
    let name = "flat-background.bmp"@;
    assert(FILE_NAME@ == name);
    assert(name.len() == 19);
    let whole = lowered(path);
    if path.len() >= 19 {
        let end = whole.subrange(whole.len() - 19, whole.len() as int);
        if forall|i: int| 0 <= i < 19 ==> lower(#[trigger] path[path.len() - 19 + i]) == name[i] {
            assert forall|i: int| 0 <= i < 19 implies end[i] == name[i] by {
                assert(lower(path[path.len() - 19 + i]) == name[i]);
            }
            assert(end =~= name);
        }
        if ours(path) {
            assert(end =~= name);
            assert forall|i: int| 0 <= i < 19 implies lower(#[trigger] path[path.len() - 19 + i])
                == name[i] by {
                assert(end[i] == name[i]);
            }
        }
    }
}

/// A row takes three bytes for each pixel, filled up to a multiple of four.
pub proof fn rows_are_filled_up(width: int)
    requires
        1 <= width,
    ensures
        stride(width) % 4 == 0,
        3 * width <= stride(width) < 3 * width + 4,
{
}

/// The picture of any ordinary screen can be made.
pub proof fn ordinary_screens_can_be_painted(screen: Rect)
    requires
        screen.width <= 16384,
        screen.height <= 16384,
    ensures
        bitmap_in_range(screen),
{
    let width = at_least_one(screen.width as int);
    let height = at_least_one(screen.height as int);
    let row = stride(width);
    assert(row <= 3 * width + 3 <= 49155);
    assert(row * height <= 49155 * 16384) by (nonlinear_arith)
        requires
            0 <= row <= 49155,
            0 <= height <= 16384,
    ;
}


/// A path that the system writes into its buffer, with a zero behind it, is the path
/// that is found there; there is none where it did not answer or wrote nothing.
pub proof fn reported_paths_are_found(path: Seq<char>, behind: Seq<u16>)
    requires
        forall|i: int| 0 <= i < path.len() ==> path[i] != '\0',
    ensures
        path.len() > 0 ==> reported_path(true, utf16(path).push(0) + behind) == Some(path),
        path.len() == 0 ==> reported_path(true, utf16(path).push(0) + behind) is None,
        reported_path(false, utf16(path).push(0) + behind) is None,
{
    closed_text_ends_at_its_zero(path, behind);
    utf16_reads_back(path);
}

/// A picture is one pixel wide and high at least.
pub proof fn pictures_have_a_pixel(length: int)
    ensures
        length >= 1 ==> at_least_one(length) == length,
        length < 1 ==> at_least_one(length) == 1,
{
}

/// Only a wallpaper of the user's own is worth remembering.
pub proof fn our_own_is_not_remembered(path: Seq<char>)
    ensures
        ours(path) ==> previous_of(Some(path)) is None,
        !ours(path) ==> previous_of(Some(path)) == Some(path),
        previous_of(None) is None,
{
}

} // verus!
