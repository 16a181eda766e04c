//! Turning ordinary windows into the desktop wallpaper.
//!
//! Explorer paints the wallpaper into a WorkerW window that sits behind the
//! desktop icon host. Windows parented into it land exactly where the wallpaper
//! bitmap would be. Where the WorkerW ends up depends on the Windows build: a
//! top-level window right behind the icon host, or a child of it. Both layouts are
//! handled here, with Progman itself as a last resort.

use crate::geometry::{is_i32, Rect};
use crate::region::{Edges, Region};
use crate::text::same;
use crate::wide::{decoded, from_utf16_lossy, utf16, utf16_reads_back};
use vstd::prelude::*;

verus! {

/// Parameter pairs different Windows builds want before they hand out a WorkerW.
pub const SPAWN_WPARAMS: [usize; 3] = [0, 0x0d, 0x0d];

pub const SPAWN_LPARAMS: [isize; 3] = [0, 0x01, 0x00];

/// Shell windows that must never be mistaken for an application covering the
/// desktop. Progman and WorkerW span the whole thing by definition, and the rest
/// are shell surfaces the wallpaper lives happily underneath.
pub const SHELL_CLASSES: [&'static str; 8] = [
    "Progman",
    "WorkerW",
    "SHELLDLL_DefView",
    "Shell_TrayWnd",
    "Shell_SecondaryTrayWnd",
    "Windows.UI.Core.CoreWindow",
    "MultitaskingViewFrame",
    "XamlExplorerHostIslandWindow",
];

/// Windows 11 rounds window corners and a window's rectangle counts an invisible
/// border, so a maximised window never quite reaches the edges of the screen.
/// Pulling the test area in by this much keeps a few stray pixels from reading as
/// "the desktop is still showing".
pub const COVERAGE_SLACK: i64 = 12;

/// The extended styles of windows that may be part transparent: layered ones and
/// click-through ones.
pub const SEE_THROUGH_STYLES: u32 = 0x0008_0020;

#[derive(Clone, Copy, Debug, PartialEq, Eq, Structural)]
pub enum HostMode {
    /// Parented into a WorkerW, which already sits below the icons.
    WorkerW,
    /// Parented into Progman itself; the windows have to stay at the bottom by hand.
    Progman,
}

/// The desktop window the wallpaper windows live inside.
#[derive(Clone, Copy, Debug, PartialEq, Eq, Structural)]
pub struct Host {
    pub hwnd: isize,
    pub progman: isize,
    pub mode: HostMode,
}

/// The text in the part of a buffer that the system filled.
pub open spec fn class_in(length: int, buffer: Seq<u16>) -> Seq<char> {
    if length > 0 {
        decoded(buffer.take(length))
    } else {
        Seq::empty()
    }
}

/// The class name in a buffer that the system filled with `length` units.
pub fn class_name(length: i32, buffer: &[u16]) -> (name: String)
    requires
        length <= buffer@.len(),
    ensures
        length <= 0 ==> name@ == Seq::<char>::empty(),
        length > 0 ==> name@ == decoded(buffer@.take(length as int)),
        name@ == class_in(length as int, buffer@),
{
    if length <= 0 {
        return String::new();
    }
    let mut units: Vec<u16> = Vec::new();
    let mut i: usize = 0;
    while i < length as usize
        invariant
            0 < length <= buffer@.len(),
            i <= length,
            units@ == buffer@.take(i as int),
        decreases length - i,
    {
        units.push(buffer[i]);
        i += 1;
        assert(units@ == buffer@.take(i as int));
    }
    from_utf16_lossy(units.as_slice())
}

/// The rectangle between four edges, where the system found one.
pub open spec fn rect_between(
    found: bool,
    left: int,
    top: int,
    right: int,
    bottom: int,
) -> Option<Rect> {
    if found {
        Some(Rect::between(left, top, right, bottom))
    } else {
        None
    }
}

/// The rectangle of a window, where the system found one.
pub fn window_rect(found: bool, left: i32, top: i32, right: i32, bottom: i32) -> (rect: Option<
    Rect,
>)
    requires
        found ==> is_i32(right - left) && is_i32(bottom - top),
    ensures
        rect == (if found {
            Some(Rect::between(left as int, top as int, right as int, bottom as int))
        } else {
            None
        }),
        rect == rect_between(found, left as int, top as int, right as int, bottom as int),
{
    if found {
        Some(Rect::from_edges(left, top, right, bottom))
    } else {
        None
    }
}

/// Whether [`window_rect`] may be called for a window that was found.
pub fn edges_fit(left: i32, top: i32, right: i32, bottom: i32) -> (fit: bool)
    ensures
        fit == (is_i32(right - left) && is_i32(bottom - top)),
{
    right.checked_sub(left).is_some() && bottom.checked_sub(top).is_some()
}

/// Half of a length, rounded towards zero.
pub open spec fn half(length: int) -> int {
    if length < 0 {
        -((-length) / 2)
    } else {
        length / 2
    }
}

/// The point in the middle of a rectangle.
pub open spec fn centre(bounds: Rect) -> (int, int) {
    (bounds.x + half(bounds.width as int), bounds.y + half(bounds.height as int))
}

/// Whether [`middle`] may be called.
pub fn has_middle(bounds: Rect) -> (has: bool)
    ensures
        has == (is_i32(bounds.x + half(bounds.width as int)) && is_i32(
            bounds.y + half(bounds.height as int),
        )),
{
    let x: i64 = bounds.x as i64 + half_of(bounds.width as i64);
    let y: i64 = bounds.y as i64 + half_of(bounds.height as i64);
    i32::MIN as i64 <= x && x <= i32::MAX as i64 && i32::MIN as i64 <= y && y <= i32::MAX as i64
}

/// The point by which the system is asked for a monitor.
pub fn middle(bounds: Rect) -> (point: (i32, i32))
    requires
        is_i32(bounds.x + half(bounds.width as int)),
        is_i32(bounds.y + half(bounds.height as int)),
    ensures
        point.0 == bounds.x + half(bounds.width as int),
        point.1 == bounds.y + half(bounds.height as int),
        point.0 == centre(bounds).0,
        point.1 == centre(bounds).1,
{
    let x: i64 = bounds.x as i64 + half_of(bounds.width as i64);
    let y: i64 = bounds.y as i64 + half_of(bounds.height as i64);
    (x as i32, y as i32)
}

fn half_of(length: i64) -> (halved: i64)
    requires
        length > i64::MIN,
    ensures
        halved == half(length as int),
{
    if length < 0 {
        -((-length) / 2)
    } else {
        length / 2
    }
}

/// The part of a monitor that is free of the taskbar, as far as it is known.
pub open spec fn area_of(bounds: Rect, reported: Option<Rect>) -> Rect {
    match reported {
        Some(area) => area,
        None => bounds,
    }
}

/// The part of a monitor the shell leaves free: everything except the taskbar and
/// any other bars docked to its edges. The whole of it where the system does not
/// say.
pub fn work_area(bounds: Rect, reported: Option<Rect>) -> (area: Rect)
    ensures
        area == (match reported {
            Some(area) => area,
            None => bounds,
        }),
        area == area_of(bounds, reported),
{
    match reported {
        Some(area) => area,
        None => bounds,
    }
}

/// Whether a window covers the virtual screen, give or take a border of a pixel
/// on each side.
pub open spec fn spans(rect: Option<Rect>, screen: Rect) -> bool {
    match rect {
        Some(rect) => rect.width >= screen.width - 2 && rect.height >= screen.height - 2,
        None => false,
    }
}

pub fn spans_virtual_screen(rect: Option<Rect>, screen: Rect) -> (spanning: bool)
    ensures
        spanning == spans(rect, screen),
{
    match rect {
        Some(rect) => rect.width as i64 >= screen.width as i64 - 2 && rect.height as i64
            >= screen.height as i64 - 2,
        None => false,
    }
}

/// What the system says about the windows around the desktop icons. A handle of 0
/// means that there is no such window.
pub struct DesktopProbe {
    /// The window that owns the desktop icons.
    pub icon_host: isize,
    /// The top-level WorkerW behind it.
    pub sibling: isize,
    pub sibling_rect: Option<Rect>,
    /// The WorkerW inside it.
    pub child: isize,
    pub virtual_screen: Rect,
}

/// The window that the wallpaper surface is found to be, 0 for none.
pub open spec fn surface(probe: DesktopProbe) -> isize {
    if probe.icon_host == 0 {
        0
    } else if probe.sibling != 0 && spans(probe.sibling_rect, probe.virtual_screen) {
        probe.sibling
    } else {
        probe.child
    }
}

/// The wallpaper surface, or 0 if Explorer has not made one yet.
///
/// Plenty of unrelated top-level WorkerW windows exist, so that one has to cover
/// the desktop. Nothing else is shaped like a WorkerW inside the icon host, so
/// that one needs no size check, and it can still be catching up with the desktop
/// size right after an Explorer restart.
pub fn find_worker_w(probe: &DesktopProbe) -> (worker: isize)
    ensures
        probe.icon_host == 0 ==> worker == 0,
        probe.icon_host != 0 && probe.sibling != 0 && spans(
            probe.sibling_rect,
            probe.virtual_screen,
        ) ==> worker == probe.sibling,
        probe.icon_host != 0 && !(probe.sibling != 0 && spans(
            probe.sibling_rect,
            probe.virtual_screen,
        )) ==> worker == probe.child,
        worker == surface(*probe),
{
    if probe.icon_host == 0 {
        return 0;
    }
    if probe.sibling != 0 && spans_virtual_screen(probe.sibling_rect, probe.virtual_screen) {
        return probe.sibling;
    }
    probe.child
}

/// Whether the search for the icon host goes on past a window, given the icon view
/// inside it (0 for none).
pub fn look_further(icon_view: isize) -> (further: bool)
    ensures
        further == (icon_view == 0),
{
    icon_view == 0
}

/// Whether a surface may still turn up.
pub open spec fn waits(worker: isize, expired: bool) -> bool {
    worker == 0 && !expired
}

/// Whether to look for the WorkerW again. Explorer creates it in its own time.
pub fn keep_waiting(worker: isize, expired: bool) -> (wait: bool)
    ensures
        wait == (worker == 0 && !expired),
        wait == waits(worker, expired),
{
    worker == 0 && !expired
}

/// The next step on the way to a desktop host.
#[derive(Clone, Copy, Debug, PartialEq, Eq, Structural)]
pub enum HostStep {
    /// There is no desktop.
    NoDesktop,
    /// Ask Progman for a WorkerW with these parameters and wait for it.
    Spawn { wparam: usize, lparam: isize },
    Settled(Host),
}

/// Decides what follows once Progman has been asked `attempts` times.
///
/// Without a WorkerW anywhere, parenting into Progman still works as long as the
/// windows stay pinned to the bottom of its z-order so that the icons paint on
/// top.
pub fn resolve_host(progman: isize, worker: isize, attempts: usize) -> (step: HostStep)
    ensures
        step == host_step(progman, worker, attempts as int),
{
    if progman == 0 {
        HostStep::NoDesktop
    } else if worker != 0 {
        HostStep::Settled(Host { hwnd: worker, progman, mode: HostMode::WorkerW })
    } else if attempts < 3 {
        HostStep::Spawn { wparam: SPAWN_WPARAMS[attempts], lparam: SPAWN_LPARAMS[attempts] }
    } else {
        HostStep::Settled(Host { hwnd: progman, progman, mode: HostMode::Progman })
    }
}

pub open spec fn host_step(progman: isize, worker: isize, attempts: int) -> HostStep {
    if progman == 0 {
        HostStep::NoDesktop
    } else if worker != 0 {
        HostStep::Settled(Host { hwnd: worker, progman, mode: HostMode::WorkerW })
    } else if attempts < SPAWN_WPARAMS@.len() {
        HostStep::Spawn {
            wparam: SPAWN_WPARAMS@[attempts],
            lparam: SPAWN_LPARAMS@[attempts],
        }
    } else {
        HostStep::Settled(Host { hwnd: progman, progman, mode: HostMode::Progman })
    }
}

/// Where a window goes inside its host.
#[derive(Clone, Copy, Debug, PartialEq, Eq, Structural)]
pub struct Placement {
    pub x: i32,
    pub y: i32,
    pub width: i32,
    pub height: i32,
    /// Put it at the bottom of the z-order; otherwise the z-order is left alone.
    pub to_bottom: bool,
}

/// Whether a position can be told relative to an origin.
pub open spec fn reachable(bounds: Rect, origin: Rect) -> bool {
    is_i32(bounds.x - origin.x) && is_i32(bounds.y - origin.y)
}

/// Where a window goes inside a host whose client area starts at an origin.
pub open spec fn placed(bounds: Rect, origin: Rect, mode: HostMode) -> Placement {
    Placement {
        x: (bounds.x - origin.x) as i32,
        y: (bounds.y - origin.y) as i32,
        width: bounds.width,
        height: bounds.height,
        to_bottom: mode == HostMode::Progman,
    }
}

/// Whether [`place`] may be called.
pub fn can_place(bounds: Rect, origin: Rect) -> (can: bool)
    ensures
        can == reachable(bounds, origin),
{
    bounds.x.checked_sub(origin.x).is_some() && bounds.y.checked_sub(origin.y).is_some()
}

/// Position a wallpaper window over one monitor. Child coordinates are relative to
/// the host's client area, and the host spans the whole virtual screen, so monitor
/// positions need the virtual origin removed.
pub fn place(bounds: Rect, origin: Rect, mode: HostMode) -> (placement: Placement)
    requires
        reachable(bounds, origin),
    ensures
        placement.x == bounds.x - origin.x,
        placement.y == bounds.y - origin.y,
        placement.width == bounds.width,
        placement.height == bounds.height,
        placement.to_bottom == (mode == HostMode::Progman),
        placement == placed(bounds, origin, mode),
{
    Placement {
        x: bounds.x - origin.x,
        y: bounds.y - origin.y,
        width: bounds.width,
        height: bounds.height,
        to_bottom: match mode {
            HostMode::Progman => true,
            HostMode::WorkerW => false,
        },
    }
}

/// The rectangle that stands for a window.
pub open spec fn seen_frame(frame: Option<Rect>, layout: Option<Rect>) -> Option<Rect> {
    match frame {
        Some(frame) => Some(frame),
        None => layout,
    }
}

/// The frame the user actually sees, or the layout rectangle where the window
/// manager does not know. The latter includes an invisible resize border.
pub fn visible_rect(frame: Option<Rect>, layout: Option<Rect>) -> (rect: Option<Rect>)
    ensures
        rect == (if frame is Some {
            frame
        } else {
            layout
        }),
        rect == seen_frame(frame, layout),
{
    if frame.is_some() {
        frame
    } else {
        layout
    }
}

/// Whether the window manager said that a window is cloaked.
pub open spec fn said_cloaked(result: i32, cloaked: u32) -> bool {
    result >= 0 && cloaked != 0
}

/// Windows that are on screen in the window manager's books but painted nowhere:
/// suspended store apps, and the hidden helper windows a lot of applications keep
/// around. `result` is what the window manager answered, negative for a failure.
pub fn is_cloaked(result: i32, cloaked: u32) -> (hidden: bool)
    ensures
        hidden == (result >= 0 && cloaked != 0),
        hidden == said_cloaked(result, cloaked),
{
    result >= 0 && cloaked != 0
}

/// Whether a window hides whatever is behind it. Layered and click-through windows
/// may be part transparent, and the safe reading is that they do not.
pub fn is_opaque(style: u32) -> (opaque: bool)
    ensures
        opaque == (style & SEE_THROUGH_STYLES == 0),
{
    style & SEE_THROUGH_STYLES == 0
}

/// Whether a window class belongs to the shell.
pub open spec fn of_the_shell(class: Seq<char>) -> bool {
    exists|i: int| 0 <= i < SHELL_CLASSES@.len() && (#[trigger] SHELL_CLASSES@[i])@ == class
}

pub fn is_shell_class(class: &str) -> (shell: bool)
    ensures
        shell == of_the_shell(class@),
{
    let mut i: usize = 0;
    while i < 8
        invariant
            i <= 8,
            forall|j: int| 0 <= j < i ==> (#[trigger] SHELL_CLASSES@[j])@ != class@,
        decreases 8 - i,
    {
        if same(SHELL_CLASSES[i], class) {
            assert(SHELL_CLASSES@[i as int]@ == class@);
            return true;
        }
        i += 1;
    }
    false
}

pub fn contains_handle(handles: &Vec<isize>, handle: isize) -> (found: bool)
    ensures
        found == handles@.contains(handle),
{
    let mut i: usize = 0;
    while i < handles.len()
        invariant
            i <= handles@.len(),
            forall|j: int| 0 <= j < i ==> handles@[j] != handle,
        decreases handles@.len() - i,
    {
        if handles[i] == handle {
            return true;
        }
        i += 1;
    }
    false
}

/// What the system says about one top-level window.
pub struct WindowFacts {
    pub handle: isize,
    pub visible: bool,
    pub iconic: bool,
    pub style: u32,
    pub class: String,
    pub cloaked: bool,
    pub frame: Option<Rect>,
}

impl WindowFacts {
    /// Whether a window counts as hiding the wallpaper behind it.
    pub open spec fn counts(self, own: Seq<isize>) -> bool {
        &&& self.visible
        &&& !self.iconic
        &&& !own.contains(self.handle)
        &&& self.style & SEE_THROUGH_STYLES == 0
        &&& !of_the_shell(self.class@)
        &&& !self.cloaked
        &&& self.frame matches Some(frame) && frame.width > 0 && frame.height > 0
    }

    /// Whether a window hides one pixel of the wallpaper.
    pub open spec fn hides(self, own: Seq<isize>, x: int, y: int) -> bool {
        self.counts(own) && self.frame->0.has(x, y)
    }
}

/// Whether a window is worth more questions. These tests are the cheap ones: they
/// run over every top-level window several times a second, and most windows on a
/// desktop are invisible.
pub fn worth_probing(
    handle: isize,
    visible: bool,
    iconic: bool,
    style: u32,
    own: &Vec<isize>,
) -> (worth: bool)
    ensures
        worth == (visible && !iconic && !own@.contains(handle) && style & SEE_THROUGH_STYLES == 0),
{
    visible && !iconic && !contains_handle(own, handle) && is_opaque(style)
}

/// Whether any of some windows hides a pixel.
pub open spec fn hidden_by(windows: Seq<WindowFacts>, own: Seq<isize>, x: int, y: int) -> bool {
    exists|i: int| 0 <= i < windows.len() && (#[trigger] windows[i]).hides(own, x, y)
}

/// Whether a pixel of the wallpaper counts: the ones along its edges do not.
pub open spec fn in_test_area(bounds: Rect, x: int, y: int) -> bool {
    &&& bounds.x + COVERAGE_SLACK <= x < bounds.right() - COVERAGE_SLACK
    &&& bounds.y + COVERAGE_SLACK <= y < bounds.bottom() - COVERAGE_SLACK
}

/// Whether the wallpaper is large enough to have any pixel that counts.
pub open spec fn has_test_area(bounds: Rect) -> bool {
    bounds.width > 2 * COVERAGE_SLACK && bounds.height > 2 * COVERAGE_SLACK
}

/// Whether the windows between them leave none of the wallpaper showing.
pub open spec fn covered(bounds: Rect, own: Seq<isize>, windows: Seq<WindowFacts>) -> bool {
    &&& has_test_area(bounds)
    &&& forall|x: int, y: int| #[trigger]
        in_test_area(bounds, x, y) ==> hidden_by(windows, own, x, y)
}

/// A walk over the windows, front to back.
pub struct Coverage {
    /// What is left of the wallpaper after the windows found so far.
    left: Region,
    own: Vec<isize>,
    covered: bool,
}

impl Coverage {
    pub closed spec fn wf(&self) -> bool {
        self.left.wf() && (self.covered <==> forall|x: int, y: int| ! #[trigger] self.shows(x, y))
    }

    /// Whether a pixel is still showing.
    pub closed spec fn shows(&self, x: int, y: int) -> bool {
        self.left.has(x, y)
    }

    /// The windows that are the wallpaper itself.
    pub closed spec fn own(&self) -> Seq<isize> {
        self.own@
    }

    /// Starts with all of the wallpaper showing, where it is large enough.
    pub fn begin(bounds: Rect, own: Vec<isize>) -> (walk: Option<Coverage>)
        ensures
            walk is Some <==> has_test_area(bounds),
            walk matches Some(walk) ==> walk.wf() && walk.own() == own@ && forall|x: int, y: int|
                #[trigger] walk.shows(x, y) == in_test_area(bounds, x, y),
    {
        let all = Edges::of(bounds);
        let edges = Edges {
            left: all.left + COVERAGE_SLACK,
            top: all.top + COVERAGE_SLACK,
            right: all.right - COVERAGE_SLACK,
            bottom: all.bottom - COVERAGE_SLACK,
        };
        if edges.right <= edges.left || edges.bottom <= edges.top {
            return None;
        }
        let left = Region::rectangle(edges);
        let walk = Coverage { left, own, covered: false };
        assert(walk.shows(edges.left as int, edges.top as int));
        Some(walk)
    }

    /// Subtracts one window from what is left of the wallpaper. Tells whether
    /// anything still shows; the walk can stop the moment nothing does.
    pub fn window(&mut self, facts: &WindowFacts) -> (more: bool)
        requires
            old(self).wf(),
        ensures
            final(self).wf(),
            final(self).own() == old(self).own(),
            forall|x: int, y: int|
                #[trigger] final(self).shows(x, y) == (old(self).shows(x, y) && !facts.hides(
                    old(self).own(),
                    x,
                    y,
                )),
            more <==> exists|x: int, y: int| final(self).shows(x, y),
            facts.visible && !facts.iconic && !facts.cloaked && !old(self).own().contains(
                facts.handle,
            ) && facts.style & 0x0008_0000 == 0 && facts.style & 0x20 == 0 && !of_the_shell(
                facts.class@,
            ) ==> (facts.frame matches Some(frame) ==> forall|x: int, y: int|
                frame.x <= x < frame.x + frame.width && frame.y <= y < frame.y + frame.height
                    ==> ! #[trigger] final(self).shows(x, y)),
    {
        proof {
            lemma_style_bits(facts.style);
        }
        if worth_probing(facts.handle, facts.visible, facts.iconic, facts.style, &self.own)
            && !is_shell_class(facts.class.as_str()) && !facts.cloaked {
            if let Some(frame) = facts.frame {
                if frame.width > 0 && frame.height > 0 {
                    let edges = Edges::of(frame);
                    self.left.subtract(edges);
                    self.covered = self.left.is_empty();
                    proof {
                        assert(facts.counts(old(self).own@));
                        assert forall|x: int, y: int|
                            #[trigger] self.shows(x, y) == (old(self).shows(x, y) && !facts.hides(
                                old(self).own@,
                                x,
                                y,
                            )) by {
                            assert(self.left.has(x, y) == (old(self).left.has(x, y) && !edges.has(
                                x,
                                y,
                            )));
                        }
                        if !self.covered {
                            let (x, y) = choose|x: int, y: int| self.left.has(x, y);
                            assert(self.shows(x, y));
                        } else {
                            assert forall|x: int, y: int| ! #[trigger] self.shows(x, y) by {
                                assert(!self.left.has(x, y));
                            }
                        }
                    }
                }
            }
        }
        !self.covered
    }

    /// Whether nothing shows any more.
    pub fn is_covered(&self) -> (all: bool)
        requires
            self.wf(),
        ensures
            all <==> forall|x: int, y: int| ! #[trigger] self.shows(x, y),
    {
        self.covered
    }
}

/// True while other windows between them leave none of `bounds` showing.
///
/// This is the case for most of a working day, and it is the difference between
/// the wallpaper costing a few cores and costing nothing at all.
pub fn covered_by_windows(bounds: Rect, own: Vec<isize>, windows: &Vec<WindowFacts>) -> (all: bool)
    ensures
        all == covered(bounds, own@, windows@),
{
    let ghost handles = own@;
    let mut walk = match Coverage::begin(bounds, own) {
        Some(walk) => walk,
        None => return false,
    };
    let mut i: usize = 0;
    while i < windows.len()
        invariant
            i <= windows@.len(),
            walk.wf(),
            walk.own() == handles,
            forall|x: int, y: int| #[trigger]
                walk.shows(x, y) == (in_test_area(bounds, x, y) && !hidden_by(
                    windows@.take(i as int),
                    handles,
                    x,
                    y,
                )),
        decreases windows@.len() - i,
    {
        let ghost before = walk;
        let _ = walk.window(&windows[i]);
        assert forall|x: int, y: int| #[trigger]
            walk.shows(x, y) == (in_test_area(bounds, x, y) && !hidden_by(
                windows@.take(i + 1),
                handles,
                x,
                y,
            )) by {
            lemma_one_more_window(windows@, i as int, handles, x, y);
            assert(before.shows(x, y) == (in_test_area(bounds, x, y) && !hidden_by(
                windows@.take(i as int),
                handles,
                x,
                y,
            )));
        }
        i += 1;
    }
    assert(windows@.take(i as int) == windows@);
    assert forall|x: int, y: int| #[trigger]
        in_test_area(bounds, x, y) && !hidden_by(windows@, handles, x, y) implies walk.shows(
        x,
        y,
    ) by {}
    walk.is_covered()
}

proof fn lemma_one_more_window(
    windows: Seq<WindowFacts>,
    count: int,
    own: Seq<isize>,
    x: int,
    y: int,
)
    requires
        0 <= count < windows.len(),
    ensures
        hidden_by(windows.take(count + 1), own, x, y) == (hidden_by(
            windows.take(count),
            own,
            x,
            y,
        ) || windows[count].hides(own, x, y)),
{
    let more = windows.take(count + 1);
    let fewer = windows.take(count);
    if hidden_by(fewer, own, x, y) {
        let i = choose|i: int| 0 <= i < fewer.len() && (#[trigger] fewer[i]).hides(own, x, y);
        assert(more[i] == fewer[i]);
    }
    if windows[count].hides(own, x, y) {
        assert(more[count] == windows[count]);
    }
    if hidden_by(more, own, x, y) {
        let i = choose|i: int| 0 <= i < more.len() && (#[trigger] more[i]).hides(own, x, y);
        if i < count {
            assert(fewer[i] == more[i]);
        }
    }
}

/// Whether a rectangle reaches all the edges of a monitor, give or take two pixels.
pub open spec fn edge_to_edge(rect: Rect, monitor: Rect) -> bool {
    &&& rect.x <= monitor.x + 2
    &&& rect.y <= monitor.y + 2
    &&& rect.right() >= monitor.right() - 2
    &&& rect.bottom() >= monitor.bottom() - 2
}

/// Whether the foreground window is an application that fills a monitor.
pub open spec fn fullscreen(
    monitor: Rect,
    own: Seq<isize>,
    foreground: isize,
    class: Seq<char>,
    rect: Option<Rect>,
) -> bool {
    &&& foreground != 0
    &&& !own.contains(foreground)
    &&& !of_the_shell(class)
    &&& rect matches Some(rect) && edge_to_edge(rect, monitor)
}

/// True while a real application covers the given monitor edge to edge. The
/// foreground window is 0 where there is none.
pub fn covered_by_fullscreen_app(
    monitor: Rect,
    own: &Vec<isize>,
    foreground: isize,
    class: &str,
    rect: Option<Rect>,
) -> (all: bool)
    ensures
        all == (foreground != 0 && !own@.contains(foreground) && !of_the_shell(class@) && (
        rect matches Some(rect) && edge_to_edge(rect, monitor))),
        all == fullscreen(monitor, own@, foreground, class@, rect),
{
    if foreground == 0 || contains_handle(own, foreground) {
        return false;
    }
    if is_shell_class(class) {
        return false;
    }
    match rect {
        Some(rect) => {
            let ours = Edges::of(rect);
            let theirs = Edges::of(monitor);
            ours.left <= theirs.left + 2 && ours.top <= theirs.top + 2 && ours.right >= theirs.right
                - 2 && ours.bottom >= theirs.bottom - 2
        },
        None => false,
    }
}

/// The windows that are painted anew once the wallpaper is gone.
pub open spec fn repainted(host: Host) -> Seq<isize> {
    match host.mode {
        HostMode::WorkerW => seq![host.progman, host.hwnd],
        HostMode::Progman => seq![host.progman],
    }
}

/// The windows that have to be repainted, e.g. after the wallpaper detaches.
pub fn refresh(host: &Host) -> (windows: Vec<isize>)
    ensures
        windows@ == (match host.mode {
            HostMode::WorkerW => seq![host.progman, host.hwnd],
            HostMode::Progman => seq![host.progman],
        }),
        windows@ == repainted(*host),
{
    let mut windows: Vec<isize> = Vec::new();
    windows.push(host.progman);
    match host.mode {
        HostMode::WorkerW => {
            windows.push(host.hwnd);
        },
        HostMode::Progman => {},
    }
    windows
}

/// Whether a frame lies over all of the wallpaper that counts. It may leave the
/// pixels along the edges free.
pub open spec fn over_test_area(frame: Rect, bounds: Rect) -> bool {
    &&& frame.x <= bounds.x + COVERAGE_SLACK
    &&& frame.y <= bounds.y + COVERAGE_SLACK
    &&& frame.right() >= bounds.right() - COVERAGE_SLACK
    &&& frame.bottom() >= bounds.bottom() - COVERAGE_SLACK
}

/// One window that counts and lies over all of the wallpaper but its edges is
/// enough. A maximised window does that where the wallpaper keeps to the work area.
/// Where the wallpaper fills a monitor with a taskbar it does not: the taskbar's
/// window never counts as hiding anything, so the strip behind it still shows.
pub proof fn one_window_is_enough(
    bounds: Rect,
    own: Seq<isize>,
    windows: Seq<WindowFacts>,
    i: int,
)
    requires
        has_test_area(bounds),
        0 <= i < windows.len(),
        windows[i].counts(own),
        over_test_area(windows[i].frame->0, bounds),
    ensures
        covered(bounds, own, windows),
{
    assert forall|x: int, y: int| #[trigger] in_test_area(bounds, x, y) implies hidden_by(
        windows,
        own,
        x,
        y,
    ) by {
        assert(windows[i].hides(own, x, y));
    }
}

/// The shell's windows, the wallpaper's own, the invisible and the see-through
/// ones never hide anything: where no window counts, the wallpaper shows.
pub proof fn nothing_counts_nothing_covers(
    bounds: Rect,
    own: Seq<isize>,
    windows: Seq<WindowFacts>,
)
    requires
        forall|i: int| 0 <= i < windows.len() ==> !(#[trigger] windows[i]).counts(own),
    ensures
        !covered(bounds, own, windows),
{
    if has_test_area(bounds) {
        let (x, y) = (bounds.x + COVERAGE_SLACK, bounds.y + COVERAGE_SLACK);
        assert(in_test_area(bounds, x, y));
        assert(!hidden_by(windows, own, x, y));
    }
}

/// A covered wallpaper stays covered when another window opens.
pub proof fn more_windows_cover_more(
    bounds: Rect,
    own: Seq<isize>,
    windows: Seq<WindowFacts>,
    opened: WindowFacts,
)
    requires
        covered(bounds, own, windows),
    ensures
        covered(bounds, own, windows.push(opened)),
{
    assert forall|x: int, y: int| #[trigger] in_test_area(bounds, x, y) implies hidden_by(
        windows.push(opened),
        own,
        x,
        y,
    ) by {
        let i = choose|i: int| 0 <= i < windows.len() && (#[trigger] windows[i]).hides(own, x, y);
        assert(windows.push(opened)[i] == windows[i]);
    }
}

/// A window that is fullscreen on the monitor a wallpaper fills also leaves none of
/// that wallpaper showing.
pub proof fn fullscreen_is_covered(bounds: Rect, own: Seq<isize>, windows: Seq<WindowFacts>, i: int)
    requires
        has_test_area(bounds),
        0 <= i < windows.len(),
        windows[i].counts(own),
        edge_to_edge(windows[i].frame->0, bounds),
    ensures
        covered(bounds, own, windows),
{
    assert forall|x: int, y: int| #[trigger] in_test_area(bounds, x, y) implies hidden_by(
        windows,
        own,
        x,
        y,
    ) by {
        assert(windows[i].hides(own, x, y));
    }
}

/// However Explorer answers, the search for a host ends: with a desktop there is a
/// host once every variant has been tried, and it is a real window.
pub proof fn host_search_ends(progman: isize, worker: isize)
    requires
        progman != 0,
    ensures
        host_step(progman, worker, SPAWN_WPARAMS@.len() as int) matches HostStep::Settled(host)
            && host.hwnd != 0 && host.progman == progman && (host.mode == HostMode::WorkerW
            <==> worker != 0),
{
}


/// The shell's own windows are those with one of eight class names, and no others.
pub proof fn shell_classes_are_these(class: Seq<char>)
    ensures
        of_the_shell(class) <==> ({
            ||| class == "Progman"@
            ||| class == "WorkerW"@
            ||| class == "SHELLDLL_DefView"@
            ||| class == "Shell_TrayWnd"@
            ||| class == "Shell_SecondaryTrayWnd"@
            ||| class == "Windows.UI.Core.CoreWindow"@
            ||| class == "MultitaskingViewFrame"@
            ||| class == "XamlExplorerHostIslandWindow"@
        }),
{
    assert(SHELL_CLASSES@[0]@ == "Progman"@);
    assert(SHELL_CLASSES@[1]@ == "WorkerW"@);
    assert(SHELL_CLASSES@[2]@ == "SHELLDLL_DefView"@);
    assert(SHELL_CLASSES@[3]@ == "Shell_TrayWnd"@);
    assert(SHELL_CLASSES@[4]@ == "Shell_SecondaryTrayWnd"@);
    assert(SHELL_CLASSES@[5]@ == "Windows.UI.Core.CoreWindow"@);
    assert(SHELL_CLASSES@[6]@ == "MultitaskingViewFrame"@);
    assert(SHELL_CLASSES@[7]@ == "XamlExplorerHostIslandWindow"@);
    if of_the_shell(class) {
        let i = choose|i: int|
            0 <= i < SHELL_CLASSES@.len() && (#[trigger] SHELL_CLASSES@[i])@ == class;
        assert(0 <= i < 8);
    }
}

proof fn lemma_style_bits(style: u32)
    ensures
        style & 0x0008_0020 == 0 <==> style & 0x0008_0000 == 0 && style & 0x20 == 0,
{
    assert(style & 0x0008_0020u32 == 0 <==> style & 0x0008_0000u32 == 0 && style & 0x20u32 == 0)
        by (bit_vector);
}

/// A window that is on screen, belongs to neither the wallpaper nor the shell, and is
/// neither layered nor click-through hides every pixel of its frame, whatever else
/// its extended style says.
pub proof fn an_application_hides_its_frame(
    facts: WindowFacts,
    own: Seq<isize>,
    frame: Rect,
    x: int,
    y: int,
)
    requires
        facts.visible,
        !facts.iconic,
        !facts.cloaked,
        forall|i: int| 0 <= i < own.len() ==> own[i] != facts.handle,
        facts.style & 0x0008_0000 == 0,
        facts.style & 0x20 == 0,
        !of_the_shell(facts.class@),
        facts.frame == Some(frame),
        frame.x <= x < frame.x + frame.width,
        frame.y <= y < frame.y + frame.height,
    ensures
        facts.hides(own, x, y),
{
    lemma_style_bits(facts.style);
}

/// Whatever hides a pixel is an application window over that pixel: on screen, not
/// the wallpaper's own, not the shell's, neither layered nor click-through.
pub proof fn only_an_application_hides(facts: WindowFacts, own: Seq<isize>, x: int, y: int)
    requires
        facts.hides(own, x, y),
    ensures
        facts.visible,
        !facts.iconic,
        !facts.cloaked,
        forall|i: int| 0 <= i < own.len() ==> own[i] != facts.handle,
        facts.style & 0x0008_0000 == 0,
        facts.style & 0x20 == 0,
        !of_the_shell(facts.class@),
        facts.frame matches Some(frame) && frame.x <= x < frame.x + frame.width && frame.y <= y
            < frame.y + frame.height,
{
    lemma_style_bits(facts.style);
    assert forall|i: int| 0 <= i < own.len() implies own[i] != facts.handle by {
        assert(own.contains(own[i]));
    }
}

/// Two windows that differ in their extended style alone hide the same pixels where
/// the styles agree on being layered and on being click-through.
pub proof fn other_style_bits_do_not_matter(
    one: WindowFacts,
    style: u32,
    own: Seq<isize>,
    x: int,
    y: int,
)
    requires
        one.style & 0x0008_0000 == style & 0x0008_0000,
        one.style & 0x20 == style & 0x20,
    ensures
        one.hides(own, x, y) == (WindowFacts { style, ..one }).hides(own, x, y),
{
    lemma_style_bits(one.style);
    lemma_style_bits(style);
}

/// One pixel that nothing hides is enough for the wallpaper to go on, so long as it
/// lies twelve pixels or more from every edge.
pub proof fn one_pixel_keeps_it_going(
    bounds: Rect,
    own: Seq<isize>,
    windows: Seq<WindowFacts>,
    x: int,
    y: int,
)
    requires
        bounds.x + 12 <= x < bounds.x + bounds.width - 12,
        bounds.y + 12 <= y < bounds.y + bounds.height - 12,
        forall|i: int| 0 <= i < windows.len() ==> !(#[trigger] windows[i]).hides(own, x, y),
    ensures
        !covered(bounds, own, windows),
{
    assert(in_test_area(bounds, x, y));
    assert(!hidden_by(windows, own, x, y));
}

/// Where every pixel that lies twelve or more from every edge is hidden by some
/// window, whichever it is, the wallpaper is covered.
pub proof fn hidden_everywhere_is_covered(
    bounds: Rect,
    own: Seq<isize>,
    windows: Seq<WindowFacts>,
    cover: spec_fn(int, int) -> int,
)
    requires
        bounds.width > 24,
        bounds.height > 24,
        forall|x: int, y: int|
            bounds.x + 12 <= x < bounds.x + bounds.width - 12 && bounds.y + 12 <= y < bounds.y
                + bounds.height - 12 ==> {
                let i = #[trigger] cover(x, y);
                0 <= i < windows.len() && windows[i].hides(own, x, y)
            },
    ensures
        covered(bounds, own, windows),
{
    assert forall|x: int, y: int| #[trigger] in_test_area(bounds, x, y) implies hidden_by(
        windows,
        own,
        x,
        y,
    ) by {
        let i = cover(x, y);
        assert(windows[i].hides(own, x, y));
    }
}

/// A wallpaper no more than twenty-four pixels wide or high never counts as covered.
pub proof fn tiny_wallpapers_go_on(bounds: Rect, own: Seq<isize>, windows: Seq<WindowFacts>)
    requires
        bounds.width <= 24 || bounds.height <= 24,
    ensures
        !covered(bounds, own, windows),
{
}

/// The foreground window pauses a monitor exactly if it is an application, neither
/// the wallpaper's nor the shell's, that comes within two pixels of all four edges.
pub proof fn fullscreen_comes_within_two_pixels(
    monitor: Rect,
    own: Seq<isize>,
    foreground: isize,
    class: Seq<char>,
    rect: Rect,
)
    ensures
        fullscreen(monitor, own, foreground, class, Some(rect)) <==> ({
            &&& foreground != 0
            &&& forall|i: int| 0 <= i < own.len() ==> own[i] != foreground
            &&& !of_the_shell(class)
            &&& rect.x - monitor.x <= 2
            &&& rect.y - monitor.y <= 2
            &&& (monitor.x + monitor.width) - (rect.x + rect.width) <= 2
            &&& (monitor.y + monitor.height) - (rect.y + rect.height) <= 2
        }),
        !fullscreen(monitor, own, foreground, class, None),
{
    if fullscreen(monitor, own, foreground, class, Some(rect)) {
        assert forall|i: int| 0 <= i < own.len() implies own[i] != foreground by {
            assert(own.contains(own[i]));
        }
    }
}

/// Without an icon host there is no surface. A top-level WorkerW is the surface
/// exactly if it is as large as the virtual screen, give or take two pixels;
/// otherwise it is the WorkerW inside the icon host, whatever its size.
pub proof fn the_surface_is_found(probe: DesktopProbe, rect: Rect)
    ensures
        probe.icon_host == 0 ==> surface(probe) == 0,
        probe.icon_host != 0 && probe.sibling != 0 && probe.sibling_rect == Some(rect)
            && probe.virtual_screen.width - rect.width <= 2 && probe.virtual_screen.height
            - rect.height <= 2 ==> surface(probe) == probe.sibling,
        probe.icon_host != 0 && probe.sibling_rect == Some(rect) && (probe.virtual_screen.width
            - rect.width > 2 || probe.virtual_screen.height - rect.height > 2) ==> surface(probe)
            == probe.child,
        probe.icon_host != 0 && (probe.sibling == 0 || probe.sibling_rect is None) ==> surface(
            probe,
        ) == probe.child,
{
}

/// Without Progman there is no host. With a WorkerW it is the host at once. Without
/// one Progman is asked three times, in three ways, before it is the host itself.
pub proof fn host_search_tries_everything(progman: isize, worker: isize, attempts: int)
    requires
        0 <= attempts,
    ensures
        host_step(0, worker, attempts) == HostStep::NoDesktop,
        progman != 0 && worker != 0 ==> host_step(progman, worker, attempts) == HostStep::Settled(
            Host { hwnd: worker, progman, mode: HostMode::WorkerW },
        ),
        progman != 0 ==> host_step(progman, 0, 0) == (HostStep::Spawn { wparam: 0, lparam: 0 }),
        progman != 0 ==> host_step(progman, 0, 1) == (HostStep::Spawn {
            wparam: 0x0d,
            lparam: 1,
        }),
        progman != 0 ==> host_step(progman, 0, 2) == (HostStep::Spawn {
            wparam: 0x0d,
            lparam: 0,
        }),
        progman != 0 && attempts >= 3 ==> host_step(progman, 0, attempts) == HostStep::Settled(
            Host { hwnd: progman, progman, mode: HostMode::Progman },
        ),
{
}

/// A placed window lies where it should on the desktop, at its full size, and keeps
/// to the bottom exactly inside Progman.
pub proof fn placed_windows_lie_where_they_should(bounds: Rect, origin: Rect, mode: HostMode)
    requires
        reachable(bounds, origin),
    ensures
        placed(bounds, origin, mode).x + origin.x == bounds.x,
        placed(bounds, origin, mode).y + origin.y == bounds.y,
        placed(bounds, origin, mode).width == bounds.width,
        placed(bounds, origin, mode).height == bounds.height,
        placed(bounds, origin, mode).to_bottom <==> mode == HostMode::Progman,
{
}

/// A window can be placed wherever the difference from the origin is a coordinate.
pub proof fn what_can_be_placed(bounds: Rect, origin: Rect)
    ensures
        reachable(bounds, origin) <==> -0x8000_0000 <= bounds.x - origin.x <= 0x7fff_ffff
            && -0x8000_0000 <= bounds.y - origin.y <= 0x7fff_ffff,
{
}

/// The frame that the window manager reports comes before the layout rectangle.
pub proof fn the_visible_frame_comes_first(frame: Rect, layout: Option<Rect>)
    ensures
        seen_frame(Some(frame), layout) == Some(frame),
        seen_frame(None, layout) == layout,
{
}

/// Progman is always painted anew, and the WorkerW exactly if the windows were in it.
pub proof fn the_host_is_repainted(host: Host)
    ensures
        repainted(host).contains(host.progman),
        host.mode == HostMode::WorkerW ==> repainted(host).contains(host.hwnd),
        forall|window: isize| #[trigger]
            repainted(host).contains(window) ==> window == host.progman || (window == host.hwnd
                && host.mode == HostMode::WorkerW),
{
    assert(repainted(host)[0] == host.progman);
    if host.mode == HostMode::WorkerW {
        assert(repainted(host)[1] == host.hwnd);
    }
}


/// A class name that the system wrote into a buffer is read from there, without what
/// a larger buffer holds behind it; where it wrote nothing the name is empty.
pub proof fn class_names_are_read(name: Seq<char>, behind: Seq<u16>, length: int)
    ensures
        class_in(utf16(name).len() as int, utf16(name) + behind) == name,
        length <= 0 ==> class_in(length, behind).len() == 0,
{
    utf16_reads_back(name);
    let units = utf16(name);
    assert((units + behind).take(units.len() as int) == units);
    if units.len() == 0 {
        assert(decoded(units).len() == 0);
    }
}

/// The middle of anything with an area lies inside it, as far from the near edges as
/// from the far ones, give or take a pixel.
pub proof fn the_middle_lies_inside(bounds: Rect)
    requires
        bounds.width > 0,
        bounds.height > 0,
    ensures
        bounds.has(centre(bounds).0, centre(bounds).1),
        0 <= (bounds.x + bounds.width - centre(bounds).0) - (centre(bounds).0 - bounds.x) <= 1,
        0 <= (bounds.y + bounds.height - centre(bounds).1) - (centre(bounds).1 - bounds.y) <= 1,
{
}

/// A rectangle has the edges it was made from.
pub proof fn rectangles_keep_their_edges(left: int, top: int, right: int, bottom: int)
    requires
        is_i32(left),
        is_i32(top),
        is_i32(right - left),
        is_i32(bottom - top),
    ensures
        rect_between(true, left, top, right, bottom) matches Some(rect) && rect.x == left
            && rect.y == top && rect.x + rect.width == right && rect.y + rect.height == bottom,
        rect_between(false, left, top, right, bottom) is None,
{
}

/// The smaller answers of the system are taken as they are meant: a window is cloaked
/// only if the question succeeded, a monitor without a known work area is all work
/// area, and a surface is waited for until it is there or the time is up.
pub proof fn answers_are_taken_as_meant(
    result: i32,
    cloaked: u32,
    bounds: Rect,
    area: Rect,
    worker: isize,
    expired: bool,
)
    ensures
        result < 0 ==> !said_cloaked(result, cloaked),
        result >= 0 ==> (said_cloaked(result, cloaked) <==> cloaked != 0),
        area_of(bounds, Some(area)) == area,
        area_of(bounds, None) == bounds,
        waits(worker, expired) <==> worker == 0 && !expired,
{
}

} // verus!
