//! Where the wallpaper windows go.

use crate::binary64::{number, Binary64, ONE};
use crate::bridge::Viewport;
use crate::desktop::{
    covered, has_test_area, one_window_is_enough, over_test_area, WindowFacts,
};
use crate::geometry::{
    is_i32, union, union_encloses_each, union_fits, union_in_range, union_of, Rect,
};
use crate::settings::{
    lists, optional, texts, Fit, Layout, Monitors, MonitorsView, Settings, SettingsView,
};
use crate::text::{decimal, digits, lemma_digits_read_back, same, strip_prefix};
use vstd::prelude::*;

verus! {

/// The labels of the wallpaper windows start with this.
pub const LABEL_PREFIX: &'static str = "wallpaper-";

/// How a monitor scales, as a factor and rounded to a percentage.
#[derive(Clone, Copy, Debug, PartialEq, Eq, Structural)]
pub struct Scale {
    pub factor: Binary64,
    pub percent: u32,
}

/// A monitor that shows everything at its real size.
pub open spec fn unscaled() -> Scale {
    Scale { factor: number(ONE), percent: 100 }
}

/// What the system says about a monitor.
pub struct MonitorInfo {
    pub name: Option<String>,
    pub x: i32,
    pub y: i32,
    pub width: u32,
    pub height: u32,
    pub scale: Scale,
    /// What the shell leaves free of it.
    pub work_area: Rect,
}

/// What the system says about a monitor, as values.
pub struct MonitorInfoView {
    pub name: Option<Seq<char>>,
    pub x: i32,
    pub y: i32,
    pub width: u32,
    pub height: u32,
    pub scale: Scale,
    pub work_area: Rect,
}

impl View for MonitorInfo {
    type V = MonitorInfoView;

    open spec fn view(&self) -> MonitorInfoView {
        MonitorInfoView {
            name: optional(self.name),
            x: self.x,
            y: self.y,
            width: self.width,
            height: self.height,
            scale: self.scale,
            work_area: self.work_area,
        }
    }
}

impl MonitorInfoView {
    /// The whole monitor.
    pub open spec fn full(self) -> Rect {
        Rect { x: self.x, y: self.y, width: self.width as i32, height: self.height as i32 }
    }

    /// The part of the monitor that the fit leaves to the wallpaper.
    pub open spec fn fitted(self, fit: Fit) -> Rect {
        match fit {
            Fit::Full => self.full(),
            Fit::WorkArea => self.work_area,
        }
    }

    /// What the monitor goes by: its name, or its number.
    pub open spec fn key(self, index: int) -> Seq<char> {
        match self.name {
            Some(name) => name,
            None => "display-"@ + digits(index as nat),
        }
    }

    /// What the monitor is called in the menu.
    pub open spec fn label(self, index: int) -> Seq<char> {
        self.key(index) + "  ("@ + digits(self.width as nat) + "x"@ + digits(self.height as nat)
            + ")"@
    }
}

impl MonitorInfo {
    pub fn full_rect(&self) -> (full: Rect)
        ensures
            full == self@.full(),
    {
        Rect { x: self.x, y: self.y, width: self.width as i32, height: self.height as i32 }
    }

    pub fn fitted_rect(&self, fit: Fit) -> (fitted: Rect)
        ensures
            fitted == self@.fitted(fit),
    {
        match fit {
            Fit::Full => self.full_rect(),
            Fit::WorkArea => self.work_area,
        }
    }

    pub fn key_at(&self, index: usize) -> (key: String)
        ensures
            key@ == self@.key(index as int),
    {
        match &self.name {
            Some(name) => name.clone(),
            None => {
                let mut key = "display-".to_owned();
                key.append(decimal(index as u64).as_str());
                key
            },
        }
    }

    pub fn label_at(&self, index: usize) -> (label: String)
        ensures
            label@ == self@.label(index as int),
    {
        let mut label = self.key_at(index);
        label.append("  (");
        label.append(decimal(self.width as u64).as_str());
        label.append("x");
        label.append(decimal(self.height as u64).as_str());
        label.append(")");
        label
    }
}

/// Some monitors, as values.
pub open spec fn monitor_views(monitors: Seq<MonitorInfo>) -> Seq<MonitorInfoView> {
    monitors.map_values(|m: MonitorInfo| m@)
}

/// What the monitors go by.
pub open spec fn keys_of(monitors: Seq<MonitorInfoView>) -> Seq<Seq<char>> {
    Seq::new(monitors.len(), |i: int| monitors[i].key(i))
}

pub fn monitor_keys(monitors: &Vec<MonitorInfo>) -> (keys: Vec<String>)
    ensures
        texts(keys@) == keys_of(monitor_views(monitors@)),
{
    let ghost all = keys_of(monitor_views(monitors@));
    let mut keys: Vec<String> = Vec::new();
    let mut i: usize = 0;
    assert(texts(keys@) == all.take(0));
    while i < monitors.len()
        invariant
            i <= monitors@.len(),
            all == keys_of(monitor_views(monitors@)),
            texts(keys@) == all.take(i as int),
        decreases monitors@.len() - i,
    {
        let ghost before = texts(keys@);
        assert(monitor_views(monitors@)[i as int] == monitors@[i as int]@);
        let key = monitors[i].key_at(i);
        keys.push(key);
        i += 1;
        assert(texts(keys@) == before.push(key@));
        assert(all.take(i as int) == before.push(all[i - 1]));
    }
    assert(all.take(i as int) == all);
    keys
}

/// What the system says about the desktop.
pub struct Desktop {
    pub monitors: Vec<MonitorInfo>,
    pub primary_name: Option<String>,
    pub primary_scale: Option<Scale>,
    pub virtual_screen: Rect,
}

/// What the system says about the desktop, as values.
pub struct DesktopView {
    pub monitors: Seq<MonitorInfoView>,
    pub primary_name: Option<Seq<char>>,
    pub primary_scale: Option<Scale>,
    pub virtual_screen: Rect,
}

impl View for Desktop {
    type V = DesktopView;

    open spec fn view(&self) -> DesktopView {
        DesktopView {
            monitors: monitor_views(self.monitors@),
            primary_name: optional(self.primary_name),
            primary_scale: self.primary_scale,
            virtual_screen: self.virtual_screen,
        }
    }
}

/// A place for one window.
pub struct Target {
    pub key: String,
    pub name: String,
    /// Where the window goes, after the screen fit and the insets.
    pub bounds: Rect,
    /// The whole monitor. Pausing for a fullscreen application keys off this, not
    /// off the window: a merely maximised window covers the work area and is no
    /// reason to stop.
    pub monitor: Rect,
    pub scale: Scale,
}

/// A place for one window, as values.
pub struct TargetView {
    pub key: Seq<char>,
    pub name: Seq<char>,
    pub bounds: Rect,
    pub monitor: Rect,
    pub scale: Scale,
}

impl View for Target {
    type V = TargetView;

    open spec fn view(&self) -> TargetView {
        TargetView {
            key: self.key@,
            name: self.name@,
            bounds: self.bounds,
            monitor: self.monitor,
            scale: self.scale,
        }
    }
}

pub open spec fn target_views(targets: Seq<Target>) -> Seq<TargetView> {
    targets.map_values(|t: Target| t@)
}

/// The place for a window that covers one monitor. Keeping clear of the taskbar
/// means fitting into the work area; the insets then trim anything the shell does
/// not know about.
pub open spec fn target_on(
    settings: SettingsView,
    monitor: MonitorInfoView,
    index: int,
) -> TargetView {
    TargetView {
        key: monitor.key(index),
        name: monitor.label(index),
        bounds: settings.insets.trimmed(monitor.fitted(settings.fit)),
        monitor: monitor.full(),
        scale: monitor.scale,
    }
}

/// Whether the wallpaper covers the monitor with a given key.
pub open spec fn covers_monitor(
    monitors: MonitorsView,
    primary: Option<Seq<char>>,
    key: Seq<char>,
) -> bool {
    match monitors {
        MonitorsView::All => true,
        MonitorsView::Primary => primary == Some(key),
        MonitorsView::Only(names) => names.contains(key),
    }
}

/// The places on the first `count` monitors that the wallpaper covers, in order.
pub open spec fn covered_targets(
    settings: SettingsView,
    desktop: DesktopView,
    count: int,
) -> Seq<TargetView>
    decreases count,
{
    if count <= 0 {
        Seq::empty()
    } else {
        let before = covered_targets(settings, desktop, count - 1);
        let target = target_on(settings, desktop.monitors[count - 1], count - 1);
        if covers_monitor(settings.monitors, desktop.primary_name, target.key) {
            before.push(target)
        } else {
            before
        }
    }
}

/// The place for the one window where no monitor is left to cover: all of the
/// virtual screen.
pub open spec fn fallback_target(desktop: DesktopView) -> TargetView {
    TargetView {
        key: "primary"@,
        name: "Primary"@,
        bounds: desktop.virtual_screen,
        monitor: desktop.virtual_screen,
        scale: match desktop.primary_scale {
            Some(scale) => scale,
            None => unscaled(),
        },
    }
}

/// The places on all the monitors that the wallpaper covers.
pub open spec fn selected_targets(settings: SettingsView, desktop: DesktopView) -> Seq<TargetView> {
    let covered = covered_targets(settings, desktop, desktop.monitors.len() as int);
    if covered.len() == 0 {
        seq![fallback_target(desktop)]
    } else {
        covered
    }
}

pub open spec fn bounds_of(targets: Seq<TargetView>) -> Seq<Rect> {
    targets.map_values(|t: TargetView| t.bounds)
}

pub open spec fn monitors_of(targets: Seq<TargetView>) -> Seq<Rect> {
    targets.map_values(|t: TargetView| t.monitor)
}

/// The places as the layout wants them: one window over everything in the span
/// layout, and otherwise one on each monitor.
pub open spec fn spread_targets(layout: Layout, selected: Seq<TargetView>) -> Seq<TargetView> {
    if layout == Layout::Span {
        seq![
            TargetView {
                key: "span"@,
                name: "All screens"@,
                bounds: union_of(bounds_of(selected)),
                monitor: union_of(monitors_of(selected)),
                scale: if selected.len() > 0 {
                    selected[0].scale
                } else {
                    unscaled()
                },
            },
        ]
    } else {
        selected
    }
}

/// The places for the windows.
pub open spec fn targets_for(settings: SettingsView, desktop: DesktopView) -> Seq<TargetView> {
    spread_targets(settings.layout, selected_targets(settings, desktop))
}

/// Whether the insets can be taken off every monitor.
pub open spec fn monitors_in_range(settings: SettingsView, desktop: DesktopView) -> bool {
    forall|i: int|
        0 <= i < desktop.monitors.len() ==> settings.insets.trim_in_range(
            (#[trigger] desktop.monitors[i]).fitted(settings.fit),
        )
}

/// Whether the places can be joined where the layout asks for it.
pub open spec fn spread_in_range(layout: Layout, selected: Seq<TargetView>) -> bool {
    layout == Layout::Span ==> union_in_range(bounds_of(selected)) && union_in_range(
        monitors_of(selected),
    )
}

/// Whether [`select_targets`] may be called.
pub fn monitors_fit(settings: &Settings, desktop: &Desktop) -> (fit: bool)
    ensures
        fit == monitors_in_range(settings@, desktop@),
{
    let mut i: usize = 0;
    while i < desktop.monitors.len()
        invariant
            i <= desktop.monitors@.len(),
            forall|j: int|
                0 <= j < i ==> settings@.insets.trim_in_range(
                    (#[trigger] desktop@.monitors[j]).fitted(settings@.fit),
                ),
        decreases desktop.monitors@.len() - i,
    {
        assert(desktop@.monitors[i as int] == desktop.monitors@[i as int]@);
        if !settings.insets.fits(desktop.monitors[i].fitted_rect(settings.fit)) {
            return false;
        }
        i += 1;
    }
    true
}

fn is_covered(monitors: &Monitors, primary: &Option<String>, key: &str) -> (covered: bool)
    ensures
        covered == covers_monitor(monitors@, optional(*primary), key@),
{
    match monitors {
        Monitors::All => true,
        Monitors::Primary => match primary {
            Some(name) => same(name.as_str(), key),
            None => false,
        },
        Monitors::Only(names) => lists(names, key),
    }
}

/// The monitors the wallpaper should cover, in physical pixels on the virtual
/// desktop.
pub fn select_targets(settings: &Settings, desktop: &Desktop) -> (targets: Vec<Target>)
    requires
        monitors_in_range(settings@, desktop@),
    ensures
        target_views(targets@) == selected_targets(settings@, desktop@),
{
    let mut targets: Vec<Target> = Vec::new();
    let mut i: usize = 0;
    assert(target_views(targets@) == covered_targets(settings@, desktop@, 0));
    while i < desktop.monitors.len()
        invariant
            i <= desktop.monitors@.len(),
            monitors_in_range(settings@, desktop@),
            target_views(targets@) == covered_targets(settings@, desktop@, i as int),
        decreases desktop.monitors@.len() - i,
    {
        let monitor = &desktop.monitors[i];
        assert(desktop@.monitors[i as int] == monitor@);
        let key = monitor.key_at(i);
        let ghost before = targets@;
        if is_covered(&settings.monitors, &desktop.primary_name, key.as_str()) {
            let target = Target {
                key,
                name: monitor.label_at(i),
                bounds: settings.insets.apply(monitor.fitted_rect(settings.fit)),
                monitor: monitor.full_rect(),
                scale: monitor.scale,
            };
            assert(target@ == target_on(settings@, monitor@, i as int));
            targets.push(target);
            assert(target_views(targets@) == target_views(before).push(target@));
        }
        i += 1;
    }
    if targets.len() == 0 {
        let scale = match desktop.primary_scale {
            Some(scale) => scale,
            None => Scale { factor: Binary64 { bits: ONE }, percent: 100 },
        };
        targets.push(
            Target {
                key: "primary".to_owned(),
                name: "Primary".to_owned(),
                bounds: desktop.virtual_screen,
                monitor: desktop.virtual_screen,
                scale,
            },
        );
        assert(target_views(targets@) == seq![fallback_target(desktop@)]);
    }
    targets
}

/// The rectangles of the windows.
pub fn window_rects(targets: &Vec<Target>) -> (rects: Vec<Rect>)
    ensures
        rects@ == bounds_of(target_views(targets@)),
{
    let mut rects: Vec<Rect> = Vec::new();
    let mut i: usize = 0;
    while i < targets.len()
        invariant
            i <= targets@.len(),
            rects@ == bounds_of(target_views(targets@)).take(i as int),
        decreases targets@.len() - i,
    {
        rects.push(targets[i].bounds);
        i += 1;
        assert(rects@ == bounds_of(target_views(targets@)).take(i as int));
    }
    assert(rects@ == bounds_of(target_views(targets@)));
    rects
}

/// The rectangles of the monitors behind the windows.
pub fn monitor_rects(targets: &Vec<Target>) -> (rects: Vec<Rect>)
    ensures
        rects@ == monitors_of(target_views(targets@)),
{
    let mut rects: Vec<Rect> = Vec::new();
    let mut i: usize = 0;
    while i < targets.len()
        invariant
            i <= targets@.len(),
            rects@ == monitors_of(target_views(targets@)).take(i as int),
        decreases targets@.len() - i,
    {
        rects.push(targets[i].monitor);
        i += 1;
        assert(rects@ == monitors_of(target_views(targets@)).take(i as int));
    }
    assert(rects@ == monitors_of(target_views(targets@)));
    rects
}

/// Joins the places where the layout asks for it.
pub fn spread(layout: Layout, selected: Vec<Target>) -> (targets: Vec<Target>)
    requires
        spread_in_range(layout, target_views(selected@)),
    ensures
        target_views(targets@) == spread_targets(layout, target_views(selected@)),
{
    if layout != Layout::Span {
        return selected;
    }
    let bounds = union(window_rects(&selected).as_slice());
    let monitor = union(monitor_rects(&selected).as_slice());
    let scale = if selected.len() > 0 {
        selected[0].scale
    } else {
        Scale { factor: Binary64 { bits: ONE }, percent: 100 }
    };
    let mut targets: Vec<Target> = Vec::new();
    targets.push(
        Target {
            key: "span".to_owned(),
            name: "All screens".to_owned(),
            bounds,
            monitor,
            scale,
        },
    );
    assert(target_views(targets@) == spread_targets(layout, target_views(selected@)));
    targets
}

/// Whether [`targets`] may be called.
pub fn targets_fit(settings: &Settings, desktop: &Desktop) -> (fit: bool)
    ensures
        fit == (monitors_in_range(settings@, desktop@) && spread_in_range(
            settings@.layout,
            selected_targets(settings@, desktop@),
        )),
{
    if !monitors_fit(settings, desktop) {
        return false;
    }
    if settings.layout != Layout::Span {
        return true;
    }
    let selected = select_targets(settings, desktop);
    union_fits(window_rects(&selected).as_slice()) && union_fits(
        monitor_rects(&selected).as_slice(),
    )
}

/// The places for the windows under the current settings.
pub fn targets(settings: &Settings, desktop: &Desktop) -> (targets: Vec<Target>)
    requires
        monitors_in_range(settings@, desktop@),
        spread_in_range(settings@.layout, selected_targets(settings@, desktop@)),
    ensures
        target_views(targets@) == targets_for(settings@, desktop@),
{
    spread(settings.layout, select_targets(settings, desktop))
}

/// There is always a window, whatever the monitors and the settings are.
pub proof fn there_is_always_a_window(settings: SettingsView, desktop: DesktopView)
    ensures
        targets_for(settings, desktop).len() >= 1,
        settings.layout == Layout::Span ==> targets_for(settings, desktop).len() == 1,
{
}

/// Which monitors are covered does not depend on the layout.
proof fn lemma_selection_ignores_the_layout(
    settings: SettingsView,
    other: SettingsView,
    desktop: DesktopView,
    count: int,
)
    requires
        settings == (SettingsView { layout: settings.layout, ..other }),
    ensures
        covered_targets(settings, desktop, count) == covered_targets(other, desktop, count),
    decreases count,
{
    if count > 0 {
        lemma_selection_ignores_the_layout(settings, other, desktop, count - 1);
    }
}

/// In the span layout there is one window, and it stands for the windows that the
/// same monitors would get as separate scenes: it goes where all of those would go,
/// over all of their monitors, at the scale of the first.
pub proof fn span_joins_the_separate_windows(settings: SettingsView, desktop: DesktopView)
    requires
        settings.layout == Layout::Span,
    ensures
        ({
            let separate = targets_for(
                SettingsView { layout: Layout::Separate, ..settings },
                desktop,
            );
            targets_for(settings, desktop) == seq![
                TargetView {
                    key: "span"@,
                    name: "All screens"@,
                    bounds: union_of(bounds_of(separate)),
                    monitor: union_of(monitors_of(separate)),
                    scale: separate[0].scale,
                },
            ]
        }),
{
    let apart = SettingsView { layout: Layout::Separate, ..settings };
    lemma_selection_ignores_the_layout(
        settings,
        apart,
        desktop,
        desktop.monitors.len() as int,
    );
    assert(selected_targets(settings, desktop) == selected_targets(apart, desktop));
}

/// The span window reaches over every place it stands for.
pub proof fn span_reaches_everywhere(settings: SettingsView, desktop: DesktopView, i: int)
    requires
        settings.layout == Layout::Span,
        0 <= i < selected_targets(settings, desktop).len(),
        spread_in_range(Layout::Span, selected_targets(settings, desktop)),
    ensures
        targets_for(settings, desktop)[0].bounds.encloses(
            selected_targets(settings, desktop)[i].bounds,
        ),
        targets_for(settings, desktop)[0].monitor.encloses(
            selected_targets(settings, desktop)[i].monitor,
        ),
{
    let selected = selected_targets(settings, desktop);
    union_encloses_each(bounds_of(selected), i);
    union_encloses_each(monitors_of(selected), i);
}

/// One window over the part of a monitor that the fit leaves to the wallpaper, give
/// or take the edges that do not count, leaves none of the wallpaper showing. In the
/// work area that is any maximised window.
pub proof fn one_maximised_window_is_enough(
    settings: SettingsView,
    monitor: MonitorInfoView,
    index: int,
    own: Seq<isize>,
    windows: Seq<WindowFacts>,
    i: int,
)
    requires
        settings.insets.trim_in_range(monitor.fitted(settings.fit)),
        0 <= settings.insets.left,
        0 <= settings.insets.top,
        0 <= settings.insets.right,
        0 <= settings.insets.bottom,
        has_test_area(target_on(settings, monitor, index).bounds),
        0 <= i < windows.len(),
        windows[i].counts(own),
        over_test_area(windows[i].frame->0, monitor.fitted(settings.fit)),
    ensures
        covered(target_on(settings, monitor, index).bounds, own, windows),
{
    let bounds = target_on(settings, monitor, index).bounds;
    one_window_is_enough(bounds, own, windows, i);
}

/// One window of the signature: its key, where it is, and how its monitor scales.
pub struct Spot {
    pub key: String,
    pub bounds: Rect,
    pub percent: u32,
}

pub struct SpotView {
    pub key: Seq<char>,
    pub bounds: Rect,
    pub percent: u32,
}

impl View for Spot {
    type V = SpotView;

    open spec fn view(&self) -> SpotView {
        SpotView { key: self.key@, bounds: self.bounds, percent: self.percent }
    }
}

pub open spec fn spot_views(spots: Seq<Spot>) -> Seq<SpotView> {
    spots.map_values(|s: Spot| s@)
}

/// What the windows would look like right now, so that a changed monitor
/// arrangement can be spotted without waiting for the user to reload.
pub open spec fn signature_of(targets: Seq<TargetView>) -> Seq<SpotView> {
    targets.map_values(
        |t: TargetView| SpotView { key: t.key, bounds: t.bounds, percent: t.scale.percent },
    )
}

pub fn layout_signature(targets: &Vec<Target>) -> (signature: Vec<Spot>)
    ensures
        spot_views(signature@) == signature_of(target_views(targets@)),
{
    let mut signature: Vec<Spot> = Vec::new();
    let mut i: usize = 0;
    while i < targets.len()
        invariant
            i <= targets@.len(),
            spot_views(signature@) == signature_of(target_views(targets@)).take(i as int),
        decreases targets@.len() - i,
    {
        let target = &targets[i];
        let ghost before = spot_views(signature@);
        let spot = Spot {
            key: target.key.clone(),
            bounds: target.bounds,
            percent: target.scale.percent,
        };
        signature.push(spot);
        i += 1;
        assert(spot_views(signature@) == before.push(spot@));
        assert(spot_views(signature@) == signature_of(target_views(targets@)).take(i as int));
    }
    assert(spot_views(signature@) == signature_of(target_views(targets@)));
    signature
}

/// Whether two signatures describe the same windows.
pub fn same_signature(left: &Vec<Spot>, right: &Vec<Spot>) -> (equal: bool)
    ensures
        equal == (spot_views(left@) == spot_views(right@)),
{
    if left.len() != right.len() {
        assert(spot_views(left@).len() != spot_views(right@).len());
        return false;
    }
    let mut i: usize = 0;
    while i < left.len()
        invariant
            i <= left@.len(),
            left@.len() == right@.len(),
            forall|j: int| 0 <= j < i ==> (#[trigger] left@[j])@ == right@[j]@,
        decreases left@.len() - i,
    {
        let (a, b) = (&left[i], &right[i]);
        if !(same(a.key.as_str(), b.key.as_str()) && a.bounds == b.bounds && a.percent
            == b.percent) {
            assert(spot_views(left@)[i as int] != spot_views(right@)[i as int]);
            return false;
        }
        i += 1;
    }
    assert(spot_views(left@) =~= spot_views(right@));
    true
}

/// A changed resolution, position or scaling of any window shows in the signature,
/// and so does a window more or less.
pub proof fn signature_tells_layouts_apart(left: Seq<TargetView>, right: Seq<TargetView>, i: int)
    requires
        signature_of(left) == signature_of(right),
    ensures
        left.len() == right.len(),
        0 <= i < left.len() ==> left[i].key == right[i].key && left[i].bounds == right[i].bounds
            && left[i].scale.percent == right[i].scale.percent,
{
    assert(signature_of(left).len() == left.len());
    assert(signature_of(right).len() == right.len());
    if 0 <= i < left.len() {
        let (one, other) = (signature_of(left)[i], signature_of(right)[i]);
        assert(one == other);
        assert(one.key == left[i].key && other.key == right[i].key);
        assert(one.bounds == left[i].bounds && other.bounds == right[i].bounds);
    }
}

/// What chance and the browser contribute to one window: a module rolled for it
/// alone, and the scale its page is laid out at.
pub struct Roll {
    pub module: String,
    pub page_scale: Binary64,
}

/// One window to be opened.
pub struct WindowPlan {
    pub label: String,
    pub module: String,
    /// Waits for the boot animation; the other windows do not.
    pub is_first: bool,
    /// The slice of the scene it shows, in split layout.
    pub viewport: Option<Viewport>,
}

/// The label of a window. Labels are never reused: an Explorer restart takes the
/// windows with it, and their labels stay taken.
pub open spec fn window_label(generation: nat, index: nat) -> Seq<char> {
    LABEL_PREFIX@ + digits(generation) + "-"@ + digits(index)
}

/// The slice of the scene that a window at `bounds` shows.
pub open spec fn slice_of(scene: Rect, bounds: Rect, page_scale: Binary64) -> Viewport {
    Viewport {
        scene,
        offset_x: (bounds.x - scene.x) as i32,
        offset_y: (bounds.y - scene.y) as i32,
        scale: page_scale,
    }
}

/// Whether every window can be told relative to the scene.
pub open spec fn slices_in_range(scene: Rect, bounds: Seq<Rect>) -> bool {
    forall|i: int|
        0 <= i < bounds.len() ==> is_i32((#[trigger] bounds[i]).x - scene.x) && is_i32(
            bounds[i].y - scene.y,
        )
}

/// Whether the windows can be planned at all.
pub open spec fn plan_in_range(layout: Layout, bounds: Seq<Rect>) -> bool {
    union_in_range(bounds) && (layout == Layout::Split ==> slices_in_range(
        union_of(bounds),
        bounds,
    ))
}

/// What one planned window has to be.
pub open spec fn is_plan(
    settings: SettingsView,
    targets: Seq<TargetView>,
    generation: nat,
    shared: Seq<char>,
    rolls: Seq<Roll>,
    index: int,
    plan: WindowPlan,
) -> bool {
    &&& plan.label@ == window_label(generation, index as nat)
    &&& plan.module@ == settings.module_shown(targets[index].key, shared, rolls[index].module@)
    &&& plan.is_first == (index == 0)
    &&& plan.viewport == (if settings.layout == Layout::Split {
        Some(
            slice_of(
                union_of(bounds_of(targets)),
                targets[index].bounds,
                rolls[index].page_scale,
            ),
        )
    } else {
        None
    })
}

/// Whether [`plan_windows`] may be called.
pub fn plan_fits(layout: Layout, bounds: &Vec<Rect>) -> (fits: bool)
    ensures
        fits == plan_in_range(layout, bounds@),
{
    if !union_fits(bounds.as_slice()) {
        return false;
    }
    if layout != Layout::Split {
        return true;
    }
    let scene = union(bounds.as_slice());
    let mut i: usize = 0;
    while i < bounds.len()
        invariant
            i <= bounds@.len(),
            layout == Layout::Split,
            scene == union_of(bounds@),
            forall|j: int|
                0 <= j < i ==> is_i32((#[trigger] bounds@[j]).x - scene.x) && is_i32(
                    bounds@[j].y - scene.y,
                ),
        decreases bounds@.len() - i,
    {
        let rect = bounds[i];
        if rect.x.checked_sub(scene.x).is_none() || rect.y.checked_sub(scene.y).is_none() {
            assert(!(is_i32(bounds@[i as int].x - scene.x) && is_i32(
                bounds@[i as int].y - scene.y,
            )));
            return false;
        }
        i += 1;
    }
    true
}

/// Works out every window that is to be opened.
pub fn plan_windows(
    settings: &Settings,
    targets: &Vec<Target>,
    generation: u64,
    shared: &str,
    rolls: &Vec<Roll>,
) -> (plans: Vec<WindowPlan>)
    requires
        rolls@.len() == targets@.len(),
        plan_in_range(settings@.layout, bounds_of(target_views(targets@))),
    ensures
        plans@.len() == targets@.len(),
        forall|i: int|
            0 <= i < plans@.len() ==> is_plan(
                settings@,
                target_views(targets@),
                generation as nat,
                shared@,
                rolls@,
                i,
                #[trigger] plans@[i],
            ),
        settings@.layout == Layout::Split ==> forall|i: int|
            0 <= i < plans@.len() ==> ((#[trigger] plans@[i]).viewport matches Some(viewport)
                && viewport.scale == rolls@[i].page_scale),
{
    let bounds = window_rects(targets);
    let scene = union(bounds.as_slice());
    let mut plans: Vec<WindowPlan> = Vec::new();
    let mut i: usize = 0;
    while i < targets.len()
        invariant
            i <= targets@.len(),
            rolls@.len() == targets@.len(),
            plans@.len() == i,
            bounds@ == bounds_of(target_views(targets@)),
            scene == union_of(bounds@),
            plan_in_range(settings@.layout, bounds@),
            forall|j: int|
                0 <= j < i ==> is_plan(
                    settings@,
                    target_views(targets@),
                    generation as nat,
                    shared@,
                    rolls@,
                    j,
                    #[trigger] plans@[j],
                ),
        decreases targets@.len() - i,
    {
        let target = &targets[i];
        let roll = &rolls[i];
        assert(target_views(targets@)[i as int] == target@);
        assert(bounds@[i as int] == target.bounds);
        let viewport = if settings.layout == Layout::Split {
            Some(
                Viewport {
                    scene,
                    offset_x: target.bounds.x - scene.x,
                    offset_y: target.bounds.y - scene.y,
                    scale: roll.page_scale,
                },
            )
        } else {
            None
        };
        let mut label = LABEL_PREFIX.to_owned();
        label.append(decimal(generation).as_str());
        label.append("-");
        label.append(decimal(i as u64).as_str());
        plans.push(
            WindowPlan {
                label,
                module: settings.screen_module(
                    target.key.as_str(),
                    shared,
                    roll.module.as_str(),
                ),
                is_first: i == 0,
                viewport,
            },
        );
        i += 1;
    }
    plans
}

/// Whether a label is one that only wallpaper windows bear.
pub open spec fn of_the_wallpaper(label: Seq<char>) -> bool {
    LABEL_PREFIX@.is_prefix_of(label)
}

/// A window is the wallpaper's exactly if its label starts as those of all of them do.
pub proof fn wallpaper_labels_start_alike(label: Seq<char>, rest: Seq<char>)
    ensures
        of_the_wallpaper("wallpaper-"@ + rest),
        of_the_wallpaper(label) ==> label == "wallpaper-"@ + label.skip(10),
{
    reveal_strlit("wallpaper-");
    assert(("wallpaper-"@ + rest).take(10) == "wallpaper-"@);
    if of_the_wallpaper(label) {
        assert(label == "wallpaper-"@ + label.skip(10));
    }
}

/// Whether a label belongs to a wallpaper window.
pub fn is_wallpaper_label(label: &str) -> (is: bool)
    ensures
        is == LABEL_PREFIX@.is_prefix_of(label@),
        is == of_the_wallpaper(label@),
{
    strip_prefix(label, LABEL_PREFIX).is_some()
}

/// Every window that is planned is recognised as a wallpaper window later.
pub proof fn planned_labels_are_recognised(generation: nat, index: nat)
    ensures
        LABEL_PREFIX@.is_prefix_of(window_label(generation, index)),
{
    let label = window_label(generation, index);
    assert(label.take(LABEL_PREFIX@.len() as int) == LABEL_PREFIX@);
}

/// Labels are never reused: two windows with the same label belong to the same
/// generation and have the same place in it.
pub proof fn labels_are_never_reused(
    generation: nat,
    index: nat,
    other_generation: nat,
    other_index: nat,
)
    requires
        window_label(generation, index) == window_label(other_generation, other_index),
    ensures
        generation == other_generation,
        index == other_index,
{
    let label = window_label(generation, index);
    let (one, other) = (digits(generation), digits(other_generation));
    let start = LABEL_PREFIX@.len() as int;
    reveal_strlit("-");
    lemma_digits_read_back(generation);
    lemma_digits_read_back(other_generation);
    lemma_digits_read_back(index);
    lemma_digits_read_back(other_index);
    assert(label[start + one.len()] == '-');
    assert(label[start + other.len()] == '-');
    if one.len() < other.len() {
        assert(label[start + one.len()] == other[one.len() as int]);
    }
    if other.len() < one.len() {
        assert(label[start + other.len()] == one[other.len() as int]);
    }
    assert(one == label.subrange(start, start + one.len()));
    assert(other == label.subrange(start, start + one.len()));
    assert(digits(index) == label.skip(start + one.len() + 1));
    assert(digits(other_index) == label.skip(start + one.len() + 1));
}

/// In split layout every window shows a part of the scene: its slice begins inside
/// it and ends inside it.
pub proof fn slices_lie_in_the_scene(targets: Seq<TargetView>, i: int, page_scale: Binary64)
    requires
        plan_in_range(Layout::Split, bounds_of(targets)),
        0 <= i < targets.len(),
    ensures
        ({
            let scene = union_of(bounds_of(targets));
            let slice = slice_of(scene, targets[i].bounds, page_scale);
            &&& 0 <= slice.offset_x
            &&& 0 <= slice.offset_y
            &&& slice.offset_x + targets[i].bounds.width <= scene.width
            &&& slice.offset_y + targets[i].bounds.height <= scene.height
        }),
{
    let bounds = bounds_of(targets);
    union_encloses_each(bounds, i);
    assert(bounds[i] == targets[i].bounds);
}

/// The slices fit together: two windows are as far apart in the scene as they are
/// on the desktop.
pub proof fn slices_keep_their_distance(
    targets: Seq<TargetView>,
    i: int,
    j: int,
    page_scale: Binary64,
)
    requires
        plan_in_range(Layout::Split, bounds_of(targets)),
        0 <= i < targets.len(),
        0 <= j < targets.len(),
    ensures
        ({
            let scene = union_of(bounds_of(targets));
            let one = slice_of(scene, targets[i].bounds, page_scale);
            let other = slice_of(scene, targets[j].bounds, page_scale);
            &&& one.offset_x - other.offset_x == targets[i].bounds.x - targets[j].bounds.x
            &&& one.offset_y - other.offset_y == targets[i].bounds.y - targets[j].bounds.y
        }),
{
    let bounds = bounds_of(targets);
    assert(bounds[i] == targets[i].bounds);
    assert(bounds[j] == targets[j].bounds);
}


/// In split layout the slice planned for a window carries the page scale handed in
/// for that very window, and lies in the scene where the window lies on the desktop.
/// In the other layouts there is no slice.
pub proof fn slices_carry_their_page_scale(
    settings: SettingsView,
    targets: Seq<TargetView>,
    generation: nat,
    shared: Seq<char>,
    rolls: Seq<Roll>,
    index: int,
    plan: WindowPlan,
)
    requires
        is_plan(settings, targets, generation, shared, rolls, index, plan),
        plan_in_range(settings.layout, bounds_of(targets)),
        0 <= index < targets.len(),
        rolls.len() == targets.len(),
    ensures
        settings.layout == Layout::Split ==> (plan.viewport matches Some(viewport)
            && viewport.scale == rolls[index].page_scale && viewport.scene.x + viewport.offset_x
            == targets[index].bounds.x && viewport.scene.y + viewport.offset_y
            == targets[index].bounds.y),
        settings.layout != Layout::Split ==> plan.viewport is None,
{
    assert(bounds_of(targets)[index] == targets[index].bounds);
}

/// The scene of every slice is the same: the smallest that holds all the windows.
pub proof fn slices_share_one_scene(
    settings: SettingsView,
    targets: Seq<TargetView>,
    generation: nat,
    shared: Seq<char>,
    rolls: Seq<Roll>,
    index: int,
    plan: WindowPlan,
    i: int,
    outer: Rect,
)
    requires
        is_plan(settings, targets, generation, shared, rolls, index, plan),
        plan_in_range(settings.layout, bounds_of(targets)),
        settings.layout == Layout::Split,
        0 <= index < targets.len(),
        0 <= i < targets.len(),
        forall|j: int| 0 <= j < targets.len() ==> outer.encloses((#[trigger] targets[j]).bounds),
    ensures
        plan.viewport matches Some(viewport) && viewport.scene.encloses(targets[i].bounds)
            && outer.encloses(viewport.scene),
{
    let bounds = bounds_of(targets);
    union_encloses_each(bounds, i);
    assert forall|j: int| 0 <= j < bounds.len() implies outer.encloses(#[trigger] bounds[j]) by {
        assert(bounds[j] == targets[j].bounds);
    }
    crate::geometry::union_is_smallest(bounds, outer);
    assert(bounds[i] == targets[i].bounds);
}

/// A planned window shows the module that the settings give its monitor, is the first
/// exactly at the front, and has a label of its own generation and place.
pub proof fn windows_are_planned_for_their_monitor(
    settings: SettingsView,
    targets: Seq<TargetView>,
    generation: nat,
    shared: Seq<char>,
    rolls: Seq<Roll>,
    index: int,
    plan: WindowPlan,
)
    requires
        is_plan(settings, targets, generation, shared, rolls, index, plan),
        0 <= index,
    ensures
        plan.module@ == settings.module_shown(targets[index].key, shared, rolls[index].module@),
        plan.is_first <==> index == 0,
        plan.label@ == "wallpaper-"@ + digits(generation) + "-"@ + digits(index as nat),
{
}

/// The wallpaper covers every monitor, the primary one alone, or the ones that were
/// named.
pub proof fn monitors_are_covered_as_chosen(
    names: Seq<Seq<char>>,
    primary: Option<Seq<char>>,
    key: Seq<char>,
)
    ensures
        covers_monitor(MonitorsView::All, primary, key),
        covers_monitor(MonitorsView::Primary, primary, key) <==> primary == Some(key),
        covers_monitor(MonitorsView::Only(names), primary, key) <==> exists|i: int|
            0 <= i < names.len() && names[i] == key,
{
}

/// A monitor goes by the name the system gives it, or by its number.
pub proof fn monitors_go_by_their_names(monitor: MonitorInfoView, index: int)
    ensures
        monitor.name matches Some(name) ==> monitor.key(index) == name,
        monitor.name is None ==> monitor.key(index) == "display-"@ + digits(index as nat),
        monitor.label(index) == monitor.key(index) + "  ("@ + digits(monitor.width as nat) + "x"@
            + digits(monitor.height as nat) + ")"@,
{
}

/// A window goes over its whole monitor or over the work area, as the fit says, with
/// the insets taken off. The monitor it pauses for is always the whole one.
pub proof fn windows_fit_their_monitor(settings: SettingsView, monitor: MonitorInfoView, index: int)
    requires
        monitor.width <= 0x7fff_ffff,
        monitor.height <= 0x7fff_ffff,
    ensures
        ({
            let target = target_on(settings, monitor, index);
            &&& target.key == monitor.key(index)
            &&& target.name == monitor.label(index)
            &&& target.scale == monitor.scale
            &&& target.monitor.x == monitor.x && target.monitor.y == monitor.y
            &&& target.monitor.width == monitor.width && target.monitor.height == monitor.height
            &&& settings.fit == Fit::Full ==> target.bounds == settings.insets.trimmed(
                target.monitor,
            )
            &&& settings.fit == Fit::WorkArea ==> target.bounds == settings.insets.trimmed(
                monitor.work_area,
            )
        }),
{
}

/// Every monitor that is covered has its window.
pub proof fn every_covered_monitor_has_a_window(
    settings: SettingsView,
    desktop: DesktopView,
    count: int,
    i: int,
)
    requires
        0 <= i < count <= desktop.monitors.len(),
        covers_monitor(settings.monitors, desktop.primary_name, desktop.monitors[i].key(i)),
    ensures
        covered_targets(settings, desktop, count).contains(
            target_on(settings, desktop.monitors[i], i),
        ),
    decreases count,
{
    let before = covered_targets(settings, desktop, count - 1);
    let wanted = target_on(settings, desktop.monitors[i], i);
    if i < count - 1 {
        every_covered_monitor_has_a_window(settings, desktop, count - 1, i);
        let j = choose|j: int| 0 <= j < before.len() && before[j] == wanted;
        assert(covered_targets(settings, desktop, count)[j] == wanted);
    } else {
        assert(covered_targets(settings, desktop, count)[before.len() as int] == wanted);
    }
}

/// Every window stands on a monitor that is covered.
pub proof fn every_window_has_its_monitor(
    settings: SettingsView,
    desktop: DesktopView,
    count: int,
    j: int,
) -> (i: int)
    requires
        0 <= count <= desktop.monitors.len(),
        0 <= j < covered_targets(settings, desktop, count).len(),
    ensures
        j <= i < count,
        covers_monitor(settings.monitors, desktop.primary_name, desktop.monitors[i].key(i)),
        covered_targets(settings, desktop, count)[j] == target_on(
            settings,
            desktop.monitors[i],
            i,
        ),
    decreases count,
{
    let before = covered_targets(settings, desktop, count - 1);
    if j < before.len() {
        every_window_has_its_monitor(settings, desktop, count - 1, j)
    } else {
        lemma_no_more_windows_than_monitors(settings, desktop, count - 1);
        count - 1
    }
}

proof fn lemma_no_more_windows_than_monitors(
    settings: SettingsView,
    desktop: DesktopView,
    count: int,
)
    requires
        0 <= count <= desktop.monitors.len(),
    ensures
        covered_targets(settings, desktop, count).len() <= count,
    decreases count,
{
    if count > 0 {
        lemma_no_more_windows_than_monitors(settings, desktop, count - 1);
    }
}

/// The windows are in the order of their monitors, so no monitor has two.
pub proof fn windows_follow_their_monitors(
    settings: SettingsView,
    desktop: DesktopView,
    count: int,
    j: int,
    k: int,
) -> (places: (int, int))
    requires
        0 <= count <= desktop.monitors.len(),
        0 <= j < k < covered_targets(settings, desktop, count).len(),
    ensures
        0 <= places.0 < places.1 < count,
        covered_targets(settings, desktop, count)[j] == target_on(
            settings,
            desktop.monitors[places.0],
            places.0,
        ),
        covered_targets(settings, desktop, count)[k] == target_on(
            settings,
            desktop.monitors[places.1],
            places.1,
        ),
    decreases count,
{
    let before = covered_targets(settings, desktop, count - 1);
    if k < before.len() {
        windows_follow_their_monitors(settings, desktop, count - 1, j, k)
    } else {
        (every_window_has_its_monitor(settings, desktop, count - 1, j), count - 1)
    }
}

/// Covering all monitors gives one window to each, in their order.
pub proof fn all_monitors_in_order(settings: SettingsView, desktop: DesktopView, count: int)
    requires
        settings.monitors == MonitorsView::All,
        0 <= count <= desktop.monitors.len(),
    ensures
        covered_targets(settings, desktop, count).len() == count,
        forall|i: int|
            0 <= i < count ==> #[trigger] covered_targets(settings, desktop, count)[i]
                == target_on(settings, desktop.monitors[i], i),
    decreases count,
{
    if count > 0 {
        all_monitors_in_order(settings, desktop, count - 1);
        let before = covered_targets(settings, desktop, count - 1);
        assert(covered_targets(settings, desktop, count) == before.push(
            target_on(settings, desktop.monitors[count - 1], count - 1),
        ));
    }
}

/// Where any monitor is covered, the windows are those of the covered monitors; where
/// none is, the one window goes over the whole virtual screen.
pub proof fn windows_without_monitors(settings: SettingsView, desktop: DesktopView)
    ensures
        ({
            let covered = covered_targets(settings, desktop, desktop.monitors.len() as int);
            let selected = selected_targets(settings, desktop);
            &&& covered.len() > 0 ==> selected == covered
            &&& covered.len() == 0 ==> selected.len() == 1 && selected[0].key == "primary"@
                && selected[0].name == "Primary"@ && selected[0].bounds == desktop.virtual_screen
                && selected[0].monitor == desktop.virtual_screen
            &&& covered.len() == 0 ==> (desktop.primary_scale matches Some(scale)
                ==> selected[0].scale == scale)
            &&& covered.len() == 0 && desktop.primary_scale is None ==> selected[0].scale.percent
                == 100 && selected[0].scale.factor.bits == 0x3ff0_0000_0000_0000
        }),
{
}

/// The separate and the split layout open the same windows in the same places.
pub proof fn split_opens_the_separate_windows(settings: SettingsView, desktop: DesktopView)
    requires
        settings.layout == Layout::Split,
    ensures
        targets_for(settings, desktop) == selected_targets(settings, desktop),
        targets_for(settings, desktop) == targets_for(
            SettingsView { layout: Layout::Separate, ..settings },
            desktop,
        ),
{
    let apart = SettingsView { layout: Layout::Separate, ..settings };
    lemma_selection_ignores_the_layout(
        settings,
        apart,
        desktop,
        desktop.monitors.len() as int,
    );
}

/// Nothing but the key, the place and the scaling of the windows shows in the
/// signature, so nothing else lays them out again.
pub proof fn same_places_same_signature(left: Seq<TargetView>, right: Seq<TargetView>)
    requires
        left.len() == right.len(),
        forall|i: int|
            0 <= i < left.len() ==> (#[trigger] left[i]).key == right[i].key && left[i].bounds
                == right[i].bounds && left[i].scale.percent == right[i].scale.percent,
    ensures
        signature_of(left) == signature_of(right),
{
    assert forall|i: int| 0 <= i < left.len() implies signature_of(left)[i] == signature_of(
        right,
    )[i] by {
        assert(left[i].key == right[i].key);
    }
    assert(signature_of(left) =~= signature_of(right));
}


/// Windows of any sensible size and place can be planned.
pub proof fn sensible_windows_can_be_planned(layout: Layout, bounds: Seq<Rect>)
    requires
        forall|i: int|
            0 <= i < bounds.len() ==> {
                &&& -0x2000_0000 <= (#[trigger] bounds[i]).x
                &&& -0x2000_0000 <= bounds[i].y
                &&& bounds[i].x <= 0x2000_0000
                &&& bounds[i].y <= 0x2000_0000
                &&& -0x2000_0000 <= bounds[i].x + bounds[i].width <= 0x2000_0000
                &&& -0x2000_0000 <= bounds[i].y + bounds[i].height <= 0x2000_0000
            },
    ensures
        plan_in_range(layout, bounds),
{
    crate::geometry::sensible_unions_fit(bounds);
    if bounds.len() > 0 {
        let edges = crate::geometry::union_reaches_its_edges(bounds);
        assert(bounds[edges.0].x == union_of(bounds).x);
        assert(bounds[edges.1].y == union_of(bounds).y);
    }
}

/// Windows on monitors of any sensible size and place, with insets of any sensible
/// size, can be laid out.
pub proof fn sensible_monitors_fit(settings: SettingsView, desktop: DesktopView)
    requires
        -0x0800_0000 <= settings.insets.top <= 0x0800_0000,
        -0x0800_0000 <= settings.insets.right <= 0x0800_0000,
        -0x0800_0000 <= settings.insets.bottom <= 0x0800_0000,
        -0x0800_0000 <= settings.insets.left <= 0x0800_0000,
        forall|i: int|
            0 <= i < desktop.monitors.len() ==> {
                let work = (#[trigger] desktop.monitors[i]).work_area;
                &&& -0x0800_0000 <= desktop.monitors[i].x <= 0x0800_0000
                &&& -0x0800_0000 <= desktop.monitors[i].y <= 0x0800_0000
                &&& desktop.monitors[i].width <= 0x0800_0000
                &&& desktop.monitors[i].height <= 0x0800_0000
                &&& -0x0800_0000 <= work.x <= 0x0800_0000
                &&& -0x0800_0000 <= work.y <= 0x0800_0000
                &&& 0 <= work.width <= 0x0800_0000
                &&& 0 <= work.height <= 0x0800_0000
            },
    ensures
        monitors_in_range(settings, desktop),
{
}

/// One window over everything shows what joins the windows and what joins their
/// monitors, at the scale of the first.
pub proof fn one_window_joins_the_rest(selected: Seq<TargetView>)
    requires
        selected.len() > 0,
    ensures
        ({
            let spread = spread_targets(Layout::Span, selected);
            &&& spread.len() == 1
            &&& spread[0].key == "span"@
            &&& spread[0].name == "All screens"@
            &&& spread[0].scale == selected[0].scale
            &&& spread[0].bounds == union_of(bounds_of(selected))
            &&& spread[0].monitor == union_of(monitors_of(selected))
        }),
        forall|i: int|
            0 <= i < selected.len() ==> #[trigger] bounds_of(selected)[i] == selected[i].bounds
                && monitors_of(selected)[i] == selected[i].monitor,
{
}

/// Two page scales give two slices.
pub proof fn page_scales_tell_slices_apart(scene: Rect, bounds: Rect, one: Binary64, two: Binary64)
    ensures
        slice_of(scene, bounds, one) == slice_of(scene, bounds, two) <==> one == two,
        slice_of(scene, bounds, one).scene == scene,
{
}


/// The keys are those of the monitors, one for each and in their order.
pub proof fn keys_follow_the_monitors(monitors: Seq<MonitorInfoView>, i: int)
    requires
        0 <= i < monitors.len(),
    ensures
        keys_of(monitors).len() == monitors.len(),
        keys_of(monitors)[i] == monitors[i].key(i),
{
}


/// Windows of any sensible size and place can be joined into one, and in the other
/// layouts there is nothing to join.
pub proof fn sensible_windows_can_be_joined(layout: Layout, selected: Seq<TargetView>)
    requires
        layout == Layout::Span ==> forall|i: int|
            0 <= i < selected.len() ==> {
                let (bounds, monitor) = ((#[trigger] selected[i]).bounds, selected[i].monitor);
                &&& -0x2000_0000 <= bounds.x <= 0x2000_0000
                &&& -0x2000_0000 <= bounds.y <= 0x2000_0000
                &&& -0x2000_0000 <= bounds.x + bounds.width <= 0x2000_0000
                &&& -0x2000_0000 <= bounds.y + bounds.height <= 0x2000_0000
                &&& -0x2000_0000 <= monitor.x <= 0x2000_0000
                &&& -0x2000_0000 <= monitor.y <= 0x2000_0000
                &&& -0x2000_0000 <= monitor.x + monitor.width <= 0x2000_0000
                &&& -0x2000_0000 <= monitor.y + monitor.height <= 0x2000_0000
            },
    ensures
        spread_in_range(layout, selected),
{
    if layout == Layout::Span {
        let (all, monitors) = (bounds_of(selected), monitors_of(selected));
        assert forall|i: int| 0 <= i < all.len() implies {
            &&& -0x2000_0000 <= (#[trigger] all[i]).x
            &&& -0x2000_0000 <= all[i].y
            &&& all[i].x <= 0x2000_0000
            &&& all[i].y <= 0x2000_0000
            &&& -0x2000_0000 <= all[i].x + all[i].width <= 0x2000_0000
            &&& -0x2000_0000 <= all[i].y + all[i].height <= 0x2000_0000
        } by {
            assert(all[i] == selected[i].bounds);
        }
        assert forall|i: int| 0 <= i < monitors.len() implies {
            &&& -0x2000_0000 <= (#[trigger] monitors[i]).x
            &&& -0x2000_0000 <= monitors[i].y
            &&& monitors[i].x <= 0x2000_0000
            &&& monitors[i].y <= 0x2000_0000
            &&& -0x2000_0000 <= monitors[i].x + monitors[i].width <= 0x2000_0000
            &&& -0x2000_0000 <= monitors[i].y + monitors[i].height <= 0x2000_0000
        } by {
            assert(monitors[i] == selected[i].monitor);
        }
        crate::geometry::sensible_unions_fit(all);
        crate::geometry::sensible_unions_fit(monitors);
    }
}

} // verus!
