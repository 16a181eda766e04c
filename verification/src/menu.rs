//! The tray menu.

use crate::binary64::{number, Binary64, EPSILON, THOUSANDTH};
use crate::layout::{monitor_views, MonitorInfo, MonitorInfoView};
use crate::modules::{label_of, module_label, MODULES};
use crate::settings::{
    lists, no_insets, Fit, Insets, Layout, Monitors, MonitorsView, Settings, SettingsView,
    StaticBackground, FILTERS, RENDER_SCALE_BITS, RENDER_SCALE_IDS, RENDER_SCALE_LABELS,
};
use crate::text::{decimal, digits, same, signed_decimal, signed_digits};
use crate::wallpaper::{screen_views, Screen, ScreenView};
use vstd::prelude::*;

verus! {

/// What the filters are called, in the same order as the filters themselves.
pub const FILTER_LABELS: [&'static str; 4] = ["None", "Soft glow", "Gray scale", "Light mode"];

pub const MARGIN_LABELS: [&'static str; 3] = ["None", "Small", "Wide"];

/// What the volumes on offer are called.
pub const VOLUME_LABELS: [&'static str; 6] = ["100%", "60%", "36%", "22%", "12%", "Muted"];

/// The same volumes in decimal.
pub const VOLUME_IDS: [&'static str; 6] = ["1", "0.6", "0.36", "0.22", "0.12", "0"];

/// The same volumes as double precision numbers.
pub const VOLUME_BITS: [u64; 6] = [
    0x3ff0_0000_0000_0000,
    0x3fe3_3333_3333_3333,
    0x3fd7_0a3d_70a3_d70a,
    0x3fcc_28f5_c28f_5c29,
    0x3fbe_b851_eb85_1eb8,
    0,
];

pub const SHUFFLE_LABELS: [&'static str; 4] = [
    "Off",
    "Every 15 minutes",
    "Every 30 minutes",
    "Every hour",
];

pub const SHUFFLE_MINUTES: [u64; 4] = [0, 15, 30, 60];

/// One line of the menu. A submenu is everything between an `Open` and the `Close`
/// that belongs to it.
pub enum Entry {
    Item { id: String, label: String, enabled: bool },
    Check { id: String, label: String, checked: bool, enabled: bool },
    Separator,
    Open(String),
    Close,
}

/// One line of the menu, as values.
pub enum EntryView {
    Item { id: Seq<char>, label: Seq<char>, enabled: bool },
    Check { id: Seq<char>, label: Seq<char>, checked: bool, enabled: bool },
    Separator,
    Open(Seq<char>),
    Close,
}

impl View for Entry {
    type V = EntryView;

    open spec fn view(&self) -> EntryView {
        match self {
            Entry::Item { id, label, enabled } => EntryView::Item {
                id: id@,
                label: label@,
                enabled: *enabled,
            },
            Entry::Check { id, label, checked, enabled } => EntryView::Check {
                id: id@,
                label: label@,
                checked: *checked,
                enabled: *enabled,
            },
            Entry::Separator => EntryView::Separator,
            Entry::Open(title) => EntryView::Open(title@),
            Entry::Close => EntryView::Close,
        }
    }
}

pub open spec fn entry_views(list: Seq<Entry>) -> Seq<EntryView> {
    list.map_values(|e: Entry| e@)
}

/// An item that does something.
pub open spec fn item(id: Seq<char>, label: Seq<char>) -> EntryView {
    EntryView::Item { id, label, enabled: true }
}

/// An item that only tells something.
pub open spec fn note(id: Seq<char>, label: Seq<char>) -> EntryView {
    EntryView::Item { id, label, enabled: false }
}

/// An item that can be checked.
pub open spec fn check(id: Seq<char>, label: Seq<char>, checked: bool) -> EntryView {
    EntryView::Check { id, label, checked, enabled: true }
}

/// A submenu.
pub open spec fn submenu(title: Seq<char>, entries: Seq<EntryView>) -> Seq<EntryView> {
    seq![EntryView::Open(title)] + entries + seq![EntryView::Close]
}

fn joined(front: &str, back: &str) -> (text: String)
    ensures
        text@ == front@ + back@,
{
    let mut text = front.to_owned();
    text.append(back);
    text
}

fn push_entry(menu: &mut Vec<Entry>, entry: Entry)
    ensures
        entry_views(final(menu)@) == entry_views(old(menu)@).push(entry@),
{
    menu.push(entry);
    assert(entry_views(menu@) == entry_views(old(menu)@).push(entry@));
}

fn push_item(menu: &mut Vec<Entry>, id: &str, label: &str)
    ensures
        entry_views(final(menu)@) == entry_views(old(menu)@).push(item(id@, label@)),
{
    push_entry(
        menu,
        Entry::Item { id: id.to_owned(), label: label.to_owned(), enabled: true },
    );
}

fn push_note(menu: &mut Vec<Entry>, id: &str, label: &str)
    ensures
        entry_views(final(menu)@) == entry_views(old(menu)@).push(note(id@, label@)),
{
    push_entry(
        menu,
        Entry::Item { id: id.to_owned(), label: label.to_owned(), enabled: false },
    );
}

fn push_check(menu: &mut Vec<Entry>, id: &str, label: &str, checked: bool)
    ensures
        entry_views(final(menu)@) == entry_views(old(menu)@).push(check(id@, label@, checked)),
{
    push_entry(
        menu,
        Entry::Check { id: id.to_owned(), label: label.to_owned(), checked, enabled: true },
    );
}

fn push_open(menu: &mut Vec<Entry>, title: &str)
    ensures
        entry_views(final(menu)@) == entry_views(old(menu)@).push(EntryView::Open(title@)),
{
    push_entry(menu, Entry::Open(title.to_owned()));
}

/// The modules, each with a check mark where it is the current one.
pub open spec fn module_checks(prefix: Seq<char>, current: Seq<char>) -> Seq<EntryView> {
    Seq::new(
        MODULES@.len(),
        |i: int|
            check(prefix + MODULES@[i]@, label_of(MODULES@[i]@), current == MODULES@[i]@),
    )
}

/// What a module submenu offers. The one for a single screen can also follow the
/// global setting.
pub open spec fn module_entries(prefix: Seq<char>, current: Seq<char>, inherit: bool) -> Seq<
    EntryView,
> {
    let follow = if inherit {
        seq![
            check(
                prefix + "inherit"@,
                "Follow the global setting"@,
                current == "inherit"@,
            ),
            EntryView::Separator,
        ]
    } else {
        Seq::empty()
    };
    let random = seq![
        check(prefix + "random"@, "Random"@, current == "random"@),
        EntryView::Separator,
    ];
    follow + random + module_checks(prefix, current)
}

fn module_submenu(menu: &mut Vec<Entry>, title: &str, prefix: &str, current: &str, inherit: bool)
    ensures
        entry_views(final(menu)@) == entry_views(old(menu)@) + submenu(
            title@,
            module_entries(prefix@, current@, inherit),
        ),
{
    let ghost before = entry_views(menu@);
    push_open(menu, title);
    if inherit {
        push_check(
            menu,
            joined(prefix, "inherit").as_str(),
            "Follow the global setting",
            same(current, "inherit"),
        );
        push_entry(menu, Entry::Separator);
    }
    push_check(menu, joined(prefix, "random").as_str(), "Random", same(current, "random"));
    push_entry(menu, Entry::Separator);
    let ghost head = entry_views(menu@);
    let ghost all = module_checks(prefix@, current@);
    let mut i: usize = 0;
    assert(head + all.take(0) == head);
    while i < 9
        invariant
            i <= 9,
            all == module_checks(prefix@, current@),
            entry_views(menu@) == head + all.take(i as int),
        decreases 9 - i,
    {
        let ghost so_far = entry_views(menu@);
        push_check(
            menu,
            joined(prefix, MODULES[i]).as_str(),
            module_label(MODULES[i]),
            same(current, MODULES[i]),
        );
        i += 1;
        assert(all.take(i as int) == all.take(i - 1).push(all[i - 1]));
        assert(head + all.take(i as int) == so_far.push(all[i - 1]));
    }
    assert(all.take(i as int) == all);
    push_entry(menu, Entry::Close);
    assert(entry_views(menu@) == before + submenu(
        title@,
        module_entries(prefix@, current@, inherit),
    ));
}

/// The module chosen for one screen, where there is one.
pub open spec fn screen_choice(settings: SettingsView, key: Seq<char>) -> Seq<char> {
    if settings.module_by_monitor.contains_key(key) {
        settings.module_by_monitor[key]
    } else {
        "inherit"@
    }
}

/// How the ids of the modules for one screen start.
pub open spec fn screen_prefix(key: Seq<char>) -> Seq<char> {
    "screen-module:"@ + key + ":"@
}

/// The module submenu of one screen.
pub open spec fn screen_submenu(settings: SettingsView, screen: ScreenView) -> Seq<EntryView> {
    submenu(
        screen.name,
        module_entries(screen_prefix(screen.key), screen_choice(settings, screen.key), true),
    )
}

/// The module submenus of the first `count` screens.
pub open spec fn screen_submenus(
    settings: SettingsView,
    screens: Seq<ScreenView>,
    count: int,
) -> Seq<EntryView>
    decreases count,
{
    if count <= 0 {
        Seq::empty()
    } else {
        screen_submenus(settings, screens, count - 1) + screen_submenu(
            settings,
            screens[count - 1],
        )
    }
}

/// What there is to choose for single screens. Modules for single screens only make
/// sense where there are several and they are separate scenes.
pub open spec fn per_screen_entries(settings: SettingsView, screens: Seq<ScreenView>) -> Seq<
    EntryView,
> {
    if screens.len() > 1 && !settings.one_scene() {
        submenu(
            "Module per screen"@,
            screen_submenus(settings, screens, screens.len() as int),
        ).push(
            check(
                "varied-modules"@,
                "Vary random modules between screens"@,
                settings.varied_modules,
            ),
        )
    } else {
        Seq::empty()
    }
}

fn push_screen_submenu(menu: &mut Vec<Entry>, settings: &Settings, screen: &Screen)
    ensures
        entry_views(final(menu)@) == entry_views(old(menu)@) + screen_submenu(
            settings@,
            screen@,
        ),
{
    let mut prefix = joined("screen-module:", screen.key.as_str());
    prefix.append(":");
    let current = match settings.module_by_monitor.get(screen.key.as_str()) {
        Some(name) => name.clone(),
        None => "inherit".to_owned(),
    };
    module_submenu(menu, screen.name.as_str(), prefix.as_str(), current.as_str(), true);
}

fn push_per_screen(menu: &mut Vec<Entry>, settings: &Settings, screens: &Vec<Screen>)
    ensures
        entry_views(final(menu)@) == entry_views(old(menu)@) + per_screen_entries(
            settings@,
            screen_views(screens@),
        ),
{
    let ghost before = entry_views(menu@);
    let ghost all = screen_views(screens@);
    if screens.len() > 1 && !settings.one_scene() {
        push_open(menu, "Module per screen");
        let ghost head = entry_views(menu@);
        let mut i: usize = 0;
        assert(head + screen_submenus(settings@, all, 0) == head);
        while i < screens.len()
            invariant
                i <= screens@.len(),
                all == screen_views(screens@),
                entry_views(menu@) == head + screen_submenus(settings@, all, i as int),
            decreases screens@.len() - i,
        {
            push_screen_submenu(menu, settings, &screens[i]);
            assert(all[i as int] == screens@[i as int]@);
            i += 1;
            assert(entry_views(menu@) == head + screen_submenus(settings@, all, i as int));
        }
        push_entry(menu, Entry::Close);
        push_check(
            menu,
            "varied-modules",
            "Vary random modules between screens",
            settings.varied_modules,
        );
    }
    assert(entry_views(menu@) == before + per_screen_entries(settings@, all));
}

pub open spec fn layout_entries(layout: Layout) -> Seq<EntryView> {
    seq![
        check(
            "layout:separate"@,
            "A separate scene on each screen"@,
            layout == Layout::Separate,
        ),
        check("layout:split"@, "One scene split across screens"@, layout == Layout::Split),
        check("layout:span"@, "One window stretched over all screens"@, layout == Layout::Span),
    ]
}

fn push_layout(menu: &mut Vec<Entry>, layout: Layout)
    ensures
        entry_views(final(menu)@) == entry_views(old(menu)@) + submenu(
            "Layout"@,
            layout_entries(layout),
        ),
{
    push_open(menu, "Layout");
    push_check(
        menu,
        "layout:separate",
        "A separate scene on each screen",
        layout == Layout::Separate,
    );
    push_check(menu, "layout:split", "One scene split across screens", layout == Layout::Split);
    push_check(
        menu,
        "layout:span",
        "One window stretched over all screens",
        layout == Layout::Span,
    );
    push_entry(menu, Entry::Close);
    assert(entry_views(menu@) == entry_views(old(menu)@) + submenu(
        "Layout"@,
        layout_entries(layout),
    ));
}

/// Whether a monitor has a check mark.
pub open spec fn monitor_checked(monitors: MonitorsView, key: Seq<char>) -> bool {
    match monitors {
        MonitorsView::All => true,
        MonitorsView::Primary => false,
        MonitorsView::Only(names) => names.contains(key),
    }
}

/// The monitors, one by one.
pub open spec fn monitor_checks(
    selected: MonitorsView,
    monitors: Seq<MonitorInfoView>,
) -> Seq<EntryView> {
    Seq::new(
        monitors.len(),
        |i: int|
            check(
                "monitor:"@ + monitors[i].key(i),
                monitors[i].label(i),
                monitor_checked(selected, monitors[i].key(i)),
            ),
    )
}

/// Adds the monitors, one by one.
fn push_monitors(menu: &mut Vec<Entry>, settings: &Settings, monitors: &Vec<MonitorInfo>)
    ensures
        entry_views(final(menu)@) == entry_views(old(menu)@) + monitor_checks(
            settings@.monitors,
            monitor_views(monitors@),
        ),
{
    let ghost before = entry_views(menu@);
    let ghost all = monitor_checks(settings@.monitors, monitor_views(monitors@));
    let mut i: usize = 0;
    assert(before + all.take(0) == before);
    while i < monitors.len()
        invariant
            i <= monitors.len(),
            all == monitor_checks(settings@.monitors, monitor_views(monitors@)),
            entry_views(menu@) == before + all.take(i as int),
        decreases monitors.len() - i,
    {
        let ghost so_far = entry_views(menu@);
        let key = monitors[i].key_at(i);
        let label = monitors[i].label_at(i);
        assert(monitor_views(monitors@)[i as int] == monitors@[i as int]@);
        let checked = match &settings.monitors {
            Monitors::All => true,
            Monitors::Primary => false,
            Monitors::Only(names) => lists(names, key.as_str()),
        };
        push_check(menu, joined("monitor:", key.as_str()).as_str(), label.as_str(), checked);
        i += 1;
        assert(all.take(i as int) == all.take(i - 1).push(all[i - 1]));
        assert(before + all.take(i as int) == so_far.push(all[i - 1]));
    }
    assert(all.take(i as int) == all);
}

/// What there is to choose about the monitors. Single ones can only be chosen where
/// there are several.
pub open spec fn screens_entries(selected: MonitorsView, monitors: Seq<MonitorInfoView>) -> Seq<
    EntryView,
> {
    let whole = seq![
        check("monitors:all"@, "All monitors"@, selected == MonitorsView::All),
        check("monitors:primary"@, "Primary monitor only"@, selected == MonitorsView::Primary),
    ];
    if monitors.len() > 1 {
        whole.push(EntryView::Separator) + monitor_checks(selected, monitors)
    } else {
        whole
    }
}

fn push_screens(menu: &mut Vec<Entry>, settings: &Settings, monitors: &Vec<MonitorInfo>)
    ensures
        entry_views(final(menu)@) == entry_views(old(menu)@) + submenu(
            "Screens"@,
            screens_entries(settings@.monitors, monitor_views(monitors@)),
        ),
{
    let (all, primary) = match &settings.monitors {
        Monitors::All => (true, false),
        Monitors::Primary => (false, true),
        Monitors::Only(_) => (false, false),
    };
    push_open(menu, "Screens");
    push_check(menu, "monitors:all", "All monitors", all);
    push_check(menu, "monitors:primary", "Primary monitor only", primary);
    if monitors.len() > 1 {
        push_entry(menu, Entry::Separator);
        push_monitors(menu, settings, monitors);
    }
    push_entry(menu, Entry::Close);
    assert(entry_views(menu@) == entry_views(old(menu)@) + submenu(
        "Screens"@,
        screens_entries(settings@.monitors, monitor_views(monitors@)),
    ));
}

/// The margins on offer.
pub open spec fn margin_checks(margin: u8) -> Seq<EntryView> {
    Seq::new(
        3,
        |i: int|
            check("margin:"@ + digits(i as nat), MARGIN_LABELS@[i]@, margin == i),
    )
}

/// Adds the margins on offer.
fn push_margins(menu: &mut Vec<Entry>, margin: u8)
    ensures
        entry_views(final(menu)@) == entry_views(old(menu)@) + margin_checks(margin),
{
    let ghost before = entry_views(menu@);
    let ghost all = margin_checks(margin);
    let mut i: usize = 0;
    assert(before + all.take(0) == before);
    while i < 3
        invariant
            i <= 3,
            all == margin_checks(margin),
            entry_views(menu@) == before + all.take(i as int),
        decreases 3 - i,
    {
        let ghost so_far = entry_views(menu@);
        push_check(
            menu,
            joined("margin:", decimal(i as u64).as_str()).as_str(),
            MARGIN_LABELS[i],
            margin as usize == i,
        );
        i += 1;
        assert(all.take(i as int) == all.take(i - 1).push(all[i - 1]));
        assert(before + all.take(i as int) == so_far.push(all[i - 1]));
    }
    assert(all.take(i as int) == all);
}

/// The filters on offer.
pub open spec fn filter_checks(filter: Seq<char>) -> Seq<EntryView> {
    Seq::new(
        4,
        |i: int|
            check(
                "filter:"@ + FILTERS@[i]@,
                FILTER_LABELS@[i]@,
                filter == FILTERS@[i]@,
            ),
    )
}

/// Adds the filters on offer.
fn push_filters(menu: &mut Vec<Entry>, filter: &str)
    ensures
        entry_views(final(menu)@) == entry_views(old(menu)@) + filter_checks(filter@),
{
    let ghost before = entry_views(menu@);
    let ghost all = filter_checks(filter@);
    let mut i: usize = 0;
    assert(before + all.take(0) == before);
    while i < 4
        invariant
            i <= 4,
            all == filter_checks(filter@),
            entry_views(menu@) == before + all.take(i as int),
        decreases 4 - i,
    {
        let ghost so_far = entry_views(menu@);
        push_check(
            menu,
            joined("filter:", FILTERS[i]).as_str(),
            FILTER_LABELS[i],
            same(filter, FILTERS[i]),
        );
        i += 1;
        assert(all.take(i as int) == all.take(i - 1).push(all[i - 1]));
        assert(before + all.take(i as int) == so_far.push(all[i - 1]));
    }
    assert(all.take(i as int) == all);
}

/// The render qualities on offer.
pub open spec fn scale_checks(held: Binary64) -> Seq<EntryView> {
    Seq::new(
        5,
        |i: int|
            check(
                "render-scale:"@ + RENDER_SCALE_IDS@[i]@,
                RENDER_SCALE_LABELS@[i]@,
                held.near(number(RENDER_SCALE_BITS@[i]), number(THOUSANDTH)),
            ),
    )
}

/// Adds the render qualities on offer.
fn push_scales(menu: &mut Vec<Entry>, settings: &Settings)
    ensures
        entry_views(final(menu)@) == entry_views(old(menu)@) + scale_checks(settings@.scale_held()),
{
    let ghost before = entry_views(menu@);
    let ghost all = scale_checks(settings@.scale_held());
    let mut i: usize = 0;
    assert(before + all.take(0) == before);
    while i < 5
        invariant
            i <= 5,
            all == scale_checks(settings@.scale_held()),
            entry_views(menu@) == before + all.take(i as int),
        decreases 5 - i,
    {
        let ghost so_far = entry_views(menu@);
        let step = Binary64 { bits: RENDER_SCALE_BITS[i] };
        push_check(
            menu,
            joined("render-scale:", RENDER_SCALE_IDS[i]).as_str(),
            RENDER_SCALE_LABELS[i],
            settings.render_scale().near_to(step, Binary64 { bits: THOUSANDTH }),
        );
        i += 1;
        assert(all.take(i as int) == all.take(i - 1).push(all[i - 1]));
        assert(before + all.take(i as int) == so_far.push(all[i - 1]));
    }
    assert(all.take(i as int) == all);
}

/// What there is to choose about the looks. Fewer pixels to draw is the only way to
/// make the animation itself cheaper; everything else can only stop it running.
pub open spec fn appearance_entries(settings: SettingsView) -> Seq<EntryView> {
    submenu("Margin"@, margin_checks(settings.margin)) + submenu(
        "Filter"@,
        filter_checks(settings.filter),
    ) + submenu("Render quality"@, scale_checks(settings.scale_held())) + seq![
        check("red-alert"@, "Red alert"@, settings.red_alert),
        check("boot-animation"@, "Boot animation on start"@, settings.boot_animation),
    ]
}

fn push_appearance(menu: &mut Vec<Entry>, settings: &Settings)
    ensures
        entry_views(final(menu)@) == entry_views(old(menu)@) + submenu(
            "Appearance"@,
            appearance_entries(settings@),
        ),
{
    push_open(menu, "Appearance");
    push_open(menu, "Margin");
    push_margins(menu, settings.margin);
    push_entry(menu, Entry::Close);
    push_open(menu, "Filter");
    push_filters(menu, settings.filter.as_str());
    push_entry(menu, Entry::Close);
    push_open(menu, "Render quality");
    push_scales(menu, settings);
    push_entry(menu, Entry::Close);
    push_check(menu, "red-alert", "Red alert", settings.red_alert);
    push_check(menu, "boot-animation", "Boot animation on start", settings.boot_animation);
    push_entry(menu, Entry::Close);
    assert(entry_views(menu@) == entry_views(old(menu)@) + submenu(
        "Appearance"@,
        appearance_entries(settings@),
    ));
}

/// What the menu says about the insets.
pub open spec fn insets_text(insets: Insets) -> Seq<char> {
    if insets == no_insets() {
        "Extra edges: none (set in the settings file)"@
    } else {
        "Extra edges: "@ + signed_digits(insets.top as int) + " / "@ + signed_digits(
            insets.right as int,
        ) + " / "@ + signed_digits(insets.bottom as int) + " / "@ + signed_digits(
            insets.left as int,
        ) + " (T/R/B/L)"@
    }
}

fn insets_label(insets: &Insets) -> (label: String)
    ensures
        label@ == insets_text(*insets),
{
    if insets.is_zero() {
        return "Extra edges: none (set in the settings file)".to_owned();
    }
    let mut label = "Extra edges: ".to_owned();
    label.append(signed_decimal(insets.top as i64).as_str());
    label.append(" / ");
    label.append(signed_decimal(insets.right as i64).as_str());
    label.append(" / ");
    label.append(signed_decimal(insets.bottom as i64).as_str());
    label.append(" / ");
    label.append(signed_decimal(insets.left as i64).as_str());
    label.append(" (T/R/B/L)");
    label
}

pub open spec fn fit_entries(fit: Fit, insets: Insets) -> Seq<EntryView> {
    seq![
        check("fit:full"@, "Whole screen (taskbar covers the bottom)"@, fit == Fit::Full),
        check("fit:workarea"@, "Keep clear of the taskbar"@, fit == Fit::WorkArea),
        EntryView::Separator,
        note("insets-info"@, insets_text(insets)),
    ]
}

fn push_fit(menu: &mut Vec<Entry>, settings: &Settings)
    ensures
        entry_views(final(menu)@) == entry_views(old(menu)@) + submenu(
            "Screen fit"@,
            fit_entries(settings@.fit, settings@.insets),
        ),
{
    push_open(menu, "Screen fit");
    push_check(
        menu,
        "fit:full",
        "Whole screen (taskbar covers the bottom)",
        settings.fit == Fit::Full,
    );
    push_check(menu, "fit:workarea", "Keep clear of the taskbar", settings.fit == Fit::WorkArea);
    push_entry(menu, Entry::Separator);
    push_note(menu, "insets-info", insets_label(&settings.insets).as_str());
    push_entry(menu, Entry::Close);
    assert(entry_views(menu@) == entry_views(old(menu)@) + submenu(
        "Screen fit"@,
        fit_entries(settings@.fit, settings@.insets),
    ));
}

/// What there is to choose about the static wallpaper. Applications that tint
/// themselves from its bitmap cannot see the animation, so they need it flat.
pub open spec fn background_entries(background: StaticBackground) -> Seq<EntryView> {
    seq![
        check("background:leave"@, "Leave mine alone"@, background == StaticBackground::Leave),
        check(
            "background:black"@,
            "Paint it black (matches Fences panels)"@,
            background == StaticBackground::Black,
        ),
    ]
}

fn push_background(menu: &mut Vec<Entry>, background: StaticBackground)
    ensures
        entry_views(final(menu)@) == entry_views(old(menu)@) + submenu(
            "Static wallpaper"@,
            background_entries(background),
        ),
{
    push_open(menu, "Static wallpaper");
    push_check(
        menu,
        "background:leave",
        "Leave mine alone",
        background == StaticBackground::Leave,
    );
    push_check(
        menu,
        "background:black",
        "Paint it black (matches Fences panels)",
        background == StaticBackground::Black,
    );
    push_entry(menu, Entry::Close);
    assert(entry_views(menu@) == entry_views(old(menu)@) + submenu(
        "Static wallpaper"@,
        background_entries(background),
    ));
}

/// The volumes on offer, which can only be chosen while there is audio.
pub open spec fn volume_checks(prefix: Seq<char>, volume: Binary64, audio: bool) -> Seq<EntryView> {
    Seq::new(
        6,
        |i: int|
            EntryView::Check {
                id: prefix + VOLUME_IDS@[i]@,
                label: VOLUME_LABELS@[i]@,
                checked: volume.near(number(VOLUME_BITS@[i]), number(EPSILON)),
                enabled: audio,
            },
    )
}

/// Adds the volumes on offer.
fn push_volumes(menu: &mut Vec<Entry>, prefix: &str, volume: Binary64, audio: bool)
    ensures
        entry_views(final(menu)@) == entry_views(old(menu)@) + volume_checks(
            prefix@,
            volume,
            audio,
        ),
{
    let ghost before = entry_views(menu@);
    let ghost all = volume_checks(prefix@, volume, audio);
    let mut i: usize = 0;
    assert(before + all.take(0) == before);
    while i < 6
        invariant
            i <= 6,
            all == volume_checks(prefix@, volume, audio),
            entry_views(menu@) == before + all.take(i as int),
        decreases 6 - i,
    {
        let ghost so_far = entry_views(menu@);
        let step = Binary64 { bits: VOLUME_BITS[i] };
        push_entry(
            menu,
            Entry::Check {
                id: joined(prefix, VOLUME_IDS[i]),
                label: VOLUME_LABELS[i].to_owned(),
                checked: volume.near_to(step, Binary64 { bits: EPSILON }),
                enabled: audio,
            },
        );
        i += 1;
        assert(all.take(i as int) == all.take(i - 1).push(all[i - 1]));
        assert(before + all.take(i as int) == so_far.push(all[i - 1]));
    }
    assert(all.take(i as int) == all);
}

pub open spec fn audio_entries(settings: SettingsView) -> Seq<EntryView> {
    seq![check("audio"@, "Enabled"@, settings.audio), EntryView::Separator] + submenu(
        "Sound effects"@,
        volume_checks("sfx:"@, settings.sfx_volume, settings.audio),
    ) + submenu(
        "Engine hum"@,
        volume_checks("engine:"@, settings.engine_volume, settings.audio),
    )
}

fn push_audio_menu(menu: &mut Vec<Entry>, settings: &Settings)
    ensures
        entry_views(final(menu)@) == entry_views(old(menu)@) + submenu(
            "Audio"@,
            audio_entries(settings@),
        ),
{
    push_open(menu, "Audio");
    push_check(menu, "audio", "Enabled", settings.audio);
    push_entry(menu, Entry::Separator);
    push_open(menu, "Sound effects");
    push_volumes(menu, "sfx:", settings.sfx_volume, settings.audio);
    push_entry(menu, Entry::Close);
    push_open(menu, "Engine hum");
    push_volumes(menu, "engine:", settings.engine_volume, settings.audio);
    push_entry(menu, Entry::Close);
    push_entry(menu, Entry::Close);
    assert(entry_views(menu@) == entry_views(old(menu)@) + submenu(
        "Audio"@,
        audio_entries(settings@),
    ));
}

/// How often the modules may be shuffled.
pub open spec fn shuffle_checks(minutes: u64) -> Seq<EntryView> {
    Seq::new(
        4,
        |i: int|
            check(
                "shuffle:"@ + digits(SHUFFLE_MINUTES@[i] as nat),
                SHUFFLE_LABELS@[i]@,
                minutes == SHUFFLE_MINUTES@[i],
            ),
    )
}

/// Adds how often the modules may be shuffled.
fn push_shuffles(menu: &mut Vec<Entry>, minutes: u64)
    ensures
        entry_views(final(menu)@) == entry_views(old(menu)@) + shuffle_checks(minutes),
{
    let ghost before = entry_views(menu@);
    let ghost all = shuffle_checks(minutes);
    let mut i: usize = 0;
    assert(before + all.take(0) == before);
    while i < 4
        invariant
            i <= 4,
            all == shuffle_checks(minutes),
            entry_views(menu@) == before + all.take(i as int),
        decreases 4 - i,
    {
        let ghost so_far = entry_views(menu@);
        push_check(
            menu,
            joined("shuffle:", decimal(SHUFFLE_MINUTES[i]).as_str()).as_str(),
            SHUFFLE_LABELS[i],
            minutes == SHUFFLE_MINUTES[i],
        );
        i += 1;
        assert(all.take(i as int) == all.take(i - 1).push(all[i - 1]));
        assert(before + all.take(i as int) == so_far.push(all[i - 1]));
    }
    assert(all.take(i as int) == all);
}

/// What there is to choose about the behaviour. Pausing for a fullscreen application
/// makes no difference while anything that covers the wallpaper pauses it.
pub open spec fn behaviour_entries(settings: SettingsView, autostart: bool) -> Seq<EntryView> {
    seq![
        check(
            "pause-covered"@,
            "Pause while nothing of it is showing"@,
            settings.pause_when_covered,
        ),
        EntryView::Check {
            id: "pause-fullscreen"@,
            label: "Pause while an app runs fullscreen"@,
            checked: settings.pause_on_fullscreen,
            enabled: !settings.pause_when_covered,
        },
        check("system-info"@, "Live system readouts"@, settings.system_info),
    ] + submenu("Shuffle modules"@, shuffle_checks(settings.shuffle_minutes)) + seq![
        check("autostart"@, "Start with Windows"@, autostart),
    ]
}

fn push_behaviour(menu: &mut Vec<Entry>, settings: &Settings, autostart: bool)
    ensures
        entry_views(final(menu)@) == entry_views(old(menu)@) + submenu(
            "Behaviour"@,
            behaviour_entries(settings@, autostart),
        ),
{
    push_open(menu, "Behaviour");
    push_check(
        menu,
        "pause-covered",
        "Pause while nothing of it is showing",
        settings.pause_when_covered,
    );
    push_entry(
        menu,
        Entry::Check {
            id: "pause-fullscreen".to_owned(),
            label: "Pause while an app runs fullscreen".to_owned(),
            checked: settings.pause_on_fullscreen,
            enabled: !settings.pause_when_covered,
        },
    );
    push_check(menu, "system-info", "Live system readouts", settings.system_info);
    push_open(menu, "Shuffle modules");
    push_shuffles(menu, settings.shuffle_minutes);
    push_entry(menu, Entry::Close);
    push_check(menu, "autostart", "Start with Windows", autostart);
    push_entry(menu, Entry::Close);
    assert(entry_views(menu@) == entry_views(old(menu)@) + submenu(
        "Behaviour"@,
        behaviour_entries(settings@, autostart),
    ));
}

/// Everything the menu depends on.
pub struct MenuFacts {
    pub monitors: Vec<MonitorInfo>,
    pub version: String,
    pub autostart: bool,
}

/// The top of the menu.
pub open spec fn head_entries(version: Seq<char>, paused: bool) -> Seq<EntryView> {
    seq![
        note("about"@, "LCARS Wallpaper "@ + version),
        EntryView::Separator,
        item(
            "pause"@,
            if paused {
                "Resume"@
            } else {
                "Pause"@
            },
        ),
        item("shuffle-now"@, "Shuffle modules now"@),
        EntryView::Separator,
    ]
}

/// The bottom of the menu.
pub open spec fn tail_entries() -> Seq<EntryView> {
    seq![
        EntryView::Separator,
        item("reload"@, "Reload wallpaper"@),
        item("settings-file"@, "Settings file"@),
        item("quit"@, "Quit"@),
    ]
}

/// The whole menu.
pub open spec fn menu_entries(
    settings: SettingsView,
    screens: Seq<ScreenView>,
    paused: bool,
    monitors: Seq<MonitorInfoView>,
    version: Seq<char>,
    autostart: bool,
) -> Seq<EntryView> {
    head_entries(version, paused) + submenu(
        "Module"@,
        module_entries("module:"@, settings.module, false),
    ) + per_screen_entries(settings, screens) + seq![EntryView::Separator] + submenu(
        "Layout"@,
        layout_entries(settings.layout),
    ) + submenu("Screens"@, screens_entries(settings.monitors, monitors)) + submenu(
        "Appearance"@,
        appearance_entries(settings),
    ) + submenu("Screen fit"@, fit_entries(settings.fit, settings.insets)) + submenu(
        "Static wallpaper"@,
        background_entries(settings.static_background),
    ) + submenu("Audio"@, audio_entries(settings)) + submenu(
        "Behaviour"@,
        behaviour_entries(settings, autostart),
    ) + tail_entries()
}

fn push_head(menu: &mut Vec<Entry>, version: &str, paused: bool)
    ensures
        entry_views(final(menu)@) == entry_views(old(menu)@) + head_entries(version@, paused),
{
    push_note(menu, "about", joined("LCARS Wallpaper ", version).as_str());
    push_entry(menu, Entry::Separator);
    push_item(
        menu,
        "pause",
        if paused {
            "Resume"
        } else {
            "Pause"
        },
    );
    push_item(menu, "shuffle-now", "Shuffle modules now");
    push_entry(menu, Entry::Separator);
    assert(entry_views(menu@) == entry_views(old(menu)@) + head_entries(version@, paused));
}

fn push_tail(menu: &mut Vec<Entry>)
    ensures
        entry_views(final(menu)@) == entry_views(old(menu)@) + tail_entries(),
{
    push_entry(menu, Entry::Separator);
    push_item(menu, "reload", "Reload wallpaper");
    push_item(menu, "settings-file", "Settings file");
    push_item(menu, "quit", "Quit");
    assert(entry_views(menu@) == entry_views(old(menu)@) + tail_entries());
}

/// Builds the menu.
pub fn build_menu(
    settings: &Settings,
    screens: &Vec<Screen>,
    paused: bool,
    facts: &MenuFacts,
) -> (menu: Vec<Entry>)
    ensures
        entry_views(menu@) == menu_entries(
            settings@,
            screen_views(screens@),
            paused,
            monitor_views(facts.monitors@),
            facts.version@,
            facts.autostart,
        ),
{
    let mut menu: Vec<Entry> = Vec::new();
    push_head(&mut menu, facts.version.as_str(), paused);
    assert(entry_views(menu@) == head_entries(facts.version@, paused));
    module_submenu(&mut menu, "Module", "module:", settings.module.as_str(), false);
    push_per_screen(&mut menu, settings, screens);
    let ghost before = entry_views(menu@);
    push_entry(&mut menu, Entry::Separator);
    assert(entry_views(menu@) == before + seq![EntryView::Separator]);
    push_layout(&mut menu, settings.layout);
    push_screens(&mut menu, settings, &facts.monitors);
    push_appearance(&mut menu, settings);
    push_fit(&mut menu, settings);
    push_background(&mut menu, settings.static_background);
    push_audio_menu(&mut menu, settings);
    push_behaviour(&mut menu, settings, facts.autostart);
    push_tail(&mut menu);
    menu
}

/// How many submenus are open at the end of some entries. None where one is closed
/// that was never opened.
pub open spec fn depth(entries: Seq<EntryView>) -> Option<nat>
    decreases entries.len(),
{
    if entries.len() == 0 {
        Some(0)
    } else {
        match (depth(entries.drop_last()), entries.last()) {
            (Some(open), EntryView::Open(_)) => Some(open + 1),
            (Some(open), EntryView::Close) => if open == 0 {
                None
            } else {
                Some((open - 1) as nat)
            },
            (open, _) => open,
        }
    }
}

/// Whether every submenu that is opened is closed again.
pub open spec fn is_nested(entries: Seq<EntryView>) -> bool {
    depth(entries) == Some(0nat)
}

proof fn lemma_depth_adds(front: Seq<EntryView>, back: Seq<EntryView>)
    requires
        depth(front) is Some,
        depth(back) is Some,
    ensures
        depth(front + back) == Some(depth(front)->0 + depth(back)->0),
    decreases back.len(),
{
    if back.len() == 0 {
        assert(front + back == front);
    } else {
        assert((front + back).drop_last() == front + back.drop_last());
        lemma_depth_adds(front, back.drop_last());
    }
}

proof fn lemma_flat(entries: Seq<EntryView>)
    requires
        forall|i: int|
            0 <= i < entries.len() ==> !(#[trigger] entries[i] is Open) && !(entries[i] is Close),
    ensures
        is_nested(entries),
    decreases entries.len(),
{
    if entries.len() > 0 {
        assert forall|i: int| 0 <= i < entries.drop_last().len() implies !(
        #[trigger] entries.drop_last()[i] is Open) && !(entries.drop_last()[i] is Close) by {
            assert(entries.drop_last()[i] == entries[i]);
        }
        lemma_flat(entries.drop_last());
    }
}

proof fn lemma_submenu(title: Seq<char>, entries: Seq<EntryView>)
    requires
        is_nested(entries),
    ensures
        is_nested(submenu(title, entries)),
{
    let open = seq![EntryView::Open(title)];
    assert(open.drop_last() == Seq::<EntryView>::empty());
    assert(depth(Seq::<EntryView>::empty()) == Some(0nat));
    assert(depth(open) == Some(1nat));
    lemma_depth_adds(open, entries);
    assert(submenu(title, entries).drop_last() == open + entries);
}

proof fn lemma_flat_submenu(title: Seq<char>, entries: Seq<EntryView>)
    requires
        forall|i: int|
            0 <= i < entries.len() ==> !(#[trigger] entries[i] is Open) && !(entries[i] is Close),
    ensures
        is_nested(submenu(title, entries)),
{
    lemma_flat(entries);
    lemma_submenu(title, entries);
}

proof fn lemma_screen_submenus(settings: SettingsView, screens: Seq<ScreenView>, count: int)
    ensures
        is_nested(screen_submenus(settings, screens, count)),
    decreases count,
{
    if count > 0 {
        let screen = screens[count - 1];
        lemma_screen_submenus(settings, screens, count - 1);
        lemma_flat_submenu(
            screen.name,
            module_entries(screen_prefix(screen.key), screen_choice(settings, screen.key), true),
        );
        lemma_depth_adds(
            screen_submenus(settings, screens, count - 1),
            screen_submenu(settings, screen),
        );
    }
}

proof fn lemma_per_screen(settings: SettingsView, screens: Seq<ScreenView>)
    ensures
        is_nested(per_screen_entries(settings, screens)),
{
    if screens.len() > 1 && !settings.one_scene() {
        let inner = screen_submenus(settings, screens, screens.len() as int);
        lemma_screen_submenus(settings, screens, screens.len() as int);
        lemma_submenu("Module per screen"@, inner);
        assert(per_screen_entries(settings, screens).drop_last() == submenu(
            "Module per screen"@,
            inner,
        ));
    }
}

proof fn lemma_appearance(settings: SettingsView)
    ensures
        is_nested(appearance_entries(settings)),
{
    let margins = submenu("Margin"@, margin_checks(settings.margin));
    let filters = submenu("Filter"@, filter_checks(settings.filter));
    let scales = submenu("Render quality"@, scale_checks(settings.scale_held()));
    let switches = seq![
        check("red-alert"@, "Red alert"@, settings.red_alert),
        check("boot-animation"@, "Boot animation on start"@, settings.boot_animation),
    ];
    lemma_flat_submenu("Margin"@, margin_checks(settings.margin));
    lemma_flat_submenu("Filter"@, filter_checks(settings.filter));
    lemma_flat_submenu("Render quality"@, scale_checks(settings.scale_held()));
    lemma_flat(switches);
    lemma_depth_adds(margins, filters);
    lemma_depth_adds(margins + filters, scales);
    lemma_depth_adds(margins + filters + scales, switches);
}

proof fn lemma_audio(settings: SettingsView)
    ensures
        is_nested(audio_entries(settings)),
{
    let head = seq![check("audio"@, "Enabled"@, settings.audio), EntryView::Separator];
    let sfx = volume_checks("sfx:"@, settings.sfx_volume, settings.audio);
    let engine = volume_checks("engine:"@, settings.engine_volume, settings.audio);
    lemma_flat(head);
    lemma_flat_submenu("Sound effects"@, sfx);
    lemma_flat_submenu("Engine hum"@, engine);
    lemma_depth_adds(head, submenu("Sound effects"@, sfx));
    lemma_depth_adds(head + submenu("Sound effects"@, sfx), submenu("Engine hum"@, engine));
}

proof fn lemma_behaviour(settings: SettingsView, autostart: bool)
    ensures
        is_nested(behaviour_entries(settings, autostart)),
{
    let head = seq![
        check(
            "pause-covered"@,
            "Pause while nothing of it is showing"@,
            settings.pause_when_covered,
        ),
        EntryView::Check {
            id: "pause-fullscreen"@,
            label: "Pause while an app runs fullscreen"@,
            checked: settings.pause_on_fullscreen,
            enabled: !settings.pause_when_covered,
        },
        check("system-info"@, "Live system readouts"@, settings.system_info),
    ];
    let shuffles = submenu("Shuffle modules"@, shuffle_checks(settings.shuffle_minutes));
    let tail = seq![check("autostart"@, "Start with Windows"@, autostart)];
    lemma_flat(head);
    lemma_flat_submenu("Shuffle modules"@, shuffle_checks(settings.shuffle_minutes));
    lemma_flat(tail);
    lemma_depth_adds(head, shuffles);
    lemma_depth_adds(head + shuffles, tail);
}

/// Every submenu that is opened is closed again, and none is closed that was not
/// opened.
pub proof fn submenus_are_nested(
    settings: SettingsView,
    screens: Seq<ScreenView>,
    paused: bool,
    monitors: Seq<MonitorInfoView>,
    version: Seq<char>,
    autostart: bool,
)
    ensures
        is_nested(menu_entries(settings, screens, paused, monitors, version, autostart)),
{
    let head = head_entries(version, paused);
    let module = submenu("Module"@, module_entries("module:"@, settings.module, false));
    let per_screen = per_screen_entries(settings, screens);
    let line = seq![EntryView::Separator];
    let layout = submenu("Layout"@, layout_entries(settings.layout));
    let shown = submenu("Screens"@, screens_entries(settings.monitors, monitors));
    let appearance = submenu("Appearance"@, appearance_entries(settings));
    let fit = submenu("Screen fit"@, fit_entries(settings.fit, settings.insets));
    let background = submenu(
        "Static wallpaper"@,
        background_entries(settings.static_background),
    );
    let audio = submenu("Audio"@, audio_entries(settings));
    let behaviour = submenu("Behaviour"@, behaviour_entries(settings, autostart));
    lemma_flat(head);
    lemma_flat_submenu("Module"@, module_entries("module:"@, settings.module, false));
    lemma_per_screen(settings, screens);
    lemma_flat(line);
    lemma_flat_submenu("Layout"@, layout_entries(settings.layout));
    lemma_flat_submenu("Screens"@, screens_entries(settings.monitors, monitors));
    lemma_appearance(settings);
    lemma_submenu("Appearance"@, appearance_entries(settings));
    lemma_flat_submenu("Screen fit"@, fit_entries(settings.fit, settings.insets));
    lemma_flat_submenu(
        "Static wallpaper"@,
        background_entries(settings.static_background),
    );
    lemma_audio(settings);
    lemma_submenu("Audio"@, audio_entries(settings));
    lemma_behaviour(settings, autostart);
    lemma_submenu("Behaviour"@, behaviour_entries(settings, autostart));
    lemma_flat(tail_entries());
    let s1 = head + module;
    let s2 = s1 + per_screen;
    let s3 = s2 + line;
    let s4 = s3 + layout;
    let s5 = s4 + shown;
    let s6 = s5 + appearance;
    let s7 = s6 + fit;
    let s8 = s7 + background;
    let s9 = s8 + audio;
    lemma_depth_adds(head, module);
    lemma_depth_adds(s1, per_screen);
    lemma_depth_adds(s2, line);
    lemma_depth_adds(s3, layout);
    lemma_depth_adds(s4, shown);
    lemma_depth_adds(s5, appearance);
    lemma_depth_adds(s6, fit);
    lemma_depth_adds(s7, background);
    lemma_depth_adds(s8, audio);
    lemma_depth_adds(s9, behaviour);
    lemma_depth_adds(s9 + behaviour, tail_entries());
}

} // verus!
