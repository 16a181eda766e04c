//! What the menu offers: every choice there is, with the one in use checked.

use crate::binary64::number;
use crate::layout::MonitorInfoView;
use crate::menu::{
    appearance_entries, audio_entries, background_entries, behaviour_entries, check,
    filter_checks, fit_entries, head_entries, insets_text, item, layout_entries, margin_checks,
    menu_entries, module_checks, module_entries, monitor_checked, monitor_checks, note,
    per_screen_entries, scale_checks, screen_choice, screen_prefix, screen_submenu,
    screen_submenus, screens_entries, shuffle_checks, submenu, tail_entries, volume_checks,
    EntryView, FILTER_LABELS, MARGIN_LABELS, SHUFFLE_LABELS, SHUFFLE_MINUTES, VOLUME_BITS,
    VOLUME_IDS, VOLUME_LABELS,
};
use crate::modules::{label_of, modules_have_their_labels, MODULES, MODULE_LABELS};
use crate::settings::{
    Fit, Insets, Layout, MonitorsView, SettingsView, StaticBackground, FILTERS, RENDER_SCALE_BITS,
    RENDER_SCALE_IDS, RENDER_SCALE_LABELS,
};
use crate::text::{digits, signed_digits};
use crate::wallpaper::ScreenView;
use vstd::prelude::*;

verus! {

/// What is in two lists joined is in one of them.
proof fn lemma_joined(front: Seq<EntryView>, back: Seq<EntryView>, entry: EntryView)
    ensures
        (front + back).contains(entry) <==> front.contains(entry) || back.contains(entry),
{
    let all = front + back;
    if front.contains(entry) {
        let i = choose|i: int| 0 <= i < front.len() && front[i] == entry;
        assert(all[i] == entry);
    }
    if back.contains(entry) {
        let i = choose|i: int| 0 <= i < back.len() && back[i] == entry;
        assert(all[front.len() + i] == entry);
    }
    if all.contains(entry) {
        let i = choose|i: int| 0 <= i < all.len() && all[i] == entry;
        if i < front.len() {
            assert(front[i] == entry);
        } else {
            assert(back[i - front.len()] == entry);
        }
    }
}

/// A submenu holds its entries between its title and its end.
pub proof fn submenus_hold_their_entries(
    title: Seq<char>,
    entries: Seq<EntryView>,
    entry: EntryView,
)
    ensures
        submenu(title, entries)[0] == EntryView::Open(title),
        submenu(title, entries).last() == EntryView::Close,
        submenu(title, entries).contains(entry) <==> entry == EntryView::Open(title) || entry
            == EntryView::Close || entries.contains(entry),
{
    let open = seq![EntryView::Open(title)];
    let close = seq![EntryView::Close];
    lemma_joined(open + entries, close, entry);
    lemma_joined(open, entries, entry);
    assert(open[0] == EntryView::Open(title) && close[0] == EntryView::Close);
}

/// The menu holds its submenus and the entries of every one of its parts, and nothing
/// else.
pub proof fn the_menu_holds_all_its_parts(
    settings: SettingsView,
    screens: Seq<ScreenView>,
    paused: bool,
    monitors: Seq<MonitorInfoView>,
    version: Seq<char>,
    autostart: bool,
    entry: EntryView,
)
    ensures
        menu_entries(settings, screens, paused, monitors, version, autostart).contains(
            entry,
        ) <==> ({
            ||| entry == EntryView::Open("Module"@)
            ||| entry == EntryView::Open("Layout"@)
            ||| entry == EntryView::Open("Screens"@)
            ||| entry == EntryView::Open("Appearance"@)
            ||| entry == EntryView::Open("Screen fit"@)
            ||| entry == EntryView::Open("Static wallpaper"@)
            ||| entry == EntryView::Open("Audio"@)
            ||| entry == EntryView::Open("Behaviour"@)
            ||| entry == EntryView::Close
            ||| entry == EntryView::Separator
            ||| head_entries(version, paused).contains(entry)
            ||| module_entries("module:"@, settings.module, false).contains(entry)
            ||| per_screen_entries(settings, screens).contains(entry)
            ||| layout_entries(settings.layout).contains(entry)
            ||| screens_entries(settings.monitors, monitors).contains(entry)
            ||| appearance_entries(settings).contains(entry)
            ||| fit_entries(settings.fit, settings.insets).contains(entry)
            ||| background_entries(settings.static_background).contains(entry)
            ||| audio_entries(settings).contains(entry)
            ||| behaviour_entries(settings, autostart).contains(entry)
            ||| tail_entries().contains(entry)
        }),
{
    let modules = module_entries("module:"@, settings.module, false);
    let layouts = layout_entries(settings.layout);
    let places = screens_entries(settings.monitors, monitors);
    let looks = appearance_entries(settings);
    let fits = fit_entries(settings.fit, settings.insets);
    let backgrounds = background_entries(settings.static_background);
    let sounds = audio_entries(settings);
    let habits = behaviour_entries(settings, autostart);
    submenus_hold_their_entries("Module"@, modules, entry);
    submenus_hold_their_entries("Layout"@, layouts, entry);
    submenus_hold_their_entries("Screens"@, places, entry);
    submenus_hold_their_entries("Appearance"@, looks, entry);
    submenus_hold_their_entries("Screen fit"@, fits, entry);
    submenus_hold_their_entries("Static wallpaper"@, backgrounds, entry);
    submenus_hold_their_entries("Audio"@, sounds, entry);
    submenus_hold_their_entries("Behaviour"@, habits, entry);
    let a = head_entries(version, paused);
    let b = a + submenu("Module"@, modules);
    let c = b + per_screen_entries(settings, screens);
    let line = seq![EntryView::Separator];
    let d = c + line;
    let e = d + submenu("Layout"@, layouts);
    let f = e + submenu("Screens"@, places);
    let g = f + submenu("Appearance"@, looks);
    let h = g + submenu("Screen fit"@, fits);
    let i = h + submenu("Static wallpaper"@, backgrounds);
    let j = i + submenu("Audio"@, sounds);
    let k = j + submenu("Behaviour"@, habits);
    lemma_joined(a, submenu("Module"@, modules), entry);
    lemma_joined(b, per_screen_entries(settings, screens), entry);
    lemma_joined(c, line, entry);
    assert(line[0] == EntryView::Separator);
    lemma_joined(d, submenu("Layout"@, layouts), entry);
    lemma_joined(e, submenu("Screens"@, places), entry);
    lemma_joined(f, submenu("Appearance"@, looks), entry);
    lemma_joined(g, submenu("Screen fit"@, fits), entry);
    lemma_joined(h, submenu("Static wallpaper"@, backgrounds), entry);
    lemma_joined(i, submenu("Audio"@, sounds), entry);
    lemma_joined(j, submenu("Behaviour"@, habits), entry);
    lemma_joined(k, tail_entries(), entry);
}

/// The menu can always pause or resume, shuffle, reload, open the settings and quit;
/// it offers to resume exactly while paused.
pub proof fn the_menu_can_always_be_left(version: Seq<char>, paused: bool)
    ensures
        head_entries(version, paused).contains(
            EntryView::Item {
                id: "pause"@,
                label: if paused {
                    "Resume"@
                } else {
                    "Pause"@
                },
                enabled: true,
            },
        ),
        head_entries(version, paused).contains(
            EntryView::Item { id: "shuffle-now"@, label: "Shuffle modules now"@, enabled: true },
        ),
        head_entries(version, paused).contains(
            EntryView::Item { id: "about"@, label: "LCARS Wallpaper "@ + version, enabled: false },
        ),
        tail_entries().contains(
            EntryView::Item { id: "reload"@, label: "Reload wallpaper"@, enabled: true },
        ),
        tail_entries().contains(
            EntryView::Item { id: "settings-file"@, label: "Settings file"@, enabled: true },
        ),
        tail_entries().contains(EntryView::Item { id: "quit"@, label: "Quit"@, enabled: true }),
{
    let head = head_entries(version, paused);
    let tail = tail_entries();
    assert(head[0] == note("about"@, "LCARS Wallpaper "@ + version));
    assert(head[3] == item("shuffle-now"@, "Shuffle modules now"@));
    assert(head[2] is Item);
    assert(tail[1] == item("reload"@, "Reload wallpaper"@));
    assert(tail[2] == item("settings-file"@, "Settings file"@));
    assert(tail[3] == item("quit"@, "Quit"@));
}

/// Every module is offered under its label, and chance besides; following the others
/// is offered exactly where it is asked for. The one in use is checked.
pub proof fn every_module_is_offered(
    prefix: Seq<char>,
    current: Seq<char>,
    inherit: bool,
    i: int,
)
    requires
        0 <= i < 9,
    ensures
        module_entries(prefix, current, inherit).contains(
            EntryView::Check {
                id: prefix + MODULES@[i]@,
                label: MODULE_LABELS@[i]@,
                checked: current == MODULES@[i]@,
                enabled: true,
            },
        ),
        module_entries(prefix, current, inherit).contains(
            EntryView::Check {
                id: prefix + "random"@,
                label: "Random"@,
                checked: current == "random"@,
                enabled: true,
            },
        ),
        inherit ==> module_entries(prefix, current, inherit).contains(
            EntryView::Check {
                id: prefix + "inherit"@,
                label: "Follow the global setting"@,
                checked: current == "inherit"@,
                enabled: true,
            },
        ),
        module_entries(prefix, current, inherit).len() == if inherit {
            13int
        } else {
            11
        },
{
    let all = module_entries(prefix, current, inherit);
    let at: int = if inherit {
        4
    } else {
        2
    };
    lemma_label_of_module(i);
    assert(all[at + i] == module_checks(prefix, current)[i]);
    assert(all[at - 2] == check(prefix + "random"@, "Random"@, current == "random"@));
    if inherit {
        assert(all[0] == check(
            prefix + "inherit"@,
            "Follow the global setting"@,
            current == "inherit"@,
        ));
    }
}

proof fn lemma_label_of_module(i: int)
    requires
        0 <= i < 9,
    ensures
        label_of(MODULES@[i]@) == MODULE_LABELS@[i]@,
{
    let none = Seq::<char>::empty();
    reveal_strlit("default");
    reveal_strlit("ent");
    reveal_strlit("entD");
    reveal_strlit("entF");
    reveal_strlit("entG");
    reveal_strlit("ncc1031");
    reveal_strlit("warpDrive");
    reveal_strlit("starbase");
    reveal_strlit("dna");
    assert forall|j: int| 0 <= j < 9 implies (#[trigger] MODULES@[j])@ != none by {
        assert(MODULES@[j]@.len() > 0);
    }
    modules_have_their_labels(i, none);
}

/// Modules are offered for each screen exactly if several windows each have a scene of
/// their own, and so is varying the picks between them.
pub proof fn screens_choose_apart(settings: SettingsView, screens: Seq<ScreenView>, i: int)
    requires
        0 <= i < screens.len(),
    ensures
        per_screen_entries(settings, screens).len() > 0 <==> screens.len() > 1 && settings.layout
            == Layout::Separate,
        screens.len() > 1 && settings.layout == Layout::Separate ==> {
            &&& per_screen_entries(settings, screens).contains(
                EntryView::Check {
                    id: "varied-modules"@,
                    label: "Vary random modules between screens"@,
                    checked: settings.varied_modules,
                    enabled: true,
                },
            )
            &&& forall|entry: EntryView| #[trigger]
                screen_submenu(settings, screens[i]).contains(entry) ==> per_screen_entries(
                    settings,
                    screens,
                ).contains(entry)
        },
{
    if screens.len() > 1 && settings.layout == Layout::Separate {
        let count = screens.len() as int;
        let all = screen_submenus(settings, screens, count);
        let whole = per_screen_entries(settings, screens);
        let title = "Module per screen"@;
        let varied = check(
            "varied-modules"@,
            "Vary random modules between screens"@,
            settings.varied_modules,
        );
        assert(whole == submenu(title, all).push(varied));
        assert(whole[whole.len() - 1] == varied);
        assert forall|entry: EntryView| #[trigger]
            screen_submenu(settings, screens[i]).contains(entry) implies whole.contains(entry) by {
            lemma_each_screen(settings, screens, count, i, entry);
            submenus_hold_their_entries(title, all, entry);
            let at = choose|at: int|
                0 <= at < submenu(title, all).len() && submenu(title, all)[at] == entry;
            assert(whole[at] == entry);
        }
    }
}

proof fn lemma_each_screen(
    settings: SettingsView,
    screens: Seq<ScreenView>,
    count: int,
    i: int,
    entry: EntryView,
)
    requires
        0 <= i < count <= screens.len(),
        screen_submenu(settings, screens[i]).contains(entry),
    ensures
        screen_submenus(settings, screens, count).contains(entry),
    decreases count,
{
    let before = screen_submenus(settings, screens, count - 1);
    lemma_joined(before, screen_submenu(settings, screens[count - 1]), entry);
    if i < count - 1 {
        lemma_each_screen(settings, screens, count - 1, i, entry);
    }
}

/// A screen's own submenu goes by the screen's name; in it the screen's own choice is
/// checked, and following the others where it has none.
pub proof fn screens_show_their_choice(
    settings: SettingsView,
    screen: ScreenView,
    entry: EntryView,
)
    ensures
        screen_submenu(settings, screen)[0] == EntryView::Open(screen.name),
        settings.module_by_monitor.contains_key(screen.key) ==> screen_choice(settings, screen.key)
            == settings.module_by_monitor[screen.key],
        !settings.module_by_monitor.contains_key(screen.key) ==> screen_choice(
            settings,
            screen.key,
        ) == "inherit"@,
        module_entries(
            "screen-module:"@ + screen.key + ":"@,
            screen_choice(settings, screen.key),
            true,
        ).contains(entry) ==> screen_submenu(settings, screen).contains(entry),
{
    let own = module_entries(
        screen_prefix(screen.key),
        screen_choice(settings, screen.key),
        true,
    );
    submenus_hold_their_entries(screen.name, own, entry);
}

/// Each layout is offered, the one in use checked.
pub proof fn every_layout_is_offered(layout: Layout)
    ensures
        layout_entries(layout).len() == 3,
        layout_entries(layout).contains(
            EntryView::Check {
                id: "layout:separate"@,
                label: "A separate scene on each screen"@,
                checked: layout == Layout::Separate,
                enabled: true,
            },
        ),
        layout_entries(layout).contains(
            EntryView::Check {
                id: "layout:split"@,
                label: "One scene split across screens"@,
                checked: layout == Layout::Split,
                enabled: true,
            },
        ),
        layout_entries(layout).contains(
            EntryView::Check {
                id: "layout:span"@,
                label: "One window stretched over all screens"@,
                checked: layout == Layout::Span,
                enabled: true,
            },
        ),
{
    let all = layout_entries(layout);
    assert(all[0] is Check && all[1] is Check && all[2] is Check);
}

/// All monitors and the primary one are always offered; single monitors are offered
/// exactly if there are several, each checked if it is covered by name or with all.
pub proof fn every_monitor_is_offered(
    selected: MonitorsView,
    monitors: Seq<MonitorInfoView>,
    i: int,
)
    requires
        0 <= i < monitors.len(),
    ensures
        screens_entries(selected, monitors).contains(
            EntryView::Check {
                id: "monitors:all"@,
                label: "All monitors"@,
                checked: selected == MonitorsView::All,
                enabled: true,
            },
        ),
        screens_entries(selected, monitors).contains(
            EntryView::Check {
                id: "monitors:primary"@,
                label: "Primary monitor only"@,
                checked: selected == MonitorsView::Primary,
                enabled: true,
            },
        ),
        monitors.len() > 1 ==> screens_entries(selected, monitors).contains(
            EntryView::Check {
                id: "monitor:"@ + monitors[i].key(i),
                label: monitors[i].label(i),
                checked: monitor_checked(selected, monitors[i].key(i)),
                enabled: true,
            },
        ),
        monitors.len() <= 1 ==> screens_entries(selected, monitors).len() == 2,
{
    let all = screens_entries(selected, monitors);
    assert(all[0] == check("monitors:all"@, "All monitors"@, selected == MonitorsView::All));
    assert(all[1] == check(
        "monitors:primary"@,
        "Primary monitor only"@,
        selected == MonitorsView::Primary,
    ));
    if monitors.len() > 1 {
        assert(all[3 + i] == monitor_checks(selected, monitors)[i]);
    }
}

/// A monitor is checked where all are covered and where it was named, not where only
/// the primary one is covered.
pub proof fn covered_monitors_are_checked(names: Seq<Seq<char>>, key: Seq<char>)
    ensures
        monitor_checked(MonitorsView::All, key),
        !monitor_checked(MonitorsView::Primary, key),
        monitor_checked(MonitorsView::Only(names), key) <==> exists|i: int|
            0 <= i < names.len() && names[i] == key,
{
}

/// The margins, the filters and the render qualities are all offered, each checked if
/// it is in use; and so are the alert and the boot animation.
pub proof fn every_look_is_offered(settings: SettingsView, i: int, j: int, k: int)
    requires
        0 <= i < 3,
        0 <= j < 4,
        0 <= k < 5,
    ensures
        appearance_entries(settings).contains(
            EntryView::Check {
                id: "margin:"@ + digits(i as nat),
                label: MARGIN_LABELS@[i]@,
                checked: settings.margin == i,
                enabled: true,
            },
        ),
        appearance_entries(settings).contains(
            EntryView::Check {
                id: "filter:"@ + FILTERS@[j]@,
                label: FILTER_LABELS@[j]@,
                checked: settings.filter == FILTERS@[j]@,
                enabled: true,
            },
        ),
        appearance_entries(settings).contains(
            EntryView::Check {
                id: "render-scale:"@ + RENDER_SCALE_IDS@[k]@,
                label: RENDER_SCALE_LABELS@[k]@,
                checked: settings.scale_held().near(
                    number(RENDER_SCALE_BITS@[k]),
                    number(0x3f50_624d_d2f1_a9fc),
                ),
                enabled: true,
            },
        ),
        appearance_entries(settings).contains(
            EntryView::Check {
                id: "red-alert"@,
                label: "Red alert"@,
                checked: settings.red_alert,
                enabled: true,
            },
        ),
        appearance_entries(settings).contains(
            EntryView::Check {
                id: "boot-animation"@,
                label: "Boot animation on start"@,
                checked: settings.boot_animation,
                enabled: true,
            },
        ),
{
    let all = appearance_entries(settings);
    let margins = margin_checks(settings.margin);
    let filters = filter_checks(settings.filter);
    let scales = scale_checks(settings.scale_held());
    assert(all[1 + i] == margins[i]);
    assert(all[6 + j] == filters[j]);
    assert(all[12 + k] == scales[k]);
    assert(all[18] == check("red-alert"@, "Red alert"@, settings.red_alert));
    assert(all[19] == check(
        "boot-animation"@,
        "Boot animation on start"@,
        settings.boot_animation,
    ));
}

/// Both fits are offered, with the insets noted beneath; both backgrounds are offered.
pub proof fn fits_and_backgrounds_are_offered(
    fit: Fit,
    insets: Insets,
    background: StaticBackground,
)
    ensures
        fit_entries(fit, insets).contains(
            EntryView::Check {
                id: "fit:full"@,
                label: "Whole screen (taskbar covers the bottom)"@,
                checked: fit == Fit::Full,
                enabled: true,
            },
        ),
        fit_entries(fit, insets).contains(
            EntryView::Check {
                id: "fit:workarea"@,
                label: "Keep clear of the taskbar"@,
                checked: fit == Fit::WorkArea,
                enabled: true,
            },
        ),
        fit_entries(fit, insets).contains(
            EntryView::Item { id: "insets-info"@, label: insets_text(insets), enabled: false },
        ),
        background_entries(background).contains(
            EntryView::Check {
                id: "background:leave"@,
                label: "Leave mine alone"@,
                checked: background == StaticBackground::Leave,
                enabled: true,
            },
        ),
        background_entries(background).contains(
            EntryView::Check {
                id: "background:black"@,
                label: "Paint it black (matches Fences panels)"@,
                checked: background == StaticBackground::Black,
                enabled: true,
            },
        ),
{
    let fits = fit_entries(fit, insets);
    assert(fits[0] is Check && fits[1] is Check);
    assert(fits[3] == note("insets-info"@, insets_text(insets)));
    let backgrounds = background_entries(background);
    assert(backgrounds[0] is Check && backgrounds[1] is Check);
}

/// The insets are noted from the top clockwise, and as none exactly where there are
/// none.
pub proof fn insets_are_noted_clockwise(insets: Insets)
    ensures
        insets.top == 0 && insets.right == 0 && insets.bottom == 0 && insets.left == 0
            ==> insets_text(insets) == "Extra edges: none (set in the settings file)"@,
        insets.top != 0 || insets.right != 0 || insets.bottom != 0 || insets.left != 0
            ==> insets_text(insets) == "Extra edges: "@ + signed_digits(insets.top as int)
            + " / "@ + signed_digits(insets.right as int) + " / "@ + signed_digits(
            insets.bottom as int,
        ) + " / "@ + signed_digits(insets.left as int) + " (T/R/B/L)"@,
{
}

/// Sound can always be switched; its volumes are offered too, and can be chosen
/// exactly while it is on.
pub proof fn volumes_are_offered_with_the_sound(settings: SettingsView, i: int)
    requires
        0 <= i < 6,
    ensures
        audio_entries(settings).contains(
            EntryView::Check {
                id: "audio"@,
                label: "Enabled"@,
                checked: settings.audio,
                enabled: true,
            },
        ),
        audio_entries(settings).contains(
            EntryView::Check {
                id: "sfx:"@ + VOLUME_IDS@[i]@,
                label: VOLUME_LABELS@[i]@,
                checked: settings.sfx_volume.near(
                    number(VOLUME_BITS@[i]),
                    number(0x3cb0_0000_0000_0000),
                ),
                enabled: settings.audio,
            },
        ),
        audio_entries(settings).contains(
            EntryView::Check {
                id: "engine:"@ + VOLUME_IDS@[i]@,
                label: VOLUME_LABELS@[i]@,
                checked: settings.engine_volume.near(
                    number(VOLUME_BITS@[i]),
                    number(0x3cb0_0000_0000_0000),
                ),
                enabled: settings.audio,
            },
        ),
{
    let all = audio_entries(settings);
    let effects = volume_checks("sfx:"@, settings.sfx_volume, settings.audio);
    let hum = volume_checks("engine:"@, settings.engine_volume, settings.audio);
    assert(all[0] == check("audio"@, "Enabled"@, settings.audio));
    assert(all[3 + i] == effects[i]);
    assert(all[11 + i] == hum[i]);
}

/// Every habit can be switched. The pause for full-screen applications can be chosen
/// exactly while the wider pause over covered windows is off.
pub proof fn every_habit_is_offered(settings: SettingsView, autostart: bool, i: int)
    requires
        0 <= i < 4,
    ensures
        behaviour_entries(settings, autostart).contains(
            EntryView::Check {
                id: "pause-covered"@,
                label: "Pause while nothing of it is showing"@,
                checked: settings.pause_when_covered,
                enabled: true,
            },
        ),
        behaviour_entries(settings, autostart).contains(
            EntryView::Check {
                id: "pause-fullscreen"@,
                label: "Pause while an app runs fullscreen"@,
                checked: settings.pause_on_fullscreen,
                enabled: !settings.pause_when_covered,
            },
        ),
        behaviour_entries(settings, autostart).contains(
            EntryView::Check {
                id: "system-info"@,
                label: "Live system readouts"@,
                checked: settings.system_info,
                enabled: true,
            },
        ),
        behaviour_entries(settings, autostart).contains(
            EntryView::Check {
                id: "shuffle:"@ + digits(SHUFFLE_MINUTES@[i] as nat),
                label: SHUFFLE_LABELS@[i]@,
                checked: settings.shuffle_minutes == SHUFFLE_MINUTES@[i],
                enabled: true,
            },
        ),
        behaviour_entries(settings, autostart).contains(
            EntryView::Check {
                id: "autostart"@,
                label: "Start with Windows"@,
                checked: autostart,
                enabled: true,
            },
        ),
{
    let all = behaviour_entries(settings, autostart);
    let shuffles = shuffle_checks(settings.shuffle_minutes);
    assert(all[0] is Check && all[1] is Check && all[2] is Check);
    assert(all[4 + i] == shuffles[i]);
    assert(all[9] == check("autostart"@, "Start with Windows"@, autostart));
}


/// The menu starts with its heading and ends with the way out.
pub proof fn the_menu_starts_and_ends(
    settings: SettingsView,
    screens: Seq<ScreenView>,
    paused: bool,
    monitors: Seq<MonitorInfoView>,
    version: Seq<char>,
    autostart: bool,
)
    ensures
        ({
            let menu = menu_entries(settings, screens, paused, monitors, version, autostart);
            &&& head_entries(version, paused).is_prefix_of(menu)
            &&& tail_entries().is_suffix_of(menu)
            &&& head_entries(version, paused).len() == 5
            &&& tail_entries().len() == 4
        }),
{
    let menu = menu_entries(settings, screens, paused, monitors, version, autostart);
    let head = head_entries(version, paused);
    let tail = tail_entries();
    assert(menu.take(5) =~= head);
    assert(menu.skip(menu.len() - 4) =~= tail);
}

/// No part of the menu offers anything beyond the choices there are.
pub proof fn nothing_else_is_offered(settings: SettingsView, autostart: bool)
    ensures
        appearance_entries(settings).len() == 20,
        fit_entries(settings.fit, settings.insets).len() == 4,
        background_entries(settings.static_background).len() == 2,
        audio_entries(settings).len() == 18,
        behaviour_entries(settings, autostart).len() == 10,
{
}

} // verus!
