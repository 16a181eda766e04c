use lcars_wallpaper::binary64::Binary64;
use lcars_wallpaper::bridge::{Action, Payload};
use lcars_wallpaper::geometry::Rect;
use lcars_wallpaper::layout::{MonitorInfo, Scale};
use lcars_wallpaper::menu::{build_menu, Entry, MenuFacts};
use lcars_wallpaper::settings::{Fit, Insets, Layout, Monitors, Settings, StaticBackground};
use lcars_wallpaper::tray::{
    file_wanted, handle_command, handle_menu_event, number_wanted, parse_command, toggle_monitor, Command,
    Effect, Inputs,
};
use lcars_wallpaper::wallpaper::Screen;

fn double(value: f64) -> Binary64 {
    Binary64 { bits: value.to_bits() }
}

fn screen(key: &str) -> Screen {
    Screen {
        label: format!("wallpaper-{key}"),
        key: key.to_string(),
        name: format!("Screen {key}"),
        bounds: Rect::default(),
        monitor: Rect::default(),
        hwnd: 1,
        module: "ent".to_string(),
        hidden: false,
        awake: false,
        red_alert: false,
        margin: 0,
    }
}

fn monitor(name: Option<&str>) -> MonitorInfo {
    MonitorInfo {
        name: name.map(str::to_string),
        x: 0,
        y: 0,
        width: 800,
        height: 600,
        scale: Scale { factor: double(1.0), percent: 100 },
        work_area: Rect::default(),
    }
}

fn facts(monitors: Vec<MonitorInfo>) -> MenuFacts {
    MenuFacts { monitors, version: "1.2.3".to_string(), autostart: true }
}

fn inputs(number: Option<f64>) -> Inputs {
    Inputs {
        number: number.map(double),
        shared: "ent".to_string(),
        fresh: "entD".to_string(),
        monitors: vec!["A".to_string(), "B".to_string(), "C".to_string()],
        file: None,
    }
}

/// The check mark of an entry and whether it can be clicked.
fn found(menu: &[Entry], wanted: &str) -> Option<(bool, bool)> {
    menu.iter().find_map(|entry| match entry {
        Entry::Check { id, checked, enabled, .. } if id == wanted => Some((*checked, *enabled)),
        _ => None,
    })
}

fn label(menu: &[Entry], wanted: &str) -> Option<String> {
    menu.iter().find_map(|entry| match entry {
        Entry::Check { id, label, .. } | Entry::Item { id, label, .. } if id == wanted => {
            Some(label.clone())
        }
        _ => None,
    })
}

fn titles(menu: &[Entry]) -> Vec<String> {
    menu.iter()
        .filter_map(|entry| match entry {
            Entry::Open(title) => Some(title.clone()),
            _ => None,
        })
        .collect()
}

fn menu_for(settings: &Settings) -> Vec<Entry> {
    build_menu(
        settings,
        &vec![screen("A"), screen("B")],
        false,
        &facts(vec![monitor(Some("A")), monitor(None)]),
    )
}

fn click(settings: &mut Settings, id: &str) -> Vec<Effect> {
    handle_menu_event(settings, false, id, &inputs(None))
}

#[test]
fn the_menu_starts_and_ends_as_it_should() {
    let menu = menu_for(&Settings::default());
    assert!(matches!(
        &menu[0],
        Entry::Item { id, label, enabled: false } if id == "about" && label == "LCARS Wallpaper 1.2.3"
    ));
    assert!(matches!(menu[1], Entry::Separator));
    assert!(matches!(&menu[2], Entry::Item { id, label, enabled: true } if id == "pause" && label == "Pause"));
    assert!(matches!(&menu[3], Entry::Item { id, .. } if id == "shuffle-now"));
    assert!(matches!(&menu[5], Entry::Open(title) if title == "Module"));
    let tail = &menu[menu.len() - 4..];
    assert!(matches!(tail[0], Entry::Separator));
    assert!(matches!(&tail[1], Entry::Item { label, .. } if label == "Reload wallpaper"));
    assert!(matches!(&tail[2], Entry::Item { label, .. } if label == "Settings file"));
    assert!(matches!(&tail[3], Entry::Item { id, .. } if id == "quit"));
}

#[test]
fn the_submenus_come_in_order() {
    assert_eq!(
        titles(&menu_for(&Settings::default())),
        [
            "Module", "Module per screen", "Screen A", "Screen B", "Layout", "Screens", "Appearance",
            "Margin", "Filter", "Render quality", "Screen fit", "Static wallpaper", "Audio",
            "Sound effects", "Engine hum", "Behaviour", "Shuffle modules",
        ],
    );
}

#[test]
fn submenus_are_closed_again() {
    let mut depth = 0;
    for entry in menu_for(&Settings::default()) {
        match entry {
            Entry::Open(_) => depth += 1,
            Entry::Close => depth -= 1,
            _ => {}
        }
        assert!(depth >= 0);
    }
    assert_eq!(depth, 0);
}

#[test]
fn modules_for_single_screens_need_several_separate_screens() {
    let mut settings = Settings::default();
    let one = build_menu(&settings, &vec![screen("A")], true, &facts(vec![monitor(None)]));
    assert!(found(&one, "varied-modules").is_none());
    assert_eq!(label(&one, "pause").as_deref(), Some("Resume"));
    assert!(found(&one, "monitor:display-0").is_none());
    settings.layout = Layout::Split;
    assert!(found(&menu_for(&settings), "varied-modules").is_none());
    settings.layout = Layout::Separate;
    settings.module_by_monitor.insert("B", "dna");
    let menu = menu_for(&settings);
    assert_eq!(found(&menu, "varied-modules"), Some((true, true)));
    assert_eq!(found(&menu, "screen-module:A:inherit"), Some((true, true)));
    assert_eq!(found(&menu, "screen-module:B:inherit"), Some((false, true)));
    assert_eq!(found(&menu, "screen-module:B:dna"), Some((true, true)));
    assert_eq!(label(&menu, "screen-module:B:dna").as_deref(), Some("DNA"));
}

#[test]
fn monitors_are_listed_with_their_sizes() {
    let mut settings = Settings::default();
    settings.monitors = Monitors::Only(vec!["display-1".to_string()]);
    let menu = menu_for(&settings);
    assert_eq!(found(&menu, "monitor:A"), Some((false, true)));
    assert_eq!(found(&menu, "monitor:display-1"), Some((true, true)));
    assert_eq!(label(&menu, "monitor:A").as_deref(), Some("A  (800x600)"));
    assert_eq!(found(&menu, "monitors:all"), Some((false, true)));
    settings.monitors = Monitors::Primary;
    let menu = menu_for(&settings);
    assert_eq!(found(&menu, "monitors:primary"), Some((true, true)));
    assert_eq!(found(&menu, "monitor:display-1"), Some((false, true)));
}

#[test]
fn the_insets_are_told() {
    let mut settings = Settings::default();
    assert_eq!(
        label(&menu_for(&settings), "insets-info").as_deref(),
        Some("Extra edges: none (set in the settings file)"),
    );
    settings.insets = Insets { top: 1, right: -2, bottom: 40, left: 0 };
    assert_eq!(
        label(&menu_for(&settings), "insets-info").as_deref(),
        Some("Extra edges: 1 / -2 / 40 / 0 (T/R/B/L)"),
    );
}

#[test]
fn volumes_need_audio() {
    let mut settings = Settings::default();
    let menu = menu_for(&settings);
    assert_eq!(found(&menu, "sfx:0.22"), Some((true, false)));
    assert_eq!(found(&menu, "engine:0.12"), Some((true, false)));
    assert_eq!(found(&menu, "engine:0"), Some((false, false)));
    settings.audio = true;
    settings.sfx_volume = double(0.0);
    let menu = menu_for(&settings);
    assert_eq!(found(&menu, "sfx:0"), Some((true, true)));
    assert_eq!(label(&menu, "sfx:0").as_deref(), Some("Muted"));
    assert_eq!(found(&menu, "sfx:0.22"), Some((false, true)));
}

#[test]
fn the_behaviour_menu_shows_the_rules() {
    let mut settings = Settings::default();
    let menu = menu_for(&settings);
    assert_eq!(found(&menu, "pause-covered"), Some((true, true)));
    assert_eq!(found(&menu, "pause-fullscreen"), Some((true, false)));
    assert_eq!(found(&menu, "autostart"), Some((true, true)));
    assert_eq!(found(&menu, "shuffle:0"), Some((true, true)));
    assert_eq!(label(&menu, "shuffle:60").as_deref(), Some("Every hour"));
    settings.pause_when_covered = false;
    assert_eq!(found(&menu_for(&settings), "pause-fullscreen"), Some((true, true)));
}

#[test]
fn render_quality_tolerates_rounding() {
    let mut settings = Settings::default();
    settings.render_scale = double(0.8505);
    let menu = menu_for(&settings);
    assert_eq!(found(&menu, "render-scale:0.85"), Some((true, true)));
    assert_eq!(found(&menu, "render-scale:1"), Some((false, true)));
    assert_eq!(label(&menu, "render-scale:0.5").as_deref(), Some("50% (cheapest)"));
}

#[test]
fn chosen_entries_get_the_check_mark() {
    for id in [
        "module:starbase", "module:random", "layout:split", "layout:span", "layout:separate",
        "margin:2", "filter:grayScale", "shuffle:30", "fit:workarea", "fit:full",
        "background:black", "background:leave", "monitors:primary", "monitors:all",
    ] {
        let mut settings = Settings::default();
        click(&mut settings, id);
        assert_eq!(found(&menu_for(&settings), id), Some((true, true)), "{id}");
    }
    let mut settings = Settings::default();
    click(&mut settings, "screen-module:A:warpDrive");
    assert_eq!(found(&menu_for(&settings), "screen-module:A:warpDrive"), Some((true, true)));
    assert_eq!(found(&menu_for(&settings), "screen-module:B:inherit"), Some((true, true)));
    for (id, number) in [("render-scale:0.6", 0.6), ("sfx:0.36", 0.36), ("engine:1", 1.0)] {
        let mut settings = Settings::default();
        handle_menu_event(&mut settings, false, id, &inputs(Some(number)));
        assert_eq!(found(&menu_for(&settings), id).map(|entry| entry.0), Some(true), "{id}");
    }
}

#[test]
fn ids_are_parsed() {
    assert!(matches!(parse_command("quit"), Command::Quit));
    assert!(matches!(parse_command("monitors:all"), Command::AllMonitors));
    assert!(matches!(parse_command("module:entD"), Command::Module(name) if name == "entD"));
    assert!(matches!(
        parse_command("screen-module:\\\\.\\DISPLAY1:x:dna"),
        Command::ScreenModule(key, name) if key == "\\\\.\\DISPLAY1:x" && name == "dna"
    ));
    assert!(matches!(parse_command("screen-module:dna"), Command::Nothing));
    assert!(matches!(parse_command("monitor:A"), Command::Monitor(key) if key == "A"));
    assert!(matches!(parse_command("layout:else"), Command::Layout(Layout::Separate)));
    assert!(matches!(parse_command("margin:2"), Command::Margin(2)));
    assert!(matches!(parse_command("margin:256"), Command::Margin(0)));
    assert!(matches!(parse_command("shuffle:15"), Command::Shuffle(15)));
    assert!(matches!(parse_command("shuffle:often"), Command::Shuffle(0)));
    assert!(matches!(parse_command("fit:else"), Command::Fit(Fit::Full)));
    assert!(matches!(parse_command("background:else"), Command::Background(StaticBackground::Leave)));
    assert!(matches!(parse_command("about"), Command::Nothing));
    assert!(matches!(parse_command(""), Command::Nothing));
}

#[test]
fn only_fractions_have_to_be_read() {
    assert_eq!(number_wanted(&parse_command("sfx:0.6")), Some("0.6"));
    assert_eq!(number_wanted(&parse_command("engine:x")), Some("x"));
    assert_eq!(number_wanted(&parse_command("render-scale:0.75")), Some("0.75"));
    assert_eq!(number_wanted(&parse_command("margin:1")), None);
}

#[test]
fn quitting_is_the_last_thing() {
    let mut settings = Settings::default();
    let effects = click(&mut settings, "quit");
    assert!(matches!(effects[..], [Effect::Quit]));
}

#[test]
fn plain_items_ask_for_one_thing() {
    let mut settings = Settings::default();
    assert!(matches!(click(&mut settings, "pause")[..], [Effect::SetPaused(true), Effect::RefreshMenu]));
    let resumed = handle_menu_event(&mut settings, true, "pause", &inputs(None));
    assert!(matches!(resumed[..], [Effect::SetPaused(false), Effect::RefreshMenu]));
    assert!(matches!(click(&mut settings, "shuffle-now")[..], [Effect::Shuffle, Effect::RefreshMenu]));
    assert!(matches!(click(&mut settings, "reload")[..], [Effect::Rebuild, Effect::RefreshMenu]));
    assert!(matches!(
        click(&mut settings, "settings-file")[..],
        [Effect::OpenSettingsFolder, Effect::RefreshMenu]
    ));
    assert!(matches!(click(&mut settings, "autostart")[..], [Effect::ToggleAutostart, Effect::RefreshMenu]));
    assert!(matches!(click(&mut settings, "about")[..], [Effect::RefreshMenu]));
}

#[test]
fn switches_flip_and_are_saved() {
    let mut settings = Settings::default();
    assert!(matches!(click(&mut settings, "varied-modules")[..], [Effect::Save, Effect::RefreshMenu]));
    assert!(!settings.varied_modules);
    click(&mut settings, "varied-modules");
    assert!(settings.varied_modules);
    click(&mut settings, "boot-animation");
    click(&mut settings, "system-info");
    assert!(!settings.boot_animation && !settings.system_info);
}

#[test]
fn the_red_alert_is_silent() {
    let mut settings = Settings::default();
    let effects = click(&mut settings, "red-alert");
    assert!(settings.red_alert);
    assert!(matches!(
        &effects[..],
        [Effect::Save, Effect::Dispatch(entry), Effect::RefreshMenu]
            if entry.key.is_none() && entry.action == Action::SetRedAlert
                && matches!(entry.payload, Payload::RedAlert(true))
    ));
}

#[test]
fn audio_comes_on_at_its_volumes() {
    let mut settings = Settings::default();
    let on = click(&mut settings, "audio");
    assert_eq!(on.len(), 5);
    assert!(matches!(&on[1], Effect::Dispatch(entry) if entry.action == Action::AudioOn));
    assert!(matches!(
        &on[2],
        Effect::Dispatch(entry) if entry.action == Action::SetSfxVolume
            && matches!(entry.payload, Payload::Number(volume) if volume == double(0.22))
    ));
    assert!(matches!(&on[3], Effect::Dispatch(entry) if entry.action == Action::SetSbgVolume));
    let off = click(&mut settings, "audio");
    assert!(matches!(
        &off[..],
        [Effect::Save, Effect::Dispatch(entry), Effect::RefreshMenu] if entry.action == Action::AudioOff
    ));
}

#[test]
fn changing_a_pause_rule_shows_everything_again() {
    let mut settings = Settings::default();
    let expected = |effects: &[Effect]| {
        matches!(effects, [Effect::Save, Effect::SetPaused(false), Effect::RefreshMenu])
    };
    assert!(expected(&click(&mut settings, "pause-covered")));
    assert!(!settings.pause_when_covered);
    assert!(expected(&click(&mut settings, "pause-covered")));
    assert!(expected(&click(&mut settings, "pause-fullscreen")));
    assert!(!settings.pause_on_fullscreen);
    assert!(matches!(click(&mut settings, "pause-fullscreen")[..], [Effect::Save, Effect::RefreshMenu]));
}

#[test]
fn a_module_is_shuffled_in() {
    let mut settings = Settings::default();
    let effects = click(&mut settings, "module:dna");
    assert_eq!(settings.module, "dna");
    assert!(matches!(effects[..], [Effect::Save, Effect::Shuffle, Effect::RefreshMenu]));
}

#[test]
fn a_screen_is_told_its_module() {
    let mut settings = Settings::default();
    let effects = click(&mut settings, "screen-module:A:dna");
    assert_eq!(settings.module_by_monitor.get("A").map(String::as_str), Some("dna"));
    assert!(matches!(
        &effects[1],
        Effect::Dispatch(entry) if entry.key.as_deref() == Some("A")
            && entry.action == Action::SetActiveModule
            && matches!(&entry.payload, Payload::Text(name) if name == "dna")
    ));
    let effects = click(&mut settings, "screen-module:A:inherit");
    assert_eq!(settings.module_by_monitor.get("A"), None);
    assert!(matches!(
        &effects[1],
        Effect::Dispatch(entry) if matches!(&entry.payload, Payload::Text(name) if name == "entD")
    ));
}

#[test]
fn monitors_are_switched_one_by_one() {
    let all: Vec<String> = ["A", "B", "C"].iter().map(|key| key.to_string()).collect();
    let only = |keys: &[&str]| Monitors::Only(keys.iter().map(|key| key.to_string()).collect());
    assert_eq!(toggle_monitor(&Monitors::All, &all, "B"), Some(only(&["A", "C"])));
    assert_eq!(toggle_monitor(&Monitors::Primary, &all, "B"), Some(only(&["B"])));
    assert_eq!(toggle_monitor(&only(&["A", "C"]), &all, "B"), Some(Monitors::All));
    assert_eq!(toggle_monitor(&only(&["A", "C"]), &all, "A"), Some(only(&["C"])));
    assert_eq!(toggle_monitor(&only(&["C"]), &all, "C"), None);
    assert_eq!(toggle_monitor(&only(&["gone", "A"]), &all, "B"), Some(Monitors::All));
}

#[test]
fn the_last_monitor_stays() {
    let mut settings = Settings::default();
    settings.monitors = Monitors::Only(vec!["A".to_string()]);
    assert!(matches!(click(&mut settings, "monitor:A")[..], [Effect::RefreshMenu]));
    assert_eq!(settings.monitors, Monitors::Only(vec!["A".to_string()]));
    let effects = click(&mut settings, "monitor:B");
    assert!(matches!(effects[..], [Effect::Save, Effect::Rebuild, Effect::RefreshMenu]));
    assert_eq!(settings.monitors, Monitors::Only(vec!["A".to_string(), "B".to_string()]));
}

#[test]
fn filters_are_cleared_before_they_are_set() {
    let mut settings = Settings::default();
    let effects = click(&mut settings, "filter:softGlow");
    assert!(matches!(
        &effects[..],
        [Effect::Save, Effect::Dispatch(first), Effect::Dispatch(second), Effect::RefreshMenu]
            if matches!(first.payload, Payload::Null)
                && matches!(&second.payload, Payload::Text(name) if name == "softGlow")
                && second.action == Action::ToggleFilterEffects
    ));
    assert_eq!(click(&mut settings, "filter:none").len(), 3);
    assert_eq!(settings.filter, "none");
}

#[test]
fn numbers_that_cannot_be_read_fall_back() {
    let mut settings = Settings::default();
    settings.sfx_volume = double(1.0);
    settings.engine_volume = double(1.0);
    settings.render_scale = double(0.5);
    click(&mut settings, "sfx:loud");
    click(&mut settings, "engine:loud");
    let effects = click(&mut settings, "render-scale:best");
    assert_eq!(settings.sfx_volume, double(0.22));
    assert_eq!(settings.engine_volume, double(0.12));
    assert_eq!(settings.render_scale, double(1.0));
    assert!(matches!(effects[..], [Effect::Save, Effect::Rebuild, Effect::RefreshMenu]));
}

#[test]
fn the_same_choice_rebuilds_nothing() {
    let mut settings = Settings::default();
    assert!(matches!(click(&mut settings, "fit:full")[..], [Effect::RefreshMenu]));
    assert!(matches!(click(&mut settings, "background:leave")[..], [Effect::RefreshMenu]));
    let same = handle_menu_event(&mut settings, false, "render-scale:1", &inputs(Some(1.0)));
    assert!(matches!(same[..], [Effect::RefreshMenu]));
    let changed = click(&mut settings, "background:black");
    assert!(matches!(
        changed[..],
        [Effect::Save, Effect::ApplyBackground, Effect::Rebuild, Effect::RefreshMenu]
    ));
    assert_eq!(settings.static_background, StaticBackground::Black);
}

#[test]
fn commands_leave_the_menu_to_the_event() {
    let mut settings = Settings::default();
    let effects = handle_command(&mut settings, false, &Command::Margin(1), &inputs(None));
    assert!(matches!(
        &effects[..],
        [Effect::Save, Effect::Dispatch(entry)]
            if entry.action == Action::SetMargin && matches!(entry.payload, Payload::Whole(1))
    ));
    assert_eq!(settings.margin, 1);
}

fn reload(settings: &mut Settings, file: Option<Settings>) -> Vec<Effect> {
    handle_menu_event(settings, false, "reload", &Inputs { file, ..inputs(None) })
}

#[test]
fn reloading_takes_up_the_edited_file() {
    let mut settings = Settings::default();
    let mut file = Settings::default();
    file.fit = Fit::WorkArea;
    file.insets = Insets { top: 0, right: 0, bottom: 40, left: 0 };
    file.monitors = Monitors::Only(vec!["A".to_string()]);
    file.module_by_monitor.insert("A", "dna");
    file.saved_wallpaper = Some("a.jpg".to_string());
    let effects = reload(&mut settings, Some(file));
    assert!(matches!(effects[..], [Effect::Rebuild, Effect::RefreshMenu]));
    assert_eq!(settings.fit, Fit::WorkArea);
    assert_eq!(settings.insets, Insets { top: 0, right: 0, bottom: 40, left: 0 });
    assert_eq!(settings.monitors, Monitors::Only(vec!["A".to_string()]));
    assert_eq!(settings.module_by_monitor.get("A").map(String::as_str), Some("dna"));
    assert_eq!(settings.module_by_monitor.len(), 1);
    assert_eq!(settings.saved_wallpaper.as_deref(), Some("a.jpg"));
    assert_eq!(settings.module, "random");
}

#[test]
fn reloading_another_background_applies_it() {
    let mut settings = Settings::default();
    let mut file = Settings::default();
    file.static_background = StaticBackground::Black;
    let effects = reload(&mut settings, Some(file));
    assert!(matches!(
        effects[..],
        [Effect::ApplyBackground, Effect::Rebuild, Effect::RefreshMenu]
    ));
    assert_eq!(settings.static_background, StaticBackground::Black);
}

#[test]
fn reloading_an_unreadable_file_keeps_the_settings() {
    let mut settings = Settings::default();
    settings.module = "dna".to_string();
    let effects = reload(&mut settings, None);
    assert!(matches!(effects[..], [Effect::Rebuild, Effect::RefreshMenu]));
    assert_eq!(settings.module, "dna");
}

#[test]
fn only_reloading_wants_the_file() {
    assert!(file_wanted(&parse_command("reload")));
    assert!(!file_wanted(&parse_command("settings-file")));
    assert!(!file_wanted(&parse_command("module:dna")));
}

#[test]
fn a_choice_made_twice_does_nothing_the_second_time() {
    for (id, number) in [
        ("fit:workarea", None),
        ("background:black", None),
        ("render-scale:0.85", Some(0.85)),
        ("render-scale:0.75", Some(0.75)),
        ("render-scale:0.6", Some(0.6)),
        ("render-scale:0.5", Some(0.5)),
    ] {
        let mut settings = Settings::default();
        let first = handle_menu_event(&mut settings, false, id, &inputs(number));
        assert!(first.len() > 1, "{id}");
        let second = handle_menu_event(&mut settings, false, id, &inputs(number));
        assert!(matches!(second[..], [Effect::RefreshMenu]), "{id}");
    }
}
