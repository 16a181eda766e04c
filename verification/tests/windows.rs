use lcars_wallpaper::binary64::{Binary64, ONE};
use lcars_wallpaper::bridge::{
    css_scale, dispatch_call, init_script, split_viewport_js, webapp_config, window_state_json, Action,
    CssSlice, Payload, Viewport,
};
use lcars_wallpaper::desktop::{Host, HostMode};
use lcars_wallpaper::geometry::{union, Rect};
use lcars_wallpaper::layout::{
    is_wallpaper_label, layout_signature, monitor_keys, monitor_rects, monitors_fit, plan_fits, plan_windows,
    same_signature, select_targets, targets, targets_fit, window_rects, Desktop, MonitorInfo, Roll, Scale,
    Target,
};
use lcars_wallpaper::settings::{Fit, Insets, Layout, Monitors, Settings};
use lcars_wallpaper::stats::{
    elapsed_span, is_loopback, rate_step, to_rate, Rate, RateStep, Snapshot, Stats,
};
use lcars_wallpaper::supervisor::{Report, RendererStep, TickEvent, TickStep};
use lcars_wallpaper::wallpaper::{
    set_window_running, AutoPause, CoverageQuestion, Dispatch, State, WindowStep,
};

fn rect(x: i32, y: i32, width: i32, height: i32) -> Rect {
    Rect { x, y, width, height }
}

fn double(value: f64) -> Binary64 {
    Binary64 { bits: value.to_bits() }
}

fn scale(factor: f64) -> Scale {
    Scale { factor: double(factor), percent: (factor * 100.0).round() as u32 }
}

fn monitor(name: Option<&str>, x: i32, factor: f64) -> MonitorInfo {
    MonitorInfo {
        name: name.map(str::to_string),
        x,
        y: 0,
        width: 1920,
        height: 1080,
        scale: scale(factor),
        work_area: rect(x, 0, 1920, 1040),
    }
}

fn two_monitors() -> Desktop {
    Desktop {
        monitors: vec![monitor(Some("LEFT"), -1920, 1.25), monitor(None, 0, 1.0)],
        primary_name: Some("LEFT".to_string()),
        primary_scale: Some(scale(1.25)),
        virtual_screen: rect(-1920, 0, 3840, 1080),
    }
}

fn keys(list: &[Target]) -> Vec<String> {
    list.iter().map(|target| target.key.clone()).collect()
}

fn rolls(modules: &[&str]) -> Vec<Roll> {
    modules
        .iter()
        .map(|module| Roll { module: module.to_string(), page_scale: double(1.0) })
        .collect()
}

#[test]
fn every_monitor_gets_a_window() {
    let settings = Settings::default();
    let desktop = two_monitors();
    assert!(monitors_fit(&settings, &desktop));
    let list = targets(&settings, &desktop);
    assert_eq!(keys(&list), ["LEFT", "display-1"]);
    assert_eq!(list[0].name, "LEFT  (1920x1080)");
    assert_eq!(list[1].name, "display-1  (1920x1080)");
    assert_eq!(list[0].bounds, rect(-1920, 0, 1920, 1080));
    assert_eq!(list[0].monitor, rect(-1920, 0, 1920, 1080));
    assert_eq!(monitor_keys(&desktop.monitors), ["LEFT", "display-1"]);
}

#[test]
fn the_fit_and_the_insets_shape_the_windows() {
    let mut settings = Settings::default();
    settings.fit = Fit::WorkArea;
    settings.insets = Insets { top: 5, right: 10, bottom: 0, left: 20 };
    let list = targets(&settings, &two_monitors());
    assert_eq!(list[1].bounds, rect(20, 5, 1890, 1035));
    assert_eq!(list[1].monitor, rect(0, 0, 1920, 1080));
}

#[test]
fn monitors_can_be_chosen() {
    let mut settings = Settings::default();
    settings.monitors = Monitors::Primary;
    assert_eq!(keys(&select_targets(&settings, &two_monitors())), ["LEFT"]);
    settings.monitors = Monitors::Only(vec!["display-1".to_string()]);
    assert_eq!(keys(&select_targets(&settings, &two_monitors())), ["display-1"]);
}

#[test]
fn there_is_a_window_even_without_monitors() {
    let mut settings = Settings::default();
    settings.monitors = Monitors::Only(vec!["gone".to_string()]);
    let list = targets(&settings, &two_monitors());
    assert_eq!(keys(&list), ["primary"]);
    assert_eq!(list[0].name, "Primary");
    assert_eq!(list[0].bounds, rect(-1920, 0, 3840, 1080));
    assert_eq!(list[0].scale, scale(1.25));
    let nothing = Desktop { monitors: vec![], primary_name: None, primary_scale: None, ..two_monitors() };
    assert_eq!(targets(&Settings::default(), &nothing)[0].scale, scale(1.0));
}

#[test]
fn the_span_layout_has_one_window_over_everything() {
    let mut settings = Settings::default();
    settings.layout = Layout::Span;
    settings.insets = Insets { top: 10, ..Insets::default() };
    let list = targets(&settings, &two_monitors());
    assert_eq!(keys(&list), ["span"]);
    assert_eq!(list[0].name, "All screens");
    assert_eq!(list[0].bounds, rect(-1920, 10, 3840, 1070));
    assert_eq!(list[0].monitor, rect(-1920, 0, 3840, 1080));
    assert_eq!(list[0].scale, scale(1.25));
}

#[test]
fn impossible_insets_are_noticed() {
    let mut settings = Settings::default();
    settings.insets = Insets { left: i32::MAX, ..Insets::default() };
    let mut desktop = two_monitors();
    desktop.monitors[1].x = 1;
    assert!(!monitors_fit(&settings, &desktop));
    assert!(!targets_fit(&settings, &desktop));
    let mut span = Settings::default();
    assert!(targets_fit(&span, &two_monitors()));
    span.layout = Layout::Span;
    assert!(targets_fit(&span, &two_monitors()));
    let mut far = two_monitors();
    far.monitors[1].x = i32::MAX - 2000;
    assert!(!targets_fit(&span, &far));
}

#[test]
fn signatures_follow_the_screens() {
    let settings = Settings::default();
    let known = layout_signature(&targets(&settings, &two_monitors()));
    assert_eq!(known[0].percent, 125);
    assert!(same_signature(&known, &layout_signature(&targets(&settings, &two_monitors()))));

    let mut scaled = two_monitors();
    scaled.monitors[1].scale = scale(1.5);
    assert!(!same_signature(&known, &layout_signature(&targets(&settings, &scaled))));
    let mut moved = two_monitors();
    moved.monitors[1].y = 1;
    assert!(!same_signature(&known, &layout_signature(&targets(&settings, &moved))));
    let mut fewer = two_monitors();
    fewer.monitors.remove(1);
    assert!(!same_signature(&known, &layout_signature(&targets(&settings, &fewer))));
}

#[test]
fn windows_are_planned_one_by_one() {
    let mut settings = Settings::default();
    let list = targets(&settings, &two_monitors());
    assert!(plan_fits(settings.layout, &window_rects(&list)));
    let plans = plan_windows(&settings, &list, 7, "ent", &rolls(&["dna", "entD"]));
    assert_eq!(plans[0].label, "wallpaper-7-0");
    assert_eq!(plans[1].label, "wallpaper-7-1");
    assert_eq!((plans[0].module.as_str(), plans[1].module.as_str()), ("dna", "entD"));
    assert!(plans[0].is_first && !plans[1].is_first);
    assert_eq!(plans[0].viewport, None);
    assert!(is_wallpaper_label(&plans[1].label));
    assert!(!is_wallpaper_label("main"));

    settings.layout = Layout::Split;
    let plans = plan_windows(&settings, &list, 8, "ent", &rolls(&["dna", "entD"]));
    assert_eq!((plans[0].module.as_str(), plans[1].module.as_str()), ("ent", "ent"));
    assert_eq!(
        plans[1].viewport,
        Some(Viewport {
            scene: rect(-1920, 0, 3840, 1080),
            offset_x: 1920,
            offset_y: 0,
            scale: double(1.0),
        }),
    );
    assert_eq!(plans[0].viewport.map(|viewport| viewport.offset_x), Some(0));
}

#[test]
fn plans_out_of_range_are_refused() {
    assert!(!plan_fits(Layout::Separate, &vec![rect(i32::MAX, 0, 1, 1)]));
    assert!(plan_fits(Layout::Split, &vec![rect(-5, 0, 10, 10), rect(5, 0, 10, 10)]));
}

#[test]
fn only_the_first_window_waits_for_the_boot_animation() {
    let mut settings = Settings::default();
    let first = webapp_config(&settings, Some("ent"), true);
    assert!(first.show_loading_display && first.force_wait_on_loading);
    assert!(!first.gray_scale_loading_efx);
    assert_eq!(first.initial_module_name.as_deref(), Some("ent"));
    let other = webapp_config(&settings, None, false);
    assert!(other.show_loading_display && !other.force_wait_on_loading);
    assert!(other.gray_scale_loading_efx);
    assert_eq!(other.initial_module_name, None);
    settings.boot_animation = false;
    let silent = webapp_config(&settings, None, true);
    assert!(!silent.show_loading_display && !silent.force_wait_on_loading);
}

#[test]
fn a_scale_that_says_nothing_counts_as_one() {
    assert_eq!(css_scale(double(1.5)), double(1.5));
    for scale in [0.0, -0.0, -2.0, f64::NAN] {
        assert_eq!(css_scale(double(scale)).bits, ONE);
    }
}

const SLICE: CssSlice = CssSlice { width: 3840, height: 1080, left: 1920, top: -10 };

#[test]
fn the_viewport_is_shifted_to_the_slice() {
    let script = split_viewport_js(SLICE);
    assert!(script.starts_with("  const sceneWidth = 3840;\n  const sceneHeight = 1080;\n"));
    assert!(script.contains("transform: translate(-1920px, 10px) !important;"));
    assert!(script.contains("width: ${sceneWidth}px !important;"));
    assert!(script.ends_with("setTimeout(applyViewport, delay);"));
    let origin = split_viewport_js(CssSlice { left: 0, top: 0, ..SLICE });
    assert!(origin.contains("translate(0px, 0px)"));
}

fn concat_config(config: &str) -> String {
    format!(
        "(() => {{\n  if (window.electronAPI) return;\n\n  const config = {config};\n  const listeners = [];\n",
    )
}

#[test]
fn the_configuration_is_json() {
    let settings = Settings::default();
    assert_eq!(
        webapp_config(&settings, Some("a\"b"), false).json(),
        "{\"showLoadingDisplay\":true,\"forceWaitOnLoading\":false,\"grayScaleLoadingEfx\":true,\"initialModuleName\":\"a\\\"b\"}",
    );
    assert_eq!(
        webapp_config(&settings, None, true).json(),
        "{\"showLoadingDisplay\":true,\"forceWaitOnLoading\":true,\"grayScaleLoadingEfx\":false}",
    );
}

#[test]
fn dispatches_are_scripts() {
    let margin = Dispatch { key: None, action: Action::SetMargin, payload: Payload::Whole(2) };
    assert_eq!(margin.number(), None);
    assert_eq!(
        margin.script("7"),
        "window.__titanDispatch && window.__titanDispatch(\"set-margin\", 2);",
    );
    let volume = Dispatch {
        key: None,
        action: Action::SetSfxVolume,
        payload: Payload::Number(double(0.22)),
    };
    assert_eq!(volume.number(), Some(double(0.22)));
    assert_eq!(
        volume.script("0.22"),
        "window.__titanDispatch && window.__titanDispatch(\"set-sfx-volume\", 0.22);",
    );
}

#[test]
fn the_script_holds_the_configuration() {
    let mut settings = Settings::default();
    let script = init_script(&settings, Some("dna"), true, Some(SLICE));
    assert!(script.starts_with(concat_config(
        "{\"showLoadingDisplay\":true,\"forceWaitOnLoading\":true,\"grayScaleLoadingEfx\":false,\"initialModuleName\":\"dna\"}",
    ).as_str()));
    assert!(script.ends_with("  };\n\n\n})();"));
    assert!(!script.contains("sceneWidth"));
    settings.layout = Layout::Split;
    let split = init_script(&settings, None, false, Some(SLICE));
    assert!(split.contains(split_viewport_js(SLICE).as_str()));
    assert_eq!(init_script(&settings, None, false, None).contains("sceneWidth"), false);
}

#[test]
fn actions_are_called_by_name() {
    assert_eq!(
        dispatch_call(Action::SetMargin.name(), Payload::Whole(2).json().unwrap().as_str()),
        "window.__titanDispatch && window.__titanDispatch(\"set-margin\", 2);",
    );
    assert_eq!(Action::AudioOn.name(), "audio-on");
    assert_eq!(Action::SetSbgVolume.name(), "set-sbg-volume");
    assert_eq!(Action::SystemInfoUpdated.name(), "system-info-updated");
}

#[test]
fn payloads_are_json() {
    assert_eq!(Payload::Null.json().as_deref(), Some("null"));
    assert_eq!(Payload::Bool(false).json().as_deref(), Some("false"));
    assert_eq!(Payload::Text("a\"b".to_string()).json().as_deref(), Some("\"a\\\"b\""));
    assert_eq!(Payload::Json("[1]".to_string()).json().as_deref(), Some("[1]"));
    assert_eq!(Payload::Number(double(0.5)).json(), None);
    let json = Payload::RedAlert(true).json().unwrap();
    let value: serde_json::Value = serde_json::from_str(json.as_str()).unwrap();
    assert_eq!(value["redAlertActive"], true);
    assert_eq!(value["silentRedAlert"], true);
}

#[test]
fn rates_climb_through_the_units() {
    assert_eq!(rate_step(double(0.5), 0), RateStep::Format(3));
    assert_eq!(rate_step(double(1.0), 0), RateStep::Format(2));
    assert_eq!(rate_step(double(10.0), 0), RateStep::Format(1));
    assert_eq!(rate_step(double(100.0), 0), RateStep::Format(0));
    assert_eq!(rate_step(double(999.9), 3), RateStep::Format(0));
    assert_eq!(rate_step(double(1000.0), 3), RateStep::Divide);
    assert_eq!(rate_step(double(0.5), 4), RateStep::Saturated);
    assert_eq!(rate_step(double(f64::NAN), 0), RateStep::Format(0));
    let rate = to_rate(Some("1.50".to_string()), 1);
    assert_eq!((rate.value.as_str(), rate.unit), ("1.50", "mb/s"));
    let beyond = to_rate(None, 4);
    assert_eq!((beyond.value.as_str(), beyond.unit), ("999", "Zb/s"));
}

#[test]
fn readings_span_at_least_a_tenth_of_a_second() {
    assert_eq!(elapsed_span(None), double(1.0));
    assert_eq!(elapsed_span(Some(double(2.5))), double(2.5));
    assert_eq!(elapsed_span(Some(double(0.01))), double(0.1));
    assert_eq!(elapsed_span(Some(double(0.1))), double(0.1));
}

fn snapshot(time: u64) -> Snapshot {
    let rate = Rate { value: "0".to_string(), unit: "kb/s" };
    Snapshot {
        cpu_current_load_percentage: double(0.0),
        mem_used_percentage: double(0.0),
        rx_sec_percentage: double(0.0),
        tx_sec_percentage: double(0.0),
        rx_sec_bytes: rate.clone(),
        tx_sec_bytes: rate,
        time,
    }
}

#[test]
fn recent_readings_are_handed_out_again() {
    let mut stats = Stats::new();
    assert!(stats.read(None).is_none());
    assert!(stats.read(Some(5)).is_none());
    stats.remember(snapshot(42));
    assert_eq!(stats.read(Some(2010)).map(|reading| reading.time), Some(42));
    assert!(stats.read(Some(2011)).is_none());
    assert!(stats.read(None).is_none());
}

#[test]
fn the_peak_is_the_highest_of_the_session() {
    let mut stats = Stats::new();
    for rate in [3.0, f64::NAN, 40.0, 0.5, 12.0] {
        stats.note(double(rate), double(rate / 100.0));
    }
    assert_eq!((stats.peak_rx, stats.peak_tx), (double(40.0), double(1.0)));
}

#[test]
fn peaks_only_rise() {
    let mut stats = Stats::new();
    stats.note(double(500.0), double(0.5));
    assert_eq!((stats.peak_rx, stats.peak_tx), (double(500.0), double(1.0)));
    stats.note(double(20.0), double(f64::NAN));
    assert_eq!((stats.peak_rx, stats.peak_tx), (double(500.0), double(1.0)));
}

#[test]
fn loopback_interfaces_are_left_out() {
    assert!(is_loopback("lo"));
    assert!(is_loopback("Local Area Connection"));
    assert!(is_loopback("Npcap LOOPBACK Adapter"));
    assert!(!is_loopback("Ethernet"));
    assert!(!is_loopback("l"));
    assert!(!is_loopback(""));
}

const HOST: Host = Host { hwnd: 40, progman: 4, mode: HostMode::WorkerW };

fn running(settings: Settings) -> State {
    let mut state = State::new(settings);
    state.host = Some(HOST);
    let list = targets(&state.settings, &two_monitors());
    let count = list.len();
    let names: Vec<&str> = ["dna", "entD"][..count].to_vec();
    let plans = plan_windows(&state.settings, &list, 0, "ent", &rolls(&names));
    let handles: Vec<Option<isize>> = (0..count).map(|i| Some(100 + i as isize)).collect();
    state.start(&list, &plans, &handles);
    state
}

#[test]
fn windows_start_out_showing() {
    let mut settings = Settings::default();
    settings.margin = 2;
    settings.red_alert = true;
    let state = running(settings);
    assert_eq!(state.screens.len(), 2);
    let screen = &state.screens[1];
    assert_eq!((screen.label.as_str(), screen.key.as_str()), ("wallpaper-0-1", "display-1"));
    assert_eq!((screen.hwnd, screen.module.as_str()), (101, "entD"));
    assert!(!screen.hidden && !screen.awake && screen.red_alert && screen.margin == 2);
    assert_eq!(state.signature.len(), 2);
    assert_eq!(state.handles(), [100, 101]);
    assert!(!state.is_paused());
}

#[test]
fn windows_that_fail_to_open_are_left_out() {
    let mut state = State::new(Settings::default());
    let list = targets(&state.settings, &two_monitors());
    let plans = plan_windows(&state.settings, &list, 0, "ent", &rolls(&["dna", "entD"]));
    state.start(&list, &plans, &vec![None, Some(5)]);
    assert_eq!(state.screens.len(), 1);
    assert_eq!(state.screens[0].label, "wallpaper-0-1");
    assert_eq!(state.signature.len(), 2);
}

#[test]
fn stopping_forgets_the_windows_and_repaints() {
    let mut state = running(Settings::default());
    assert_eq!(state.stop(), [4, 40]);
    assert!(state.screens.is_empty());
    state.host = None;
    assert!(state.stop().is_empty());
}

#[test]
fn showing_windows_are_pinned() {
    let mut state = running(Settings::default());
    let origin = rect(-1920, 0, 3840, 1080);
    assert!(state.can_pin_all(origin));
    let places = state.pin_all(origin);
    assert_eq!(places.len(), 2);
    assert_eq!((places[1].0, places[1].1.x, places[1].1.to_bottom), (101, 1920, false));
    state.screens[0].hidden = true;
    assert_eq!(state.pin_all(origin).len(), 1);
    state.host = None;
    assert!(state.pin_all(origin).is_empty());
    state.screens[0].bounds = rect(i32::MAX, 0, 1, 1);
    assert!(!state.can_pin_all(origin));
}

#[test]
fn windows_are_known_by_label() {
    let mut state = running(Settings::default());
    assert_eq!(state.key_of("wallpaper-0-0").as_deref(), Some("LEFT"));
    assert_eq!(state.key_of("main"), None);
    state.screens[1].red_alert = true;
    state.screens[1].margin = 1;
    assert_eq!(state.window_state("wallpaper-0-1"), (true, 1));
    assert_eq!(state.window_state("main"), (false, 0));
}

#[test]
fn dispatches_go_to_one_monitor_or_to_all() {
    let state = running(Settings::default());
    assert_eq!(state.dispatch(None), ["wallpaper-0-0", "wallpaper-0-1"]);
    assert_eq!(state.dispatch(Some("display-1")), ["wallpaper-0-1"]);
    assert!(state.dispatch(Some("gone")).is_empty());
}

#[test]
fn hidden_windows_are_woken_once_and_parked_again() {
    let mut state = running(Settings::default());
    assert!(!state.wake("wallpaper-0-0"));
    state.update_auto_pause(&vec![true, false]);
    assert!(state.wake("wallpaper-0-0"));
    assert!(!state.wake("wallpaper-0-0"));
    assert!(!state.wake("wallpaper-0-1"));
    assert!(!state.wake("main"));
    assert!(state.screens[0].hidden && state.screens[0].awake);
    assert_eq!(state.park_woken_screens(), ["wallpaper-0-0"]);
    assert!(state.screens[0].hidden && !state.screens[0].awake);
    assert!(state.park_woken_screens().is_empty());
}

#[test]
fn pages_stop_after_they_turn_invisible() {
    assert_eq!(
        set_window_running(false),
        [WindowStep::Hide, WindowStep::SetVisible(false), WindowStep::Suspend],
    );
    assert_eq!(
        set_window_running(true),
        [WindowStep::Resume, WindowStep::SetVisible(true), WindowStep::Show],
    );
}

fn actions(list: &[Dispatch]) -> Vec<Action> {
    list.iter().map(|entry| entry.action).collect()
}

#[test]
fn fresh_pages_get_the_settings() {
    let mut settings = Settings::default();
    let state = running(settings.clone());
    let plain = state.apply_settings("wallpaper-0-1");
    assert_eq!(actions(&plain), [Action::SetBorderOnMouseOver, Action::AudioOff]);
    assert_eq!(plain[0].key.as_deref(), Some("display-1"));
    assert!(matches!(plain[0].payload, Payload::Bool(false)));
    assert!(state.apply_settings("main").is_empty());

    settings.margin = 1;
    settings.filter = "softGlow".to_string();
    settings.audio = true;
    settings.red_alert = true;
    let full = running(settings).apply_settings("wallpaper-0-0");
    assert_eq!(
        actions(&full),
        [
            Action::SetBorderOnMouseOver,
            Action::SetMargin,
            Action::ToggleFilterEffects,
            Action::AudioOn,
            Action::SetSfxVolume,
            Action::SetSbgVolume,
            Action::SetRedAlert,
        ],
    );
    assert!(matches!(full[1].payload, Payload::Whole(1)));
    assert!(matches!(&full[2].payload, Payload::Text(name) if name == "softGlow"));
    assert!(matches!(full[4].payload, Payload::Number(volume) if volume == double(0.22)));
    assert!(matches!(full[5].payload, Payload::Number(volume) if volume == double(0.12)));
    assert!(matches!(full[6].payload, Payload::RedAlert(true)));
}

#[test]
fn shuffling_tells_every_page() {
    let mut state = running(Settings::default());
    let list = state.shuffle("ent", &vec!["entF".to_string(), "entG".to_string()]);
    assert_eq!((state.screens[0].module.as_str(), state.screens[1].module.as_str()), ("entF", "entG"));
    assert_eq!(actions(&list), [Action::SetActiveModule, Action::SetActiveModule]);
    assert_eq!(list[1].key.as_deref(), Some("display-1"));
    assert!(matches!(&list[1].payload, Payload::Text(name) if name == "entG"));
    state.settings.layout = Layout::Split;
    state.shuffle("ent", &vec!["entF".to_string(), "entG".to_string()]);
    assert_eq!((state.screens[0].module.as_str(), state.screens[1].module.as_str()), ("ent", "ent"));
}

#[test]
fn pausing_hides_every_window() {
    let mut state = running(Settings::default());
    assert_eq!(state.set_paused(true), ["wallpaper-0-0", "wallpaper-0-1"]);
    assert!(state.is_paused() && state.screens.iter().all(|screen| screen.hidden));
    assert_eq!(state.coverage_tick(), AutoPause::Never);
    state.set_paused(false);
    assert!(!state.is_paused() && state.screens.iter().all(|screen| !screen.hidden));
}

#[test]
fn coverage_is_judged_by_the_settings() {
    let mut state = running(Settings::default());
    assert_eq!(state.coverage_tick(), AutoPause::WhenCovered);
    state.settings.pause_when_covered = false;
    assert_eq!(state.coverage_tick(), AutoPause::OnFullscreen);
    state.settings.pause_on_fullscreen = false;
    assert_eq!(state.coverage_tick(), AutoPause::Never);
    assert_eq!(State::new(Settings::default()).coverage_tick(), AutoPause::Never);
}

#[test]
fn fullscreen_is_asked_of_the_monitor_and_coverage_of_the_window() {
    let mut settings = Settings::default();
    settings.fit = Fit::WorkArea;
    let state = running(settings);
    let screen = &state.screens[1];
    assert_eq!(AutoPause::Never.question(screen), CoverageQuestion::Nothing);
    assert_eq!(
        AutoPause::OnFullscreen.question(screen),
        CoverageQuestion::Fullscreen(rect(0, 0, 1920, 1080)),
    );
    assert_eq!(
        AutoPause::WhenCovered.question(screen),
        CoverageQuestion::Windows(rect(0, 0, 1920, 1040)),
    );
}

#[test]
fn screens_pause_independently() {
    let mut state = running(Settings::default());
    let changes = state.update_auto_pause(&vec![false, true]);
    assert_eq!(changes, [("wallpaper-0-1".to_string(), true)]);
    assert!(!state.screens[0].hidden && state.screens[1].hidden);
    assert!(state.update_auto_pause(&vec![false, true]).is_empty());
    let back = state.update_auto_pause(&vec![true, false]);
    assert_eq!(back, [("wallpaper-0-0".to_string(), true), ("wallpaper-0-1".to_string(), false)]);
}

#[test]
fn ticks_rebuild_after_an_explorer_restart() {
    let mut state = running(Settings::default());
    let facts = state.tick_facts(0);
    assert_eq!(state.tick(facts, &TickEvent::Started), TickStep::AskHost(HOST));
    assert_eq!(state.tick(facts, &TickEvent::HostAlive(false)), TickStep::Rebuild);
    assert_eq!(state.tick(facts, &TickEvent::HostAlive(true)), TickStep::AskLayout);
    state.host = None;
    assert_eq!(state.tick(state.tick_facts(0), &TickEvent::Started), TickStep::Rebuild);
}

#[test]
fn ticks_leave_the_fallback_host() {
    let mut state = running(Settings::default());
    state.host = Some(Host { mode: HostMode::Progman, ..HOST });
    let facts = state.tick_facts(0);
    assert!(facts.on_fallback_host);
    assert_eq!(state.tick(facts, &TickEvent::HostAlive(true)), TickStep::AskWorker);
    assert_eq!(state.tick(facts, &TickEvent::Worker(9)), TickStep::Rebuild);
    assert_eq!(state.tick(facts, &TickEvent::Worker(0)), TickStep::AskLayout);
}

#[test]
fn ticks_notice_a_changed_layout() {
    let mut state = running(Settings::default());
    state.settings.shuffle_minutes = 15;
    let now = layout_signature(&targets(&state.settings, &two_monitors()));
    let facts = state.tick_facts(899);
    assert_eq!(state.tick(facts, &TickEvent::Layout(now)), TickStep::Settle { shuffle: false });
    let now = layout_signature(&targets(&state.settings, &two_monitors()));
    let due = state.tick_facts(900);
    assert_eq!(state.tick(due, &TickEvent::Layout(now)), TickStep::Settle { shuffle: true });
    assert_eq!(state.tick(due, &TickEvent::Layout(vec![])), TickStep::Relayout);
}

#[test]
fn shuffling_can_be_off() {
    let mut state = running(Settings::default());
    assert!(!state.tick_facts(u64::MAX).shuffle_due);
    state.settings.shuffle_minutes = u64::MAX;
    assert!(!state.tick_facts(u64::MAX).shuffle_due);
}

fn json(text: &str) -> Option<serde_json::Value> {
    serde_json::from_str(text).ok()
}

#[test]
fn reports_are_read_from_payloads() {
    let report = Report::read(&json("{\"marginStyle\": 2, \"redAlertActive\": true}"));
    assert_eq!((report.margin_style, report.red_alert_active), (Some(2), Some(true)));
    for text in ["{}", "[1]", "null", "{\"marginStyle\": -1}", "{\"marginStyle\": 1.5, \"redAlertActive\": 1}"] {
        let report = Report::read(&json(text));
        assert_eq!((report.margin_style, report.red_alert_active), (None, None), "{text}");
    }
    let report = Report::read(&None);
    assert_eq!((report.margin_style, report.red_alert_active), (None, None));
}

#[test]
fn pages_are_answered() {
    let mut state = running(Settings::default());
    let none = Report::read(&None);
    let step = state.renderer_action("wallpaper-0-0", "webapp-ready", &none);
    assert!(matches!(step, RendererStep::ApplySettings));
    let step = state.renderer_action("wallpaper-0-1", "request-system-info", &none);
    assert!(matches!(step, RendererStep::SystemInfo(key) if key == "display-1"));
    let step = state.renderer_action("main", "request-system-info", &none);
    assert!(matches!(step, RendererStep::Nothing));
    state.settings.system_info = false;
    let step = state.renderer_action("wallpaper-0-1", "request-system-info", &none);
    assert!(matches!(step, RendererStep::Nothing));
    let step = state.renderer_action("wallpaper-0-1", "something-else", &none);
    assert!(matches!(step, RendererStep::Nothing));
}

#[test]
fn pages_report_their_margin_and_alert() {
    let mut state = running(Settings::default());
    let report = Report::read(&json("{\"marginStyle\": 258, \"redAlertActive\": true}"));
    state.renderer_action("wallpaper-0-1", "screen-margin-updated", &report);
    assert_eq!(state.window_state("wallpaper-0-1"), (false, 2));
    state.renderer_action("wallpaper-0-1", "red-alert-updated", &report);
    assert_eq!(state.window_state("wallpaper-0-1"), (true, 2));
    assert_eq!(state.window_state("wallpaper-0-0"), (false, 0));
    let none = Report::read(&None);
    state.renderer_action("wallpaper-0-1", "screen-margin-updated", &none);
    state.renderer_action("wallpaper-0-1", "red-alert-updated", &none);
    assert_eq!(state.window_state("wallpaper-0-1"), (false, 0));
}

#[test]
fn pages_learn_the_state_of_their_window() {
    let value: serde_json::Value =
        serde_json::from_str(window_state_json(true, 2).as_str()).unwrap();
    assert_eq!(value["windowType"], "main");
    assert_eq!(value["titleBarStyle"], "hidden");
    assert_eq!(value["redAlertActive"], true);
    assert_eq!(value["silentRedAlert"], true);
    assert_eq!(value["marginStyle"], 2);
    assert_eq!(value.as_object().map(|fields| fields.len()), Some(5));
}

#[test]
fn labels_are_never_reused() {
    let settings = Settings::default();
    let desktop = Desktop {
        monitors: (0..12).map(|i| monitor(None, i * 1920, 1.0)).collect(),
        ..two_monitors()
    };
    let list = targets(&settings, &desktop);
    let names: Vec<&str> = vec!["ent"; 12];
    let mut labels: Vec<String> = Vec::new();
    for generation in 0..12 {
        for plan in plan_windows(&settings, &list, generation, "ent", &rolls(&names)) {
            assert!(!labels.contains(&plan.label), "{}", plan.label);
            labels.push(plan.label);
        }
    }
    assert_eq!(labels.len(), 144);
}

#[test]
fn span_joins_the_separate_windows() {
    let mut settings = Settings::default();
    settings.fit = Fit::WorkArea;
    settings.insets = Insets { top: 10, right: 0, bottom: 0, left: 5 };
    let separate = targets(&settings, &two_monitors());
    settings.layout = Layout::Span;
    let span = targets(&settings, &two_monitors());
    assert_eq!(span.len(), 1);
    assert_eq!(span[0].bounds, union(&window_rects(&separate)));
    assert_eq!(span[0].monitor, union(&monitor_rects(&separate)));
    assert_eq!(span[0].scale, separate[0].scale);
}
