use lcars_wallpaper::desktop::{
    can_place, class_name, covered_by_fullscreen_app, covered_by_windows, edges_fit, find_worker_w,
    has_middle, is_cloaked, is_opaque, is_shell_class, keep_waiting, look_further, middle, place,
    refresh, resolve_host, spans_virtual_screen, visible_rect, window_rect, work_area,
    worth_probing, Coverage, DesktopProbe, Host, HostMode, HostStep, Placement, WindowFacts,
};
use lcars_wallpaper::geometry::{union, union_fits, Rect};
use lcars_wallpaper::region::{Edges, Region};

fn rect(x: i32, y: i32, width: i32, height: i32) -> Rect {
    Rect { x, y, width, height }
}

fn window(handle: isize, frame: Rect) -> WindowFacts {
    WindowFacts {
        handle,
        visible: true,
        iconic: false,
        style: 0,
        class: "Notepad".to_string(),
        cloaked: false,
        frame: Some(frame),
    }
}

const SCREEN: Rect = Rect { x: 0, y: 0, width: 1920, height: 1080 };

#[test]
fn union_joins_rectangles() {
    let rects = [rect(0, 0, 1920, 1080), rect(-1280, 100, 1280, 1024)];
    assert!(union_fits(&rects));
    assert_eq!(union(&rects), rect(-1280, 0, 3200, 1124));
    assert_eq!(union(&[]), rect(0, 0, 0, 0));
    assert_eq!(union(&[rect(5, 6, 7, 8)]), rect(5, 6, 7, 8));
}

#[test]
fn a_union_beyond_the_coordinates_is_refused() {
    assert!(!union_fits(&[rect(i32::MAX, 0, 1, 1)]));
    assert!(!union_fits(&[rect(i32::MIN, 0, 1, 1), rect(1, 0, 1, 1)]));
}

#[test]
fn regions_lose_what_is_cut_out() {
    let mut region = Region::rectangle(Edges { left: 0, top: 0, right: 10, bottom: 10 });
    assert!(!region.is_empty());
    region.subtract(Edges { left: 2, top: 2, right: 8, bottom: 8 });
    assert!(!region.is_empty());
    region.subtract(Edges { left: 0, top: 0, right: 10, bottom: 2 });
    region.subtract(Edges { left: 0, top: 8, right: 10, bottom: 10 });
    region.subtract(Edges { left: 0, top: 0, right: 2, bottom: 10 });
    assert!(!region.is_empty());
    region.subtract(Edges { left: 8, top: 2, right: 10, bottom: 8 });
    assert!(region.is_empty());
}

#[test]
fn class_names_come_out_of_a_buffer() {
    let buffer: Vec<u16> = "Progman----".encode_utf16().collect();
    assert_eq!(class_name(7, &buffer), "Progman");
    assert_eq!(class_name(0, &buffer), "");
    assert_eq!(class_name(-1, &buffer), "");
}

#[test]
fn window_rectangles_have_sizes() {
    assert_eq!(window_rect(true, -10, 5, 30, 25), Some(rect(-10, 5, 40, 20)));
    assert_eq!(window_rect(false, 0, 0, 0, 0), None);
    assert!(edges_fit(-10, 5, 30, 25));
    assert!(!edges_fit(i32::MIN, 0, 0, 0));
}

#[test]
fn monitors_are_found_by_their_middle() {
    assert_eq!(middle(rect(1920, -200, 1281, 1025)), (2560, 312));
    assert_eq!(middle(rect(0, 0, -3, -4)), (-1, -2));
    assert!(has_middle(SCREEN));
    assert!(!has_middle(rect(i32::MAX, 0, 2, 0)));
}

#[test]
fn the_work_area_falls_back_to_the_monitor() {
    assert_eq!(work_area(SCREEN, Some(rect(0, 0, 1920, 1040))), rect(0, 0, 1920, 1040));
    assert_eq!(work_area(SCREEN, None), SCREEN);
}

#[test]
fn spanning_allows_for_a_border() {
    assert!(spans_virtual_screen(Some(rect(50, 50, 1918, 1078)), SCREEN));
    assert!(!spans_virtual_screen(Some(rect(0, 0, 1917, 1080)), SCREEN));
    assert!(!spans_virtual_screen(Some(rect(0, 0, 1920, 1077)), SCREEN));
    assert!(!spans_virtual_screen(None, SCREEN));
}

fn probe() -> DesktopProbe {
    DesktopProbe {
        icon_host: 1,
        sibling: 2,
        sibling_rect: Some(SCREEN),
        child: 3,
        virtual_screen: SCREEN,
    }
}

#[test]
fn a_top_level_surface_has_to_cover_the_desktop() {
    assert_eq!(find_worker_w(&probe()), 2);
    assert_eq!(find_worker_w(&DesktopProbe { sibling_rect: Some(rect(0, 0, 10, 10)), ..probe() }), 3);
    assert_eq!(find_worker_w(&DesktopProbe { sibling: 0, ..probe() }), 3);
    assert_eq!(find_worker_w(&DesktopProbe { sibling: 0, child: 0, ..probe() }), 0);
    assert_eq!(find_worker_w(&DesktopProbe { icon_host: 0, ..probe() }), 0);
}

#[test]
fn the_search_goes_on_until_there_is_something() {
    assert!(look_further(0));
    assert!(!look_further(7));
    assert!(keep_waiting(0, false));
    assert!(!keep_waiting(0, true));
    assert!(!keep_waiting(4, false));
}

#[test]
fn progman_is_asked_in_every_way_before_settling_for_it() {
    assert_eq!(resolve_host(0, 9, 0), HostStep::NoDesktop);
    let settled = HostStep::Settled(Host { hwnd: 9, progman: 1, mode: HostMode::WorkerW });
    assert_eq!(resolve_host(1, 9, 0), settled);
    assert_eq!(resolve_host(1, 9, 3), settled);
    assert_eq!(resolve_host(1, 0, 0), HostStep::Spawn { wparam: 0, lparam: 0 });
    assert_eq!(resolve_host(1, 0, 1), HostStep::Spawn { wparam: 0x0d, lparam: 1 });
    assert_eq!(resolve_host(1, 0, 2), HostStep::Spawn { wparam: 0x0d, lparam: 0 });
    assert_eq!(
        resolve_host(1, 0, 3),
        HostStep::Settled(Host { hwnd: 1, progman: 1, mode: HostMode::Progman }),
    );
}

#[test]
fn windows_are_placed_relative_to_the_host() {
    let origin = rect(-1280, -20, 3200, 1100);
    assert!(can_place(SCREEN, origin));
    assert_eq!(
        place(SCREEN, origin, HostMode::Progman),
        Placement { x: 1280, y: 20, width: 1920, height: 1080, to_bottom: true },
    );
    assert!(!place(SCREEN, origin, HostMode::WorkerW).to_bottom);
    assert!(!can_place(rect(i32::MAX, 0, 1, 1), origin));
}

#[test]
fn the_visible_frame_comes_first() {
    let (frame, layout) = (Some(rect(1, 1, 2, 2)), Some(rect(0, 0, 4, 4)));
    assert_eq!(visible_rect(frame, layout), frame);
    assert_eq!(visible_rect(None, layout), layout);
    assert_eq!(visible_rect(None, None), None);
}

#[test]
fn cloaking_needs_an_answer() {
    assert!(is_cloaked(0, 1));
    assert!(!is_cloaked(0, 0));
    assert!(!is_cloaked(-1, 1));
}

#[test]
fn layered_and_click_through_windows_are_see_through() {
    assert!(is_opaque(0));
    assert!(is_opaque(0x100));
    assert!(!is_opaque(0x0008_0000));
    assert!(!is_opaque(0x20));
}

#[test]
fn shell_windows_are_known_by_class() {
    assert!(is_shell_class("Progman"));
    assert!(is_shell_class("XamlExplorerHostIslandWindow"));
    assert!(!is_shell_class("progman"));
    assert!(!is_shell_class(""));
}

#[test]
fn only_real_windows_are_worth_a_question() {
    let own = vec![5];
    assert!(worth_probing(1, true, false, 0, &own));
    assert!(!worth_probing(5, true, false, 0, &own));
    assert!(!worth_probing(1, false, false, 0, &own));
    assert!(!worth_probing(1, true, true, 0, &own));
    assert!(!worth_probing(1, true, false, 0x20, &own));
}

#[test]
fn one_maximised_window_is_enough() {
    let windows = vec![window(1, rect(-8, -8, 1936, 1096))];
    assert!(covered_by_windows(SCREEN, vec![9], &windows));
    let rounded = vec![window(1, rect(12, 12, 1896, 1056))];
    assert!(covered_by_windows(SCREEN, vec![9], &rounded));
    let small = vec![window(1, rect(13, 12, 1895, 1056))];
    assert!(!covered_by_windows(SCREEN, vec![9], &small));
}

#[test]
fn two_halves_cover_together() {
    let windows = vec![window(1, rect(0, 0, 960, 1080)), window(2, rect(960, 0, 960, 1080))];
    assert!(covered_by_windows(SCREEN, vec![], &windows));
    let gap = vec![window(1, rect(0, 0, 960, 1080)), window(2, rect(961, 0, 959, 1080))];
    assert!(!covered_by_windows(SCREEN, vec![], &gap));
}

#[test]
fn windows_that_do_not_count_cover_nothing() {
    let full = rect(0, 0, 1920, 1080);
    let cases = vec![
        WindowFacts { visible: false, ..window(1, full) },
        WindowFacts { iconic: true, ..window(1, full) },
        WindowFacts { style: 0x0008_0000, ..window(1, full) },
        WindowFacts { class: "WorkerW".to_string(), ..window(1, full) },
        WindowFacts { cloaked: true, ..window(1, full) },
        WindowFacts { frame: None, ..window(1, full) },
        window(1, rect(0, 0, 0, 1080)),
        window(1, rect(0, 0, 1920, -1)),
        window(9, full),
    ];
    assert!(!covered_by_windows(SCREEN, vec![9], &cases));
    assert!(!covered_by_windows(SCREEN, vec![9], &vec![]));
}

#[test]
fn a_tiny_wallpaper_is_never_covered() {
    let windows = vec![window(1, rect(-100, -100, 5000, 5000))];
    assert!(!covered_by_windows(rect(0, 0, 24, 1080), vec![], &windows));
    assert!(covered_by_windows(rect(0, 0, 25, 25), vec![], &windows));
}

#[test]
fn the_walk_stops_when_nothing_is_left() {
    let mut walk = Coverage::begin(SCREEN, vec![]).unwrap();
    assert!(walk.window(&window(1, rect(0, 0, 1000, 1080))));
    assert!(!walk.is_covered());
    assert!(!walk.window(&window(2, rect(900, 0, 1020, 1080))));
    assert!(walk.is_covered());
    assert!(Coverage::begin(rect(0, 0, 24, 24), vec![]).is_none());
}

#[test]
fn fullscreen_goes_edge_to_edge() {
    let own = vec![9];
    let covers = |foreground: isize, class: &str, frame: Option<Rect>| {
        covered_by_fullscreen_app(SCREEN, &own, foreground, class, frame)
    };
    assert!(covers(1, "Game", Some(SCREEN)));
    assert!(covers(1, "Game", Some(rect(2, 2, 1916, 1076))));
    assert!(!covers(1, "Game", Some(rect(3, 0, 1917, 1080))));
    assert!(!covers(1, "Game", Some(rect(0, 0, 1920, 1040))));
    assert!(!covers(1, "Game", None));
    assert!(!covers(0, "Game", Some(SCREEN)));
    assert!(!covers(9, "Game", Some(SCREEN)));
    assert!(!covers(1, "Shell_TrayWnd", Some(SCREEN)));
}

#[test]
fn the_desktop_is_repainted_where_the_windows_were() {
    assert_eq!(refresh(&Host { hwnd: 4, progman: 1, mode: HostMode::WorkerW }), vec![1, 4]);
    assert_eq!(refresh(&Host { hwnd: 1, progman: 1, mode: HostMode::Progman }), vec![1]);
}

#[test]
fn the_strip_behind_the_taskbar_still_shows() {
    let taskbar = WindowFacts {
        class: "Shell_TrayWnd".to_string(),
        ..window(2, rect(0, 1040, 1920, 40))
    };
    let windows = vec![taskbar, window(1, rect(0, 0, 1920, 1040))];
    assert!(!covered_by_windows(SCREEN, vec![], &windows));
    assert!(covered_by_windows(rect(0, 0, 1920, 1040), vec![], &windows));
}
