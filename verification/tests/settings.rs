use lcars_wallpaper::background::{
    apply_static_background, bitmap_fits, black_bitmap, current, is_ours, restore,
    restore_static_background, set_black, BackgroundStep,
};
use lcars_wallpaper::binary64::{Binary64, ONE, QUARTER};
use lcars_wallpaper::geometry::Rect;
use lcars_wallpaper::modules::{
    module_label, random_module, COUNTER_STEP, MODULES, MODULE_LABELS,
};
use lcars_wallpaper::settings::{
    Fit, Insets, Layout, ModuleMap, Monitors, Settings, StaticBackground,
};

fn rect(x: i32, y: i32, width: i32, height: i32) -> Rect {
    Rect { x, y, width, height }
}

fn double(value: f64) -> Binary64 {
    Binary64 { bits: value.to_bits() }
}

#[test]
fn modules_are_picked_by_clock_and_counter() {
    assert_eq!(random_module(0, 0), "ncc1031");
    assert_eq!(random_module(5, 3), "starbase");
    assert_eq!(random_module(1_700_000_000_000_000_000, 0), "dna");
    assert_eq!(random_module(1_700_000_000_000_000_000, COUNTER_STEP), "warpDrive");
}

#[test]
fn every_module_can_be_picked() {
    for name in MODULES {
        assert!((0..1000).any(|nanos| random_module(nanos, 0) == name), "{name}");
    }
}

#[test]
fn modules_have_labels() {
    assert_eq!(module_label("default"), "Titan (default)");
    assert_eq!(module_label("dna"), "DNA");
    assert_eq!(module_label("entG"), "Enterprise G");
    assert_eq!(module_label("voyager"), "voyager");
    assert_eq!(MODULES.len(), MODULE_LABELS.len());
}

#[test]
fn insets_trim_the_edges() {
    let insets = Insets { top: 10, right: 20, bottom: 40, left: 5 };
    assert!(insets.fits(rect(100, 200, 1920, 1080)));
    assert_eq!(insets.apply(rect(100, 200, 1920, 1080)), rect(105, 210, 1895, 1030));
    assert_eq!(insets.apply(rect(0, 0, 10, 10)), rect(5, 10, 1, 1));
    assert!(!insets.is_zero());
}

#[test]
fn no_insets_change_nothing() {
    assert!(Insets::default().is_zero());
    assert_eq!(Insets::default().apply(rect(3, 4, 5, 6)), rect(3, 4, 5, 6));
    assert_eq!(Insets::default().apply(rect(3, 4, 0, -6)), rect(3, 4, 1, 1));
}

#[test]
fn insets_beyond_the_coordinates_are_refused() {
    let insets = Insets { top: 0, right: 0, bottom: 0, left: i32::MAX };
    assert!(!insets.fits(rect(1, 0, 10, 10)));
    assert!(insets.fits(rect(0, 0, 10, 10)));
    assert!(!Insets { left: i32::MIN, ..Insets::default() }.fits(rect(0, 0, 0, 0)));
}

#[test]
fn defaults_are_the_documented_ones() {
    let settings = Settings::default();
    assert_eq!(settings.layout, Layout::Separate);
    assert_eq!(settings.monitors, Monitors::All);
    assert_eq!(settings.module, "random");
    assert!(settings.varied_modules);
    assert_eq!(settings.module_by_monitor.len(), 0);
    assert_eq!(settings.margin, 0);
    assert_eq!(settings.filter, "none");
    assert!(!settings.red_alert && !settings.audio);
    assert_eq!(settings.sfx_volume, double(0.22));
    assert_eq!(settings.engine_volume, double(0.12));
    assert!(settings.boot_animation && settings.system_info);
    assert!(settings.pause_on_fullscreen && settings.pause_when_covered);
    assert_eq!(settings.render_scale, double(1.0));
    assert_eq!(settings.shuffle_minutes, 0);
    assert_eq!(settings.fit, Fit::Full);
    assert!(settings.insets.is_zero());
    assert_eq!(settings.static_background, StaticBackground::Leave);
    assert_eq!(settings.saved_wallpaper, None);
}

#[test]
fn missing_settings_are_the_defaults() {
    assert_eq!(Settings::load(None).module, "random");
    let mut settings = Settings::default();
    settings.module = "dna".to_string();
    assert_eq!(Settings::load(Some(settings)).module, "dna");
}

#[test]
fn the_module_map_keeps_one_module_per_monitor() {
    let mut map = ModuleMap::new();
    map.insert("left", "ent");
    map.insert("right", "dna");
    map.insert("left", "starbase");
    assert_eq!(map.len(), 2);
    assert_eq!(map.get("left").map(String::as_str), Some("starbase"));
    assert_eq!(map.get("right").map(String::as_str), Some("dna"));
    assert_eq!(map.get("middle"), None);
    assert!(map.entry(1).is_some() && map.entry(2).is_none());
    map.remove("left");
    assert_eq!(map.get("left"), None);
    assert_eq!(map.len(), 1);
    map.remove("left");
    assert_eq!(map.len(), 1);
}

#[test]
fn an_override_comes_before_the_global_choice() {
    let mut settings = Settings::default();
    settings.module_by_monitor.insert("left", "dna");
    assert_eq!(settings.module_for("left", "ent", "entD"), "dna");
    assert_eq!(settings.module_for("right", "ent", "entD"), "entD");
    settings.varied_modules = false;
    assert_eq!(settings.module_for("right", "ent", "entD"), "ent");
    settings.module = "starbase".to_string();
    assert_eq!(settings.module_for("right", "ent", "entD"), "starbase");
    assert_eq!(settings.module_for("left", "ent", "entD"), "dna");
}

#[test]
fn one_scene_has_one_module() {
    let mut settings = Settings::default();
    settings.module_by_monitor.insert("left", "dna");
    assert!(!settings.one_scene());
    assert_eq!(settings.screen_module("left", "ent", "entD"), "dna");
    for layout in [Layout::Split, Layout::Span] {
        settings.layout = layout;
        assert!(settings.one_scene());
        assert_eq!(settings.screen_module("left", "ent", "entD"), "ent");
        assert_eq!(settings.screen_module("right", "ent", "entF"), "ent");
    }
    assert_eq!(settings.scene_module("ent"), "ent");
    settings.module = "entG".to_string();
    assert_eq!(settings.scene_module("ent"), "entG");
}

#[test]
fn the_render_scale_is_held_in_range() {
    let mut settings = Settings::default();
    for (asked, held) in [
        (1.0, 1.0),
        (0.6, 0.6),
        (0.25, 0.25),
        (0.1, 0.25),
        (-3.0, 0.25),
        (0.0, 0.25),
        (7.0, 1.0),
        (f64::NAN, 1.0),
        (f64::INFINITY, 1.0),
        (f64::NEG_INFINITY, 1.0),
    ] {
        settings.render_scale = double(asked);
        assert_eq!(settings.render_scale(), double(held), "{asked}");
        assert_eq!(settings.renders_below_full(), held < 1.0, "{asked}");
    }
    assert_eq!(f64::from_bits(QUARTER), 0.25);
    assert_eq!(f64::from_bits(ONE), 1.0);
}

#[test]
fn the_current_wallpaper_ends_at_the_zero() {
    let mut buffer: Vec<u16> = "C:\\photo.jpg".encode_utf16().collect();
    assert_eq!(current(true, &buffer), Some("C:\\photo.jpg".to_string()));
    buffer.push(0);
    buffer.push(65);
    assert_eq!(current(true, &buffer), Some("C:\\photo.jpg".to_string()));
    assert_eq!(current(false, &buffer), None);
    assert_eq!(current(true, &[0, 65]), None);
    assert_eq!(current(true, &[]), None);
}

#[test]
fn the_flat_background_is_recognised() {
    assert!(is_ours("C:\\config\\flat-background.bmp"));
    assert!(is_ours("C:\\CONFIG\\Flat-Background.BMP"));
    assert!(is_ours("flat-background.bmp"));
    assert!(!is_ours("C:\\flat-background.bmp.jpg"));
    assert!(!is_ours("background.bmp"));
    assert!(!is_ours(""));
}

#[test]
fn black_bitmaps_have_a_header_and_padded_rows() {
    assert!(bitmap_fits(rect(0, 0, 3, 2)));
    let file = black_bitmap(rect(-5, 0, 3, 2));
    let expected: [u8; 54] = [
        b'B', b'M', 78, 0, 0, 0, 0, 0, 0, 0, 54, 0, 0, 0, 40, 0, 0, 0, 3, 0, 0, 0, 2, 0, 0, 0, 1, 0,
        24, 0, 0, 0, 0, 0, 24, 0, 0, 0, 0x13, 0x0b, 0, 0, 0x13, 0x0b, 0, 0, 0, 0, 0, 0, 0, 0, 0, 0,
    ];
    assert_eq!(file.len(), 78);
    assert_eq!(file[..54], expected);
    assert!(file[54..].iter().all(|byte| *byte == 0));
}

#[test]
fn a_bitmap_has_at_least_one_pixel() {
    let file = black_bitmap(rect(0, 0, 0, -7));
    assert_eq!(file.len(), 58);
    assert_eq!(file[18..26], [1, 0, 0, 0, 1, 0, 0, 0]);
}

#[test]
fn bitmap_lengths_read_back() {
    let file = black_bitmap(rect(0, 0, 301, 77));
    let number = |at: usize| u32::from_le_bytes([file[at], file[at + 1], file[at + 2], file[at + 3]]);
    assert_eq!(number(2) as usize, file.len());
    assert_eq!((number(18), number(22)), (301, 77));
}

#[test]
fn the_previous_wallpaper_is_remembered_once() {
    assert_eq!(set_black(Some("a.jpg".to_string())), Some("a.jpg".to_string()));
    assert_eq!(set_black(Some("x\\flat-background.bmp".to_string())), None);
    assert_eq!(set_black(None), None);
}

#[test]
fn nothing_to_restore_clears_the_wallpaper() {
    assert_eq!(restore(Some("a.jpg")), "a.jpg");
    assert_eq!(restore(None), "");
}

#[test]
fn painting_black_and_back_restores_the_photo() {
    let mut settings = Settings::default();
    settings.static_background = StaticBackground::Black;
    let step = apply_static_background(&mut settings, Some("a.jpg".to_string()), true);
    assert!(matches!(step, BackgroundStep::Paint));
    assert_eq!(settings.saved_wallpaper.as_deref(), Some("a.jpg"));

    let flat = Some("c\\flat-background.bmp".to_string());
    let step = apply_static_background(&mut settings, flat.clone(), true);
    assert!(matches!(step, BackgroundStep::Paint));
    assert_eq!(settings.saved_wallpaper.as_deref(), Some("a.jpg"));
    assert_eq!(restore_static_background(&settings).as_deref(), Some("a.jpg"));

    settings.static_background = StaticBackground::Leave;
    assert_eq!(restore_static_background(&settings), None);
    let step = apply_static_background(&mut settings, flat, true);
    assert!(matches!(step, BackgroundStep::Restore(path) if path == "a.jpg"));
    assert_eq!(settings.saved_wallpaper, None);
    let step = apply_static_background(&mut settings, Some("a.jpg".to_string()), true);
    assert!(matches!(step, BackgroundStep::Keep));
}

#[test]
fn a_flat_background_of_ours_is_cleared() {
    let mut settings = Settings::default();
    let step = apply_static_background(&mut settings, Some("flat-background.bmp".to_string()), true);
    assert!(matches!(step, BackgroundStep::Restore(path) if path.is_empty()));
}

#[test]
fn a_foreign_wallpaper_is_left_alone() {
    let mut settings = Settings::default();
    let step = apply_static_background(&mut settings, Some("a.jpg".to_string()), true);
    assert!(matches!(step, BackgroundStep::Keep));
    let step = apply_static_background(&mut settings, None, true);
    assert!(matches!(step, BackgroundStep::Keep));
}

#[test]
fn without_a_directory_nothing_is_painted() {
    let mut settings = Settings::default();
    settings.static_background = StaticBackground::Black;
    let step = apply_static_background(&mut settings, Some("a.jpg".to_string()), false);
    assert!(matches!(step, BackgroundStep::Skip));
    assert_eq!(settings.saved_wallpaper, None);
    assert_eq!(restore_static_background(&settings).as_deref(), Some(""));
}
