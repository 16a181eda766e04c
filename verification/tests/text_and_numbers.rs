use lcars_wallpaper::binary64::{Binary64, EPSILON, FOUR, ONE, QUARTER, THOUSANDTH, ZERO};
use lcars_wallpaper::json::quote;
use lcars_wallpaper::render::rasterization_scale;
use lcars_wallpaper::settings::{
    DEFAULT_ENGINE_VOLUME, DEFAULT_SFX_VOLUME, RENDER_SCALE_BITS, RENDER_SCALE_IDS,
};
use lcars_wallpaper::menu::{VOLUME_BITS, VOLUME_IDS};
use lcars_wallpaper::stats::{HUNDRED, TEN, TENTH, THOUSAND};
use lcars_wallpaper::text::{
    decimal, parse_within, rsplit_once, same, signed_decimal, strip_prefix,
};
use lcars_wallpaper::wide::{from_utf16_lossy, length_until_zero, wide};

fn double(value: f64) -> Binary64 {
    Binary64 { bits: value.to_bits() }
}

#[test]
fn texts_are_compared_by_their_characters() {
    assert!(same("", ""));
    assert!(same("Größe", "Größe"));
    assert!(!same("Größe", "Grösse"));
    assert!(!same("a", "A"));
}

#[test]
fn prefixes_come_off() {
    assert_eq!(strip_prefix("module:entD", "module:"), Some("entD"));
    assert_eq!(strip_prefix("module:", "module:"), Some(""));
    assert_eq!(strip_prefix("modul", "module:"), None);
    assert_eq!(strip_prefix("layout:span", "module:"), None);
}

#[test]
fn texts_split_at_the_last_mark() {
    assert_eq!(rsplit_once("a:b:c", ':'), Some(("a:b", "c")));
    assert_eq!(rsplit_once(":", ':'), Some(("", "")));
    assert_eq!(rsplit_once("abc", ':'), None);
}

#[test]
fn numbers_are_written_in_decimal() {
    assert_eq!(decimal(0), "0");
    assert_eq!(decimal(1080), "1080");
    assert_eq!(decimal(u64::MAX), u64::MAX.to_string());
    assert_eq!(signed_decimal(-1920), "-1920");
    assert_eq!(signed_decimal(0), "0");
    assert_eq!(signed_decimal(7), "7");
}

#[test]
fn numbers_are_read_as_the_standard_library_reads_them() {
    for text in [
        "", "0", "7", "+7", "-7", "007", "255", "256", "+", "++1", "1a", " 1", "1 ", "99999",
        "18446744073709551615", "18446744073709551616", "\u{661}",
    ] {
        assert_eq!(parse_within(text, 255), text.parse::<u8>().ok().map(u64::from), "{text}");
        assert_eq!(parse_within(text, u64::MAX), text.parse::<u64>().ok(), "{text}");
    }
}

#[test]
fn written_numbers_read_back() {
    for value in [0, 9, 10, 15, 99, 100, 255, 12345678901234567890] {
        assert_eq!(parse_within(decimal(value).as_str(), u64::MAX), Some(value));
    }
}

#[test]
fn wide_text_is_utf16_with_a_zero() {
    for text in ["", "Progman", "Größe", "a\u{1F680}b", "\u{10FFFF}\u{FFFF}"] {
        let mut expected: Vec<u16> = text.encode_utf16().collect();
        expected.push(0);
        assert_eq!(wide(text), expected);
    }
}

#[test]
fn wide_text_reads_back() {
    for text in ["", "WorkerW", "\u{1F680}", "x\u{7FF}\u{800}"] {
        let units = wide(text);
        assert_eq!(from_utf16_lossy(&units[..units.len() - 1]), text);
        assert_eq!(length_until_zero(&units), units.len() - 1);
    }
}

#[test]
fn broken_utf16_is_replaced() {
    let cases: [&[u16]; 6] = [
        &[0xD800],
        &[0xDC00],
        &[0xD800, 0x41],
        &[0xD83D, 0xDE80],
        &[0xD800, 0xD83D, 0xDE80, 0xDC00],
        &[0x41, 0, 0x42],
    ];
    for units in cases {
        assert_eq!(from_utf16_lossy(units), String::from_utf16_lossy(units));
    }
}

#[test]
fn a_buffer_without_a_zero_is_used_whole() {
    assert_eq!(length_until_zero(&[1, 2, 3]), 3);
    assert_eq!(length_until_zero(&[1, 0, 3]), 1);
    assert_eq!(length_until_zero(&[]), 0);
}

#[test]
fn quoted_text_is_json() {
    assert_eq!(quote("set-margin"), "\"set-margin\"");
    assert_eq!(
        quote("a\"b\\c\n\t\r\u{8}\u{c}\u{1}\u{1f}/é"),
        "\"a\\\"b\\\\c\\n\\t\\r\\b\\f\\u0001\\u001f/é\"",
    );
    assert_eq!(quote(""), "\"\"");
}

#[test]
fn quoted_text_reads_back_as_the_same_text() {
    for text in ["", "plain", "\"\\\u{0}\u{1f}\u{7f}", "Überwachung\n"] {
        let value: serde_json::Value = serde_json::from_str(quote(text).as_str()).unwrap();
        assert_eq!(value.as_str(), Some(text));
    }
}

#[test]
fn bit_patterns_are_the_numbers_they_stand_for() {
    assert_eq!(f64::from_bits(ZERO), 0.0);
    assert_eq!(f64::from_bits(QUARTER), 0.25);
    assert_eq!(f64::from_bits(ONE), 1.0);
    assert_eq!(f64::from_bits(FOUR), 4.0);
    assert_eq!(f64::from_bits(THOUSANDTH), 0.001);
    assert_eq!(f64::from_bits(EPSILON), f64::EPSILON);
    assert_eq!(f64::from_bits(TENTH), 0.1);
    assert_eq!(f64::from_bits(TEN), 10.0);
    assert_eq!(f64::from_bits(HUNDRED), 100.0);
    assert_eq!(f64::from_bits(THOUSAND), 1000.0);
    assert_eq!(f64::from_bits(DEFAULT_SFX_VOLUME), 0.22);
    assert_eq!(f64::from_bits(DEFAULT_ENGINE_VOLUME), 0.12);
}

#[test]
fn ids_spell_the_numbers_beside_them() {
    for i in 0..RENDER_SCALE_IDS.len() {
        let value = f64::from_bits(RENDER_SCALE_BITS[i]);
        assert_eq!(RENDER_SCALE_IDS[i].parse::<f64>(), Ok(value));
        assert_eq!(format!("{value}"), RENDER_SCALE_IDS[i]);
    }
    for i in 0..VOLUME_IDS.len() {
        let value = f64::from_bits(VOLUME_BITS[i]);
        assert_eq!(VOLUME_IDS[i].parse::<f64>(), Ok(value));
        assert_eq!(format!("{value}"), VOLUME_IDS[i]);
    }
}

fn some_doubles() -> Vec<f64> {
    vec![
        0.0, -0.0, 1.0, -1.0, 0.25, 0.24999999999999997, 0.25000000000000006, 4.0, 4.000000000000001,
        1e-310, -1e-310, 5e-324, f64::MAX, f64::MIN, f64::INFINITY, f64::NEG_INFINITY, f64::NAN,
        0.001, 0.85, 0.8509, 0.8511, 0.8491, 0.8489, 0.22, 0.22000000000000003, 0.12, 0.5, 0.6,
    ]
}

#[test]
fn comparisons_agree_with_the_machine() {
    for a in some_doubles() {
        assert_eq!(double(a).nan(), a.is_nan());
        assert_eq!(double(a).finite(), a.is_finite());
        for b in some_doubles() {
            assert_eq!(double(a).less_than(double(b)), a < b, "{a} < {b}");
            assert_eq!(double(a).at_least(double(b)), a >= b, "{a} >= {b}");
        }
    }
}

#[test]
fn clamping_agrees_with_the_machine() {
    for a in some_doubles() {
        let held = double(a).clamp(Binary64 { bits: QUARTER }, Binary64 { bits: FOUR });
        assert_eq!(held.bits, a.clamp(0.25, 4.0).to_bits(), "{a}");
        assert_eq!(rasterization_scale(double(a)).bits, a.clamp(0.25, 4.0).to_bits(), "{a}");
    }
    assert_eq!(rasterization_scale(double(1.5)).bits, 1.5f64.to_bits());
    assert_eq!(rasterization_scale(double(0.1)).bits, QUARTER);
    assert_eq!(rasterization_scale(double(9.0)).bits, FOUR);
}

#[test]
fn nearness_agrees_with_subtracting() {
    for a in some_doubles() {
        for step in [0.0, 0.12, 0.22, 0.36, 0.5, 0.6, 0.75, 0.85, 1.0] {
            for tolerance in [f64::EPSILON, 0.001] {
                assert_eq!(
                    double(a).near_to(double(step), double(tolerance)),
                    (a - step).abs() < tolerance,
                    "{a} near {step} by {tolerance}",
                );
            }
        }
    }
    assert!(double(0.8509999).near_to(double(0.85), double(0.001)));
    assert!(!double(0.8510001).near_to(double(0.85), double(0.001)));
}
