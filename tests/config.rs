use keyoverlay::config::Config;
use keyoverlay::key::{symbol_caption, KeyExt, KeySymbol};

#[test]
fn default_config_values() {
    let c = Config::default();
    assert_eq!(c.keys.len(), 2);
    assert_eq!(c.keys[0].key, "KeyZ");
    assert_eq!(c.keys[0].label, "K1");
    assert_eq!(c.keys[1].key, "KeyX");
    assert_eq!(c.keys[1].label, "K2");
    assert_eq!(c.key_size, 40);
    assert_eq!(c.key_spacing, 16);
    assert_eq!(c.scroll_speed, 360);
    assert_eq!(c.active_color, 0x808080);
    assert_eq!(c.padding, 16);
}

#[test]
fn min_window_width_of_default() {
    assert_eq!(Config::default().min_window_width(), Some(128));
}

#[test]
fn min_window_width_without_keys() {
    let mut c = Config::default();
    c.keys.clear();
    assert_eq!(c.min_window_width(), Some(32));
}

#[test]
fn min_window_width_overflow() {
    let mut c = Config::default();
    c.key_size = usize::MAX;
    assert_eq!(c.min_window_width(), None);
}

#[test]
fn caption_upper_cases_symbol() {
    assert_eq!(symbol_caption(&Some(String::from("z"))), "Z");
    assert_eq!(symbol_caption(&Some(String::from("ß"))), "SS");
}

#[test]
fn caption_without_symbol() {
    assert_eq!(symbol_caption(&None), "(?)");
    let k = KeySymbol { text: None };
    assert_eq!(k.to_string(), "(?)");
    let k = KeySymbol { text: Some(String::from("x")) };
    assert_eq!(k.to_string(), "X");
}
