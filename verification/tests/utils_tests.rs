use std::collections::HashMap;

use hints::config::{
    expand_path, load_config_from, merge_config, merge_hints_config, Config, FloatBits, HintsConfig,
};
use hints::errors::{
    AccessibleChildrenNotFound, CouldNotCommunicateWithMouseService, CouldNotFindAccessibleWindow,
    WindowSystemNotSupported,
};
use hints::hints::get_hints;
use hints::input::{MouseButton, MouseButtonState, BTN_LEFT, BTN_RIGHT};

#[derive(Debug, Clone, Copy)]
struct Child {
    absolute_position: (f64, f64),
    relative_position: (f64, f64),
    width: f64,
    height: f64,
}

fn hint_length(n: usize, alphabet: &str) -> usize {
    let alphabet_len = alphabet.chars().count();
    ((n as f64).log(alphabet_len as f64).ceil()) as usize
}

fn hint_map(children: &[Child], alphabet: &str) -> HashMap<String, Child> {
    let mut map = HashMap::new();
    if children.is_empty() {
        return map;
    }
    for (label, child) in get_hints(children, alphabet, hint_length(children.len(), alphabet)) {
        map.insert(label, child);
    }
    map
}

#[test]
fn test_get_hints() {
    let children = vec![
        Child {
            absolute_position: (0.0, 0.0),
            relative_position: (0.0, 0.0),
            width: 100.0,
            height: 50.0,
        },
        Child {
            absolute_position: (100.0, 0.0),
            relative_position: (0.5, 0.0),
            width: 100.0,
            height: 50.0,
        },
        Child {
            absolute_position: (0.0, 50.0),
            relative_position: (0.0, 0.5),
            width: 100.0,
            height: 50.0,
        },
    ];

    let hints = hint_map(&children, "asdf");
    assert_eq!(hints.len(), 3);
}

#[test]
fn test_config_load() {
    let config = Config::default();
    assert_eq!(config.alphabet, "asdfgqwertzxcvbhjklyuiopnm");
    assert_eq!(config.mouse_move_pixel, 10);
}

#[test]
fn hint_labels_are_base_alphabet_digits() {
    let children: Vec<u32> = (0..7).collect();
    let hints = get_hints(&children, "ab", 3);
    let labels: Vec<&str> = hints.iter().map(|(l, _)| l.as_str()).collect();
    assert_eq!(labels, vec!["aaa", "baa", "aba", "bba", "aab", "bab", "abb"]);
    assert_eq!(hints[4].1, 4);
}

#[test]
fn hint_labels_for_26_letters() {
    let children: Vec<u32> = (0..30).collect();
    let alphabet = "asdfgqwertzxcvbhjklyuiopnm";
    let hints = get_hints(&children, alphabet, hint_length(30, alphabet));
    assert_eq!(hints[0].0, "aa");
    assert_eq!(hints[1].0, "sa");
    assert_eq!(hints[26].0, "as");
    assert_eq!(hint_map_len(&hints), 30);
}

fn hint_map_len(hints: &[(String, u32)]) -> usize {
    hints.iter().map(|(l, _)| l.clone()).collect::<std::collections::HashSet<_>>().len()
}

#[test]
fn single_child_gets_empty_label() {
    let hints = get_hints(&[7u8], "asdf", hint_length(1, "asdf"));
    assert_eq!(hints, vec![(String::new(), 7u8)]);
}

#[test]
fn no_children_no_hints() {
    let hints = get_hints::<u8>(&[], "", 0);
    assert!(hints.is_empty());
}

#[test]
fn default_float_settings() {
    let config = Config::default();
    assert_eq!(f64::from_bits(config.mouse_move_rampup_time.bits), 0.5);
    assert_eq!(f64::from_bits(config.hints.hint_pressed_font_r.bits), 0.7);
    assert_eq!(f64::from_bits(config.hints.hint_pressed_font_b.bits), 0.4);
    assert_eq!(f64::from_bits(config.hints.hint_background_a.bits), 0.8);
    assert_eq!(f64::from_bits(config.hints.hint_font_a.bits), 1.0);
    assert_eq!(f64::from_bits(config.hints.hint_font_r.bits), 0.0);
    assert_eq!(config.hints.hint_height, 30);
    assert_eq!(config.hints.hint_font_face, "Sans");
    assert!(config.backends.enable.is_empty());
    assert_eq!(config.mouse_scroll_up, "k");
}

#[test]
fn merge_takes_changed_user_values() {
    let default = Config::default();
    let mut user = Config::default();
    user.alphabet = "jkl".to_string();
    user.mouse_move_pixel = 25;
    user.exit_key = 65307;
    user.window_system = "sway".to_string();
    user.hints.hint_font_r = FloatBits { bits: 0.25f64.to_bits() };
    user.backends.enable = vec!["opencv".to_string()];
    let merged = merge_config(&default, &user);
    assert_eq!(merged.alphabet, "jkl");
    assert_eq!(merged.mouse_move_pixel, 25);
    assert_eq!(merged.exit_key, 65307);
    assert_eq!(merged.window_system, "sway");
    assert_eq!(f64::from_bits(merged.hints.hint_font_r.bits), 0.25);
    assert_eq!(merged.backends.enable, vec!["opencv".to_string()]);
    assert_eq!(merged.mouse_move_left, "h");
}

#[test]
fn merge_ignores_zero_keys_and_negative_zero() {
    let mut default = Config::default();
    default.exit_key = 9;
    let mut user = Config::default();
    user.exit_key = 0;
    user.hints.hint_font_r = FloatBits { bits: (-0.0f64).to_bits() };
    let merged = merge_config(&default, &user);
    assert_eq!(merged.exit_key, 9);
    assert_eq!(merged.hints.hint_font_r.bits, 0.0f64.to_bits());
}

#[test]
fn merge_keeps_user_nan() {
    let default = HintsConfig::default();
    let mut user = HintsConfig::default();
    user.hint_background_a = FloatBits { bits: f64::NAN.to_bits() };
    let merged = merge_hints_config(&default, &user);
    assert!(f64::from_bits(merged.hint_background_a.bits).is_nan());
}

#[test]
fn merge_drops_user_application_rules() {
    let default = Config::default();
    let mut user = Config::default();
    user.backends.opencv.application_rules.push((
        "firefox".to_string(),
        hints::config::OpenCvApplicationRule { kernel_size: 3, canny_min_val: 1, canny_max_val: 2 },
    ));
    let merged = merge_config(&default, &user);
    assert!(merged.backends.opencv.application_rules.is_empty());
}

#[test]
fn merging_twice_is_the_same_as_once() {
    let default = Config::default();
    let mut user = Config::default();
    user.mouse_scroll_pixel = 7;
    user.overlay_x_offset = -4;
    let once = merge_config(&default, &user);
    let twice = merge_config(&once, &user);
    assert_eq!(twice.mouse_scroll_pixel, once.mouse_scroll_pixel);
    assert_eq!(twice.overlay_x_offset, -4);
    assert_eq!(format!("{:?}", twice), format!("{:?}", once));
}

#[test]
fn loading_without_user_config_gives_defaults() {
    let loaded = load_config_from(None);
    assert_eq!(format!("{:?}", loaded), format!("{:?}", Config::default()));
    let mut user = Config::default();
    user.grab_modifier = 4;
    let loaded = load_config_from(Some(user));
    assert_eq!(loaded.grab_modifier, 4);
}

#[test]
fn expand_path_replaces_leading_tilde() {
    assert_eq!(expand_path("~/.config/x", Some("/home/u")), "/home/u/.config/x");
    assert_eq!(expand_path("~/.config/x", None), "~/.config/x");
    assert_eq!(expand_path("/etc/~/x", Some("/home/u")), "/etc/~/x");
    assert_eq!(expand_path("~x", Some("/home/u")), "~x");
}

#[test]
fn mouse_button_codes() {
    assert_eq!(MouseButton::Left.to_evdev_code(), BTN_LEFT);
    assert_eq!(MouseButton::Right.to_evdev_code(), 0x111);
    assert_eq!(BTN_RIGHT, 0x111);
    assert_eq!(MouseButtonState::Down.value(), 1);
    assert_eq!(MouseButtonState::Up.value(), 0);
}

#[test]
fn error_texts() {
    let e = AccessibleChildrenNotFound { message: "x".to_string() };
    assert_eq!(e.to_string(), "AccessibleChildrenNotFound: x");
    let e = CouldNotFindAccessibleWindow { message: "y".to_string() };
    assert_eq!(e.to_string(), "CouldNotFindAccessibleWindow: y");
    let e = WindowSystemNotSupported { message: "z".to_string() };
    assert_eq!(e.to_string(), "WindowSystemNotSupported: z");
    let e = CouldNotCommunicateWithMouseService { message: "w".to_string() };
    assert_eq!(e.to_string(), "CouldNotCommunicateWithMouseService: w");
}

#[test]
fn colliding_labels_keep_the_later_element() {
    let hints = get_hints(&[1u8, 2, 3], "aa", 1);
    assert_eq!(hints, vec![("a".to_string(), 3u8)]);
    let hints = get_hints(&[10u8, 20, 30, 40], "aba", 1);
    assert_eq!(hints, vec![("a".to_string(), 40u8), ("b".to_string(), 20u8)]);
    let short = get_hints(&[1u8, 2, 3], "ab", 1);
    assert_eq!(short, vec![("a".to_string(), 3u8), ("b".to_string(), 2u8)]);
}
