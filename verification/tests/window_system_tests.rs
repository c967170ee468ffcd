use hints::json::JsonValue;
use hints::window_systems::{
    choice_for_name, create_window_system, wm_for, detect, find_focused_node, get_window_system, topmost_window,
    x11_extents, GnomeImpl, HyprlandImpl, PlasmashellImpl, SwayImpl, WindowSystem,
    WindowSystemChoice, WindowSystemType,
};

fn to_json(v: &serde_json::Value) -> JsonValue {
    match v {
        serde_json::Value::Null => JsonValue::Null,
        serde_json::Value::Bool(b) => JsonValue::Bool(*b),
        serde_json::Value::Number(n) => {
            if let Some(u) = n.as_u64() {
                JsonValue::PosInt(u)
            } else if let Some(i) = n.as_i64() {
                JsonValue::NegInt(i)
            } else {
                JsonValue::Float
            }
        }
        serde_json::Value::String(s) => JsonValue::Str(s.clone()),
        serde_json::Value::Array(items) => JsonValue::Array(items.iter().map(to_json).collect()),
        serde_json::Value::Object(map) => {
            JsonValue::Object(map.iter().map(|(k, v)| (k.clone(), to_json(v))).collect())
        }
    }
}

fn parse(text: &str) -> JsonValue {
    to_json(&serde_json::from_str(text).unwrap())
}

#[test]
fn override_names_are_case_insensitive() {
    assert_eq!(get_window_system(Some("SWAY")).unwrap(), WindowSystemChoice::Sway);
    assert_eq!(get_window_system(Some("X11")).unwrap(), WindowSystemChoice::X11);
    assert_eq!(get_window_system(Some("Hyprland")).unwrap(), WindowSystemChoice::Hyprland);
    assert_eq!(get_window_system(Some("plasmashell")).unwrap(), WindowSystemChoice::Plasmashell);
    assert_eq!(get_window_system(Some("gnome-shell")).unwrap(), WindowSystemChoice::Gnome);
    assert_eq!(get_window_system(Some("Gnome")).unwrap(), WindowSystemChoice::Gnome);
    assert_eq!(get_window_system(None).unwrap(), WindowSystemChoice::Detect);
}

#[test]
fn unknown_override_is_an_error() {
    let err = get_window_system(Some("Weston")).unwrap_err();
    assert_eq!(err.message, "Unknown window system: Weston");
    assert_eq!(err.to_string(), "WindowSystemError: Unknown window system: Weston");
}

#[test]
fn created_window_system_falls_back_to_x11() {
    assert_eq!(create_window_system("Hyprland"), WindowSystemChoice::Hyprland);
    assert_eq!(create_window_system("gnome-shell"), WindowSystemChoice::Gnome);
    assert_eq!(create_window_system("kwin"), WindowSystemChoice::X11);
}

#[test]
fn detection_uses_the_first_compositor_process() {
    let ps = "COMMAND\nsystemd\nbash\nHYPRLAND\nsway\n";
    assert_eq!(detect("wayland", ps), WindowSystemChoice::Hyprland);
    assert_eq!(detect("wayland", "COMMAND\nsway\n"), WindowSystemChoice::Sway);
    assert_eq!(detect("wayland", "COMMAND\ngnome-shell\n"), WindowSystemChoice::Gnome);
    assert_eq!(detect("wayland", "COMMAND\nplasmashell"), WindowSystemChoice::Plasmashell);
    assert_eq!(detect("wayland", "COMMAND\nbash\n"), WindowSystemChoice::X11);
    assert_eq!(detect("x11", ps), WindowSystemChoice::X11);
    assert_eq!(detect("", "sway"), WindowSystemChoice::X11);
}

#[test]
fn sway_focused_window_is_found_depth_first() {
    let tree = parse(
        r#"{"focused": false, "nodes": [
              {"focused": false, "nodes": [], "floating_nodes": []},
              {"focused": false, "nodes": [
                  {"focused": true, "pid": 4242, "app_id": "foot",
                   "rect": {"x": 10, "y": -20, "width": 800, "height": 600}}
              ]}
           ],
           "floating_nodes": [{"focused": true, "pid": 1, "app_id": "float"}]}"#,
    );
    let found = find_focused_node(&tree).unwrap();
    match found {
        JsonValue::Object(_) => {}
        _ => panic!("expected an object"),
    }
    let sway = SwayImpl::new(&tree);
    assert_eq!(sway.focused_window_extents(), (10, -20, 800, 600));
    assert_eq!(sway.focused_window_pid(), 4242);
    assert_eq!(sway.focused_application_name(), "foot");
    assert_eq!(sway.window_system_name(), "sway");
    assert!(matches!(sway.window_system_type(), WindowSystemType::Wayland));
}

#[test]
fn sway_floating_window_is_found_after_tiled_ones() {
    let tree = parse(
        r#"{"nodes": [{"focused": false}],
            "floating_nodes": [{"focused": true, "pid": 7, "app_id": "float",
                                "rect": {"x": 1, "y": 2, "width": 3, "height": 4}}]}"#,
    );
    let sway = SwayImpl::new(&tree);
    assert_eq!(sway.focused_window_extents(), (1, 2, 3, 4));
    assert_eq!(sway.focused_application_name(), "float");
}

#[test]
fn sway_without_focus_reads_zeros() {
    let tree = parse(r#"{"nodes": [{"focused": false}], "floating_nodes": []}"#);
    assert!(find_focused_node(&tree).is_none());
    let sway = SwayImpl::new(&tree);
    assert_eq!(sway.focused_window_extents(), (0, 0, 0, 0));
    assert_eq!(sway.focused_window_pid(), 0);
    assert_eq!(sway.focused_application_name(), "");
}

#[test]
fn hyprland_active_window_is_read() {
    let json = parse(r#"{"at": [5, 6], "size": [1280, 720], "pid": 99, "class": "kitty"}"#);
    let h = HyprlandImpl::new(&json);
    assert_eq!(h.focused_window_extents(), (5, 6, 1280, 720));
    assert_eq!(h.focused_window_pid(), 99);
    assert_eq!(h.focused_application_name(), "kitty");
    assert_eq!(h.window_system_name(), "Hyprland");

    let missing = parse(r#"{"pid": -3, "class": 5}"#);
    let h = HyprlandImpl::new(&missing);
    assert_eq!(h.focused_window_extents(), (0, 0, 0, 0));
    assert_eq!(h.focused_window_pid(), 0);
    assert_eq!(h.focused_application_name(), "");
}

#[test]
fn plasma_extents_tolerate_short_arrays() {
    let data = parse(r#"{"extents": [10, 20, 300], "pid": 12, "name": "dolphin"}"#);
    let p = PlasmashellImpl::new(&data);
    assert_eq!(p.focused_window_extents(), (10, 20, 300, 0));
    assert_eq!(p.focused_window_pid(), 12);
    assert_eq!(p.focused_application_name(), "dolphin");
    assert_eq!(p.window_system_name(), "plasmashell");

    let empty = parse("{}");
    let p = PlasmashellImpl::new(&empty);
    assert_eq!(p.focused_window_extents(), (0, 0, 0, 0));
}

#[test]
fn large_integers_are_truncated_to_32_bits() {
    let json = parse(r#"{"at": [4294967297, 0], "size": [1, 1], "pid": 4294967298}"#);
    let h = HyprlandImpl::new(&json);
    assert_eq!(h.focused_window_extents().0, 1);
    assert_eq!(h.focused_window_pid(), 2);
}

#[test]
fn gnome_reports_an_empty_window() {
    let g = GnomeImpl::new();
    assert_eq!(g.focused_window_extents(), (0, 0, 0, 0));
    assert_eq!(g.focused_window_pid(), 0);
    assert_eq!(g.focused_application_name(), "");
    assert_eq!(g.window_system_name(), "gnome");
    assert_eq!(GnomeImpl::get_focused_window_info().monitor, 0);
}

#[test]
fn x11_geometry_of_topmost_window() {
    assert_eq!(topmost_window(&[]), 0);
    assert_eq!(topmost_window(&[3, 9, 27]), 27);
    assert_eq!(x11_extents(0, (5, 5, 100, 100)), (0, 0, 0, 0));
    assert_eq!(x11_extents(27, (-5, 7, 65535, 100)), (-5, 7, 65535, 100));
}

#[test]
fn lowercased_names_select_implementations() {
    assert_eq!(choice_for_name("gnome"), Some(WindowSystemChoice::Gnome));
    assert_eq!(choice_for_name("hyprland"), Some(WindowSystemChoice::Hyprland));
    assert_eq!(choice_for_name("Hyprland"), None);
    assert_eq!(choice_for_name(""), None);
    assert_eq!(wm_for("hyprland"), Some("Hyprland"));
    assert_eq!(wm_for("gnome-shell"), Some("gnome-shell"));
    assert_eq!(wm_for("gnome"), None);
}

#[test]
fn raw_replies_are_parsed() {
    let tree = br#"{"focused": false, "nodes": [{"focused": true, "pid": 9, "app_id": "foot",
        "rect": {"x": 3, "y": 4, "width": 5, "height": 6}}]}"#;
    let sway = SwayImpl::from_reply(tree).unwrap();
    assert_eq!(sway.focused_window_extents(), (3, 4, 5, 6));
    assert_eq!(sway.focused_application_name(), "foot");
    assert!(SwayImpl::from_reply(b"not json").is_none());

    let h = HyprlandImpl::from_reply(br#"{"at": [1, 2], "size": [3, 4], "pid": 5, "class": "kitty"}"#).unwrap();
    assert_eq!(h.focused_window_extents(), (1, 2, 3, 4));
    assert!(HyprlandImpl::from_reply(br#"{"at": [1], "size": [3, 4]}"#).is_none());
    assert!(HyprlandImpl::from_reply(b"").is_none());
    assert!(HyprlandImpl::from_reply(br#"{"at": "x"}"#).is_some());

    let p = PlasmashellImpl::from_journal(r#"{"extents": [1, 2, 3, 4], "pid": 7, "name": "kate"}"#);
    assert_eq!(p.focused_window_extents(), (1, 2, 3, 4));
    assert_eq!(p.focused_application_name(), "kate");
    let p = PlasmashellImpl::from_journal("journal noise");
    assert_eq!(p.focused_window_extents(), (0, 0, 0, 0));
    assert_eq!(p.focused_window_pid(), 0);
}
