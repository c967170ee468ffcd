use hints::backends::{
    accepts_window_pid, accessible_children, atspi_application_rules, check_window_extents,
    children_from_contours, children_from_edges, contours_fit_window, find_atspi_rule, find_opencv_rule, get_backends,
    find_role_named, is_frames_helper, is_gtk4, kernel_radius, match_rule_from,
    match_type_from_str, normalize_role_name, normalize_state_name, normalize_window_x,
    state_from_lookup, opencv_application_rules, role_codes, role_condition,
    role_from_config_str, state_condition, state_from_config_str, states_to_i32_pair,
    uses_window_coordinates, validate_match, window_is_active, ApplicationRules, BackendType,
    ContourChild, MatchType,
};
use hints::backends::{next_search_action, WindowSearchAction, WindowSearchEvent};
use hints::config::{ApplicationRule, Config, FloatBits, OpenCvApplicationRule};
use hints::window_systems::WindowSystemType;

const FOCUSED: u64 = 1 << 12;
const ACTIVE: u64 = 1 << 1;
const PUSH_BUTTON: u32 = 43;
const FRAME: u32 = 23;

#[test]
fn backends_follow_the_enabled_list() {
    let mut config = Config::default();
    assert!(get_backends(&config).is_empty());
    config.backends.enable = vec![
        "opencv".to_string(),
        "bogus".to_string(),
        "atspi".to_string(),
        "yolo".to_string(),
        "ATSPI".to_string(),
    ];
    assert_eq!(
        get_backends(&config),
        vec![BackendType::OpenCV, BackendType::Atspi, BackendType::Yolo]
    );
}

#[test]
fn rules_are_looked_up_by_application() {
    let mut config = Config::default();
    let mut firefox = ApplicationRule::default();
    firefox.scale_factor = FloatBits { bits: 2.0f64.to_bits() };
    config.backends.atspi.application_rules.push(("firefox".to_string(), firefox));
    config.backends.opencv.application_rules.push((
        "gimp".to_string(),
        OpenCvApplicationRule { kernel_size: 9, canny_min_val: 10, canny_max_val: 20 },
    ));
    assert!(find_atspi_rule(&config, "firefox").is_some());
    assert!(find_atspi_rule(&config, "Firefox").is_none());
    assert_eq!(find_opencv_rule(&config, "gimp").unwrap().kernel_size, 9);
    assert!(find_opencv_rule(&config, "firefox").is_none());

    let r = atspi_application_rules(&config, "firefox");
    assert_eq!(f64::from_bits(r.scale_factor.bits), 2.0);
    assert_eq!(r.opencv_kernel_size, 6);
    let r = atspi_application_rules(&config, "kitty");
    assert_eq!(f64::from_bits(r.scale_factor.bits), 1.0);

    let r = opencv_application_rules(&config, "gimp");
    assert_eq!((r.opencv_kernel_size, r.opencv_canny_min_val, r.opencv_canny_max_val), (9, 10, 20));
    assert_eq!(f64::from_bits(r.scale_factor.bits), 1.0);
    let r = opencv_application_rules(&config, "kitty");
    assert_eq!((r.opencv_kernel_size, r.opencv_canny_min_val, r.opencv_canny_max_val), (6, 100, 200));

    let d = ApplicationRules::default();
    assert_eq!((d.opencv_kernel_size, d.opencv_canny_min_val, d.opencv_canny_max_val), (6, 100, 200));
}

#[test]
fn match_types_are_read_ignoring_case() {
    assert_eq!(match_type_from_str("ALL"), MatchType::All);
    assert_eq!(match_type_from_str("any"), MatchType::Any);
    assert_eq!(match_type_from_str("None"), MatchType::NA);
    assert_eq!(match_type_from_str("n/a"), MatchType::NA);
    assert_eq!(match_type_from_str("NA"), MatchType::NA);
    assert_eq!(match_type_from_str("empty"), MatchType::Empty);
    assert_eq!(match_type_from_str(" all"), MatchType::Invalid);
    assert_eq!(match_type_from_str("whatever"), MatchType::Invalid);
}

#[test]
fn state_names_are_normalised() {
    assert_eq!(state_from_config_str("focused"), Some(FOCUSED));
    assert_eq!(state_from_config_str("  Focused "), Some(FOCUSED));
    assert_eq!(state_from_config_str("ACTIVE"), Some(ACTIVE));
    assert_eq!(state_from_config_str("has_tooltip"), Some(1 << 13));
    assert_eq!(state_from_config_str("multi line"), state_from_config_str("multi-line"));
    assert_eq!(state_from_config_str("invalid"), Some(1));
    assert_eq!(state_from_config_str("sparkly"), None);
}

#[test]
fn role_names_are_normalised() {
    assert_eq!(role_from_config_str("push button"), Some(PUSH_BUTTON));
    assert_eq!(role_from_config_str("Push_Button"), Some(PUSH_BUTTON));
    assert_eq!(role_from_config_str(" push-button "), Some(PUSH_BUTTON));
    assert_eq!(role_from_config_str("frame"), Some(FRAME));
    assert_eq!(role_from_config_str("flying saucer"), None);
}

#[test]
fn state_sets_travel_as_two_words() {
    assert_eq!(states_to_i32_pair(&[]), [0, 0]);
    assert_eq!(states_to_i32_pair(&[FOCUSED, ACTIVE]), [4098, 0]);
    assert_eq!(states_to_i32_pair(&[1 << 31, 1 << 33]), [i32::MIN, 2]);
    assert_eq!(role_codes(&[PUSH_BUTTON, FRAME]), vec![43, 23]);
}

#[test]
fn rules_are_decoded() {
    let rule = ApplicationRule {
        scale_factor: FloatBits { bits: 1.5f64.to_bits() },
        states: vec!["focused".to_string(), "nonsense".to_string(), "active".to_string()],
        states_match_type: "Any".to_string(),
        attributes: vec![("toolkit".to_string(), "gtk".to_string())],
        attributes_match_type: "all".to_string(),
        roles: vec!["push button".to_string(), "nope".to_string()],
        roles_match_type: "none".to_string(),
    };
    let m = match_rule_from(&rule);
    assert_eq!(m.states, vec![FOCUSED, ACTIVE]);
    assert_eq!(m.states_match_type, MatchType::Any);
    assert_eq!(m.attributes, rule.attributes);
    assert_eq!(m.attributes_match_type, MatchType::All);
    assert_eq!(m.roles, vec![PUSH_BUTTON]);
    assert_eq!(m.roles_match_type, MatchType::NA);
    assert_eq!(f64::from_bits(m.scale_factor.bits), 1.5);
}

#[test]
fn state_and_role_conditions() {
    let wanted = [FOCUSED, ACTIVE];
    assert!(state_condition(MatchType::All, &wanted, Some(FOCUSED | ACTIVE | 4)));
    assert!(!state_condition(MatchType::All, &wanted, Some(FOCUSED)));
    assert!(!state_condition(MatchType::All, &wanted, None));
    assert!(state_condition(MatchType::Empty, &[], Some(0)));
    assert!(state_condition(MatchType::Any, &wanted, Some(ACTIVE)));
    assert!(!state_condition(MatchType::Any, &wanted, Some(4)));
    assert!(state_condition(MatchType::NA, &wanted, Some(4)));
    assert!(!state_condition(MatchType::NA, &wanted, Some(ACTIVE)));
    assert!(state_condition(MatchType::NA, &wanted, None));
    assert!(state_condition(MatchType::Invalid, &wanted, None));

    assert!(role_condition(MatchType::Any, &[PUSH_BUTTON], Some(PUSH_BUTTON)));
    assert!(!role_condition(MatchType::All, &[PUSH_BUTTON], Some(FRAME)));
    assert!(!role_condition(MatchType::All, &[PUSH_BUTTON], None));
    assert!(role_condition(MatchType::NA, &[PUSH_BUTTON], Some(FRAME)));
    assert!(!role_condition(MatchType::NA, &[PUSH_BUTTON], Some(PUSH_BUTTON)));
    assert!(role_condition(MatchType::NA, &[PUSH_BUTTON], None));
    assert!(role_condition(MatchType::Invalid, &[], Some(1)));
}

#[test]
fn elements_are_validated_against_rules() {
    let mut rule = ApplicationRule::default();
    rule.states = vec!["focusable".to_string()];
    rule.roles = vec!["frame".to_string()];
    let m = match_rule_from(&rule);
    let focusable = 1 << 11;
    assert!(validate_match(&m, Some(focusable), Some(PUSH_BUTTON)));
    assert!(!validate_match(&m, Some(focusable), Some(FRAME)));
    assert!(!validate_match(&m, Some(0), Some(PUSH_BUTTON)));
    assert!(!validate_match(&m, None, None));
}

#[test]
fn focused_window_selection() {
    assert!(is_frames_helper("org.gnome.mutter-x11-frames"));
    assert!(!is_frames_helper("mutter"));
    assert!(window_is_active(ACTIVE | FOCUSED));
    assert!(!window_is_active(FOCUSED));
    assert!(accepts_window_pid(0, Some(5)));
    assert!(accepts_window_pid(5, Some(5)));
    assert!(accepts_window_pid(5, Some(0)));
    assert!(accepts_window_pid(5, None));
    assert!(!accepts_window_pid(5, Some(6)));
}

#[test]
fn element_coordinates() {
    assert!(is_gtk4("GTK", "4.12.1"));
    assert!(is_gtk4("gtk", "10"));
    assert!(!is_gtk4("GTK", "3.24.38"));
    assert!(!is_gtk4("Qt", "6.5"));
    assert!(!is_gtk4("GTK", "x.1"));
    assert!(!is_gtk4("GTK", ""));
    assert!(uses_window_coordinates(WindowSystemType::Wayland, false));
    assert!(uses_window_coordinates(WindowSystemType::X11, true));
    assert!(!uses_window_coordinates(WindowSystemType::X11, false));
    assert_eq!(normalize_window_x(-1), 1);
    assert_eq!(normalize_window_x(-2), -2);
    assert_eq!(normalize_window_x(7), 7);
}

#[test]
fn no_accessible_children_is_an_error() {
    assert_eq!(accessible_children(vec![1, 2], "app").unwrap(), vec![1, 2]);
    let err = accessible_children::<u8>(vec![], "kitty").unwrap_err();
    assert_eq!(err.message, "No accessible children found for kitty");
    assert_eq!(err.to_string(), "AccessibleChildrenNotFound: No accessible children found for kitty");
}

#[test]
fn window_extents_must_have_area() {
    assert!(check_window_extents(10, 10, "a").is_ok());
    assert_eq!(check_window_extents(0, 10, "a").unwrap_err().message, "Invalid window extents for a");
    assert!(check_window_extents(10, -1, "a").is_err());
}

#[test]
fn dilation_radius() {
    assert_eq!(kernel_radius(6), 3);
    assert_eq!(kernel_radius(1), 1);
    assert_eq!(kernel_radius(0), 1);
    assert_eq!(kernel_radius(7), 3);
    assert_eq!(kernel_radius(600), 44);
}

#[test]
fn contours_become_bounding_boxes() {
    let contours = vec![vec![(2, 3), (5, 3), (5, 8), (2, 8)], vec![], vec![(1, 1)]];
    let children = children_from_contours(&contours, 100, 200);
    assert_eq!(
        children,
        vec![
            ContourChild { abs_x: 102, abs_y: 203, rel_x: 2, rel_y: 3, width: 4, height: 6 },
            ContourChild { abs_x: 101, abs_y: 201, rel_x: 1, rel_y: 1, width: 1, height: 1 },
        ]
    );
}

#[test]
fn edge_image_yields_elements() {
    let (w, h) = (20u32, 20u32);
    let mut edges = vec![0u8; (w * h) as usize];
    for y in 8..12 {
        for x in 8..12 {
            edges[(y * w + x) as usize] = 255;
        }
    }
    let children = children_from_edges(edges.clone(), w, h, 2, 10, 20, "app").unwrap().unwrap();
    assert_eq!(children.len(), 1);
    let c = children[0];
    assert_eq!((c.rel_x, c.rel_y, c.width, c.height), (7, 7, 6, 6));
    assert_eq!((c.abs_x, c.abs_y), (17, 27));

    let blank = vec![0u8; (w * h) as usize];
    let err = children_from_edges(blank, w, h, 6, 0, 0, "app").unwrap().unwrap_err();
    assert_eq!(err.message, "No children found for app");

    assert!(children_from_edges(edges.clone(), w, h, 2, i32::MAX - 5, 0, "app").is_none());
    let near_edge = children_from_edges(edges, w, h, 2, i32::MAX - 7, 0, "app").unwrap().unwrap();
    assert_eq!(near_edge[0].abs_x, i32::MAX);
}

#[test]
fn contours_must_fit_the_coordinate_range() {
    let contours = vec![vec![(3, 0), (10, 0)], vec![]];
    assert!(contours_fit_window(&contours, i32::MAX - 3, 0));
    assert!(!contours_fit_window(&contours, i32::MAX - 2, 0));
    assert!(contours_fit_window(&vec![vec![]], i32::MAX, i32::MAX));
    let wide = vec![vec![(i32::MIN, 0), (i32::MAX, 0)]];
    assert!(!contours_fit_window(&wide, 0, 0));
    let children = children_from_contours(&contours, i32::MAX - 3, 0);
    assert_eq!(children[0].abs_x, i32::MAX);
    assert_eq!(children[0].width, 8);
}

#[test]
fn names_are_normalised_before_lookup() {
    assert_eq!(normalize_state_name("  Has_Tooltip "), "has-tooltip");
    assert_eq!(normalize_state_name("multi line"), "multi-line");
    assert_eq!(normalize_role_name(" PUSH_BUTTON"), "push button");
    assert_eq!(normalize_role_name("menu-item"), "menu item");
}

#[test]
fn lookup_results_are_decided() {
    assert_eq!(state_from_lookup("bogus", 1), None);
    assert_eq!(state_from_lookup("invalid", 1), Some(1));
    assert_eq!(state_from_lookup("focused", FOCUSED), Some(FOCUSED));
    let table = vec![
        None,
        Some((7, "Menu Item".to_string())),
        Some((9, "menu item".to_string())),
        Some((3, "frame".to_string())),
    ];
    assert_eq!(find_role_named(&table, "menu item"), Some(7));
    assert_eq!(find_role_named(&table, "FRAME"), Some(3));
    assert_eq!(find_role_named(&table, "dial"), None);
    assert_eq!(find_role_named(&vec![], "frame"), None);
}

#[test]
fn state_words_recombine() {
    let states = [FOCUSED, ACTIVE, 1 << 40, 1 << 31];
    let [low, high] = states_to_i32_pair(&states);
    let back = ((high as u32 as u64) << 32) | (low as u32 as u64);
    assert_eq!(back, FOCUSED | ACTIVE | (1 << 40) | (1 << 31));
}

#[test]
fn radius_covering_the_image_finds_nothing() {
    let (w, h) = (20u32, 20u32);
    let mut edges = vec![0u8; (w * h) as usize];
    edges[(10 * w + 10) as usize] = 255;
    let err = children_from_edges(edges, w, h, 60, 0, 0, "app").unwrap().unwrap_err();
    assert_eq!(err.message, "No children found for app");
    let blank = vec![0u8; (w * h) as usize];
    assert!(children_from_edges(blank, w, h, 100, 0, 0, "app").unwrap().is_err());
}

#[test]
fn focused_window_search_steps() {
    let frames = WindowSearchEvent::AppDescription(Some("org.gnome.mutter-x11-frames".to_string()));
    assert_eq!(next_search_action(0, &frames), WindowSearchAction::NextApp);
    assert_eq!(next_search_action(0, &WindowSearchEvent::AppDescription(None)), WindowSearchAction::ListWindows);
    assert_eq!(
        next_search_action(0, &WindowSearchEvent::AppDescription(Some("firefox".to_string()))),
        WindowSearchAction::ListWindows
    );
    assert_eq!(next_search_action(0, &WindowSearchEvent::AppWindowsListed(false)), WindowSearchAction::NextApp);
    assert_eq!(next_search_action(0, &WindowSearchEvent::AppWindowsListed(true)), WindowSearchAction::CheckWindows);
    assert_eq!(next_search_action(0, &WindowSearchEvent::WindowState(None)), WindowSearchAction::NextWindow);
    assert_eq!(next_search_action(0, &WindowSearchEvent::WindowState(Some(FOCUSED))), WindowSearchAction::NextWindow);
    assert_eq!(next_search_action(0, &WindowSearchEvent::WindowState(Some(ACTIVE))), WindowSearchAction::Found);
    assert_eq!(next_search_action(42, &WindowSearchEvent::WindowState(Some(ACTIVE))), WindowSearchAction::AskPid);
    assert_eq!(next_search_action(42, &WindowSearchEvent::WindowAppPid(Some(42))), WindowSearchAction::Found);
    assert_eq!(next_search_action(42, &WindowSearchEvent::WindowAppPid(Some(7))), WindowSearchAction::NextWindow);
    assert_eq!(next_search_action(42, &WindowSearchEvent::WindowAppPid(None)), WindowSearchAction::Found);
}

#[test]
fn dilation_reaches_the_radius() {
    let (w, h) = (21u32, 21u32);
    let mut edges = vec![0u8; (w * h) as usize];
    edges[(10 * w + 10) as usize] = 255;
    let children = children_from_edges(edges, w, h, 4, 0, 0, "app").unwrap().unwrap();
    assert_eq!(children.len(), 1);
    assert_eq!((children[0].rel_x, children[0].rel_y, children[0].width, children[0].height), (8, 8, 5, 5));
}
