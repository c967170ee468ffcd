use hints::config::Config;
use hints::input::{MouseButton, MouseMode};
use hints::interceptor::{InterceptorCommand, InterceptorState};
use hints::overlay::{repeat_after_digit, ActionKind, MouseAction, OverlayOutcome, OverlayState};
use hints::session::{
    benchmark_backend, benchmark_supported, exit_release_click, overlay_origin, parse_backend_list,
    plan_action, window_system_override, Mode,
};
use hints::setup::{
    accepts_answer, is_root_user, is_wayland_gnome, merge_environment, reboot_answer, setup_descriptions,
    should_continue_answer, udev_rule, user_machine,
};

const EXIT: u32 = 65307;
const HOVER: u32 = 8;
const GRAB: u32 = 4;

fn labels(ls: &[&str]) -> Vec<String> {
    ls.iter().map(|s| s.to_string()).collect()
}

fn press(state: &mut OverlayState, c: char) -> OverlayOutcome {
    state.key_press(EXIT, HOVER, GRAB, c as u32, c as u32, 0, Some(c))
}

#[test]
fn typing_narrows_to_one_hint() {
    let mut state = OverlayState::new(labels(&["aa", "as", "sa", "ss"]));
    assert!(matches!(press(&mut state, 'a'), OverlayOutcome::Continue));
    assert_eq!(state.labels, labels(&["aa", "as"]));
    assert_eq!(state.selector, "a");
    match press(&mut state, 's') {
        OverlayOutcome::Resolved { label, action } => {
            assert_eq!(label, "as");
            assert_eq!(action, MouseAction { action: ActionKind::Click, button: MouseButton::Left, repeat: 1 });
        }
        other => panic!("unexpected {:?}", other),
    }
}

#[test]
fn unmatched_keys_change_nothing() {
    let mut state = OverlayState::new(labels(&["aa", "as"]));
    assert!(matches!(press(&mut state, 'q'), OverlayOutcome::Continue));
    assert_eq!(state.labels, labels(&["aa", "as"]));
    assert_eq!(state.selector, "");
    state.update_hints('z');
    assert_eq!(state.selector, "");
}

#[test]
fn exit_key_quits() {
    let mut state = OverlayState::new(labels(&["aa", "as"]));
    let outcome = state.key_press(EXIT, HOVER, GRAB, EXIT, EXIT, 0, None);
    assert!(matches!(outcome, OverlayOutcome::Quit));
    assert_eq!(state.labels.len(), 2);
}

#[test]
fn digits_and_modifiers_prepare_the_action() {
    let mut state = OverlayState::new(labels(&["aa", "as", "sa"]));
    press(&mut state, '3');
    assert_eq!(state.mouse_action.repeat, 13);
    press(&mut state, '2');
    assert_eq!(state.mouse_action.repeat, 132);
    let outcome = state.key_press(EXIT, HOVER, GRAB, 'a' as u32, 'a' as u32, HOVER, Some('a'));
    assert!(matches!(outcome, OverlayOutcome::Continue));
    assert_eq!(state.mouse_action.action, ActionKind::Hover);
    let outcome = state.key_press(EXIT, HOVER, GRAB, 'S' as u32, 's' as u32, 0, Some('s'));
    match outcome {
        OverlayOutcome::Resolved { label, action } => {
            assert_eq!(label, "as");
            assert_eq!(action.action, ActionKind::Click);
            assert_eq!(action.button, MouseButton::Right);
            assert_eq!(action.repeat, 132);
        }
        other => panic!("unexpected {:?}", other),
    }
}

#[test]
fn zero_repeat_counts_as_one() {
    let mut state = OverlayState::new(labels(&["0a", "b"]));
    press(&mut state, '0');
    assert_eq!(state.mouse_action.repeat, 10);
    let mut state = OverlayState::new(labels(&["a0", "b"]));
    state.mouse_action.repeat = 0;
    match press(&mut state, 'a') {
        OverlayOutcome::Resolved { action, .. } => assert_eq!(action.repeat, 1),
        other => panic!("unexpected {:?}", other),
    }
    let outcome = state.key_press(EXIT, HOVER, GRAB, 0, 0, GRAB, None);
    assert!(matches!(outcome, OverlayOutcome::Continue));
    assert_eq!(state.mouse_action.action, ActionKind::Grab);
}

#[test]
fn repeat_count_digits() {
    assert_eq!(repeat_after_digit(0, 7), 7);
    assert_eq!(repeat_after_digit(1, 0), 10);
    assert_eq!(repeat_after_digit(42, 9), 429);
    assert_eq!(repeat_after_digit(429_496_729, 5), 4_294_967_295);
    assert_eq!(repeat_after_digit(429_496_729, 6), 429_496_729);
    assert_eq!(MouseAction::default().repeat, 1);
}

#[test]
fn interceptor_nudges_once_then_drives_the_pointer() {
    let mut state = InterceptorState::new();
    let first = state.key_press("grab", EXIT, 'h' as u32, Some('h'));
    assert_eq!(
        first,
        vec![
            InterceptorCommand::Nudge,
            InterceptorCommand::MouseAction { key: 'h', mode: MouseMode::Move }
        ]
    );
    let second = state.key_press("grab", EXIT, 'j' as u32, Some('j'));
    assert_eq!(second, vec![InterceptorCommand::MouseAction { key: 'j', mode: MouseMode::Move }]);
    let scroll = state.key_press("scroll", EXIT, 'k' as u32, Some('k'));
    assert_eq!(scroll, vec![InterceptorCommand::MouseAction { key: 'k', mode: MouseMode::Scroll }]);
    assert!(state.key_press("hover", EXIT, 'k' as u32, Some('k')).is_empty());
    assert!(state.key_press("grab", EXIT, 1, None).is_empty());
    assert_eq!(state.key_press("grab", EXIT, EXIT, None), vec![InterceptorCommand::ReleaseAndQuit]);
}

#[test]
fn interceptor_exit_before_any_move() {
    let mut state = InterceptorState::new();
    assert_eq!(state.key_press("scroll", EXIT, EXIT, None), vec![InterceptorCommand::ReleaseAndQuit]);
    assert!(state.first_move);
}

#[test]
fn actions_become_mouse_requests() {
    let click = plan_action(&MouseAction { action: ActionKind::Click, button: MouseButton::Right, repeat: 2 });
    assert_eq!(click.click.button, MouseButton::Right);
    assert_eq!(click.click.states, vec![1, 0]);
    assert_eq!(click.click.repeat, 2);
    assert!(click.click.absolute && !click.open_interceptor);

    let hover = plan_action(&MouseAction { action: ActionKind::Hover, button: MouseButton::Right, repeat: 5 });
    assert!(hover.click.states.is_empty());
    assert_eq!(hover.click.repeat, 1);
    assert_eq!(hover.click.button, MouseButton::Left);

    let grab = plan_action(&MouseAction { action: ActionKind::Grab, button: MouseButton::Left, repeat: 3 });
    assert_eq!(grab.click.states, vec![1]);
    assert_eq!(grab.click.repeat, 1);
    assert!(grab.open_interceptor);

    let release = exit_release_click();
    assert_eq!(release.states, vec![0]);
    assert!(!release.absolute);
}

#[test]
fn command_line_decisions() {
    let mut config = Config::default();
    config.overlay_x_offset = -5;
    config.overlay_y_offset = 12;
    assert_eq!(overlay_origin(100, 100, &config), (95, 112));
    assert_eq!(parse_backend_list(" atspi , opencv,"), vec!["atspi", "opencv", ""]);
    assert_eq!(parse_backend_list("yolo"), vec!["yolo"]);
    assert_eq!(benchmark_backend(Some("opencv"), &config), "opencv");
    assert_eq!(benchmark_backend(None, &config), "yolo");
    config.backends.enable = vec!["atspi".to_string()];
    assert_eq!(benchmark_backend(None, &config), "atspi");
    assert!(benchmark_supported("yolo"));
    assert!(!benchmark_supported("atspi"));
    assert_eq!(window_system_override(&config), None);
    config.window_system = "sway".to_string();
    assert_eq!(window_system_override(&config), Some("sway"));
    assert_eq!(Mode::default(), Mode::Hint);
}

#[test]
fn environment_gets_missing_variables() {
    let merged = merge_environment("PATH=/usr/bin\nGTK_MODULES=foo");
    assert_eq!(
        merged,
        "PATH=/usr/bin\nGTK_MODULES=foo\nACCESSIBILITY_ENABLED=1\nOOO_FORCE_DESKTOP=gnome\n\
         GNOME_ACCESSIBILITY=1\nQT_ACCESSIBILITY=1\nQT_LINUX_ACCESSIBILITY_ALWAYS_ON=1"
    );
    let again = merge_environment(&merged);
    assert_eq!(again, merged);
    let fresh = merge_environment("");
    assert_eq!(fresh.lines().count(), 6);
    assert!(fresh.starts_with("ACCESSIBILITY_ENABLED=1\nGTK_MODULES=gail:atk-bridge"));
}

#[test]
fn qt_prefix_counts_as_set() {
    let merged = merge_environment("QT_ACCESSIBILITY=0");
    assert!(!merged.contains("QT_ACCESSIBILITY=1"));
    assert!(merged.contains("QT_LINUX_ACCESSIBILITY_ALWAYS_ON=1"));
}

#[test]
fn setup_answers_and_texts() {
    assert!(is_root_user("0"));
    assert!(!is_root_user("1000"));
    assert!(is_wayland_gnome("wayland", "ubuntu:GNOME"));
    assert!(!is_wayland_gnome("x11", "GNOME"));
    assert!(!is_wayland_gnome("wayland", "KDE"));
    assert!(should_continue_answer("\n"));
    assert!(should_continue_answer(" Yes \n"));
    assert!(should_continue_answer("y"));
    assert!(!should_continue_answer("no"));
    assert!(reboot_answer("Y\n"));
    assert!(!reboot_answer("\n"));
    assert_eq!(user_machine("alice"), "alice@.host");
    assert_eq!(udev_rule(), "KERNEL==\"uinput\", GROUP=\"input\", MODE:=\"0660\"");
    assert_eq!(setup_descriptions().len(), 5);
}

#[test]
fn normalised_answers() {
    assert!(accepts_answer("", true));
    assert!(!accepts_answer("", false));
    assert!(accepts_answer("yes", false));
    assert!(!accepts_answer("Yes", true));
    assert!(!accepts_answer("nope", true));
}

#[test]
fn user_lines_stay_first() {
    let content = "LANG=C\n# comment\nGNOME_ACCESSIBILITY=0";
    let merged = merge_environment(content);
    let lines: Vec<&str> = merged.lines().collect();
    assert_eq!(&lines[..3], &["LANG=C", "# comment", "GNOME_ACCESSIBILITY=0"]);
    assert_eq!(lines.len(), 8);
    assert!(!merged.contains("GNOME_ACCESSIBILITY=1"));
}
