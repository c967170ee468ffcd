use hints::input::{MouseButton, MouseButtonState, MouseMode};
use hints::json::JsonValue;
use hints::mouse::{
    click_operations, decode_message, mouse_action_scroll, ok_response, process_message, reply_to,
    screen_size, MouseOp, MouseRequest,
};

fn to_json(v: &serde_json::Value) -> JsonValue {
    match v {
        serde_json::Value::Null => JsonValue::Null,
        serde_json::Value::Bool(b) => JsonValue::Bool(*b),
        serde_json::Value::Number(n) => {
            if let Some(u) = n.as_u64() {
                JsonValue::PosInt(u)
            } else if let Some(i) = n.as_i64() {
                JsonValue::NegInt(i)
            } else {
                JsonValue::Float
            }
        }
        serde_json::Value::String(s) => JsonValue::Str(s.clone()),
        serde_json::Value::Array(items) => JsonValue::Array(items.iter().map(to_json).collect()),
        serde_json::Value::Object(map) => {
            JsonValue::Object(map.iter().map(|(k, v)| (k.clone(), to_json(v))).collect())
        }
    }
}

fn request(text: &str) -> Option<MouseRequest> {
    process_message(&to_json(&serde_json::from_str(text).unwrap()))
}

#[test]
fn click_request_is_decoded() {
    let r = request(
        r#"{"method": "click", "args": [100, 200, "left", [1, 0], 2], "kwargs": {"absolute": true}}"#,
    );
    match r {
        Some(MouseRequest::Click { x, y, button, states, repeat, absolute }) => {
            assert_eq!((x, y), (100, 200));
            assert_eq!(button, MouseButton::Left);
            assert_eq!(states, vec![MouseButtonState::Down, MouseButtonState::Up]);
            assert_eq!(repeat, 2);
            assert!(absolute);
        }
        other => panic!("unexpected {:?}", other),
    }
}

#[test]
fn click_request_details() {
    let r = request(r#"{"method": "click", "args": [-1, 2, "middle", [1, "x", 3, 0.5], 1]}"#);
    match r {
        Some(MouseRequest::Click { x, button, states, absolute, .. }) => {
            assert_eq!(x, -1);
            assert_eq!(button, MouseButton::Right);
            assert_eq!(states, vec![MouseButtonState::Down, MouseButtonState::Up]);
            assert!(!absolute);
        }
        other => panic!("unexpected {:?}", other),
    }
}

#[test]
fn malformed_requests_get_no_reply() {
    assert!(request(r#"{"args": [1, 2]}"#).is_none());
    assert!(request(r#"{"method": 3}"#).is_none());
    assert!(request(r#"{"method": "click", "args": [1, 2, "left", [1, 0], -1]}"#).is_none());
    assert!(request(r#"{"method": "click", "args": [1, 2, "left"]}"#).is_none());
    assert!(request(r#"{"method": "move", "args": [1]}"#).is_none());
    assert!(request(r#"{"method": "scroll", "args": ["1", 2]}"#).is_none());
    assert!(request(r#"{"method": "do_mouse_action", "args": ["h"]}"#).is_none());
}

#[test]
fn move_scroll_and_actions_are_decoded() {
    match request(r#"{"method": "move", "args": [0, 1], "kwargs": {"absolute": false}}"#) {
        Some(MouseRequest::Move { x, y, absolute }) => assert_eq!((x, y, absolute), (0, 1, false)),
        other => panic!("unexpected {:?}", other),
    }
    match request(r#"{"method": "scroll", "args": [-3, 4]}"#) {
        Some(MouseRequest::Scroll { x, y }) => assert_eq!((x, y), (-3, 4)),
        other => panic!("unexpected {:?}", other),
    }
    match request(r#"{"method": "do_mouse_action", "args": ["k", "move"]}"#) {
        Some(MouseRequest::DoMouseAction { key, mode }) => {
            assert_eq!(key, "k");
            assert_eq!(mode, MouseMode::Move);
        }
        other => panic!("unexpected {:?}", other),
    }
    match request(r#"{"method": "do_mouse_action", "args": ["k", "other"]}"#) {
        Some(MouseRequest::DoMouseAction { mode, .. }) => assert_eq!(mode, MouseMode::Scroll),
        other => panic!("unexpected {:?}", other),
    }
    assert!(matches!(request(r#"{"method": "teleport"}"#), Some(MouseRequest::Ignored)));
}

#[test]
fn click_events_on_the_absolute_device() {
    let ops = click_operations(
        50,
        60,
        MouseButton::Right,
        &[MouseButtonState::Down, MouseButtonState::Up],
        2,
        true,
    );
    let down = MouseOp::Button { code: 0x111, value: 1, absolute: true };
    let up = MouseOp::Button { code: 0x111, value: 0, absolute: true };
    assert_eq!(
        ops,
        vec![
            MouseOp::Move { x: 50, y: 60, absolute: true },
            down,
            up,
            down,
            up,
            MouseOp::Move { x: 51, y: 60, absolute: true },
            MouseOp::Move { x: 49, y: 60, absolute: true },
        ]
    );
}

#[test]
fn click_events_on_the_relative_device() {
    let ops = click_operations(0, 0, MouseButton::Left, &[MouseButtonState::Up], 1, false);
    assert_eq!(
        ops,
        vec![
            MouseOp::Move { x: 0, y: 0, absolute: false },
            MouseOp::Button { code: 0x110, value: 0, absolute: false },
        ]
    );
    let hover = click_operations(3, 4, MouseButton::Left, &[], 1, true);
    assert_eq!(hover.len(), 3);
    let none = click_operations(3, 4, MouseButton::Left, &[MouseButtonState::Down], 0, false);
    assert_eq!(none, vec![MouseOp::Move { x: 3, y: 4, absolute: false }]);
}

#[test]
fn held_key_scroll_steps() {
    assert_eq!(mouse_action_scroll(None, "h", MouseMode::Scroll), None);
    assert_eq!(mouse_action_scroll(Some(0), "h", MouseMode::Scroll), Some((-10, 0)));
    assert_eq!(mouse_action_scroll(Some(500_000_000), "l", MouseMode::Scroll), Some((10, 0)));
    assert_eq!(mouse_action_scroll(Some(500_000_001), "k", MouseMode::Scroll), Some((0, -20)));
    assert_eq!(mouse_action_scroll(Some(1), "j", MouseMode::Move), Some((0, 10)));
    assert_eq!(mouse_action_scroll(Some(1), "x", MouseMode::Scroll), None);
}

#[test]
fn reply_text() {
    assert_eq!(ok_response(), "{\"status\": \"ok\"}");
}

#[test]
fn screen_spans_all_monitors() {
    assert_eq!(screen_size(&[]), (1920, 1080));
    assert_eq!(screen_size(&[(0, 0, 2560, 1440), (2560, 0, 1920, 1080)]), (4480, 1440));
    assert_eq!(screen_size(&[(0, 0, 0, 1440)]), (1920, 1080));
    assert_eq!(screen_size(&[(-100, -50, 100, 50)]), (1920, 1080));
}

#[test]
fn message_text_is_decoded_and_answered() {
    let r = decode_message(r#"{"method": "scroll", "args": [1, -2]}"#);
    assert!(matches!(r, Some(MouseRequest::Scroll { x: 1, y: -2 })));
    assert_eq!(reply_to(&r).as_deref(), Some("{\"status\": \"ok\"}"));
    let garbage = decode_message("not json {");
    assert!(garbage.is_none());
    assert_eq!(reply_to(&garbage), None);
    assert!(decode_message("").is_none());
    assert!(decode_message("[1, 2]").is_none());
    let interceptor_style = decode_message(r#"{"method": "do_mouse_action", "args": [{}, "h", "move"], "kwargs": {}}"#);
    assert!(interceptor_style.is_none());
    let float_click = decode_message(r#"{"method": "click", "args": [1.5, 2.0, "left", [1, 0], 1]}"#);
    assert!(float_click.is_none());
}
