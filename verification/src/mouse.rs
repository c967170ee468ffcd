//! The mouse service's decisions: which virtual-device events a click
//! consists of, how far a held key scrolls, and what a request on the
//! service's socket asks for. Emitting the events, sleeping between them
//! and reading the socket are the caller's part.

use vstd::prelude::*;
use crate::input::{MouseButton, MouseButtonState, MouseMode, button_code, state_value};
use crate::json::{JsonValue, get_key, get_index, as_i64, as_u64, as_bool, as_str, as_array, opt, json_of, parse_json};
use crate::json::{value_as_i64, value_as_u64, value_as_bool, value_as_str, value_as_array};
use crate::text::{str_eq, owned};

verus! {

// ---------------------------------------------------------------------------
// Clicks
// ---------------------------------------------------------------------------

/// One event written to a virtual mouse device, followed by a pause.
#[derive(Debug, Clone, Copy, PartialEq, Eq, Structural)]
pub enum MouseOp {
    /// Move the pointer, to `(x, y)` on the absolute device or by `(x, y)`
    /// on the relative one.
    Move { x: i32, y: i32, absolute: bool },
    /// Set a button to a state (`value` 1 pressed, 0 released).
    Button { code: u32, value: i32, absolute: bool },
    /// Scroll horizontally by `x` and vertically by `y` wheel steps.
    Scroll { x: i32, y: i32 },
}

/// The button events of one repetition of a click.
pub open spec fn press_ops(button: MouseButton, states: Seq<MouseButtonState>, absolute: bool) -> Seq<
    MouseOp,
> {
    states.map_values(
        |s: MouseButtonState|
            MouseOp::Button { code: button_code(button), value: state_value(s), absolute },
    )
}

/// `n` copies of a sequence, one after another.
pub open spec fn repeated(s: Seq<MouseOp>, n: nat) -> Seq<MouseOp>
    decreases n,
{
    if n == 0 {
        Seq::empty()
    } else {
        repeated(s, (n - 1) as nat) + s
    }
}

/// The events of a click: a move to the target, the button states `repeat`
/// times over, and on the absolute device a nudge one pixel right then one
/// pixel left of the target.
pub open spec fn click_ops(
    x: i32,
    y: i32,
    button: MouseButton,
    states: Seq<MouseButtonState>,
    repeat: nat,
    absolute: bool,
) -> Seq<MouseOp> {
    let tail = if absolute {
        seq![
            MouseOp::Move { x: (x + 1) as i32, y, absolute: true },
            MouseOp::Move { x: (x - 1) as i32, y, absolute: true },
        ]
    } else {
        Seq::empty()
    };
    seq![MouseOp::Move { x, y, absolute }] + repeated(press_ops(button, states, absolute), repeat)
        + tail
}

/// The events the service writes for a click request.
pub fn click_operations(
    x: i32,
    y: i32,
    button: MouseButton,
    button_states: &[MouseButtonState],
    repeat: u32,
    absolute: bool,
) -> (r: Vec<MouseOp>)
    requires
        absolute ==> i32::MIN < x < i32::MAX,
    ensures
        r@ == click_ops(x, y, button, button_states@, repeat as nat, absolute),
{
    let mut ops: Vec<MouseOp> = Vec::new();
    ops.push(MouseOp::Move { x, y, absolute });
    let code = button.to_evdev_code();
    let ghost once = press_ops(button, button_states@, absolute);
    let mut n: u32 = 0;
    while n < repeat
        invariant
            n <= repeat,
            code == button_code(button),
            once == press_ops(button, button_states@, absolute),
            ops@ == seq![MouseOp::Move { x, y, absolute }] + repeated(once, n as nat),
        decreases repeat - n,
    {
        let ghost before = ops@;
        let mut k: usize = 0;
        while k < button_states.len()
            invariant
                k <= button_states@.len(),
                code == button_code(button),
                once == press_ops(button, button_states@, absolute),
                ops@ == before + once.take(k as int),
            decreases button_states@.len() - k,
        {
            let value = button_states[k].value();
            ops.push(MouseOp::Button { code, value, absolute });
            assert(once.take(k + 1) =~= once.take(k as int).push(once[k as int]));
            assert(ops@ =~= before + once.take(k + 1));
            k += 1;
        }
        assert(once.take(k as int) =~= once);
        assert(seq![MouseOp::Move { x, y, absolute }] + repeated(once, (n + 1) as nat) =~= before
            + once);
        n += 1;
    }
    if absolute {
        ops.push(MouseOp::Move { x: x + 1, y, absolute: true });
        ops.push(MouseOp::Move { x: x - 1, y, absolute: true });
    }
    let ghost tail = if absolute {
        seq![
            MouseOp::Move { x: (x + 1) as i32, y, absolute: true },
            MouseOp::Move { x: (x - 1) as i32, y, absolute: true },
        ]
    } else {
        Seq::empty()
    };
    assert(ops@ =~= seq![MouseOp::Move { x, y, absolute }] + repeated(once, repeat as nat) + tail);
    ops
}

proof fn lemma_repeated_len(s: Seq<MouseOp>, n: nat)
    ensures
        repeated(s, n).len() == n * s.len(),
    decreases n,
{
    let l = s.len();
    if n > 0 {
        let m = (n - 1) as nat;
        lemma_repeated_len(s, m);
        assert(m * l + l == n * l) by (nonlinear_arith)
            requires
                n == m + 1,
        ;
    } else {
        assert(n * l == 0) by (nonlinear_arith)
            requires
                n == 0,
        ;
    }
}

/// A click writes one move, then one button event per state per repetition,
/// then (on the absolute device) two more moves; it starts at the target.
pub proof fn click_event_count(
    x: i32,
    y: i32,
    button: MouseButton,
    states: Seq<MouseButtonState>,
    repeat: nat,
    absolute: bool,
)
    ensures
        click_ops(x, y, button, states, repeat, absolute).len() == 1 + repeat * states.len() + (
        if absolute {
            2int
        } else {
            0int
        }),
        click_ops(x, y, button, states, repeat, absolute)[0] == (MouseOp::Move { x, y, absolute }),
{
    lemma_repeated_len(press_ops(button, states, absolute), repeat);
}

// ---------------------------------------------------------------------------
// Held keys
// ---------------------------------------------------------------------------

/// Nanoseconds after which a held key counts as held long (half a second).
pub open spec fn rampup_nanos() -> u128 {
    500_000_000u128
}

/// The scroll a key press causes, given the time since the previous press
/// of the sequence (none for the first press): nothing for the first press
/// or keys other than `h`, `l`, `k`, `j`; else 10 steps (20 once more than
/// half a second has passed) left, right, up or down. Both modes scroll.
pub open spec fn scroll_for(previous_elapsed: Option<u128>, key: Seq<char>) -> Option<(i32, i32)> {
    match previous_elapsed {
        None => None,
        Some(e) => {
            let delta: i32 = if e > rampup_nanos() {
                20
            } else {
                10
            };
            if key == "h"@ {
                Some((-delta as i32, 0i32))
            } else if key == "l"@ {
                Some((delta, 0i32))
            } else if key == "k"@ {
                Some((0i32, -delta as i32))
            } else if key == "j"@ {
                Some((0i32, delta))
            } else {
                None
            }
        },
    }
}

/// The scroll step of a held-key mouse action (see [`scroll_for`]).
pub fn mouse_action_scroll(previous_elapsed: Option<u128>, key: &str, mode: MouseMode) -> (r: Option<
    (i32, i32),
>)
    ensures
        r == scroll_for(previous_elapsed, key@),
{
    match previous_elapsed {
        None => None,
        Some(e) => {
            let delta: i32 = if e > 500_000_000u128 {
                20
            } else {
                10
            };
            if str_eq(key, "h") {
                Some((-delta, 0))
            } else if str_eq(key, "l") {
                Some((delta, 0))
            } else if str_eq(key, "k") {
                Some((0, -delta))
            } else if str_eq(key, "j") {
                Some((0, delta))
            } else {
                None
            }
        },
    }
}

// ---------------------------------------------------------------------------
// Requests on the service socket
// ---------------------------------------------------------------------------

/// What a request asks the service to do.
#[derive(Debug)]
pub enum MouseRequest {
    Click {
        x: i32,
        y: i32,
        button: MouseButton,
        states: Vec<MouseButtonState>,
        repeat: u32,
        absolute: bool,
    },
    Move { x: i32, y: i32, absolute: bool },
    Scroll { x: i32, y: i32 },
    /// A held-key action; it starts a new key sequence each time.
    DoMouseAction { key: String, mode: MouseMode },
    /// A method the service does not know: acknowledged, nothing done.
    Ignored,
}

/// Element `i` of a possibly absent array.
pub open spec fn arg(args: Option<JsonValue>, i: int) -> Option<JsonValue> {
    match args {
        Some(a) => get_index(a, i),
        None => None,
    }
}

/// Button states listed in a request: `1` is pressed, any other integer
/// released, and non-integers are skipped.
pub open spec fn states_of(items: Seq<JsonValue>) -> Seq<MouseButtonState>
    decreases items.len(),
{
    if items.len() == 0 {
        Seq::empty()
    } else {
        let rest = states_of(items.drop_last());
        match as_i64(Some(items.last())) {
            Some(n) => rest.push(
                if n == 1 {
                    MouseButtonState::Down
                } else {
                    MouseButtonState::Up
                },
            ),
            None => rest,
        }
    }
}

/// The `absolute` keyword argument, `false` when absent or not a boolean.
pub open spec fn absolute_flag(msg: JsonValue) -> bool {
    match get_key(msg, "kwargs"@) {
        Some(kw) => as_bool(get_key(kw, "absolute"@)) == Some(true),
        None => false,
    }
}

/// Whether a decoded request is the one a message asks for: `None` when the
/// message has no string `method`, or a known method lacks an argument of
/// the right type (no reply is sent then); otherwise the request, with
/// integers truncated to 32 bits.
pub open spec fn decodes_to(msg: JsonValue, r: Option<MouseRequest>) -> bool {
    let args = get_key(msg, "args"@);
    match as_str(get_key(msg, "method"@)) {
        None => r is None,
        Some(method) => if method == "click"@ {
            let ok = as_i64(arg(args, 0)) is Some && as_i64(arg(args, 1)) is Some && as_str(
                arg(args, 2),
            ) is Some && as_array(arg(args, 3)) is Some && as_u64(arg(args, 4)) is Some;
            if ok {
                r matches Some(MouseRequest::Click { x, y, button, states, repeat, absolute }) && x
                    == as_i64(arg(args, 0))->0 as i32 && y == as_i64(arg(args, 1))->0 as i32
                    && button == (if as_str(arg(args, 2))->0 == "left"@ {
                    MouseButton::Left
                } else {
                    MouseButton::Right
                }) && states@ == states_of(as_array(arg(args, 3))->0) && repeat == as_u64(
                    arg(args, 4),
                )->0 as u32 && absolute == absolute_flag(msg)
            } else {
                r is None
            }
        } else if method == "move"@ {
            if as_i64(arg(args, 0)) is Some && as_i64(arg(args, 1)) is Some {
                r == Some(
                    MouseRequest::Move {
                        x: as_i64(arg(args, 0))->0 as i32,
                        y: as_i64(arg(args, 1))->0 as i32,
                        absolute: absolute_flag(msg),
                    },
                )
            } else {
                r is None
            }
        } else if method == "scroll"@ {
            if as_i64(arg(args, 0)) is Some && as_i64(arg(args, 1)) is Some {
                r == Some(
                    MouseRequest::Scroll {
                        x: as_i64(arg(args, 0))->0 as i32,
                        y: as_i64(arg(args, 1))->0 as i32,
                    },
                )
            } else {
                r is None
            }
        } else if method == "do_mouse_action"@ {
            if as_str(arg(args, 0)) is Some && as_str(arg(args, 1)) is Some {
                r matches Some(MouseRequest::DoMouseAction { key, mode }) && key@ == as_str(
                    arg(args, 0),
                )->0 && mode == (if as_str(arg(args, 1))->0 == "move"@ {
                    MouseMode::Move
                } else {
                    MouseMode::Scroll
                })
            } else {
                r is None
            }
        } else {
            r == Some(MouseRequest::Ignored)
        },
    }
}

fn states_from(items: &Vec<JsonValue>) -> (r: Vec<MouseButtonState>)
    ensures
        r@ == states_of(items@),
{
    let mut r: Vec<MouseButtonState> = Vec::new();
    let mut i: usize = 0;
    while i < items.len()
        invariant
            i <= items@.len(),
            r@ == states_of(items@.take(i as int)),
        decreases items@.len() - i,
    {
        assert(items@.take(i + 1).drop_last() =~= items@.take(i as int));
        assert(items@.take(i + 1).last() == items@[i as int]);
        match value_as_i64(Some(&items[i])) {
            Some(n) => {
                if n == 1 {
                    r.push(MouseButtonState::Down);
                } else {
                    r.push(MouseButtonState::Up);
                }
            },
            None => {},
        }
        i += 1;
    }
    assert(items@.take(items@.len() as int) =~= items@);
    r
}

fn arg_at<'a>(args: Option<&'a JsonValue>, i: usize) -> (r: Option<&'a JsonValue>)
    ensures
        opt(r) == arg(opt(args), i as int),
{
    match args {
        Some(a) => a.get_index(i),
        None => None,
    }
}

fn absolute_of(msg: &JsonValue) -> (r: bool)
    ensures
        r == absolute_flag(*msg),
{
    match msg.get_key("kwargs") {
        Some(kw) => value_as_bool(kw.get_key("absolute")) == Some(true),
        None => false,
    }
}

/// Decodes a request read from the service socket (see [`decodes_to`]).
pub fn process_message(msg: &JsonValue) -> (r: Option<MouseRequest>)
    ensures
        decodes_to(*msg, r),
        ({
            let absolute_asked = match get_key(*msg, "kwargs"@) {
                Some(kw) => get_key(kw, "absolute"@) == Some(JsonValue::Bool(true)),
                None => false,
            };
            &&& r matches Some(MouseRequest::Move { absolute, .. }) ==> absolute == absolute_asked
            &&& r matches Some(MouseRequest::Click { absolute, .. }) ==> absolute == absolute_asked
        }),
{
    let r = decode_request(msg);
    proof {
        decoded_requests_follow_the_message(*msg, r);
    }
    r
}

fn decode_request(msg: &JsonValue) -> (r: Option<MouseRequest>)
    ensures
        decodes_to(*msg, r),
{
    let method = match value_as_str(msg.get_key("method")) {
        Some(m) => m,
        None => return None,
    };
    let args = msg.get_key("args");
    if str_eq(method.as_str(), "click") {
        let x = match value_as_i64(arg_at(args, 0)) {
            Some(v) => v as i32,
            None => return None,
        };
        let y = match value_as_i64(arg_at(args, 1)) {
            Some(v) => v as i32,
            None => return None,
        };
        let button = match value_as_str(arg_at(args, 2)) {
            Some(b) => if str_eq(b.as_str(), "left") {
                MouseButton::Left
            } else {
                MouseButton::Right
            },
            None => return None,
        };
        let states = match value_as_array(arg_at(args, 3)) {
            Some(items) => states_from(items),
            None => return None,
        };
        let repeat = match value_as_u64(arg_at(args, 4)) {
            Some(v) => v as u32,
            None => return None,
        };
        let absolute = absolute_of(msg);
        Some(MouseRequest::Click { x, y, button, states, repeat, absolute })
    } else if str_eq(method.as_str(), "move") {
        let x = match value_as_i64(arg_at(args, 0)) {
            Some(v) => v as i32,
            None => return None,
        };
        let y = match value_as_i64(arg_at(args, 1)) {
            Some(v) => v as i32,
            None => return None,
        };
        Some(MouseRequest::Move { x, y, absolute: absolute_of(msg) })
    } else if str_eq(method.as_str(), "scroll") {
        let x = match value_as_i64(arg_at(args, 0)) {
            Some(v) => v as i32,
            None => return None,
        };
        let y = match value_as_i64(arg_at(args, 1)) {
            Some(v) => v as i32,
            None => return None,
        };
        Some(MouseRequest::Scroll { x, y })
    } else if str_eq(method.as_str(), "do_mouse_action") {
        let key = match value_as_str(arg_at(args, 0)) {
            Some(k) => k.clone(),
            None => return None,
        };
        let mode = match value_as_str(arg_at(args, 1)) {
            Some(m) => if str_eq(m.as_str(), "move") {
                MouseMode::Move
            } else {
                MouseMode::Scroll
            },
            None => return None,
        };
        Some(MouseRequest::DoMouseAction { key, mode })
    } else {
        Some(MouseRequest::Ignored)
    }
}

/// Reading a request keeps what the message asked for: a move or a click
/// is absolute exactly when `kwargs.absolute` is the boolean `true`; a
/// message whose method is `"move"` with two integer arguments becomes a
/// move to those coordinates (truncated to 32 bits); one with the method
/// `"click"` becomes a click or nothing, and one with `"scroll"` a scroll or
/// nothing.
pub proof fn decoded_requests_follow_the_message(msg: JsonValue, r: Option<MouseRequest>)
    requires
        decodes_to(msg, r),
    ensures
        ({
            let absolute_asked = match get_key(msg, "kwargs"@) {
                Some(kw) => get_key(kw, "absolute"@) == Some(JsonValue::Bool(true)),
                None => false,
            };
            let method = get_key(msg, "method"@);
            let args = get_key(msg, "args"@);
            &&& r matches Some(MouseRequest::Move { absolute, .. }) ==> absolute == absolute_asked
            &&& r matches Some(MouseRequest::Click { absolute, .. }) ==> absolute == absolute_asked
            &&& (as_str(method) == Some("move"@) && as_i64(arg(args, 0)) is Some && as_i64(
                arg(args, 1),
            ) is Some) ==> r == Some(
                MouseRequest::Move {
                    x: as_i64(arg(args, 0))->0 as i32,
                    y: as_i64(arg(args, 1))->0 as i32,
                    absolute: absolute_asked,
                },
            )
            &&& as_str(method) == Some("click"@) ==> (r is None || r matches Some(
                MouseRequest::Click { .. },
            ))
            &&& as_str(method) == Some("scroll"@) ==> (r is None || r matches Some(
                MouseRequest::Scroll { .. },
            ))
        }),
{
    reveal_strlit("move");
    reveal_strlit("click");
    reveal_strlit("scroll");
    reveal_strlit("do_mouse_action");
    assert("move"@.len() == 4 && "click"@.len() == 5 && "scroll"@.len() == 6);
    assert("do_mouse_action"@.len() == 15);
}

/// Decodes the text of a message read from the service socket: nothing
/// where the text is not JSON, otherwise what the document asks for (see
/// [`decodes_to`]).
pub fn decode_message(message: &str) -> (r: Option<MouseRequest>)
    ensures
        match json_of(message@) {
            None => r is None,
            Some(j) => decodes_to(j, r),
        },
{
    match parse_json(message) {
        Some(j) => process_message(&j),
        None => None,
    }
}

/// The reply to a message: `{"status": "ok"}` where it decoded to a
/// request, none otherwise.
pub fn reply_to(request: &Option<MouseRequest>) -> (r: Option<String>)
    ensures
        match request {
            Some(_) => r matches Some(t) && t@ == "{\"status\": \"ok\"}"@,
            None => r is None,
        },
{
    match request {
        Some(_) => Some(ok_response()),
        None => None,
    }
}

/// The reply the service sends to every request it decoded.
pub fn ok_response() -> (r: String)
    ensures
        r@ == "{\"status\": \"ok\"}"@,
{
    owned("{\"status\": \"ok\"}")
}

// ---------------------------------------------------------------------------
// Screen size
// ---------------------------------------------------------------------------

/// The furthest right and bottom edges of some monitors `(x, y, width,
/// height)`, starting from `(0, 0)`.
pub open spec fn far_edges(monitors: Seq<(i32, i32, i32, i32)>) -> (int, int)
    decreases monitors.len(),
{
    if monitors.len() == 0 {
        (0, 0)
    } else {
        let (mx, my) = far_edges(monitors.drop_last());
        let m = monitors.last();
        (
            if m.0 + m.2 > mx { m.0 + m.2 } else { mx },
            if m.1 + m.3 > my { m.1 + m.3 } else { my },
        )
    }
}

/// The furthest edges bound every monitor: no monitor's right edge
/// (`x + width`) or bottom edge (`y + height`) lies beyond them, each is
/// reached by some monitor unless it is zero, and neither is negative.
pub proof fn monitors_lie_within_the_screen(monitors: Seq<(i32, i32, i32, i32)>)
    ensures
        far_edges(monitors).0 >= 0,
        far_edges(monitors).1 >= 0,
        forall|i: int|
            0 <= i < monitors.len() ==> (#[trigger] monitors[i]).0 + monitors[i].2 <= far_edges(
                monitors,
            ).0 && monitors[i].1 + monitors[i].3 <= far_edges(monitors).1,
        far_edges(monitors).0 == 0 || exists|i: int|
            0 <= i < monitors.len() && #[trigger] monitors[i].0 + monitors[i].2 == far_edges(monitors).0,
        far_edges(monitors).1 == 0 || exists|j: int|
            0 <= j < monitors.len() && #[trigger] monitors[j].1 + monitors[j].3 == far_edges(monitors).1,
    decreases monitors.len(),
{
    if monitors.len() > 0 {
        let q = monitors.drop_last();
        monitors_lie_within_the_screen(q);
        let m = monitors.last();
        assert(monitors[monitors.len() - 1] == m);
        assert forall|i: int| 0 <= i < q.len() implies #[trigger] monitors[i] == q[i] by {}
        let fq = far_edges(q);
        let f = far_edges(monitors);
        if f.0 != 0 && f.0 != m.0 + m.2 {
            let i = choose|i: int| 0 <= i < q.len() && #[trigger] q[i].0 + q[i].2 == fq.0;
            assert(monitors[i] == q[i]);
        }
        if f.1 != 0 && f.1 != m.1 + m.3 {
            let j = choose|j: int| 0 <= j < q.len() && #[trigger] q[j].1 + q[j].3 == fq.1;
            assert(monitors[j] == q[j]);
        }
    }
}

/// The screen size the service's absolute device spans: the furthest edges
/// of the monitors, or 1920 by 1080 when either is zero.
pub fn screen_size(monitors: &[(i32, i32, i32, i32)]) -> (r: (i32, i32))
    requires
        forall|i: int|
            0 <= i < monitors@.len() ==> i32::MIN <= #[trigger] monitors@[i].0 + monitors@[i].2
                <= i32::MAX && i32::MIN <= monitors@[i].1 + monitors@[i].3 <= i32::MAX,
    ensures
        ({
            let (mx, my) = far_edges(monitors@);
            r == if mx == 0 || my == 0 {
                (1920i32, 1080i32)
            } else {
                (mx as i32, my as i32)
            }
        }),
        ({
            let ms = monitors@;
            let spans = (exists|i: int| 0 <= i < ms.len() && #[trigger] ms[i].0 + ms[i].2 > 0) && (exists|
                j: int,
            | 0 <= j < ms.len() && #[trigger] ms[j].1 + ms[j].3 > 0);
            &&& spans ==> forall|i: int|
                0 <= i < ms.len() ==> (#[trigger] ms[i]).0 + ms[i].2 <= r.0 && ms[i].1 + ms[i].3 <= r.1
            &&& spans ==> exists|i: int| 0 <= i < ms.len() && #[trigger] ms[i].0 + ms[i].2 == r.0
            &&& spans ==> exists|j: int| 0 <= j < ms.len() && #[trigger] ms[j].1 + ms[j].3 == r.1
            &&& !spans ==> r == (1920i32, 1080i32)
        }),
{
    let mut max_x: i32 = 0;
    let mut max_y: i32 = 0;
    let mut i: usize = 0;
    while i < monitors.len()
        invariant
            i <= monitors@.len(),
            forall|j: int|
                0 <= j < monitors@.len() ==> i32::MIN <= #[trigger] monitors@[j].0 + monitors@[j].2
                    <= i32::MAX && i32::MIN <= monitors@[j].1 + monitors@[j].3 <= i32::MAX,
            (max_x as int, max_y as int) == far_edges(monitors@.take(i as int)),
        decreases monitors@.len() - i,
    {
        assert(monitors@.take(i + 1).drop_last() =~= monitors@.take(i as int));
        let m = monitors[i];
        let right = m.0 + m.2;
        let bottom = m.1 + m.3;
        if right > max_x {
            max_x = right;
        }
        if bottom > max_y {
            max_y = bottom;
        }
        i += 1;
    }
    assert(monitors@.take(monitors@.len() as int) =~= monitors@);
    proof {
        let ms = monitors@;
        monitors_lie_within_the_screen(ms);
        let fe = far_edges(ms);
        if fe.0 > 0 && fe.1 > 0 {
            let i = choose|i: int| 0 <= i < ms.len() && #[trigger] ms[i].0 + ms[i].2 == fe.0;
            let j = choose|j: int| 0 <= j < ms.len() && #[trigger] ms[j].1 + ms[j].3 == fe.1;
            assert(ms[i].0 + ms[i].2 > 0);
            assert(ms[j].1 + ms[j].3 > 0);
        } else {
            if exists|i: int| 0 <= i < ms.len() && #[trigger] ms[i].0 + ms[i].2 > 0 {
                let i = choose|i: int| 0 <= i < ms.len() && #[trigger] ms[i].0 + ms[i].2 > 0;
                assert(ms[i].0 + ms[i].2 <= fe.0);
            }
            if exists|j: int| 0 <= j < ms.len() && #[trigger] ms[j].1 + ms[j].3 > 0 {
                let j = choose|j: int| 0 <= j < ms.len() && #[trigger] ms[j].1 + ms[j].3 > 0;
                assert(ms[j].1 + ms[j].3 <= fe.1);
            }
        }
    }
    if max_x == 0 || max_y == 0 {
        (1920, 1080)
    } else {
        (max_x, max_y)
    }
}

} // verus!
