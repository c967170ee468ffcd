//! Decisions of the hint tool's command line and main loop: which backends
//! an override names, where the overlay goes, and which mouse requests an
//! action becomes. Opening windows and running the GTK loop are the
//! caller's part.

use vstd::prelude::*;
use crate::config::{Config, strings_view};
use crate::input::MouseButton;
use crate::overlay::{ActionKind, MouseAction};
use crate::text::{chars_of, split_chars, split_pieces, trim, trim_chars, string_from_chars, owned, str_eq};

verus! {

/// What the tool does when started.
#[derive(Debug, Clone, Copy, PartialEq, Eq, Structural)]
pub enum Mode {
    Hint,
    Scroll,
}

impl Default for Mode {
    fn default() -> (r: Self)
        ensures
            r == Mode::Hint,
    {
        Mode::Hint
    }
}

/// A click request for the mouse service (position given separately).
#[derive(Debug)]
pub struct ClickRequest {
    pub button: MouseButton,
    /// Button states in order: `1` pressed, `0` released.
    pub states: Vec<i64>,
    pub repeat: u32,
    pub absolute: bool,
}

/// What performing a chosen action amounts to.
#[derive(Debug)]
pub struct ActionPlan {
    /// The click sent at the chosen position.
    pub click: ClickRequest,
    /// Whether the interceptor then runs in grab mode to drag.
    pub open_interceptor: bool,
}

/// The click an action sends: a click presses and releases its button
/// `repeat` times; a hover only moves there; a grab presses the left button
/// once and keeps it down for the interceptor.
pub open spec fn plan_for(a: MouseAction) -> (MouseButton, Seq<i64>, u32, bool) {
    match a.action {
        ActionKind::Click => (a.button, seq![1i64, 0i64], a.repeat, false),
        ActionKind::Hover => (MouseButton::Left, Seq::empty(), 1u32, false),
        ActionKind::Grab => (MouseButton::Left, seq![1i64], 1u32, true),
    }
}

/// The requests a chosen action amounts to (see [`plan_for`]); all are
/// sent in absolute coordinates.
pub fn plan_action(action: &MouseAction) -> (r: ActionPlan)
    ensures
        (r.click.button, r.click.states@, r.click.repeat, r.open_interceptor) == plan_for(*action),
        r.click.absolute,
        action.action == ActionKind::Click ==> r.click.button == action.button && r.click.states@
            == seq![1i64, 0i64] && r.click.repeat == action.repeat && !r.open_interceptor,
        action.action == ActionKind::Hover ==> r.click.button == MouseButton::Left
            && r.click.states@.len() == 0 && r.click.repeat == 1 && !r.open_interceptor,
        action.action == ActionKind::Grab ==> r.click.button == MouseButton::Left && r.click.states@
            == seq![1i64] && r.click.repeat == 1 && r.open_interceptor,
{
    let mut states: Vec<i64> = Vec::new();
    match action.action {
        ActionKind::Click => {
            states.push(1);
            states.push(0);
            assert(states@ =~= seq![1i64, 0i64]);
            ActionPlan {
                click: ClickRequest { button: action.button, states, repeat: action.repeat, absolute: true },
                open_interceptor: false,
            }
        },
        ActionKind::Hover => {
            assert(states@ =~= Seq::<i64>::empty());
            ActionPlan {
                click: ClickRequest { button: MouseButton::Left, states, repeat: 1, absolute: true },
                open_interceptor: false,
            }
        },
        ActionKind::Grab => {
            states.push(1);
            assert(states@ =~= seq![1i64]);
            ActionPlan {
                click: ClickRequest { button: MouseButton::Left, states, repeat: 1, absolute: true },
                open_interceptor: true,
            }
        },
    }
}

/// What each action sends: a click presses and releases the action's own
/// button, as often as its repeat count says, and opens no interceptor; a
/// hover sends one left "click" with no button states (a plain move); a grab
/// presses the left button once and opens the interceptor to drag.
pub proof fn actions_plan_their_clicks(a: MouseAction)
    ensures
        a.action == ActionKind::Click ==> plan_for(a).0 == a.button && plan_for(a).1 == seq![
            1i64,
            0i64,
        ] && plan_for(a).2 == a.repeat && !plan_for(a).3,
        a.action == ActionKind::Hover ==> plan_for(a).0 == MouseButton::Left && plan_for(a).1.len()
            == 0 && plan_for(a).2 == 1 && !plan_for(a).3,
        a.action == ActionKind::Grab ==> plan_for(a).0 == MouseButton::Left && plan_for(a).1
            == seq![1i64] && plan_for(a).2 == 1 && plan_for(a).3,
{
}

/// The click the interceptor sends when it is closed with the exit key:
/// release the left button, in relative coordinates.
pub fn exit_release_click() -> (r: ClickRequest)
    ensures
        r.button == MouseButton::Left,
        r.states@ == seq![0i64],
        r.repeat == 1,
        !r.absolute,
{
    let mut states: Vec<i64> = Vec::new();
    states.push(0);
    assert(states@ =~= seq![0i64]);
    ClickRequest { button: MouseButton::Left, states, repeat: 1, absolute: false }
}

/// Where the overlay goes: the focused window's origin shifted by the
/// configured offsets.
pub fn overlay_origin(x: i32, y: i32, config: &Config) -> (r: (i32, i32))
    requires
        i32::MIN <= x + config.overlay_x_offset <= i32::MAX,
        i32::MIN <= y + config.overlay_y_offset <= i32::MAX,
    ensures
        r == ((x + config.overlay_x_offset) as i32, (y + config.overlay_y_offset) as i32),
{
    (x + config.overlay_x_offset, y + config.overlay_y_offset)
}

/// The backends a `--backend` override names: the comma-separated pieces,
/// each trimmed.
pub open spec fn backend_list(s: Seq<char>) -> Seq<Seq<char>> {
    split_pieces(s, ',').map_values(|p: Seq<char>| trim(p))
}

/// Reads a `--backend` override (see [`backend_list`]).
pub fn parse_backend_list(s: &str) -> (r: Vec<String>)
    ensures
        strings_view(r@) == backend_list(s@),
{
    let pieces = split_chars(&chars_of(s), ',');
    let ghost ps = pieces@.map_values(|p: Vec<char>| p@);
    assert(ps == split_pieces(s@, ','));
    let mut r: Vec<String> = Vec::new();
    let mut i: usize = 0;
    while i < pieces.len()
        invariant
            i <= pieces@.len(),
            ps == pieces@.map_values(|p: Vec<char>| p@),
            strings_view(r@) == ps.take(i as int).map_values(|p: Seq<char>| trim(p)),
        decreases pieces@.len() - i,
    {
        let t = trim_chars(&pieces[i]);
        let ghost before = strings_view(r@);
        r.push(string_from_chars(t.as_slice()));
        assert(strings_view(r@) =~= before.push(trim(ps[i as int])));
        assert(ps.take(i + 1).map_values(|p: Seq<char>| trim(p)) =~= ps.take(i as int).map_values(
            |p: Seq<char>| trim(p),
        ).push(trim(ps[i as int])));
        i += 1;
    }
    assert(ps.take(pieces@.len() as int) =~= ps);
    r
}

/// The backend a benchmark runs: the `--backend` argument, else the first
/// enabled backend, else `yolo`.
pub fn benchmark_backend(backend_arg: Option<&str>, config: &Config) -> (r: String)
    ensures
        r@ == match backend_arg {
            Some(b) => b@,
            None => if config.backends.enable@.len() > 0 {
                config.backends.enable@[0]@
            } else {
                "yolo"@
            },
        },
{
    match backend_arg {
        Some(b) => owned(b),
        None => if config.backends.enable.len() > 0 {
            config.backends.enable[0].clone()
        } else {
            owned("yolo")
        },
    }
}

/// Whether a backend can be benchmarked (only `yolo` can; otherwise the
/// tool exits with status 2).
pub fn benchmark_supported(backend_name: &str) -> (r: bool)
    ensures
        r == (backend_name@ == "yolo"@),
{
    str_eq(backend_name, "yolo")
}

/// The window-system override of a configuration: none when the setting is
/// empty.
pub fn window_system_override(config: &Config) -> (r: Option<&str>)
    ensures
        match r {
            Some(s) => config.window_system@.len() > 0 && s@ == config.window_system@,
            None => config.window_system@.len() == 0,
        },
{
    if config.window_system.as_str().is_empty() {
        None
    } else {
        Some(config.window_system.as_str())
    }
}

} // verus!
