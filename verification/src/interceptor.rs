//! Key handling of the interceptor, the tiny window that takes keyboard
//! focus while the pointer is dragged or scrolled from the keyboard.
//! Sending the resulting requests to the mouse service is the caller's part.

use vstd::prelude::*;
use crate::input::MouseMode;
use crate::text::str_eq;

verus! {

/// What the interceptor asks the mouse service to do for a key.
#[derive(Debug, Clone, Copy, PartialEq, Eq, Structural)]
pub enum InterceptorCommand {
    /// The exit key: release the left button where the pointer is, then
    /// close.
    ReleaseAndQuit,
    /// Move the pointer one pixel down and back up, which makes some
    /// compositors focus the interceptor.
    Nudge,
    /// A held-key action for the typed character.
    MouseAction { key: char, mode: MouseMode },
}

/// The interceptor's state: whether the next key is the first one.
#[derive(Debug, Clone, Copy)]
pub struct InterceptorState {
    pub first_move: bool,
}

/// The pointer mode an interceptor action drives: `grab` moves, `scroll`
/// scrolls, anything else drives nothing.
pub open spec fn mode_for_action(action: Seq<char>) -> Option<MouseMode> {
    if action == "grab"@ {
        Some(MouseMode::Move)
    } else if action == "scroll"@ {
        Some(MouseMode::Scroll)
    } else {
        None
    }
}

/// The commands for one key press and whether the next key is still the
/// first: the exit key releases and quits and changes nothing else; any
/// other key is no longer the first, is preceded by a nudge when it was,
/// and drives the pointer when it types a character and the action is
/// `grab` or `scroll`.
pub open spec fn response(
    first_move: bool,
    action: Seq<char>,
    exit_key: u32,
    keyval_lower: u32,
    chr: Option<char>,
) -> (Seq<InterceptorCommand>, bool) {
    if keyval_lower == exit_key {
        (seq![InterceptorCommand::ReleaseAndQuit], first_move)
    } else {
        let nudge: Seq<InterceptorCommand> = if first_move {
            seq![InterceptorCommand::Nudge]
        } else {
            Seq::empty()
        };
        let cmds = if chr is Some && mode_for_action(action) is Some {
            nudge.push(
                InterceptorCommand::MouseAction { key: chr->0, mode: mode_for_action(action)->0 },
            )
        } else {
            nudge
        };
        (cmds, false)
    }
}

/// All commands for a sequence of key presses (lowercase key and typed
/// character), in order.
pub open spec fn session_commands(
    first_move: bool,
    action: Seq<char>,
    exit_key: u32,
    presses: Seq<(u32, Option<char>)>,
) -> Seq<InterceptorCommand>
    decreases presses.len(),
{
    if presses.len() == 0 {
        Seq::empty()
    } else {
        let (cmds, next) = response(first_move, action, exit_key, presses[0].0, presses[0].1);
        cmds + session_commands(next, action, exit_key, presses.drop_first())
    }
}

/// How many nudges a list of commands holds.
pub open spec fn nudge_count(cmds: Seq<InterceptorCommand>) -> nat
    decreases cmds.len(),
{
    if cmds.len() == 0 {
        0
    } else {
        nudge_count(cmds.drop_last()) + if cmds.last() == InterceptorCommand::Nudge {
            1nat
        } else {
            0nat
        }
    }
}

proof fn lemma_nudge_count_concat(a: Seq<InterceptorCommand>, b: Seq<InterceptorCommand>)
    ensures
        nudge_count(a + b) == nudge_count(a) + nudge_count(b),
    decreases b.len(),
{
    if b.len() > 0 {
        lemma_nudge_count_concat(a, b.drop_last());
        assert((a + b).drop_last() =~= a + b.drop_last());
        assert((a + b).last() == b.last());
    } else {
        assert(a + b =~= a);
    }
}

proof fn lemma_nudge_count_push(s: Seq<InterceptorCommand>, x: InterceptorCommand)
    ensures
        nudge_count(s.push(x)) == nudge_count(s) + if x == InterceptorCommand::Nudge {
            1nat
        } else {
            0nat
        },
{
    assert(s.push(x).drop_last() =~= s);
    assert(s.push(x).last() == x);
}

/// The character a key typed.
proof fn typed_char(chr: Option<char>) -> (c: char)
    requires
        chr is Some,
    ensures
        c == chr->0,
{
    chr->0
}

proof fn lemma_response_nudges(
    first_move: bool,
    action: Seq<char>,
    exit_key: u32,
    keyval_lower: u32,
    chr: Option<char>,
)
    ensures
        nudge_count(response(first_move, action, exit_key, keyval_lower, chr).0) == if keyval_lower
            != exit_key && first_move {
            1nat
        } else {
            0nat
        },
        response(first_move, action, exit_key, keyval_lower, chr).1 == (keyval_lower == exit_key
            && first_move),
{
    let e = Seq::<InterceptorCommand>::empty();
    assert(nudge_count(e) == 0);
    lemma_nudge_count_push(e, InterceptorCommand::ReleaseAndQuit);
    lemma_nudge_count_push(e, InterceptorCommand::Nudge);
    let nudge: Seq<InterceptorCommand> = if first_move {
        seq![InterceptorCommand::Nudge]
    } else {
        Seq::empty()
    };
    if keyval_lower != exit_key && chr is Some && mode_for_action(action) is Some {
        let c = typed_char(chr);
        lemma_nudge_count_push(
            nudge,
            InterceptorCommand::MouseAction { key: c, mode: mode_for_action(action)->0 },
        );
    }
}

/// The pointer is nudged at most once per interceptor, and never once a
/// key other than the exit key has been handled.
pub proof fn nudges_at_most_once(
    first_move: bool,
    action: Seq<char>,
    exit_key: u32,
    presses: Seq<(u32, Option<char>)>,
)
    ensures
        nudge_count(session_commands(first_move, action, exit_key, presses)) <= if first_move {
            1nat
        } else {
            0nat
        },
    decreases presses.len(),
{
    if presses.len() > 0 {
        let r = response(first_move, action, exit_key, presses[0].0, presses[0].1);
        lemma_response_nudges(first_move, action, exit_key, presses[0].0, presses[0].1);
        nudges_at_most_once(r.1, action, exit_key, presses.drop_first());
        lemma_nudge_count_concat(r.0, session_commands(r.1, action, exit_key, presses.drop_first()));
    }
}

impl InterceptorState {
    /// The state before any key.
    pub fn new() -> (r: InterceptorState)
        ensures
            r.first_move,
    {
        InterceptorState { first_move: true }
    }

    /// Handles one key press for the interceptor running `action`:
    /// `keyval_lower` is the lowercase key and `chr` the character it
    /// types, if any.
    pub fn key_press(&mut self, action: &str, exit_key: u32, keyval_lower: u32, chr: Option<char>) -> (r:
        Vec<InterceptorCommand>)
        ensures
            (r@, final(self).first_move) == response(
                old(self).first_move,
                action@,
                exit_key,
                keyval_lower,
                chr,
            ),
    {
        let mut cmds: Vec<InterceptorCommand> = Vec::new();
        if keyval_lower == exit_key {
            cmds.push(InterceptorCommand::ReleaseAndQuit);
            return cmds;
        }
        if self.first_move {
            cmds.push(InterceptorCommand::Nudge);
            self.first_move = false;
        }
        let c = match chr {
            Some(c) => c,
            None => return cmds,
        };
        if str_eq(action, "grab") {
            cmds.push(InterceptorCommand::MouseAction { key: c, mode: MouseMode::Move });
        } else if str_eq(action, "scroll") {
            cmds.push(InterceptorCommand::MouseAction { key: c, mode: MouseMode::Scroll });
        }
        cmds
    }
}

} // verus!
