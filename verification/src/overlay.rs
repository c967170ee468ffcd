//! Key handling of the hint overlay: typing narrows the hints down to the
//! labels that start with what was typed, digits set a repeat count,
//! modifiers choose the action, and a single remaining hint is the choice.
//! Drawing the hints and turning the choice into screen coordinates are the
//! caller's part.

use vstd::prelude::*;
use crate::input::MouseButton;
use crate::text::{chars_of, has_prefix, push_char, starts_with};
use crate::config::strings_view;

verus! {

/// What to do at the chosen hint.
#[derive(Debug, Clone, Copy, PartialEq, Eq, Structural)]
pub enum ActionKind {
    Click,
    Hover,
    Grab,
}

/// The mouse interaction being prepared.
#[derive(Debug, Clone, Copy, PartialEq, Eq, Structural)]
pub struct MouseAction {
    pub action: ActionKind,
    pub button: MouseButton,
    pub repeat: u32,
}

impl Default for MouseAction {
    fn default() -> (r: Self)
        ensures
            r == (MouseAction { action: ActionKind::Click, button: MouseButton::Left, repeat: 1 }),
    {
        MouseAction { action: ActionKind::Click, button: MouseButton::Left, repeat: 1 }
    }
}

/// The overlay's state: the hint labels still in play, what was typed, and
/// the action prepared so far.
#[derive(Debug)]
pub struct OverlayState {
    pub labels: Vec<String>,
    pub selector: String,
    pub mouse_action: MouseAction,
}

/// What a key press leads to.
#[derive(Debug)]
pub enum OverlayOutcome {
    /// The exit key: close without acting.
    Quit,
    /// Keep waiting for keys.
    Continue,
    /// One hint is left: act on it.
    Resolved { label: String, action: MouseAction },
}

/// The labels that start with a prefix, in order.
pub open spec fn with_prefix(labels: Seq<Seq<char>>, prefix: Seq<char>) -> Seq<Seq<char>>
    decreases labels.len(),
{
    if labels.len() == 0 {
        Seq::empty()
    } else {
        let rest = with_prefix(labels.drop_last(), prefix);
        if starts_with(labels.last(), prefix) {
            rest.push(labels.last())
        } else {
            rest
        }
    }
}

/// Whether every label in play starts with what was typed.
pub open spec fn labels_follow(labels: Seq<Seq<char>>, selector: Seq<char>) -> bool {
    forall|i: int| 0 <= i < labels.len() ==> starts_with(#[trigger] labels[i], selector)
}

/// The repeat count after typing a digit: the digit appended to the count
/// (a count of zero is replaced), unless that no longer fits in `u32`.
pub open spec fn repeat_after(current: u32, digit: u32) -> u32 {
    if current == 0 {
        digit
    } else if current * 10 + digit <= u32::MAX {
        (current * 10 + digit) as u32
    } else {
        current
    }
}

/// The action prepared after a key press, before the typed character is
/// used: the hover and grab modifiers select hover and grab, and a key whose
/// lowercase differs from itself (shifted) selects a right click.
pub open spec fn action_after_modifiers(
    a: MouseAction,
    hover_modifier: u32,
    grab_modifier: u32,
    keyval: u32,
    keyval_lower: u32,
    modifiers: u32,
) -> MouseAction {
    let a1 = if modifiers == hover_modifier {
        MouseAction { action: ActionKind::Hover, ..a }
    } else {
        a
    };
    let a2 = if modifiers == grab_modifier {
        MouseAction { action: ActionKind::Grab, ..a1 }
    } else {
        a1
    };
    if keyval_lower != keyval {
        MouseAction { action: ActionKind::Click, button: MouseButton::Right, ..a2 }
    } else {
        a2
    }
}

/// The action handed over when a hint is chosen: a repeat count of zero
/// counts as one.
pub open spec fn resolved_action(a: MouseAction) -> MouseAction {
    if a.repeat == 0 {
        MouseAction { repeat: 1, ..a }
    } else {
        a
    }
}

/// The labels in play and the typed text after typing one character (see
/// [`OverlayState::update_hints`]).
pub open spec fn narrowed(labels: Seq<Seq<char>>, selector: Seq<char>, c: char) -> (
    Seq<Seq<char>>,
    Seq<char>,
) {
    let next = selector.push(c);
    let kept = with_prefix(labels, next);
    if kept.len() > 0 {
        (kept, next)
    } else {
        (labels, selector)
    }
}

/// The labels in play and the typed text after typing some characters in
/// order.
pub open spec fn typed(labels: Seq<Seq<char>>, selector: Seq<char>, keys: Seq<char>) -> (
    Seq<Seq<char>>,
    Seq<char>,
)
    decreases keys.len(),
{
    if keys.len() == 0 {
        (labels, selector)
    } else {
        let (l, s) = typed(labels, selector, keys.drop_last());
        narrowed(l, s, keys.last())
    }
}

/// Repeat count after typing a digit (see [`repeat_after`]).
pub fn repeat_after_digit(current: u32, digit: u32) -> (r: u32)
    requires
        digit <= 9,
    ensures
        r == repeat_after(current, digit),
{
    if current == 0 {
        digit
    } else if current <= (0xffff_ffffu32 - digit) / 10 {
        assert(current * 10 + digit <= u32::MAX) by (nonlinear_arith)
            requires
                current <= (0xffff_ffffu32 - digit) / 10,
                digit <= 9,
        ;
        current * 10 + digit
    } else {
        assert(current * 10 + digit > u32::MAX) by (nonlinear_arith)
            requires
                current > (0xffff_ffffu32 - digit) / 10,
                digit <= 9,
        ;
        current
    }
}

impl OverlayState {
    /// The state before any key: all labels in play, nothing typed, a
    /// single left click prepared.
    pub fn new(labels: Vec<String>) -> (r: OverlayState)
        ensures
            r.labels@ == labels@,
            r.selector@.len() == 0,
            r.mouse_action == (MouseAction {
                action: ActionKind::Click,
                button: MouseButton::Left,
                repeat: 1,
            }),
            labels_follow(strings_view(r.labels@), r.selector@),
    {
        let r = OverlayState { labels, selector: String::new(), mouse_action: MouseAction::default() };
        assert forall|i: int| 0 <= i < strings_view(r.labels@).len() implies starts_with(
            #[trigger] strings_view(r.labels@)[i],
            r.selector@,
        ) by {
            assert(strings_view(r.labels@)[i].take(0) =~= r.selector@);
        }
        r
    }

    /// Narrows the hints by a typed character: where some label starts with
    /// the typed text extended by it, only those labels stay in play and the
    /// character is appended to the typed text; otherwise nothing changes.
    pub fn update_hints(&mut self, next_char: char)
        ensures
            (strings_view(final(self).labels@), final(self).selector@) == narrowed(
                strings_view(old(self).labels@),
                old(self).selector@,
                next_char,
            ),
            final(self).mouse_action == old(self).mouse_action,
    {
        let ghost next = self.selector@.push(next_char);
        let ghost lv = strings_view(self.labels@);
        let mut prefix_chars = chars_of(self.selector.as_str());
        prefix_chars.push(next_char);
        let mut kept: Vec<String> = Vec::new();
        let mut i: usize = 0;
        while i < self.labels.len()
            invariant
                i <= self.labels@.len(),
                lv == strings_view(self.labels@),
                prefix_chars@ == next,
                strings_view(kept@) == with_prefix(lv.take(i as int), next),
            decreases self.labels@.len() - i,
        {
            assert(lv.take(i + 1).drop_last() =~= lv.take(i as int));
            assert(lv.take(i + 1).last() == self.labels@[i as int]@);
            let label_chars = chars_of(self.labels[i].as_str());
            if has_prefix(&label_chars, &prefix_chars) {
                let ghost before = strings_view(kept@);
                kept.push(self.labels[i].clone());
                assert(strings_view(kept@) =~= before.push(self.labels@[i as int]@));
            }
            i += 1;
        }
        assert(lv.take(self.labels@.len() as int) =~= lv);
        if kept.len() > 0 {
            self.labels = kept;
            push_char(&mut self.selector, next_char);
        }
    }

    /// Handles one key press. `keyval` is the key as pressed, `keyval_lower`
    /// its lowercase, `modifiers` the held modifiers, and `chr` the
    /// character the lowercase key types, if any.
    pub fn key_press(
        &mut self,
        exit_key: u32,
        hover_modifier: u32,
        grab_modifier: u32,
        keyval: u32,
        keyval_lower: u32,
        modifiers: u32,
        chr: Option<char>,
    ) -> (r: OverlayOutcome)
        ensures
            keyval_lower == exit_key ==> (r is Quit && strings_view(final(self).labels@)
                == strings_view(old(self).labels@) && final(self).selector@ == old(self).selector@
                && final(self).mouse_action == old(self).mouse_action),
            keyval_lower != exit_key ==> ({
                let a = action_after_modifiers(
                    old(self).mouse_action,
                    hover_modifier,
                    grab_modifier,
                    keyval,
                    keyval_lower,
                    modifiers,
                );
                match chr {
                    None => r is Continue && strings_view(final(self).labels@) == strings_view(
                        old(self).labels@,
                    ) && final(self).selector@ == old(self).selector@ && final(self).mouse_action
                        == a,
                    Some(c) => {
                        let a2 = if '0' <= c && c <= '9' {
                            MouseAction {
                                repeat: repeat_after(a.repeat, (c as u32 - '0' as u32) as u32),
                                ..a
                            }
                        } else {
                            a
                        };
                        let (labels, selector) = narrowed(
                            strings_view(old(self).labels@),
                            old(self).selector@,
                            c,
                        );
                        &&& strings_view(final(self).labels@) == labels
                        &&& final(self).selector@ == selector
                        &&& final(self).mouse_action == a2
                        &&& if labels.len() == 1 {
                            r matches OverlayOutcome::Resolved { label, action } && label@
                                == labels[0] && action == resolved_action(a2)
                        } else {
                            r is Continue
                        }
                    },
                }
            }),
            r matches OverlayOutcome::Resolved { action, .. } ==> action.action
                == final(self).mouse_action.action && action.button
                == final(self).mouse_action.button && action.repeat
                == (if final(self).mouse_action.repeat == 0 {
                1
            } else {
                final(self).mouse_action.repeat
            }),
            keyval_lower != exit_key && keyval_lower != keyval ==> final(self).mouse_action.action
                == ActionKind::Click && final(self).mouse_action.button == MouseButton::Right,
            keyval_lower != exit_key && keyval_lower == keyval && modifiers == grab_modifier
                ==> final(self).mouse_action.action == ActionKind::Grab,
            keyval_lower != exit_key && keyval_lower == keyval && modifiers == hover_modifier
                && modifiers != grab_modifier ==> final(self).mouse_action.action
                == ActionKind::Hover,
            keyval_lower != exit_key && keyval_lower == keyval ==> final(self).mouse_action.button
                == old(self).mouse_action.button,
    {
        if keyval_lower == exit_key {
            return OverlayOutcome::Quit;
        }
        if modifiers == hover_modifier {
            self.mouse_action.action = ActionKind::Hover;
        }
        if modifiers == grab_modifier {
            self.mouse_action.action = ActionKind::Grab;
        }
        if keyval_lower != keyval {
            self.mouse_action.action = ActionKind::Click;
            self.mouse_action.button = MouseButton::Right;
        }
        let c = match chr {
            Some(c) => c,
            None => return OverlayOutcome::Continue,
        };
        if '0' <= c && c <= '9' {
            let digit = (c as u32) - ('0' as u32);
            self.mouse_action.repeat = repeat_after_digit(self.mouse_action.repeat, digit);
        }
        self.update_hints(c);
        if self.labels.len() == 1 {
            let mut action = self.mouse_action;
            if action.repeat == 0 {
                action.repeat = 1;
            }
            OverlayOutcome::Resolved { label: self.labels[0].clone(), action }
        } else {
            OverlayOutcome::Continue
        }
    }
}

// ---------------------------------------------------------------------------
// Laws
// ---------------------------------------------------------------------------

/// Choosing a hint hands over the action prepared for it: its kind and
/// button unchanged, and its repeat count unchanged but for a count of zero,
/// which becomes one.
pub proof fn resolving_keeps_the_prepared_action(a: MouseAction)
    ensures
        resolved_action(a).action == a.action,
        resolved_action(a).button == a.button,
        a.repeat != 0 ==> resolved_action(a).repeat == a.repeat,
        a.repeat == 0 ==> resolved_action(a).repeat == 1,
{
}

/// How held keys choose the action: a key typed shifted (its lowercase
/// differs) makes a right click; otherwise the grab modifier makes a grab,
/// the hover modifier (when it is not also the grab modifier) a hover, and
/// other modifiers keep the action prepared so far. The button changes only
/// for a shifted key, and the repeat count never.
pub proof fn modifiers_choose_the_action(
    a: MouseAction,
    hover_modifier: u32,
    grab_modifier: u32,
    keyval: u32,
    keyval_lower: u32,
    modifiers: u32,
)
    ensures
        ({
            let b = action_after_modifiers(
                a,
                hover_modifier,
                grab_modifier,
                keyval,
                keyval_lower,
                modifiers,
            );
            &&& b.repeat == a.repeat
            &&& keyval_lower != keyval ==> b.action == ActionKind::Click && b.button
                == MouseButton::Right
            &&& keyval_lower == keyval ==> b.button == a.button
            &&& keyval_lower == keyval && modifiers == grab_modifier ==> b.action == ActionKind::Grab
            &&& keyval_lower == keyval && modifiers == hover_modifier && modifiers != grab_modifier
                ==> b.action == ActionKind::Hover
            &&& keyval_lower == keyval && modifiers != hover_modifier && modifiers != grab_modifier
                ==> b.action == a.action
        }),
{
}

proof fn lemma_with_prefix_members(labels: Seq<Seq<char>>, prefix: Seq<char>)
    ensures
        forall|i: int|
            0 <= i < with_prefix(labels, prefix).len() ==> starts_with(
                #[trigger] with_prefix(labels, prefix)[i],
                prefix,
            ) && labels.contains(with_prefix(labels, prefix)[i]),
    decreases labels.len(),
{
    if labels.len() > 0 {
        let q = labels.drop_last();
        lemma_with_prefix_members(q, prefix);
        let w = with_prefix(labels, prefix);
        assert forall|i: int| 0 <= i < w.len() implies starts_with(#[trigger] w[i], prefix)
            && labels.contains(w[i]) by {
            let wq = with_prefix(q, prefix);
            if i < wq.len() {
                assert(w[i] == wq[i]);
                let k = choose|k: int| 0 <= k < q.len() && q[k] == wq[i];
                assert(labels[k] == q[k]);
            } else {
                assert(w[i] == labels.last());
                assert(labels[labels.len() - 1] == labels.last());
            }
        }
    }
}

/// Narrowing keeps the overlay's invariant: every label in play starts with
/// the typed text, and only labels that were in play stay in play.
pub proof fn narrowing_keeps_labels_consistent(labels: Seq<Seq<char>>, selector: Seq<char>, c: char)
    requires
        labels_follow(labels, selector),
    ensures
        ({
            let next = selector.push(c);
            let kept = with_prefix(labels, next);
            &&& labels_follow(kept, next)
            &&& forall|i: int| 0 <= i < kept.len() ==> labels.contains(#[trigger] kept[i])
        }),
{
    lemma_with_prefix_members(labels, selector.push(c));
}

/// Typing a character no label continues with changes nothing; once a
/// label is in play, some label stays in play after any key.
pub proof fn narrowing_never_empties(labels: Seq<Seq<char>>, selector: Seq<char>, c: char)
    requires
        labels.len() > 0,
    ensures
        ({
            let kept = with_prefix(labels, selector.push(c));
            (if kept.len() > 0 {
                kept
            } else {
                labels
            }).len() > 0
        }),
{
}


proof fn lemma_starts_with_trans(x: Seq<char>, q: Seq<char>, p: Seq<char>)
    requires
        starts_with(x, q),
        starts_with(q, p),
    ensures
        starts_with(x, p),
{
    assert(x.take(p.len() as int) =~= q.take(p.len() as int));
}

proof fn lemma_with_prefix_empty(labels: Seq<Seq<char>>)
    ensures
        with_prefix(labels, Seq::empty()) == labels,
    decreases labels.len(),
{
    if labels.len() > 0 {
        lemma_with_prefix_empty(labels.drop_last());
        assert(labels.last().take(0) =~= Seq::<char>::empty());
        assert(labels.drop_last().push(labels.last()) =~= labels);
    }
}

proof fn lemma_with_prefix_refine(labels: Seq<Seq<char>>, p: Seq<char>, q: Seq<char>)
    requires
        starts_with(q, p),
    ensures
        with_prefix(with_prefix(labels, p), q) == with_prefix(labels, q),
    decreases labels.len(),
{
    if labels.len() > 0 {
        let rest = labels.drop_last();
        let x = labels.last();
        lemma_with_prefix_refine(rest, p, q);
        if starts_with(x, q) {
            lemma_starts_with_trans(x, q, p);
            assert(with_prefix(labels, p) == with_prefix(rest, p).push(x));
            assert(with_prefix(labels, p).drop_last() =~= with_prefix(rest, p));
        } else if starts_with(x, p) {
            assert(with_prefix(labels, p).drop_last() =~= with_prefix(rest, p));
        }
    }
}

proof fn lemma_with_prefix_keeps(labels: Seq<Seq<char>>, label: Seq<char>, p: Seq<char>)
    requires
        labels.contains(label),
        starts_with(label, p),
    ensures
        with_prefix(labels, p).contains(label),
    decreases labels.len(),
{
    let rest = labels.drop_last();
    if labels.last() == label {
        assert(with_prefix(labels, p).last() == label);
        assert(with_prefix(labels, p)[with_prefix(labels, p).len() - 1] == label);
    } else {
        let i = choose|i: int| 0 <= i < labels.len() && labels[i] == label;
        assert(rest[i] == label);
        lemma_with_prefix_keeps(rest, label, p);
        let w = with_prefix(rest, p);
        let j = choose|j: int| 0 <= j < w.len() && w[j] == label;
        if starts_with(labels.last(), p) {
            assert(with_prefix(labels, p)[j] == label);
        }
    }
}

proof fn lemma_with_prefix_whole(labels: Seq<Seq<char>>, label: Seq<char>)
    requires
        labels.no_duplicates(),
        forall|i: int| 0 <= i < labels.len() ==> (#[trigger] labels[i]).len() == label.len(),
    ensures
        with_prefix(labels, label) == (if labels.contains(label) {
            seq![label]
        } else {
            Seq::<Seq<char>>::empty()
        }),
    decreases labels.len(),
{
    if labels.len() > 0 {
        let rest = labels.drop_last();
        let x = labels.last();
        assert(x == labels[labels.len() - 1]);
        assert forall|i: int| 0 <= i < rest.len() implies (#[trigger] rest[i]).len() == label.len() by {
            assert(rest[i] == labels[i]);
        }
        assert(rest.no_duplicates()) by {
            assert forall|i: int, j: int| 0 <= i < rest.len() && 0 <= j < rest.len() && i != j implies rest[i]
                != rest[j] by {
                assert(rest[i] == labels[i] && rest[j] == labels[j]);
            }
        }
        lemma_with_prefix_whole(rest, label);
        if starts_with(x, label) {
            assert(x =~= label) by {
                assert(x.take(label.len() as int) =~= x);
            }
            assert(!rest.contains(label)) by {
                if rest.contains(label) {
                    let i = choose|i: int| 0 <= i < rest.len() && rest[i] == label;
                    assert(labels[i] == labels[labels.len() - 1]);
                }
            }
            assert(labels.contains(label));
        } else {
            assert(x != label) by {
                if x == label {
                    assert(x.take(label.len() as int) =~= x);
                }
            }
            if labels.contains(label) {
                let i = choose|i: int| 0 <= i < labels.len() && labels[i] == label;
                assert(i < rest.len());
                assert(rest[i] == label);
            }
            if rest.contains(label) {
                let i = choose|i: int| 0 <= i < rest.len() && rest[i] == label;
                assert(labels[i] == label);
            }
        }
    }
}

/// Typing a hint's label chooses that hint: among distinct labels of one
/// length, after typing the first `k` characters of a label the labels in
/// play are exactly those that start with them (the label among them) and
/// the typed text is those characters; after typing all of it, that label
/// alone is in play, which resolves the overlay to it.
pub proof fn typing_a_label_selects_it(labels: Seq<Seq<char>>, label: Seq<char>, k: nat)
    requires
        labels.contains(label),
        labels.no_duplicates(),
        forall|i: int| 0 <= i < labels.len() ==> (#[trigger] labels[i]).len() == label.len(),
        k <= label.len(),
    ensures
        typed(labels, Seq::empty(), label.take(k as int)) == (
            with_prefix(labels, label.take(k as int)),
            label.take(k as int),
        ),
        with_prefix(labels, label.take(k as int)).contains(label),
        k == label.len() ==> typed(labels, Seq::empty(), label.take(k as int)).0 == seq![label],
    decreases k,
{
    let p = label.take(k as int);
    assert(starts_with(label, p)) by {
        assert(label.take(p.len() as int) =~= p);
    }
    lemma_with_prefix_keeps(labels, label, p);
    if k == 0 {
        assert(p =~= Seq::<char>::empty());
        lemma_with_prefix_empty(labels);
    } else {
        let q = label.take(k - 1);
        typing_a_label_selects_it(labels, label, (k - 1) as nat);
        assert(p.drop_last() =~= q);
        assert(p.last() == label[k - 1]);
        assert(q.push(label[k - 1]) =~= p);
        assert(starts_with(p, q)) by {
            assert(p.take(q.len() as int) =~= q);
        }
        lemma_with_prefix_refine(labels, q, p);
    }
    if k == label.len() {
        assert(p =~= label);
        lemma_with_prefix_whole(labels, label);
    }
}

} // verus!
