//! The focus and input router: which entity holds keyboard focus, how Tab
//! and the arrow keys walk the declared tab order, and how keys reach the
//! focused text input.
//!
//! A pointer click focuses a widget without showing the focus ring; only
//! keyboard navigation makes the ring visible.

use vstd::prelude::*;

use crate::text_input::TextInputState;

verus! {

/// The keys the router distinguishes.
#[derive(Clone, Copy, Debug, PartialEq, Eq, Hash, Structural)]
pub enum KeyCode {
    Enter,
    ArrowLeft,
    ArrowRight,
    ArrowUp,
    ArrowDown,
    Tab,
    Home,
    End,
    Backspace,
    Delete,
    Space,
    Escape,
}

/// A key-down event aimed at one entity.
#[derive(Clone, Copy, Debug, PartialEq, Eq, Structural)]
pub struct KeyPressEvent {
    pub key_code: KeyCode,
    pub target: u64,
    pub shift: bool,
}

/// A character-input event aimed at one entity.
#[derive(Clone, Copy, Debug, PartialEq, Eq, Structural)]
pub struct KeyCharEvent {
    pub key: char,
    pub target: u64,
}

/// Who holds keyboard focus, and whether the focus ring is shown.
#[derive(Clone, Copy, Debug, PartialEq, Eq, Structural)]
pub enum FocusState {
    /// Nothing is focused.
    Unfocused,
    /// A widget is focused without a visible ring, as after a pointer
    /// click.
    Focused(u64),
    /// A widget is focused with the ring shown, as after keyboard
    /// navigation.
    FocusVisible(u64),
}

impl FocusState {
    /// The focused entity, if any, regardless of ring visibility.
    pub open spec fn entity(&self) -> Option<u64> {
        match *self {
            FocusState::Unfocused => Option::None,
            FocusState::Focused(e) => Option::Some(e),
            FocusState::FocusVisible(e) => Option::Some(e),
        }
    }
}

/// The position of `e` in the tab order, if it is focusable.
pub open spec fn order_index_of(order: Seq<u64>, e: u64) -> Option<int> {
    if exists|i: int| 0 <= i < order.len() && order[i] == e {
        Option::Some(choose|i: int| 0 <= i < order.len() && order[i] == e)
    } else {
        Option::None
    }
}

/// The entity that focus moves to from `current`: one step forward or back
/// in the tab order, stopping at the ends rather than wrapping. With no
/// current focus, navigation enters the order at its first or last entry.
pub open spec fn tab_target(order: Seq<u64>, current: Option<u64>, forward: bool) -> Option<u64> {
    if order.len() == 0 {
        Option::None
    } else {
        match current {
            Option::Some(e) => match order_index_of(order, e) {
                Option::Some(i) => if forward {
                    if i + 1 < order.len() {
                        Option::Some(order[i + 1])
                    } else {
                        Option::Some(order[i])
                    }
                } else {
                    if i > 0 {
                        Option::Some(order[i - 1])
                    } else {
                        Option::Some(order[i])
                    }
                },
                Option::None => Option::Some(if forward {
                    order[0]
                } else {
                    order[order.len() - 1]
                }),
            },
            Option::None => Option::Some(if forward {
                order[0]
            } else {
                order[order.len() - 1]
            }),
        }
    }
}

/// Finds `e` in the tab order; the uniqueness of entries makes the found
/// index the one `order_index_of` names.
fn find_in_order(order: &Vec<u64>, e: u64) -> (r: Option<usize>)
    requires
        forall|i: int, j: int| 0 <= i < j < order@.len() ==> order@[i] != order@[j],
    ensures
        match r {
            Option::Some(i) => order_index_of(order@, e) == Option::Some(i as int) && i
                < order@.len(),
            Option::None => order_index_of(order@, e) is None,
        },
{
    let mut i: usize = 0;
    while i < order.len()
        invariant
            forall|a: int, b: int| 0 <= a < b < order@.len() ==> order@[a] != order@[b],
            i <= order@.len(),
            forall|l: int| 0 <= l < i ==> order@[l] != e,
        decreases order@.len() - i,
    {
        if order[i] == e {
            proof {
                let w = choose|w: int| 0 <= w < order@.len() && order@[w] == e;
                assert(w == i);
            }
            return Option::Some(i);
        }
        i += 1;
    }
    proof {
        if order_index_of(order@, e) is Some {
            let w = choose|w: int| 0 <= w < order@.len() && order@[w] == e;
        }
    }
    Option::None
}

/// Moves focus one step through the tab order and shows the focus ring,
/// clamping at both ends.
pub fn tab_navigate(state: &mut FocusState, order: &Vec<u64>, forward: bool)
    requires
        forall|i: int, j: int| 0 <= i < j < order@.len() ==> order@[i] != order@[j],
    ensures
        *final(state) == (match tab_target(order@, old(state).entity(), forward) {
            Option::Some(e) => FocusState::FocusVisible(e),
            Option::None => *old(state),
        }),
{
    if order.len() == 0 {
        return ;
    }
    let current = match *state {
        FocusState::Unfocused => Option::None,
        FocusState::Focused(e) => Option::Some(e),
        FocusState::FocusVisible(e) => Option::Some(e),
    };
    let target: u64 = match current {
        Option::Some(e) => match find_in_order(order, e) {
            Option::Some(i) => {
                if forward {
                    if i + 1 < order.len() {
                        order[i + 1]
                    } else {
                        order[i]
                    }
                } else {
                    if i > 0 {
                        order[i - 1]
                    } else {
                        order[i]
                    }
                }
            },
            Option::None => if forward {
                order[0]
            } else {
                order[order.len() - 1]
            },
        },
        Option::None => if forward {
            order[0]
        } else {
            order[order.len() - 1]
        },
    };
    *state = FocusState::FocusVisible(target);
}

/// A pointer click on a widget: the widget becomes the focused entity —
/// with the ring staying hidden, as after any pointer focus — and the
/// click is consumed exactly when the widget is enabled. On a disabled
/// widget the unconsumed click propagates further.
pub fn pointer_click(state: &mut FocusState, target: u64, disabled: bool) -> (consumed: bool)
    ensures
        *final(state) == FocusState::Focused(target),
        consumed == !disabled,
{
    *state = FocusState::Focused(target);
    !disabled
}

/// Escape or a screen exit: focus is cleared; widget state is untouched.
pub fn clear_focus(state: &mut FocusState)
    ensures
        *final(state) == FocusState::Unfocused,
{
    *state = FocusState::Unfocused;
}

/// Whether a platform's on-screen keyboard should be up: exactly when the
/// focused entity is one of the screen's text inputs.
pub fn soft_keyboard_visible(state: &FocusState, text_inputs: &Vec<u64>) -> (r: bool)
    ensures
        r == (match state.entity() {
            Option::Some(e) => text_inputs@.contains(e),
            Option::None => false,
        }),
{
    let e = match *state {
        FocusState::Unfocused => {
            return false;
        },
        FocusState::Focused(e) => e,
        FocusState::FocusVisible(e) => e,
    };
    let mut i: usize = 0;
    while i < text_inputs.len()
        invariant
            state.entity() == Option::Some(e),
            i <= text_inputs@.len(),
            forall|l: int| 0 <= l < i ==> text_inputs@[l] != e,
        decreases text_inputs@.len() - i,
    {
        if text_inputs[i] == e {
            proof {
                assert(text_inputs@[i as int] == e);
            }
            return true;
        }
        i += 1;
    }
    proof {
        if text_inputs@.contains(e) {
            let w = choose|w: int| 0 <= w < text_inputs@.len() && text_inputs@[w] == e;
        }
    }
    false
}

/// What a routed key did to a text input.
#[derive(Clone, Copy, Debug, PartialEq, Eq, Structural)]
pub enum TextKeyOutcome {
    /// The field absorbed the key.
    Consumed,
    /// Enter: the field's submit callback fires and propagation stops.
    Submit,
    /// The key asks focus to move through the tab order.
    Navigate { forward: bool },
    /// The key means nothing to a text field and propagates further.
    Ignored,
}

/// Routes one key press into a focused text input, with the exact per-key
/// semantics: Left/Right move the cursor by one character clamped to the
/// value, Home/End jump to the bounds, Backspace deletes before the cursor,
/// Delete at the cursor, Space inserts when the length bound allows, Enter
/// submits, and Up/Down/Tab hand the key to tab navigation.
///
/// Every key press routed to an enabled field restarts the blink period
/// with the cursor shown. A disabled field is left entirely alone and the
/// key propagates further.
pub fn text_input_key(
    state: &mut TextInputState,
    key_code: KeyCode,
    shift: bool,
    max_length: Option<usize>,
    disabled: bool,
) -> (outcome: TextKeyOutcome)
    requires
        old(state).wf(),
    ensures
        final(state).wf(),
        disabled ==> *final(state) == *old(state) && outcome == TextKeyOutcome::Ignored,
        !disabled ==> final(state).timer.visible && final(state).timer.elapsed_ms == 0 && final(state).timer.period_ms == old(state).timer.period_ms,
        !disabled ==> final(state).kind == old(state).kind,
        !disabled ==> match key_code {
            KeyCode::Enter => outcome == TextKeyOutcome::Submit && final(state).value == old(state).value && final(state).cursor == old(state).cursor && final(state).valid == old(state).valid,
            KeyCode::ArrowLeft => outcome == TextKeyOutcome::Consumed && final(state).cursor.0 == (
            if old(state).cursor.0 > 0 {
                old(state).cursor.0 - 1
            } else {
                0int
            }) && final(state).value == old(state).value,
            KeyCode::ArrowRight => outcome == TextKeyOutcome::Consumed && final(state).cursor.0
                == (if old(state).cursor.0 < old(state).value.0@.len() {
                old(state).cursor.0 + 1
            } else {
                old(state).cursor.0 as int
            }) && final(state).value == old(state).value,
            KeyCode::Home => outcome == TextKeyOutcome::Consumed && final(state).cursor.0 == 0
                && final(state).value == old(state).value,
            KeyCode::End => outcome == TextKeyOutcome::Consumed && final(state).cursor.0 == old(state).value.0@.len() && final(state).value == old(state).value,
            KeyCode::ArrowUp => outcome == (TextKeyOutcome::Navigate { forward: false }) && final(state).value == old(state).value && final(state).cursor == old(state).cursor,
            KeyCode::ArrowDown => outcome == (TextKeyOutcome::Navigate { forward: true }) && final(state).value == old(state).value && final(state).cursor == old(state).cursor,
            KeyCode::Tab => outcome == (TextKeyOutcome::Navigate { forward: !shift }) && final(state).value == old(state).value && final(state).cursor == old(state).cursor,
            KeyCode::Backspace => outcome == TextKeyOutcome::Consumed && (
            if old(state).cursor.0 > 0 {
                final(state).value.0@ == old(state).value.0@.remove(old(state).cursor.0 - 1)
                    && final(state).cursor.0 == old(state).cursor.0 - 1
            } else {
                final(state).value == old(state).value && final(state).cursor == old(state).cursor
            }),
            KeyCode::Delete => outcome == TextKeyOutcome::Consumed && (
            if old(state).cursor.0 < old(state).value.0@.len() {
                final(state).value.0@ == old(state).value.0@.remove(old(state).cursor.0 as int)
                    && final(state).cursor.0 == old(state).cursor.0
            } else {
                final(state).value == old(state).value && final(state).cursor == old(state).cursor
            }),
            KeyCode::Space => outcome == TextKeyOutcome::Consumed && (
            if crate::text_input::at_max(old(state).value.0@.len(), max_length) {
                final(state).value == old(state).value && final(state).cursor == old(state).cursor
            } else {
                final(state).value.0@ == old(state).value.0@.insert(
                    old(state).cursor.0 as int,
                    ' ',
                ) && final(state).cursor.0 == old(state).cursor.0 + 1
            }),
            KeyCode::Escape => outcome == TextKeyOutcome::Ignored && final(state).value == old(state).value && final(state).cursor == old(state).cursor && final(state).valid == old(state).valid,
        },
{
    if disabled {
        return TextKeyOutcome::Ignored;
    }
    match key_code {
        KeyCode::Enter => {
            restart_blink(state);
            TextKeyOutcome::Submit
        },
        KeyCode::ArrowLeft => {
            state.move_left();
            TextKeyOutcome::Consumed
        },
        KeyCode::ArrowRight => {
            state.move_right();
            TextKeyOutcome::Consumed
        },
        KeyCode::Home => {
            state.home();
            TextKeyOutcome::Consumed
        },
        KeyCode::End => {
            state.end();
            TextKeyOutcome::Consumed
        },
        KeyCode::ArrowUp => {
            restart_blink(state);
            TextKeyOutcome::Navigate { forward: false }
        },
        KeyCode::ArrowDown => {
            restart_blink(state);
            TextKeyOutcome::Navigate { forward: true }
        },
        KeyCode::Tab => {
            restart_blink(state);
            TextKeyOutcome::Navigate { forward: !shift }
        },
        KeyCode::Backspace => {
            state.backspace();
            restart_blink(state);
            TextKeyOutcome::Consumed
        },
        KeyCode::Delete => {
            state.delete_forward();
            restart_blink(state);
            TextKeyOutcome::Consumed
        },
        KeyCode::Space => {
            state.insert_char(' ', max_length);
            restart_blink(state);
            TextKeyOutcome::Consumed
        },
        KeyCode::Escape => {
            restart_blink(state);
            TextKeyOutcome::Ignored
        },
    }
}

/// Restarts the blink period with the cursor shown, leaving everything
/// else of the state alone.
fn restart_blink(state: &mut TextInputState)
    requires
        old(state).wf(),
    ensures
        final(state).wf(),
        final(state).value == old(state).value,
        final(state).cursor == old(state).cursor,
        final(state).kind == old(state).kind,
        final(state).valid == old(state).valid,
        final(state).timer.visible && final(state).timer.elapsed_ms == 0,
        final(state).timer.period_ms == old(state).timer.period_ms,
{
    state.timer.reset();
}

/// Routes a character event into a focused text input: printable
/// characters are inserted at the cursor until the length bound is
/// reached; newlines are left to the submit path. Like any key press, the
/// character restarts the blink period on an enabled field, whether or not
/// it was accepted; a disabled field is left entirely alone.
pub fn text_input_char(
    state: &mut TextInputState,
    key: char,
    max_length: Option<usize>,
    disabled: bool,
)
    requires
        old(state).wf(),
    ensures
        final(state).wf(),
        disabled ==> *final(state) == *old(state),
        !disabled ==> final(state).timer.visible && final(state).timer.elapsed_ms == 0 && final(state).timer.period_ms == old(state).timer.period_ms,
        !disabled ==> final(state).kind == old(state).kind,
        !disabled && (key == '\n' || crate::text_input::at_max(
            old(state).value.0@.len(),
            max_length,
        )) ==> final(state).value == old(state).value && final(state).cursor == old(state).cursor && final(state).valid == old(state).valid,
        !disabled && key != '\n' && !crate::text_input::at_max(
            old(state).value.0@.len(),
            max_length,
        ) ==> final(state).value.0@ == old(state).value.0@.insert(
            old(state).cursor.0 as int,
            key,
        ) && final(state).cursor.0 == old(state).cursor.0 + 1,
{
    if disabled {
        return ;
    }
    state.insert_char(key, max_length);
    restart_blink(state);
}

} // verus!
