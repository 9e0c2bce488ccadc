//! The menu navigation controller: a stack of previously active screens,
//! and the interpretation of button actions against it.
//!
//! Pushing happens when a sub-menu is activated; `Back` pops, and an empty
//! stack falls back to the root screen instead of failing.

use vstd::prelude::*;

use crate::document::{MenuAction, WhichMenu};
use crate::focus::FocusState;
use crate::store::WidgetStore;

verus! {

/// The history of screens, most recent last.
#[derive(Clone, Debug, PartialEq)]
pub struct MenuStack(pub Vec<WhichMenu>);

impl MenuStack {
    /// An empty history.
    pub fn new() -> (r: Self)
        ensures
            r.0@.len() == 0,
    {
        MenuStack(Vec::new())
    }

    /// Records the screen being left.
    pub fn push(&mut self, screen: WhichMenu)
        ensures
            final(self).0@ == old(self).0@.push(screen),
    {
        self.0.push(screen);
    }

    /// Takes the most recently recorded screen back off, if any.
    pub fn pop(&mut self) -> (r: Option<WhichMenu>)
        ensures
            old(self).0@.len() == 0 ==> r is None && final(self).0@ == old(self).0@,
            old(self).0@.len() > 0 ==> r == Option::Some(old(self).0@.last()) && final(self).0@
                == old(self).0@.drop_last(),
    {
        self.0.pop()
    }
}

impl Default for MenuStack {
    fn default() -> (r: Self)
        ensures
            r.0@.len() == 0,
    {
        MenuStack(Vec::new())
    }
}

/// What the surrounding application must do after a menu decision.
#[derive(Clone, Copy, Debug, PartialEq, Eq, Structural)]
pub enum NavCommand {
    /// Nothing; the event was absorbed.
    Stay,
    /// Leave the application.
    Exit,
    /// Switch the active screen.
    SwitchTo(WhichMenu),
    /// Ask the platform layer to reload the application.
    Reload,
    /// Start hosting a lobby with the current form values.
    BeginHosting,
}

/// Interprets one button action against the navigation stack.
///
/// `Back` returns to the most recently recorded screen and consumes it; on
/// an empty stack it falls back to the root screen. `HostLobby` is gated:
/// while any text field is invalid it does nothing.
pub fn handle_action(action: MenuAction, stack: &mut MenuStack, any_field_invalid: bool) -> (r:
    NavCommand)
    ensures
        action == MenuAction::Quit ==> r == NavCommand::Exit && *final(stack) == *old(stack),
        action == MenuAction::PlatformReload ==> r == NavCommand::Reload && *final(stack) == *old(
            stack,
        ),
        action == MenuAction::Back && old(stack).0@.len() == 0 ==> r == NavCommand::SwitchTo(
            WhichMenu::Main,
        ) && final(stack).0@ == old(stack).0@,
        action == MenuAction::Back && old(stack).0@.len() > 0 ==> r == NavCommand::SwitchTo(
            old(stack).0@.last(),
        ) && final(stack).0@ == old(stack).0@.drop_last(),
        action == MenuAction::HostLobby ==> *final(stack) == *old(stack) && r == (
        if any_field_invalid {
            NavCommand::Stay
        } else {
            NavCommand::BeginHosting
        }),
{
    match action {
        MenuAction::Quit => NavCommand::Exit,
        MenuAction::PlatformReload => NavCommand::Reload,
        MenuAction::Back => {
            match stack.pop() {
                Option::Some(previous) => NavCommand::SwitchTo(previous),
                Option::None => NavCommand::SwitchTo(WhichMenu::Main),
            }
        },
        MenuAction::HostLobby => {
            if any_field_invalid {
                NavCommand::Stay
            } else {
                NavCommand::BeginHosting
            }
        },
    }
}

/// Activates a sub-menu button: the current screen goes onto the stack and
/// the target screen becomes active.
pub fn activate_submenu(target: WhichMenu, current: WhichMenu, stack: &mut MenuStack) -> (r:
    NavCommand)
    ensures
        final(stack).0@ == old(stack).0@.push(current),
        r == NavCommand::SwitchTo(target),
{
    stack.push(current);
    NavCommand::SwitchTo(target)
}

/// Reacts to a reported screen transition: an actual change tears down the
/// widget state of the screen being left and asks for a re-render; a
/// repeated report of the same state changes nothing.
pub fn menu_transition(exited: WhichMenu, entered: WhichMenu, store: &mut WidgetStore) -> (rebuild:
    bool)
    requires
        old(store).wf(),
    ensures
        final(store).wf(),
        rebuild == (exited != entered),
        exited == entered ==> final(store)@ == old(store)@,
        exited != entered ==> final(store)@ == old(store)@.restrict(
            Set::new(|k: crate::store::WidgetKey| k.screen != exited),
        ),
{
    if exited == entered {
        return false;
    }
    store.teardown_screen(exited);
    true
}

/// Reacts to a reported screen transition as [`menu_transition`] does, and
/// also clears keyboard focus on an actual change, so no widget of the
/// screen being left can linger as the focused entity.
pub fn screen_transition(
    exited: WhichMenu,
    entered: WhichMenu,
    store: &mut WidgetStore,
    focus: &mut FocusState,
) -> (rebuild: bool)
    requires
        old(store).wf(),
    ensures
        final(store).wf(),
        rebuild == (exited != entered),
        exited == entered ==> final(store)@ == old(store)@ && *final(focus) == *old(focus),
        exited != entered ==> final(store)@ == old(store)@.restrict(
            Set::new(|k: crate::store::WidgetKey| k.screen != exited),
        ) && *final(focus) == FocusState::Unfocused,
{
    if exited == entered {
        return false;
    }
    store.teardown_screen(exited);
    crate::focus::clear_focus(focus);
    true
}

} // verus!
