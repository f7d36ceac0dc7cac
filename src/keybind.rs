use vstd::prelude::*;

use crate::client::ClientId;

verus! {

/// An action to execute when a key binding is pressed.
#[derive(Debug, Clone, PartialEq, Eq)]
pub enum KeybindAction {
    /// Toggles the fullscreen state of the target client.
    ToggleFullscreen,
    /// Runs the command line through the shell.
    Shell(String),
}

impl KeybindAction {
    /// A copy of this action.
    pub fn duplicate(&self) -> (r: KeybindAction)
        ensures
            r == *self,
    {
        match self {
            KeybindAction::ToggleFullscreen => KeybindAction::ToggleFullscreen,
            KeybindAction::Shell(cmd) => KeybindAction::Shell(cmd.clone()),
        }
    }

    /// Whether this is the fullscreen toggle.
    pub fn is_toggle_fullscreen(&self) -> (r: bool)
        ensures
            r == (*self is ToggleFullscreen),
    {
        match self {
            KeybindAction::ToggleFullscreen => true,
            KeybindAction::Shell(_) => false,
        }
    }
}

/// Raised when a key binding fires: the action, addressed to one client or to none.
#[derive(Debug, Clone, PartialEq, Eq)]
pub struct KeybindTriggered {
    pub action: KeybindAction,
    pub client: Option<ClientId>,
}

impl KeybindTriggered {
    /// Creates the event.
    pub fn new(action: KeybindAction, client: Option<ClientId>) -> (r: KeybindTriggered)
        ensures
            r.action == action,
            r.client == client,
    {
        KeybindTriggered { action, client }
    }

    /// The action to execute.
    pub fn action(&self) -> (r: &KeybindAction)
        ensures
            *r == self.action,
    {
        &self.action
    }

    /// The client addressed, if any.
    pub fn client(&self) -> (r: Option<ClientId>)
        ensures
            r == self.client,
    {
        self.client
    }
}

} // verus!
