//! Running one command on a host.
use vstd::prelude::*;

use super::connect_screen::ConnectScreen;
use super::{apply_edit, edited, Key, Outcome, Screen};
use crate::ssh_config::config_reader::SSHConfig;

verus! {

/// A command to run on a host.
#[derive(Debug)]
pub struct QuickCommandRequest {
    pub host: SSHConfig,
    pub command: String,
}

/// The command prompt for a host.
#[derive(Debug)]
pub struct QuickCommandScreen {
    pub host: SSHConfig,
    pub command: String,
    pub error: Option<String>,
}

impl QuickCommandScreen {
    /// Whether this is the prompt as it opens for `host`.
    pub open spec fn is_fresh_for(&self, host: SSHConfig) -> bool {
        self.host == host && self.command@.len() == 0 && self.error is None
    }

    /// An empty prompt for `host`.
    pub fn new(host: SSHConfig) -> (s: QuickCommandScreen)
        ensures
            s.is_fresh_for(host),
    {
        QuickCommandScreen { host, command: String::new(), error: None }
    }

    /// What `handle_key` does: how the screen changes on `key` and what
    /// the key press leads to.
    pub open spec fn key_step(old_s: QuickCommandScreen, new_s: QuickCommandScreen, key: Key, out: Outcome) -> bool {
        &&& (new_s.host == old_s.host)
        &&& (key == Key::Esc ==> (out matches Outcome::Switch(Screen::Connect(c)) && c.is_fresh())
                && new_s == old_s)
        &&& ((key == Key::Backspace || key is Char) ==> out is Stay && new_s.command@
                == edited(old_s.command@, key) && new_s.error == old_s.error)
        &&& (key == Key::Enter && old_s.command@.len() == 0 ==> out is Stay && new_s.command == old_s.command && (new_s.error matches Some(e) && e@
                == "Command cannot be empty"@))
        &&& (key == Key::Enter && old_s.command@.len() > 0 ==> new_s == old_s
                && (out matches Outcome::Switch(Screen::QuickCommandExecute(r)) && r.host == old_s.host && r.command == old_s.command))
        &&& (!(key == Key::Esc || key == Key::Backspace || key is Char || key == Key::Enter) ==> out
                is Stay && new_s == old_s)
    }

    /// Handles a key: characters and `Backspace` edit the command, `Enter`
    /// runs it (or reports that it is empty), `Esc` goes back to the
    /// connection list.
    pub fn handle_key(&mut self, key: Key) -> (out: Outcome)
        ensures
            Self::key_step(*old(self), *final(self), key, out),
    {
        match key {
            Key::Esc => Outcome::Switch(Screen::Connect(ConnectScreen::new())),
            Key::Backspace | Key::Char(_) => {
                apply_edit(&mut self.command, key);
                Outcome::Stay
            },
            Key::Enter => {
                if self.command.as_str().is_empty() {
                    self.error = Some(String::from_str("Command cannot be empty"));
                    Outcome::Stay
                } else {
                    Outcome::Switch(
                        Screen::QuickCommandExecute(
                            QuickCommandRequest {
                                host: self.host.clone(),
                                command: self.command.clone(),
                            },
                        ),
                    )
                }
            },
            _ => Outcome::Stay,
        }
    }
}

} // verus!
