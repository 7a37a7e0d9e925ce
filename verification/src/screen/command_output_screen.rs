//! The output of a command run on a host.
use vstd::prelude::*;

use super::connect_screen::ConnectScreen;
use super::{Key, Outcome, Screen};

verus! {

/// A command's output and how far it is scrolled.
#[derive(Debug)]
pub struct CommandOutputScreen {
    pub output: String,
    pub scroll: u16,
}

impl CommandOutputScreen {
    /// Shows `output` from its first line.
    pub fn new(output: String) -> (s: CommandOutputScreen)
        ensures
            s.output == output,
            s.scroll == 0,
    {
        CommandOutputScreen { output, scroll: 0 }
    }

    /// What `handle_key` does: how the screen changes on `key` and what
    /// the key press leads to.
    pub open spec fn key_step(old_s: CommandOutputScreen, new_s: CommandOutputScreen, key: Key, out: Outcome) -> bool {
        &&& (new_s.output == old_s.output)
        &&& (key == Key::Esc ==> (out matches Outcome::Switch(Screen::Connect(c)) && c.is_fresh()))
        &&& (key != Key::Esc ==> out is Stay)
        &&& ((key == Key::Up || key == Key::Char('k')) ==> new_s.scroll == if old_s.scroll
                > 0 {
                (old_s.scroll - 1) as u16
            } else {
                0u16
            })
        &&& ((key == Key::Down || key == Key::Char('j')) ==> new_s.scroll == if old_s.scroll < u16::MAX {
                (old_s.scroll + 1) as u16
            } else {
                u16::MAX
            })
        &&& (!(key == Key::Up || key == Key::Char('k') || key == Key::Down || key == Key::Char('j'))
                ==> new_s.scroll == old_s.scroll)
    }

    /// Handles a key: `Up`/`k` scroll up and `Down`/`j` scroll down by one
    /// line (saturating), `Esc` goes back to the connection list.
    pub fn handle_key(&mut self, key: Key) -> (out: Outcome)
        ensures
            Self::key_step(*old(self), *final(self), key, out),
    {
        match key {
            Key::Esc => Outcome::Switch(Screen::Connect(ConnectScreen::new())),
            Key::Up | Key::Char('k') => {
                self.scroll = self.scroll.saturating_sub(1);
                Outcome::Stay
            },
            Key::Down | Key::Char('j') => {
                self.scroll = self.scroll.saturating_add(1);
                Outcome::Stay
            },
            _ => Outcome::Stay,
        }
    }
}

} // verus!
