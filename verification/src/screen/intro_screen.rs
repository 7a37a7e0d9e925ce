//! The main menu.
use vstd::prelude::*;

use super::connect_screen::ConnectScreen;
use super::keygen_screen::KeygenScreen;
use super::known_hosts_screen::KnownHostsScreen;
use super::{Key, Outcome, Request, Screen};

verus! {

/// The main menu: which of its options is selected.
#[derive(Debug)]
pub struct IntroScreen {
    pub selected: usize,
}

/// How many options the menu has.
pub const OPTION_COUNT: usize = 5;

impl IntroScreen {
    /// The menu as it opens, with the first option selected.
    pub fn new() -> (s: IntroScreen)
        ensures
            s.selected == 0,
    {
        IntroScreen { selected: 0 }
    }

    /// What `match_key` does: how the screen changes on `key` and what
    /// the key press leads to.
    pub open spec fn key_step(old_s: IntroScreen, new_s: IntroScreen, key: Key, out: Outcome) -> bool {
        &&& (key == Key::Up ==> new_s.selected == if old_s.selected > 0 {
                (old_s.selected - 1) as usize
            } else {
                old_s.selected
            })
        &&& (key == Key::Down ==> new_s.selected == if old_s.selected < OPTION_COUNT - 1 {
                (old_s.selected + 1) as usize
            } else {
                old_s.selected
            })
        &&& (key != Key::Up && key != Key::Down ==> new_s.selected == old_s.selected)
        &&& (key != Key::Enter ==> out is Stay)
        &&& (key == Key::Enter ==> match old_s.selected {
                0 => out matches Outcome::Switch(Screen::Connect(c)) && c.is_fresh(),
                1 => out matches Outcome::Perform(Request::NewHost),
                2 => out matches Outcome::Perform(Request::UploadKey),
                3 => out matches Outcome::Switch(Screen::Keygen(k)) && k.is_fresh(),
                4 => out matches Outcome::Switch(Screen::KnownHosts(k)) && k.is_fresh(),
                _ => out is Stay,
            })
    }

    /// Handles a key: `Up` and `Down` move the selection within the five
    /// options, `Enter` opens the selected one (the connection list, the
    /// new-host form, the key upload form, key generation, or known_hosts).
    pub fn match_key(&mut self, key: Key) -> (out: Outcome)
        ensures
            Self::key_step(*old(self), *final(self), key, out),
    {
        match key {
            Key::Up => {
                if self.selected > 0 {
                    self.selected -= 1;
                }
                Outcome::Stay
            },
            Key::Down => {
                if self.selected < OPTION_COUNT - 1 {
                    self.selected += 1;
                }
                Outcome::Stay
            },
            Key::Enter => {
                if self.selected == 0 {
                    Outcome::Switch(Screen::Connect(ConnectScreen::new()))
                } else if self.selected == 1 {
                    Outcome::Perform(Request::NewHost)
                } else if self.selected == 2 {
                    Outcome::Perform(Request::UploadKey)
                } else if self.selected == 3 {
                    Outcome::Switch(Screen::Keygen(KeygenScreen::new()))
                } else if self.selected == 4 {
                    Outcome::Switch(Screen::KnownHosts(KnownHostsScreen::new()))
                } else {
                    Outcome::Stay
                }
            },
            _ => Outcome::Stay,
        }
    }
}

/// The label of option `i` of the menu.
pub open spec fn option_label(i: int) -> Seq<char> {
    if i == 0 {
        "Connect with existing"@
    } else if i == 1 {
        "Add new host"@
    } else if i == 2 {
        "Upload key to server"@
    } else if i == 3 {
        "Generate SSH key"@
    } else {
        "Manage known_hosts"@
    }
}

impl IntroScreen {
    /// The lines of the menu: each option's label, after ` > ` for the
    /// selected one and three spaces for the others.
    pub fn option_lines(&self) -> (out: Vec<String>)
        ensures
            out@.len() == OPTION_COUNT,
            forall|i: int|
                0 <= i < OPTION_COUNT ==> (#[trigger] out@[i])@ == (if i == self.selected {
                    " > "@
                } else {
                    "   "@
                }) + option_label(i),
    {
        let labels: [&str; 5] = [
            "Connect with existing",
            "Add new host",
            "Upload key to server",
            "Generate SSH key",
            "Manage known_hosts",
        ];
        let mut out: Vec<String> = Vec::new();
        let mut i: usize = 0;
        while i < OPTION_COUNT
            invariant
                0 <= i <= OPTION_COUNT,
                out@.len() == i,
                labels@.len() == OPTION_COUNT,
                forall|k: int| 0 <= k < OPTION_COUNT ==> (#[trigger] labels@[k])@ == option_label(k),
                forall|k: int|
                    0 <= k < i ==> (#[trigger] out@[k])@ == (if k == self.selected {
                        " > "@
                    } else {
                        "   "@
                    }) + option_label(k),
            decreases OPTION_COUNT - i,
        {
            let mut line = if i == self.selected {
                String::from_str(" > ")
            } else {
                String::from_str("   ")
            };
            line.append(labels[i]);
            out.push(line);
            i += 1;
        }
        out
    }
}

/// Whatever key is pressed, the selection stays on one of the options.
pub proof fn lemma_selection_stays_in_menu(old_s: IntroScreen, new_s: IntroScreen, key: Key, out: Outcome)
    requires
        old_s.selected < OPTION_COUNT,
        IntroScreen::key_step(old_s, new_s, key, out),
    ensures
        new_s.selected < OPTION_COUNT,
{
}

} // verus!
