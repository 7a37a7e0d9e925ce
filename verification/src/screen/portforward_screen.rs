//! Forwarding a port through a host (`ssh -L` or `ssh -R`).
use vstd::prelude::*;

use super::connect_screen::ConnectScreen;
use super::{iterate, apply_edit, edited, Key, Outcome, Screen};
use crate::ssh_config::config_reader::SSHConfig;
use crate::text::{chars_of, parse_u16, parse_unsigned};

verus! {

/// A tunnel to open: `direction` is `L` (local) or `R` (remote).
#[derive(Debug)]
pub struct PortForwardRequest {
    pub host: SSHConfig,
    pub direction: String,
    pub local_port: String,
    pub remote_host: String,
    pub remote_port: String,
}

/// The fields of the port forwarding form.
#[derive(Debug, Clone, Copy, PartialEq, Eq, Structural)]
pub enum Field {
    Direction,
    LocalPort,
    RemoteHost,
    RemotePort,
}

/// The field after `f` (cycling).
pub open spec fn field_after(f: Field) -> Field {
    match f {
        Field::Direction => Field::LocalPort,
        Field::LocalPort => Field::RemoteHost,
        Field::RemoteHost => Field::RemotePort,
        Field::RemotePort => Field::Direction,
    }
}

/// The field before `f` (cycling).
pub open spec fn field_before(f: Field) -> Field {
    match f {
        Field::Direction => Field::RemotePort,
        Field::LocalPort => Field::Direction,
        Field::RemoteHost => Field::LocalPort,
        Field::RemotePort => Field::RemoteHost,
    }
}

/// `Tab` and `BackTab` undo each other, and pressing `Tab` once per field
/// comes back to the field.
pub proof fn lemma_field_cycle(f: Field)
    ensures
        field_before(field_after(f)) == f,
        field_after(field_before(f)) == f,
        iterate(|x: Field| field_after(x), 4, f) == f,
{
    reveal_with_fuel(iterate, 5);
}

impl Field {
    /// The next field, cycling back to the first.
    pub fn next(&self) -> (r: Field)
        ensures
            r == field_after(*self),
    {
        match self {
            Field::Direction => Field::LocalPort,
            Field::LocalPort => Field::RemoteHost,
            Field::RemoteHost => Field::RemotePort,
            Field::RemotePort => Field::Direction,
        }
    }

    /// The previous field, cycling back to the last.
    pub fn prev(&self) -> (r: Field)
        ensures
            r == field_before(*self),
    {
        match self {
            Field::Direction => Field::RemotePort,
            Field::LocalPort => Field::Direction,
            Field::RemoteHost => Field::LocalPort,
            Field::RemotePort => Field::RemoteHost,
        }
    }
}

/// The port forwarding form for a host.
#[derive(Debug)]
pub struct PortForwardScreen {
    pub host: SSHConfig,
    /// 0 for a local forward (`-L`), 1 for a remote one (`-R`).
    pub direction: usize,
    pub local_port: String,
    pub remote_host: String,
    pub remote_port: String,
    pub focused: Field,
    pub error: Option<String>,
}

impl PortForwardScreen {
    /// Whether this is the form as it opens for `host`.
    pub open spec fn is_fresh_for(&self, host: SSHConfig) -> bool {
        &&& self.host == host
        &&& self.direction == 0
        &&& self.local_port@.len() == 0
        &&& self.remote_host@ == "localhost"@
        &&& self.remote_port@.len() == 0
        &&& self.focused == Field::Direction
        &&& self.error is None
    }

    /// An empty local-forward form for `host`, forwarding to `localhost`.
    pub fn new(host: SSHConfig) -> (s: PortForwardScreen)
        ensures
            s.is_fresh_for(host),
    {
        PortForwardScreen {
            host,
            direction: 0,
            local_port: String::new(),
            remote_host: String::from_str("localhost"),
            remote_port: String::new(),
            focused: Field::Direction,
            error: None,
        }
    }

    /// The error `Enter` reports for these fields, if any: a missing local
    /// or remote port, or one that is not a valid port number (checked in
    /// that order).
    pub open spec fn entry_error(&self) -> Option<Seq<char>> {
        if self.local_port@.len() == 0 {
            Some("Local port is required"@)
        } else if self.remote_port@.len() == 0 {
            Some("Remote port is required"@)
        } else if parse_unsigned(self.local_port@, 65535) is None {
            Some("Local port must be a valid number"@)
        } else if parse_unsigned(self.remote_port@, 65535) is None {
            Some("Remote port must be a valid number"@)
        } else {
            None
        }
    }

    /// What `handle_key` does: how the screen changes on `key` and what
    /// the key press leads to.
    pub open spec fn key_step(old_s: PortForwardScreen, new_s: PortForwardScreen, key: Key, out: Outcome) -> bool {
        &&& (new_s.host == old_s.host)
        &&& (key == Key::Esc ==> (out matches Outcome::Switch(Screen::Connect(c)) && c.is_fresh())
                && new_s == old_s)
        &&& ((key == Key::Tab || key == Key::Down) ==> out is Stay && new_s
                == (PortForwardScreen { focused: field_after(old_s.focused), ..old_s }))
        &&& ((key == Key::BackTab || key == Key::Up) ==> out is Stay && new_s
                == (PortForwardScreen { focused: field_before(old_s.focused), ..old_s }))
        &&& ((key == Key::Left || key == Key::Right) ==> out is Stay && new_s
                == (PortForwardScreen {
                direction: if old_s.focused == Field::Direction {
                    if old_s.direction == 0 {
                        1usize
                    } else {
                        0usize
                    }
                } else {
                    old_s.direction
                },
                ..old_s
            }))
        &&& ((key == Key::Backspace || key is Char) ==> ({
                &&& out is Stay
                &&& new_s.direction == old_s.direction
                &&& new_s.focused == old_s.focused
                &&& new_s.error == old_s.error
                &&& new_s.local_port@ == if old_s.focused == Field::LocalPort {
                    edited(old_s.local_port@, key)
                } else {
                    old_s.local_port@
                }
                &&& new_s.remote_host@ == if old_s.focused == Field::RemoteHost {
                    edited(old_s.remote_host@, key)
                } else {
                    old_s.remote_host@
                }
                &&& new_s.remote_port@ == if old_s.focused == Field::RemotePort {
                    edited(old_s.remote_port@, key)
                } else {
                    old_s.remote_port@
                }
            }))
        &&& (key == Key::Enter ==> ({
                &&& new_s.direction == old_s.direction
                &&& new_s.focused == old_s.focused
                &&& new_s.local_port == old_s.local_port
                &&& new_s.remote_host == old_s.remote_host
                &&& new_s.remote_port == old_s.remote_port
                &&& match old_s.entry_error() {
                    Some(msg) => out is Stay && (new_s.error matches Some(e) && e@ == msg),
                    None => {
                        &&& new_s.error == old_s.error
                        &&& out matches Outcome::Switch(Screen::PortForwardExecute(r))
                        &&& r.host == old_s.host
                        &&& r.direction@ == if old_s.direction == 0 {
                            "L"@
                        } else {
                            "R"@
                        }
                        &&& r.local_port == old_s.local_port
                        &&& r.remote_host@ == if old_s.remote_host@.len() == 0 {
                            "localhost"@
                        } else {
                            old_s.remote_host@
                        }
                        &&& r.remote_port == old_s.remote_port
                    },
                }
            }))
        &&& (!(key == Key::Esc || key == Key::Tab || key == Key::Down || key == Key::BackTab || key
                == Key::Up || key == Key::Left || key == Key::Right || key == Key::Backspace
                || key is Char || key == Key::Enter) ==> out is Stay && new_s == old_s)
    }

    /// Handles a key: `Tab`/`Down` and `BackTab`/`Up` move between fields,
    /// `Left`/`Right` toggle the direction, characters and `Backspace` edit
    /// the focused text field, `Enter` opens the tunnel when both ports are
    /// valid (an empty remote host stands for `localhost`), `Esc` goes back
    /// to the connection list.
    pub fn handle_key(&mut self, key: Key) -> (out: Outcome)
        ensures
            Self::key_step(*old(self), *final(self), key, out),
    {
        match key {
            Key::Esc => Outcome::Switch(Screen::Connect(ConnectScreen::new())),
            Key::Tab | Key::Down => {
                self.focused = self.focused.next();
                Outcome::Stay
            },
            Key::BackTab | Key::Up => {
                self.focused = self.focused.prev();
                Outcome::Stay
            },
            Key::Left | Key::Right => {
                if self.focused == Field::Direction {
                    self.direction = if self.direction == 0 {
                        1
                    } else {
                        0
                    };
                }
                Outcome::Stay
            },
            Key::Backspace | Key::Char(_) => {
                match self.focused {
                    Field::Direction => {},
                    Field::LocalPort => apply_edit(&mut self.local_port, key),
                    Field::RemoteHost => apply_edit(&mut self.remote_host, key),
                    Field::RemotePort => apply_edit(&mut self.remote_port, key),
                }
                Outcome::Stay
            },
            Key::Enter => {
                if self.local_port.as_str().is_empty() {
                    self.error = Some(String::from_str("Local port is required"));
                    Outcome::Stay
                } else if self.remote_port.as_str().is_empty() {
                    self.error = Some(String::from_str("Remote port is required"));
                    Outcome::Stay
                } else if parse_u16(&chars_of(self.local_port.as_str())).is_none() {
                    self.error = Some(String::from_str("Local port must be a valid number"));
                    Outcome::Stay
                } else if parse_u16(&chars_of(self.remote_port.as_str())).is_none() {
                    self.error = Some(String::from_str("Remote port must be a valid number"));
                    Outcome::Stay
                } else {
                    let direction = if self.direction == 0 {
                        String::from_str("L")
                    } else {
                        String::from_str("R")
                    };
                    let remote_host = if self.remote_host.as_str().is_empty() {
                        String::from_str("localhost")
                    } else {
                        self.remote_host.clone()
                    };
                    Outcome::Switch(
                        Screen::PortForwardExecute(
                            PortForwardRequest {
                                host: self.host.clone(),
                                direction,
                                local_port: self.local_port.clone(),
                                remote_host,
                                remote_port: self.remote_port.clone(),
                            },
                        ),
                    )
                }
            },
            _ => Outcome::Stay,
        }
    }
}

} // verus!
