//! Copying a file to or from a host with `scp`.
use vstd::prelude::*;

use super::connect_screen::ConnectScreen;
use super::{iterate, apply_edit, edited, Key, Outcome, Screen};
use crate::ssh_config::config_reader::SSHConfig;

verus! {

/// A file copy to run: `direction` is `upload` or `download`.
#[derive(Debug)]
pub struct TransferRequest {
    pub host: SSHConfig,
    pub direction: String,
    pub local_path: String,
    pub remote_path: String,
}

/// The fields of the transfer form.
#[derive(Debug, Clone, Copy, PartialEq, Eq, Structural)]
pub enum Field {
    Direction,
    LocalPath,
    RemotePath,
}

/// The field after `f` (cycling).
pub open spec fn field_after(f: Field) -> Field {
    match f {
        Field::Direction => Field::LocalPath,
        Field::LocalPath => Field::RemotePath,
        Field::RemotePath => Field::Direction,
    }
}

/// Pressing `Tab` once per field comes back to the field.
pub proof fn lemma_field_cycle(f: Field)
    ensures
        iterate(|x: Field| field_after(x), 3, f) == f,
{
    reveal_with_fuel(iterate, 4);
}

impl Field {
    /// The next field, cycling back to the first.
    pub fn next(&self) -> (r: Field)
        ensures
            r == field_after(*self),
    {
        match self {
            Field::Direction => Field::LocalPath,
            Field::LocalPath => Field::RemotePath,
            Field::RemotePath => Field::Direction,
        }
    }
}

/// How many directions there are (upload, download).
pub const DIRECTION_COUNT: usize = 2;

/// The transfer form for a host.
#[derive(Debug)]
pub struct TransferScreen {
    pub host: SSHConfig,
    /// 0 for upload, 1 for download.
    pub direction: usize,
    pub local_path: String,
    pub remote_path: String,
    pub focused: Field,
    pub error: Option<String>,
}

impl TransferScreen {
    /// Whether this is the form as it opens for `host`.
    pub open spec fn is_fresh_for(&self, host: SSHConfig) -> bool {
        &&& self.host == host
        &&& self.direction == 0
        &&& self.local_path@.len() == 0
        &&& self.remote_path@.len() == 0
        &&& self.focused == Field::Direction
        &&& self.error is None
    }

    /// An empty form for `host`, set to upload.
    pub fn new(host: SSHConfig) -> (s: TransferScreen)
        ensures
            s.is_fresh_for(host),
    {
        TransferScreen {
            host,
            direction: 0,
            local_path: String::new(),
            remote_path: String::new(),
            focused: Field::Direction,
            error: None,
        }
    }

    /// What `handle_key` does: how the screen changes on `key` and what
    /// the key press leads to.
    pub open spec fn key_step(old_s: TransferScreen, new_s: TransferScreen, key: Key, out: Outcome) -> bool {
        &&& (new_s.host == old_s.host)
        &&& (key == Key::Esc ==> (out matches Outcome::Switch(Screen::Connect(c)) && c.is_fresh())
                && new_s == old_s)
        &&& ((key == Key::Tab || key == Key::Down) ==> out is Stay && new_s
                == (TransferScreen { focused: field_after(old_s.focused), ..old_s }))
        &&& (key == Key::Left ==> out is Stay && new_s == (TransferScreen {
                direction: if old_s.focused == Field::Direction {
                    if old_s.direction == 0 {
                        (DIRECTION_COUNT - 1) as usize
                    } else {
                        (old_s.direction - 1) as usize
                    }
                } else {
                    old_s.direction
                },
                ..old_s
            }))
        &&& (key == Key::Right ==> out is Stay && new_s == (TransferScreen {
                direction: if old_s.focused == Field::Direction {
                    ((old_s.direction + 1) % (DIRECTION_COUNT as int)) as usize
                } else {
                    old_s.direction
                },
                ..old_s
            }))
        &&& ((key == Key::Backspace || key is Char) ==> ({
                &&& out is Stay
                &&& new_s.direction == old_s.direction
                &&& new_s.focused == old_s.focused
                &&& new_s.error == old_s.error
                &&& new_s.local_path@ == if old_s.focused == Field::LocalPath {
                    edited(old_s.local_path@, key)
                } else {
                    old_s.local_path@
                }
                &&& new_s.remote_path@ == if old_s.focused == Field::RemotePath {
                    edited(old_s.remote_path@, key)
                } else {
                    old_s.remote_path@
                }
            }))
        &&& (key == Key::Enter ==> ({
                &&& new_s.direction == old_s.direction
                &&& new_s.focused == old_s.focused
                &&& new_s.local_path == old_s.local_path
                &&& new_s.remote_path == old_s.remote_path
                &&& if old_s.local_path@.len() == 0 {
                    out is Stay && (new_s.error matches Some(e) && e@
                        == "Local path is required"@)
                } else if old_s.remote_path@.len() == 0 {
                    out is Stay && (new_s.error matches Some(e) && e@
                        == "Remote path is required"@)
                } else {
                    &&& new_s.error == old_s.error
                    &&& out matches Outcome::Switch(Screen::TransferExecute(r))
                    &&& r.host == old_s.host
                    &&& r.direction@ == if old_s.direction == 0 {
                        "upload"@
                    } else {
                        "download"@
                    }
                    &&& r.local_path == old_s.local_path
                    &&& r.remote_path == old_s.remote_path
                }
            }))
        &&& (!(key == Key::Esc || key == Key::Tab || key == Key::Down || key == Key::Left || key
                == Key::Right || key == Key::Backspace || key is Char || key == Key::Enter) ==> out
                is Stay && new_s == old_s)
    }

    /// Handles a key: `Tab`/`Down` move to the next field, `Left`/`Right`
    /// switch the direction, characters and `Backspace` edit the focused
    /// path, `Enter` starts the copy when both paths are given (else reports
    /// the missing one), `Esc` goes back to the connection list.
    pub fn handle_key(&mut self, key: Key) -> (out: Outcome)
        ensures
            Self::key_step(*old(self), *final(self), key, out),
    {
        match key {
            Key::Esc => Outcome::Switch(Screen::Connect(ConnectScreen::new())),
            Key::Tab | Key::Down => {
                self.focused = self.focused.next();
                Outcome::Stay
            },
            Key::Left => {
                if self.focused == Field::Direction {
                    if self.direction == 0 {
                        self.direction = DIRECTION_COUNT - 1;
                    } else {
                        self.direction -= 1;
                    }
                }
                Outcome::Stay
            },
            Key::Right => {
                if self.focused == Field::Direction {
                    let d = self.direction;
                    self.direction = (d % DIRECTION_COUNT + 1) % DIRECTION_COUNT;
                    assert((d % 2 + 1) % 2 == (d + 1) % 2);
                }
                Outcome::Stay
            },
            Key::Backspace | Key::Char(_) => {
                match self.focused {
                    Field::Direction => {},
                    Field::LocalPath => apply_edit(&mut self.local_path, key),
                    Field::RemotePath => apply_edit(&mut self.remote_path, key),
                }
                Outcome::Stay
            },
            Key::Enter => {
                if self.local_path.as_str().is_empty() {
                    self.error = Some(String::from_str("Local path is required"));
                    Outcome::Stay
                } else if self.remote_path.as_str().is_empty() {
                    self.error = Some(String::from_str("Remote path is required"));
                    Outcome::Stay
                } else {
                    let direction = if self.direction == 0 {
                        String::from_str("upload")
                    } else {
                        String::from_str("download")
                    };
                    Outcome::Switch(
                        Screen::TransferExecute(
                            TransferRequest {
                                host: self.host.clone(),
                                direction,
                                local_path: self.local_path.clone(),
                                remote_path: self.remote_path.clone(),
                            },
                        ),
                    )
                }
            },
            _ => Outcome::Stay,
        }
    }
}

} // verus!
