//! Uploading a public key to a server (`ssh-copy-id`).
use vstd::prelude::*;

use super::intro_screen::IntroScreen;
use super::{iterate, apply_edit, edited, Key, Outcome, Screen};
use crate::text::{chars_of, parse_u16, parse_unsigned, string_views};

verus! {

/// A key upload to run.
#[derive(Debug)]
pub struct UploadRequest {
    pub key_path: String,
    pub hostname: String,
    pub port: Option<u16>,
    pub user: Option<String>,
    pub password: Option<String>,
}

/// The fields of the upload form.
#[derive(Debug, Clone, Copy, PartialEq, Eq, Structural)]
pub enum Field {
    KeyPath,
    Hostname,
    Port,
    User,
    Password,
}

/// The field after `f` (cycling).
pub open spec fn field_after(f: Field) -> Field {
    match f {
        Field::KeyPath => Field::Hostname,
        Field::Hostname => Field::Port,
        Field::Port => Field::User,
        Field::User => Field::Password,
        Field::Password => Field::KeyPath,
    }
}

/// The field before `f` (cycling).
pub open spec fn field_before(f: Field) -> Field {
    match f {
        Field::KeyPath => Field::Password,
        Field::Hostname => Field::KeyPath,
        Field::Port => Field::Hostname,
        Field::User => Field::Port,
        Field::Password => Field::User,
    }
}

/// `Tab` and `BackTab` undo each other, and pressing `Tab` once per field
/// comes back to the field.
pub proof fn lemma_field_cycle(f: Field)
    ensures
        field_before(field_after(f)) == f,
        field_after(field_before(f)) == f,
        iterate(|x: Field| field_after(x), 5, f) == f,
{
    reveal_with_fuel(iterate, 6);
}

impl Field {
    /// The next field, cycling back to the first.
    pub fn next(&self) -> (r: Field)
        ensures
            r == field_after(*self),
    {
        match self {
            Field::KeyPath => Field::Hostname,
            Field::Hostname => Field::Port,
            Field::Port => Field::User,
            Field::User => Field::Password,
            Field::Password => Field::KeyPath,
        }
    }

    /// The previous field, cycling back to the last.
    pub fn prev(&self) -> (r: Field)
        ensures
            r == field_before(*self),
    {
        match self {
            Field::KeyPath => Field::Password,
            Field::Hostname => Field::KeyPath,
            Field::Port => Field::Hostname,
            Field::User => Field::Port,
            Field::Password => Field::User,
        }
    }
}

/// The key upload form.
#[derive(Debug)]
pub struct UploadScreen {
    pub key_path: String,
    pub hostname: String,
    pub port: String,
    pub user: String,
    pub password: String,
    pub focused: Field,
    pub error: Option<String>,
    /// The public keys found in `~/.ssh`, offered by `Left`/`Right`.
    pub available_keys: Vec<String>,
    pub key_index: usize,
}

/// The key offered when none is found.
pub open spec fn default_public_key() -> Seq<char> {
    "~/.ssh/id_rsa.pub"@
}

impl UploadScreen {
    /// Whether the key choice points into the list of keys.
    pub open spec fn wf(&self) -> bool {
        self.available_keys@.len() == 0 || self.key_index < self.available_keys@.len()
    }

    /// The texts of the fields, in order: key path, address, port, user,
    /// password.
    pub open spec fn texts(&self) -> (Seq<char>, Seq<char>, Seq<char>, Seq<char>, Seq<char>) {
        (self.key_path@, self.hostname@, self.port@, self.user@, self.password@)
    }

    /// Whether this is the form as it opens with the public keys `keys`.
    pub open spec fn opened_with(&self, keys: Vec<String>) -> bool {
        &&& self.available_keys == keys
        &&& self.key_index == 0
        &&& self.key_path@ == if keys@.len() > 0 {
            keys@[0]@
        } else {
            default_public_key()
        }
        &&& self.hostname@.len() == 0
        &&& self.port@.len() == 0
        &&& self.user@.len() == 0
        &&& self.password@.len() == 0
        &&& self.focused == Field::KeyPath
        &&& self.error is None
    }

    /// The form as it opens with the public keys `available_keys`: the first
    /// of them (or `~/.ssh/id_rsa.pub`) chosen, all other fields empty.
    pub fn new(available_keys: Vec<String>) -> (s: UploadScreen)
        ensures
            s.wf(),
            s.opened_with(available_keys),
    {
        let key_path = if available_keys.len() > 0 {
            available_keys[0].clone()
        } else {
            String::from_str("~/.ssh/id_rsa.pub")
        };
        UploadScreen {
            key_path,
            hostname: String::new(),
            port: String::new(),
            user: String::new(),
            password: String::new(),
            focused: Field::KeyPath,
            error: None,
            available_keys,
            key_index: 0,
        }
    }

    /// The error `Enter` reports for these fields, if any.
    pub open spec fn entry_error(&self) -> Option<Seq<char>> {
        if self.hostname@.len() == 0 {
            Some("Hostname is required"@)
        } else if self.password@.len() == 0 {
            Some("Password is required for authentication"@)
        } else if self.port@.len() > 0 && parse_unsigned(self.port@, 65535) is None {
            Some("Port must be a number"@)
        } else {
            None
        }
    }

    /// The key index after `Left` (previous key, wrapping) or `Right` (next
    /// key, wrapping) on the key field.
    pub open spec fn key_index_after(&self, key: Key) -> usize {
        let n = self.available_keys@.len();
        if key == Key::Left {
            if self.key_index == 0 {
                (n - 1) as usize
            } else {
                (self.key_index - 1) as usize
            }
        } else {
            ((self.key_index + 1) % (n as int)) as usize
        }
    }

    /// What `handle_key` does: how the screen changes on `key` and what
    /// the key press leads to.
    pub open spec fn key_step(old_s: UploadScreen, new_s: UploadScreen, key: Key, out: Outcome) -> bool {
        &&& (new_s.available_keys == old_s.available_keys)
        &&& (key == Key::Esc ==> (out matches Outcome::Switch(Screen::Intro(i)) && i.selected == 0)
                && new_s == old_s)
        &&& ((key == Key::Tab || key == Key::Down) ==> out is Stay && new_s == (UploadScreen {
                focused: field_after(old_s.focused),
                ..old_s
            }))
        &&& ((key == Key::BackTab || key == Key::Up) ==> out is Stay && new_s
                == (UploadScreen { focused: field_before(old_s.focused), ..old_s }))
        &&& ((key == Key::Left || key == Key::Right) ==> ({
                &&& out is Stay
                &&& new_s.texts().1 == old_s.texts().1
                &&& new_s.texts().2 == old_s.texts().2
                &&& new_s.texts().3 == old_s.texts().3
                &&& new_s.texts().4 == old_s.texts().4
                &&& new_s.focused == old_s.focused
                &&& new_s.error == old_s.error
                &&& if old_s.focused == Field::KeyPath && old_s.available_keys@.len() > 0 {
                    &&& new_s.key_index == old_s.key_index_after(key)
                    &&& new_s.key_path == old_s.available_keys@[new_s.key_index as int]
                } else {
                    new_s.key_index == old_s.key_index && new_s.key_path == old_s.key_path
                }
            }))
        &&& ((key == Key::Backspace || key is Char) ==> ({
                let f = old_s.focused;
                &&& out is Stay
                &&& new_s.focused == f
                &&& new_s.error == old_s.error
                &&& new_s.key_index == old_s.key_index
                &&& new_s.key_path@ == if f == Field::KeyPath {
                    edited(old_s.key_path@, key)
                } else {
                    old_s.key_path@
                }
                &&& new_s.hostname@ == if f == Field::Hostname {
                    edited(old_s.hostname@, key)
                } else {
                    old_s.hostname@
                }
                &&& new_s.port@ == if f == Field::Port {
                    edited(old_s.port@, key)
                } else {
                    old_s.port@
                }
                &&& new_s.user@ == if f == Field::User {
                    edited(old_s.user@, key)
                } else {
                    old_s.user@
                }
                &&& new_s.password@ == if f == Field::Password {
                    edited(old_s.password@, key)
                } else {
                    old_s.password@
                }
            }))
        &&& (key == Key::Enter ==> ({
                &&& new_s.texts() == old_s.texts()
                &&& new_s.focused == old_s.focused
                &&& new_s.key_index == old_s.key_index
                &&& match old_s.entry_error() {
                    Some(msg) => out is Stay && (new_s.error matches Some(e) && e@ == msg),
                    None => {
                        &&& new_s.error == old_s.error
                        &&& out matches Outcome::Switch(Screen::UploadExecute(r))
                        &&& r.key_path@ == if old_s.key_path@.len() == 0 {
                            default_public_key()
                        } else {
                            old_s.key_path@
                        }
                        &&& r.hostname == old_s.hostname
                        &&& r.port == if old_s.port@.len() == 0 {
                            None
                        } else {
                            Some(parse_unsigned(old_s.port@, 65535)->0 as u16)
                        }
                        &&& r.user == if old_s.user@.len() == 0 {
                            None
                        } else {
                            Some(old_s.user)
                        }
                        &&& r.password == Some(old_s.password)
                    },
                }
            }))
        &&& (!(key == Key::Esc || key == Key::Tab || key == Key::Down || key == Key::BackTab || key
                == Key::Up || key == Key::Left || key == Key::Right || key == Key::Backspace
                || key is Char || key == Key::Enter) ==> out is Stay && new_s == old_s)
    }

    /// Handles a key: `Tab`/`Down` and `BackTab`/`Up` move between fields,
    /// `Left`/`Right` on the key field choose among the keys found,
    /// characters and `Backspace` edit the focused field, `Enter` starts the
    /// upload when address and password are given and the port (if any) is
    /// valid (an empty key path stands for `~/.ssh/id_rsa.pub`, an empty user
    /// for none), `Esc` goes back to the menu.
    pub fn handle_key(&mut self, key: Key) -> (out: Outcome)
        requires
            old(self).wf(),
        ensures
            final(self).wf(),
            Self::key_step(*old(self), *final(self), key, out),
    {
        match key {
            Key::Esc => Outcome::Switch(Screen::Intro(IntroScreen::new())),
            Key::Tab | Key::Down => {
                self.focused = self.focused.next();
                Outcome::Stay
            },
            Key::BackTab | Key::Up => {
                self.focused = self.focused.prev();
                Outcome::Stay
            },
            Key::Left => {
                if self.focused == Field::KeyPath && self.available_keys.len() > 0 {
                    if self.key_index == 0 {
                        self.key_index = self.available_keys.len() - 1;
                    } else {
                        self.key_index -= 1;
                    }
                    self.key_path = self.available_keys[self.key_index].clone();
                }
                Outcome::Stay
            },
            Key::Right => {
                if self.focused == Field::KeyPath && self.available_keys.len() > 0 {
                    self.key_index = (self.key_index + 1) % self.available_keys.len();
                    self.key_path = self.available_keys[self.key_index].clone();
                }
                Outcome::Stay
            },
            Key::Backspace | Key::Char(_) => {
                match self.focused {
                    Field::KeyPath => apply_edit(&mut self.key_path, key),
                    Field::Hostname => apply_edit(&mut self.hostname, key),
                    Field::Port => apply_edit(&mut self.port, key),
                    Field::User => apply_edit(&mut self.user, key),
                    Field::Password => apply_edit(&mut self.password, key),
                }
                Outcome::Stay
            },
            Key::Enter => {
                if self.hostname.as_str().is_empty() {
                    self.error = Some(String::from_str("Hostname is required"));
                    return Outcome::Stay;
                }
                if self.password.as_str().is_empty() {
                    self.error = Some(String::from_str("Password is required for authentication"));
                    return Outcome::Stay;
                }
                let port = if self.port.as_str().is_empty() {
                    None
                } else {
                    match parse_u16(&chars_of(self.port.as_str())) {
                        Some(p) => Some(p),
                        None => {
                            self.error = Some(String::from_str("Port must be a number"));
                            return Outcome::Stay;
                        },
                    }
                };
                let key_path = if self.key_path.as_str().is_empty() {
                    String::from_str("~/.ssh/id_rsa.pub")
                } else {
                    self.key_path.clone()
                };
                let user = if self.user.as_str().is_empty() {
                    None
                } else {
                    Some(self.user.clone())
                };
                Outcome::Switch(
                    Screen::UploadExecute(
                        UploadRequest {
                            key_path,
                            hostname: self.hostname.clone(),
                            port,
                            user,
                            password: Some(self.password.clone()),
                        },
                    ),
                )
            },
            _ => Outcome::Stay,
        }
    }
}

} // verus!
