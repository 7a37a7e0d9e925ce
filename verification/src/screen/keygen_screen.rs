//! Generating an SSH key pair (`ssh-keygen`).
use vstd::prelude::*;

use super::intro_screen::IntroScreen;
use super::{iterate, apply_edit, edited, Key, Outcome, Screen};
use crate::text::{chars_of, has_prefix, parse_bounded, parse_unsigned, sub_chars, to_string};

verus! {

/// A key generation to run: `bits` only for RSA keys.
#[derive(Debug)]
pub struct KeygenRequest {
    pub key_type: String,
    pub bits: Option<String>,
    pub passphrase: String,
    pub filename: String,
}

/// The fields of the key generation form.
#[derive(Debug, Clone, Copy, PartialEq, Eq, Structural)]
pub enum Field {
    KeyType,
    Bits,
    Passphrase,
    Filename,
}

/// The field after `f` (cycling).
pub open spec fn field_after(f: Field) -> Field {
    match f {
        Field::KeyType => Field::Bits,
        Field::Bits => Field::Passphrase,
        Field::Passphrase => Field::Filename,
        Field::Filename => Field::KeyType,
    }
}

/// The field before `f` (cycling).
pub open spec fn field_before(f: Field) -> Field {
    match f {
        Field::KeyType => Field::Filename,
        Field::Bits => Field::KeyType,
        Field::Passphrase => Field::Bits,
        Field::Filename => Field::Passphrase,
    }
}

/// `Tab` and `BackTab` undo each other, and pressing `Tab` once per field
/// comes back to the field.
pub proof fn lemma_field_cycle(f: Field)
    ensures
        field_before(field_after(f)) == f,
        field_after(field_before(f)) == f,
        iterate(|x: Field| field_after(x), 4, f) == f,
{
    reveal_with_fuel(iterate, 5);
}

impl Field {
    /// The next field, cycling back to the first.
    pub fn next(&self) -> (r: Field)
        ensures
            r == field_after(*self),
    {
        match self {
            Field::KeyType => Field::Bits,
            Field::Bits => Field::Passphrase,
            Field::Passphrase => Field::Filename,
            Field::Filename => Field::KeyType,
        }
    }

    /// The previous field, cycling back to the last.
    pub fn prev(&self) -> (r: Field)
        ensures
            r == field_before(*self),
    {
        match self {
            Field::KeyType => Field::Filename,
            Field::Bits => Field::KeyType,
            Field::Passphrase => Field::Bits,
            Field::Filename => Field::Passphrase,
        }
    }
}

/// How many key types are offered.
pub const KEY_TYPE_COUNT: usize = 3;

/// The name of key type `i`: `ed25519`, `rsa` or `ecdsa`.
pub open spec fn key_type_name(i: usize) -> Seq<char> {
    if i == 0 {
        "ed25519"@
    } else if i == 1 {
        "rsa"@
    } else {
        "ecdsa"@
    }
}

/// The key file proposed for key type `i` (the ed25519 one for an unknown
/// type).
pub open spec fn default_key_file(i: usize) -> Seq<char> {
    if i == 1 {
        "~/.ssh/id_rsa"@
    } else if i == 2 {
        "~/.ssh/id_ecdsa"@
    } else {
        "~/.ssh/id_ed25519"@
    }
}

/// The name of key type `i` (`i` below `KEY_TYPE_COUNT`).
pub fn key_type_str(i: usize) -> (s: String)
    requires
        i < KEY_TYPE_COUNT,
    ensures
        s@ == key_type_name(i),
{
    if i == 0 {
        String::from_str("ed25519")
    } else if i == 1 {
        String::from_str("rsa")
    } else {
        String::from_str("ecdsa")
    }
}

/// The key file proposed for key type `key_type_index`.
pub fn default_filename(key_type_index: usize) -> (s: String)
    ensures
        s@ == default_key_file(key_type_index),
{
    if key_type_index == 1 {
        String::from_str("~/.ssh/id_rsa")
    } else if key_type_index == 2 {
        String::from_str("~/.ssh/id_ecdsa")
    } else {
        String::from_str("~/.ssh/id_ed25519")
    }
}

/// `path` with a leading `~/` replaced by the home directory: the home
/// directory followed by the path without its `~`.  Without a home
/// directory, or without a leading `~/`, the path is unchanged.
pub open spec fn tilde_expanded(path: Seq<char>, home: Option<Seq<char>>) -> Seq<char> {
    if path.len() >= 2 && path[0] == '~' && path[1] == '/' && home is Some {
        home->0 + path.drop_first()
    } else {
        path
    }
}

/// Expands a leading `~/` with the home directory.
pub fn expand_tilde(path: &str, home: Option<&str>) -> (out: String)
    ensures
        out@ == tilde_expanded(path@, match home {
            Some(h) => Some(h@),
            None => None,
        }),
{
    let p = chars_of(path);
    if p.len() >= 2 && p[0] == '~' && p[1] == '/' {
        if let Some(h) = home {
            let mut out = String::from_str(h);
            let rest = to_string(&sub_chars(&p, 1, p.len()));
            assert(p@.subrange(1, p@.len() as int) =~= p@.drop_first());
            out.append(rest.as_str());
            return out;
        }
    }
    String::from_str(path)
}

/// The key generation form.
#[derive(Debug)]
pub struct KeygenScreen {
    /// The index of the key type: ed25519, rsa or ecdsa.
    pub key_type: usize,
    pub bits: String,
    pub passphrase: String,
    pub filename: String,
    pub focused: Field,
    pub error: Option<String>,
    /// Whether the user is asked to confirm overwriting an existing key.
    pub confirm_overwrite: bool,
}

impl KeygenScreen {
    /// Whether the key type is one of those offered.
    pub open spec fn wf(&self) -> bool {
        self.key_type < KEY_TYPE_COUNT
    }

    /// Whether this is the form as it opens: ed25519, 4096 bits, no
    /// passphrase, `~/.ssh/id_ed25519`.
    pub open spec fn is_fresh(&self) -> bool {
        &&& self.key_type == 0
        &&& self.bits@ == "4096"@
        &&& self.passphrase@.len() == 0
        &&& self.filename@ == "~/.ssh/id_ed25519"@
        &&& self.focused == Field::KeyType
        &&& self.error is None
        &&& !self.confirm_overwrite
    }

    /// The form as it opens.
    pub fn new() -> (s: KeygenScreen)
        ensures
            s.is_fresh(),
            s.wf(),
    {
        KeygenScreen {
            key_type: 0,
            bits: String::from_str("4096"),
            passphrase: String::new(),
            filename: String::from_str("~/.ssh/id_ed25519"),
            focused: Field::KeyType,
            error: None,
            confirm_overwrite: false,
        }
    }

    /// The key file to write: the filename field, or the proposed file of
    /// the key type when the field is empty.
    pub open spec fn chosen_file(&self) -> Seq<char> {
        if self.filename@.len() == 0 {
            default_key_file(self.key_type)
        } else {
            self.filename@
        }
    }

    /// The bit count given for an RSA key: the bits field, or `4096` when it
    /// is empty.
    pub open spec fn chosen_bits(&self) -> Seq<char> {
        if self.bits@.len() == 0 {
            "4096"@
        } else {
            self.bits@
        }
    }

    /// Whether the fields make a key generation: any key type but RSA, or
    /// RSA with a bit count that is a valid `u32`.
    pub open spec fn request_valid(&self) -> bool {
        self.key_type != 1 || parse_unsigned(self.chosen_bits(), 0xffff_ffff) is Some
    }

    /// Whether `out` is the outcome of asking for the key generation: a
    /// request when the fields are valid, else nothing.
    pub open spec fn request_outcome(&self, out: Outcome) -> bool {
        if self.request_valid() {
            &&& out matches Outcome::Switch(Screen::KeygenExecute(r))
            &&& r.key_type@ == key_type_name(self.key_type)
            &&& r.bits == if self.key_type == 1 {
                Some(r.bits->0)
            } else {
                None::<String>
            }
            &&& self.key_type == 1 ==> r.bits->0@ == self.chosen_bits()
            &&& r.passphrase == self.passphrase
            &&& r.filename@ == self.chosen_file()
        } else {
            out is Stay
        }
    }

    fn chosen_filename(&self) -> (f: String)
        ensures
            f@ == self.chosen_file(),
    {
        if self.filename.as_str().is_empty() {
            default_filename(self.key_type)
        } else {
            self.filename.clone()
        }
    }

    fn build_request(&self) -> (out: Outcome)
        requires
            self.wf(),
        ensures
            self.request_outcome(out),
    {
        let filename = self.chosen_filename();
        let key_type = key_type_str(self.key_type);
        let bits = if self.key_type == 1 {
            let b = if self.bits.as_str().is_empty() {
                String::from_str("4096")
            } else {
                self.bits.clone()
            };
            match parse_bounded(&chars_of(b.as_str()), 0xffff_ffff) {
                Some(_) => Some(b),
                None => {
                    return Outcome::Stay;
                },
            }
        } else {
            None
        };
        Outcome::Switch(
            Screen::KeygenExecute(
                KeygenRequest { key_type, bits, passphrase: self.passphrase.clone(), filename },
            ),
        )
    }

    /// What `handle_key` does: how the screen changes on `key` and what
    /// the key press leads to.
    pub open spec fn key_step(old_s: KeygenScreen, new_s: KeygenScreen, key: Key, out: Outcome) -> bool {
        &&& (old_s.confirm_overwrite ==> if key == Key::Char('y') {
                &&& new_s == (KeygenScreen {
                    confirm_overwrite: false,
                    error: None,
                    ..old_s
                })
                &&& old_s.request_outcome(out)
            } else if key == Key::Char('n') || key == Key::Esc {
                &&& new_s == (KeygenScreen {
                    confirm_overwrite: false,
                    error: None,
                    ..old_s
                })
                &&& key == Key::Esc ==> (out matches Outcome::Switch(Screen::Intro(i))
                    && i.selected == 0)
                &&& key != Key::Esc ==> out is Stay
            } else {
                out is Stay && new_s == old_s
            })
        &&& (!old_s.confirm_overwrite ==> match key {
                Key::Esc => out matches Outcome::Switch(Screen::Intro(i)) && i.selected == 0
                    && new_s == old_s,
                Key::Tab | Key::Down => out is Stay && new_s == (KeygenScreen {
                    focused: field_after(old_s.focused),
                    ..old_s
                }),
                Key::BackTab | Key::Up => out is Stay && new_s == (KeygenScreen {
                    focused: field_before(old_s.focused),
                    ..old_s
                }),
                Key::Left | Key::Right => {
                    &&& out is Stay
                    &&& new_s.bits == old_s.bits
                    &&& new_s.passphrase == old_s.passphrase
                    &&& new_s.focused == old_s.focused
                    &&& new_s.error == old_s.error
                    &&& new_s.confirm_overwrite == old_s.confirm_overwrite
                    &&& if old_s.focused == Field::KeyType {
                        &&& new_s.key_type == if key == Key::Left {
                            if old_s.key_type > 0 {
                                (old_s.key_type - 1) as usize
                            } else {
                                (KEY_TYPE_COUNT - 1) as usize
                            }
                        } else {
                            if old_s.key_type < KEY_TYPE_COUNT - 1 {
                                (old_s.key_type + 1) as usize
                            } else {
                                0usize
                            }
                        }
                        &&& new_s.filename@ == default_key_file(new_s.key_type)
                    } else {
                        new_s.key_type == old_s.key_type && new_s.filename
                            == old_s.filename
                    }
                },
                Key::Backspace | Key::Char(_) => {
                    let f = old_s.focused;
                    &&& out is Stay
                    &&& new_s.key_type == old_s.key_type
                    &&& new_s.focused == f
                    &&& new_s.error == old_s.error
                    &&& new_s.confirm_overwrite == old_s.confirm_overwrite
                    &&& new_s.bits@ == if f == Field::Bits {
                        edited(old_s.bits@, key)
                    } else {
                        old_s.bits@
                    }
                    &&& new_s.passphrase@ == if f == Field::Passphrase {
                        edited(old_s.passphrase@, key)
                    } else {
                        old_s.passphrase@
                    }
                    &&& new_s.filename@ == if f == Field::Filename {
                        edited(old_s.filename@, key)
                    } else {
                        old_s.filename@
                    }
                },
                Key::Enter => new_s == old_s && (out matches Outcome::Perform(
                    super::Request::CheckKeyFile(f),
                ) && f@ == old_s.chosen_file()),
                _ => out is Stay && new_s == old_s,
            })
    }

    /// Handles a key.  While an overwrite awaits confirmation, `y` asks for
    /// the generation, `n` cancels and `Esc` cancels and goes back to the
    /// menu.  Otherwise `Tab`/`Down` and `BackTab`/`Up` move between fields,
    /// `Left`/`Right` on the key type cycle through the types and propose
    /// their key file, characters and `Backspace` edit the focused text
    /// field, `Enter` asks whether the key file exists, `Esc` goes back to
    /// the menu.
    pub fn handle_key(&mut self, key: Key) -> (out: Outcome)
        requires
            old(self).wf(),
        ensures
            final(self).wf(),
            Self::key_step(*old(self), *final(self), key, out),
    {
        if self.confirm_overwrite {
            match key {
                Key::Char('y') => {
                    self.confirm_overwrite = false;
                    self.error = None;
                    return self.build_request();
                },
                Key::Char('n') | Key::Esc => {
                    self.confirm_overwrite = false;
                    self.error = None;
                    if key == Key::Esc {
                        return Outcome::Switch(Screen::Intro(IntroScreen::new()));
                    }
                    return Outcome::Stay;
                },
                _ => {
                    return Outcome::Stay;
                },
            }
        }
        match key {
            Key::Esc => Outcome::Switch(Screen::Intro(IntroScreen::new())),
            Key::Tab | Key::Down => {
                self.focused = self.focused.next();
                Outcome::Stay
            },
            Key::BackTab | Key::Up => {
                self.focused = self.focused.prev();
                Outcome::Stay
            },
            Key::Left | Key::Right => {
                if self.focused == Field::KeyType {
                    if key == Key::Left {
                        if self.key_type > 0 {
                            self.key_type -= 1;
                        } else {
                            self.key_type = KEY_TYPE_COUNT - 1;
                        }
                    } else {
                        if self.key_type < KEY_TYPE_COUNT - 1 {
                            self.key_type += 1;
                        } else {
                            self.key_type = 0;
                        }
                    }
                    self.filename = default_filename(self.key_type);
                }
                Outcome::Stay
            },
            Key::Backspace | Key::Char(_) => {
                match self.focused {
                    Field::KeyType => {},
                    Field::Bits => apply_edit(&mut self.bits, key),
                    Field::Passphrase => apply_edit(&mut self.passphrase, key),
                    Field::Filename => apply_edit(&mut self.filename, key),
                }
                Outcome::Stay
            },
            Key::Enter => Outcome::Perform(super::Request::CheckKeyFile(self.chosen_filename())),
            _ => Outcome::Stay,
        }
    }

    /// Continues `Enter` once it is known whether the key file exists: an
    /// existing file asks for confirmation to overwrite it, otherwise the
    /// key generation is requested.
    pub fn after_key_check(&mut self, exists: bool) -> (out: Outcome)
        requires
            old(self).wf(),
        ensures
            final(self).wf(),
            exists ==> out is Stay && final(self).confirm_overwrite && (final(self).error matches Some(
                e,
            ) && e@ == "'"@ + old(self).chosen_file() + "' already exists. Overwrite? y/n"@),
            exists ==> final(self).key_type == old(self).key_type && final(self).bits == old(self).bits
                && final(self).passphrase == old(self).passphrase && final(self).filename == old(self).filename && final(self).focused == old(self).focused,
            !exists ==> *final(self) == *old(self) && old(self).request_outcome(out),
    {
        if exists {
            let filename = self.chosen_filename();
            let mut msg = String::from_str("'");
            msg.append(filename.as_str());
            msg.append("' already exists. Overwrite? y/n");
            self.confirm_overwrite = true;
            self.error = Some(msg);
            Outcome::Stay
        } else {
            self.build_request()
        }
    }
}

/// Overwrite protection: a key press asks for a key generation only when it
/// confirms overwriting with `y`; `Enter` first asks whether the key file
/// exists.
pub proof fn lemma_generation_needs_check_or_confirmation(
    old_s: KeygenScreen,
    new_s: KeygenScreen,
    key: Key,
    out: Outcome,
)
    requires
        KeygenScreen::key_step(old_s, new_s, key, out),
        out matches Outcome::Switch(s) && s is KeygenExecute,
    ensures
        old_s.confirm_overwrite,
        key == Key::Char('y'),
{
}

/// A key generation request carries exactly the passphrase typed into the
/// form.
pub proof fn lemma_request_keeps_passphrase(s: KeygenScreen, out: Outcome)
    requires
        s.request_outcome(out),
    ensures
        out matches Outcome::Switch(Screen::KeygenExecute(r)) ==> r.passphrase@ == s.passphrase@,
{
}

} // verus!
