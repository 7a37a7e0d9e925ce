//! The two-step form that adds or edits a host: address and login first,
//! tunnels second.
use vstd::prelude::*;

use super::intro_screen::IntroScreen;
use super::{iterate, apply_edit, edited, Key, Outcome, Request, Screen};
use crate::ssh_config::config_reader::{
    clone_opt, opt_view, AuthMethod, AuthView, ConfigView, SSHConfig,
};
use crate::text::{chars_of, decimal, decimal_chars, parse_u16, parse_unsigned, to_string};

verus! {

/// The two steps of the form.
#[derive(Debug, Clone, Copy, PartialEq, Eq, Structural)]
pub enum Step {
    Basic,
    Tunnel,
}

/// The fields of the form: the first six belong to the basic step, the last
/// two to the tunnel step.
#[derive(Debug, Clone, Copy, PartialEq, Eq, Structural)]
pub enum Field {
    Host,
    Hostname,
    Port,
    User,
    IdentityFile,
    ProxyJump,
    LocalForward,
    RemoteForward,
}

/// The field after `f` within `step` (cycling); a field of the other step
/// leads to the first field of `step`.
pub open spec fn field_after(f: Field, step: Step) -> Field {
    match step {
        Step::Basic => match f {
            Field::Host => Field::Hostname,
            Field::Hostname => Field::Port,
            Field::Port => Field::User,
            Field::User => Field::IdentityFile,
            Field::IdentityFile => Field::ProxyJump,
            Field::ProxyJump => Field::Host,
            _ => Field::Host,
        },
        Step::Tunnel => match f {
            Field::LocalForward => Field::RemoteForward,
            Field::RemoteForward => Field::LocalForward,
            _ => Field::LocalForward,
        },
    }
}

/// The field before `f` within `step` (cycling); a field of the other step
/// leads to the first field of `step`.
pub open spec fn field_before(f: Field, step: Step) -> Field {
    match step {
        Step::Basic => match f {
            Field::Host => Field::ProxyJump,
            Field::Hostname => Field::Host,
            Field::Port => Field::Hostname,
            Field::User => Field::Port,
            Field::IdentityFile => Field::User,
            Field::ProxyJump => Field::IdentityFile,
            _ => Field::Host,
        },
        Step::Tunnel => match f {
            Field::LocalForward => Field::RemoteForward,
            Field::RemoteForward => Field::LocalForward,
            _ => Field::LocalForward,
        },
    }
}

/// Whether `f` is a field of `step`.
pub open spec fn in_step(f: Field, step: Step) -> bool {
    match step {
        Step::Basic => !(f == Field::LocalForward || f == Field::RemoteForward),
        Step::Tunnel => f == Field::LocalForward || f == Field::RemoteForward,
    }
}

/// Within a step, `Tab` and `BackTab` undo each other, and pressing `Tab`
/// once per field of the step comes back to the field.
pub proof fn lemma_field_cycle(f: Field, step: Step)
    requires
        in_step(f, step),
    ensures
        field_before(field_after(f, step), step) == f,
        field_after(field_before(f, step), step) == f,
        iterate(
            |x: Field| field_after(x, step),
            match step {
                Step::Basic => 6nat,
                Step::Tunnel => 2nat,
            },
            f,
        ) == f,
{
    reveal_with_fuel(iterate, 7);
}

impl Field {
    /// The next field of `step`.
    pub fn next(&self, step: Step) -> (r: Field)
        ensures
            r == field_after(*self, step),
    {
        match step {
            Step::Basic => match self {
                Field::Host => Field::Hostname,
                Field::Hostname => Field::Port,
                Field::Port => Field::User,
                Field::User => Field::IdentityFile,
                Field::IdentityFile => Field::ProxyJump,
                Field::ProxyJump => Field::Host,
                _ => Field::Host,
            },
            Step::Tunnel => match self {
                Field::LocalForward => Field::RemoteForward,
                Field::RemoteForward => Field::LocalForward,
                _ => Field::LocalForward,
            },
        }
    }

    /// The previous field of `step`.
    pub fn prev(&self, step: Step) -> (r: Field)
        ensures
            r == field_before(*self, step),
    {
        match step {
            Step::Basic => match self {
                Field::Host => Field::ProxyJump,
                Field::Hostname => Field::Host,
                Field::Port => Field::Hostname,
                Field::User => Field::Port,
                Field::IdentityFile => Field::User,
                Field::ProxyJump => Field::IdentityFile,
                _ => Field::Host,
            },
            Step::Tunnel => match self {
                Field::LocalForward => Field::RemoteForward,
                Field::RemoteForward => Field::LocalForward,
                _ => Field::LocalForward,
            },
        }
    }
}

/// The identity file proposed when no private key is found.
pub open spec fn default_identity() -> Seq<char> {
    "~/.ssh/id_rsa"@
}

/// The first index of `keys` holding `k` (the length when none does).
pub open spec fn first_index(keys: Seq<Seq<char>>, k: Seq<char>) -> nat
    decreases keys.len(),
{
    if keys.len() == 0 {
        0
    } else if keys[0] == k {
        0
    } else {
        1 + first_index(keys.drop_first(), k)
    }
}

/// The first index of `keys` holding `k`, or 0 when none does.
pub open spec fn key_position(keys: Seq<Seq<char>>, k: Seq<char>) -> nat {
    if keys.contains(k) {
        first_index(keys, k)
    } else {
        0
    }
}

/// The texts the form shows for the entry `c`, with the private keys
/// `keys`: its values (the port in decimal, an absent value as empty text),
/// and its key file as identity file (or the first key, or
/// `~/.ssh/id_rsa`, when it authenticates otherwise).
pub open spec fn config_texts(c: ConfigView, keys: Seq<String>) -> FieldTexts {
    FieldTexts {
        host: c.host,
        hostname: c.hostname,
        port: match c.port {
            Some(p) => decimal(p as nat),
            None => Seq::empty(),
        },
        user: match c.username {
            Some(u) => u,
            None => Seq::empty(),
        },
        identity_file: match c.auth {
            Some(AuthView::Key(path)) => path,
            _ => ConfigureScreen::first_key(keys),
        },
        proxy_jump: match c.proxy_jump {
            Some(p) => p,
            None => Seq::empty(),
        },
        local_forward: match c.local_forward {
            Some(p) => p,
            None => Seq::empty(),
        },
        remote_forward: match c.remote_forward {
            Some(p) => p,
            None => Seq::empty(),
        },
    }
}

/// An optional value that is present is not empty.
pub open spec fn no_empty_value(v: Option<Seq<char>>) -> bool {
    v matches Some(x) ==> x.len() > 0
}

/// Opening an entry in the form and saving it without a change writes the
/// same entry back, for every entry the form can express: a non-empty alias
/// and address, no present-but-empty value, and authentication by a
/// non-empty key file.
pub proof fn lemma_edit_then_save_keeps_entry(s: ConfigureScreen, c: ConfigView)
    requires
        s.texts() == config_texts(c, s.available_keys@),
        c.host.len() > 0,
        c.hostname.len() > 0,
        no_empty_value(c.username),
        no_empty_value(c.proxy_jump),
        no_empty_value(c.local_forward),
        no_empty_value(c.remote_forward),
        c.auth matches Some(AuthView::Key(k)) && k.len() > 0,
    ensures
        s.basic_error() is None,
        s.saved_entry() == c,
{
    if let Some(p) = c.port {
        crate::text::lemma_decimal_parses(p as nat, 65535);
        crate::text::lemma_decimal_digits(p as nat);
    }
    let e = s.saved_entry();
    assert(e.host == c.host);
    assert(e.hostname == c.hostname);
    assert(e.username == c.username);
    assert(e.port == c.port);
    assert(e.auth == c.auth);
    assert(e.proxy_jump == c.proxy_jump);
    assert(e.local_forward == c.local_forward);
    assert(e.remote_forward == c.remote_forward);
}

/// The form.
#[derive(Debug)]
pub struct ConfigureScreen {
    pub host: String,
    pub hostname: String,
    pub port: String,
    pub user: String,
    pub identity_file: String,
    pub proxy_jump: String,
    pub local_forward: String,
    pub remote_forward: String,
    pub step: Step,
    pub focused: Field,
    pub error: Option<String>,
    /// The alias of the host being edited; `None` for a new host.
    pub editing: Option<String>,
    /// The private keys found in `~/.ssh`, offered by `Left`/`Right`.
    pub available_keys: Vec<String>,
    pub key_index: usize,
}

/// The texts of the eight fields of a form.
#[verifier::ext_equal]
pub struct FieldTexts {
    pub host: Seq<char>,
    pub hostname: Seq<char>,
    pub port: Seq<char>,
    pub user: Seq<char>,
    pub identity_file: Seq<char>,
    pub proxy_jump: Seq<char>,
    pub local_forward: Seq<char>,
    pub remote_forward: Seq<char>,
}

/// The texts after an editing key on field `f` (the identity file is not
/// typed into).
pub open spec fn texts_edited(t: FieldTexts, f: Field, key: Key) -> FieldTexts {
    match f {
        Field::Host => FieldTexts { host: edited(t.host, key), ..t },
        Field::Hostname => FieldTexts { hostname: edited(t.hostname, key), ..t },
        Field::Port => FieldTexts { port: edited(t.port, key), ..t },
        Field::User => FieldTexts { user: edited(t.user, key), ..t },
        Field::IdentityFile => t,
        Field::ProxyJump => FieldTexts { proxy_jump: edited(t.proxy_jump, key), ..t },
        Field::LocalForward => FieldTexts { local_forward: edited(t.local_forward, key), ..t },
        Field::RemoteForward => FieldTexts { remote_forward: edited(t.remote_forward, key), ..t },
    }
}

/// `None` for an empty text, else the text.
pub open spec fn non_empty(s: Seq<char>) -> Option<Seq<char>> {
    if s.len() == 0 {
        None
    } else {
        Some(s)
    }
}

impl ConfigureScreen {
    /// Whether the key choice points into the list of keys.
    pub open spec fn wf(&self) -> bool {
        self.available_keys@.len() == 0 || self.key_index < self.available_keys@.len()
    }

    /// The texts of the fields.
    pub open spec fn texts(&self) -> FieldTexts {
        FieldTexts {
            host: self.host@,
            hostname: self.hostname@,
            port: self.port@,
            user: self.user@,
            identity_file: self.identity_file@,
            proxy_jump: self.proxy_jump@,
            local_forward: self.local_forward@,
            remote_forward: self.remote_forward@,
        }
    }

    /// Whether the form is at its start: basic step, alias focused, no error.
    pub open spec fn at_start(&self) -> bool {
        self.step == Step::Basic && self.focused == Field::Host && self.error is None
    }

    /// The identity file proposed with the keys `keys`: the first one, or
    /// `~/.ssh/id_rsa` when there is none.
    pub open spec fn first_key(keys: Seq<String>) -> Seq<char> {
        if keys.len() > 0 {
            keys[0]@
        } else {
            default_identity()
        }
    }

    /// The form for a new host, with the private keys `available_keys`
    /// found in `~/.ssh`: every text empty except the identity file, which
    /// is the first key (or `~/.ssh/id_rsa`).
    pub fn new(available_keys: Vec<String>) -> (s: ConfigureScreen)
        ensures
            s.wf(),
            s.at_start(),
            s.editing is None,
            s.available_keys == available_keys,
            s.key_index == 0,
            s.texts() == (FieldTexts {
                host: Seq::empty(),
                hostname: Seq::empty(),
                port: Seq::empty(),
                user: Seq::empty(),
                identity_file: Self::first_key(available_keys@),
                proxy_jump: Seq::empty(),
                local_forward: Seq::empty(),
                remote_forward: Seq::empty(),
            }),
    {
        let identity_file = if available_keys.len() > 0 {
            available_keys[0].clone()
        } else {
            String::from_str("~/.ssh/id_rsa")
        };
        let s = ConfigureScreen {
            host: String::new(),
            hostname: String::new(),
            port: String::new(),
            user: String::new(),
            identity_file,
            proxy_jump: String::new(),
            local_forward: String::new(),
            remote_forward: String::new(),
            step: Step::Basic,
            focused: Field::Host,
            error: None,
            editing: None,
            available_keys,
            key_index: 0,
        };
        assert(s.texts() =~= (FieldTexts {
            host: Seq::empty(),
            hostname: Seq::empty(),
            port: Seq::empty(),
            user: Seq::empty(),
            identity_file: Self::first_key(s.available_keys@),
            proxy_jump: Seq::empty(),
            local_forward: Seq::empty(),
            remote_forward: Seq::empty(),
        }));
        s
    }

    /// The form for a new host at `hostname` (from known_hosts): as `new`,
    /// with both the alias and the address set to `hostname`.
    pub fn with_hostname(hostname: String, available_keys: Vec<String>) -> (s: ConfigureScreen)
        ensures
            s.wf(),
            s.at_start(),
            s.editing is None,
            s.available_keys == available_keys,
            s.key_index == 0,
            s.texts() == (FieldTexts {
                host: hostname@,
                hostname: hostname@,
                port: Seq::empty(),
                user: Seq::empty(),
                identity_file: Self::first_key(available_keys@),
                proxy_jump: Seq::empty(),
                local_forward: Seq::empty(),
                remote_forward: Seq::empty(),
            }),
    {
        let mut s = Self::new(available_keys);
        s.hostname = hostname.clone();
        s.host = hostname;
        assert(s.texts() =~= (FieldTexts {
            host: s.host@,
            hostname: s.host@,
            port: Seq::empty(),
            user: Seq::empty(),
            identity_file: Self::first_key(s.available_keys@),
            proxy_jump: Seq::empty(),
            local_forward: Seq::empty(),
            remote_forward: Seq::empty(),
        }));
        s
    }

    fn position_of(keys: &Vec<String>, k: &String) -> (idx: usize)
        ensures
            idx == key_position(crate::text::string_views(keys@), k@),
            keys@.len() > 0 ==> idx < keys@.len(),
    {
        let ghost ks = crate::text::string_views(keys@);
        let mut i: usize = 0;
        assert(ks.skip(0) =~= ks);
        while i < keys.len()
            invariant
                0 <= i <= keys.len(),
                ks == crate::text::string_views(keys@),
                forall|j: int| 0 <= j < i ==> ks[j] != k@,
                first_index(ks, k@) == i + first_index(ks.skip(i as int), k@),
            decreases keys.len() - i,
        {
            assert(ks.skip(i as int)[0] == ks[i as int]);
            if keys[i] == *k {
                assert(ks[i as int] == k@);
                return i;
            }
            assert(ks.skip(i as int).drop_first() =~= ks.skip(i + 1));
            i += 1;
        }
        assert(!ks.contains(k@));
        0
    }

    /// The form to edit `config`, with the private keys `available_keys`:
    /// the texts of its fields (its port in decimal, an absent value as
    /// empty text), its key file as identity file (or the first key, or
    /// `~/.ssh/id_rsa`, when it authenticates otherwise), the key choice on
    /// the first matching key (or the first key), and its alias remembered
    /// as the one being edited.
    pub fn from_config(config: &SSHConfig, available_keys: Vec<String>) -> (s: ConfigureScreen)
        ensures
            s.wf(),
            s.at_start(),
            s.editing == Some(config.host),
            s.available_keys == available_keys,
            s.key_index == key_position(crate::text::string_views(available_keys@), s.identity_file@),
            s.texts() == config_texts(config@, available_keys@),
    {
        let identity_file = match &config.auth {
            Some(AuthMethod::Key(path)) => path.clone(),
            _ => if available_keys.len() > 0 {
                available_keys[0].clone()
            } else {
                String::from_str("~/.ssh/id_rsa")
            },
        };
        let key_index = Self::position_of(&available_keys, &identity_file);
        let port = match config.port {
            Some(p) => to_string(&decimal_chars(p as u64)),
            None => String::new(),
        };
        let unwrap_or_empty = |o: &Option<String>| -> (r: String)
            ensures
                r@ == match *o {
                    Some(v) => v@,
                    None => Seq::<char>::empty(),
                },
            {
                match o {
                    Some(v) => v.clone(),
                    None => String::new(),
                }
            };
        let s = ConfigureScreen {
            host: config.host.clone(),
            hostname: config.hostname.clone(),
            port,
            user: unwrap_or_empty(&config.username),
            identity_file,
            proxy_jump: unwrap_or_empty(&config.proxy_jump),
            local_forward: unwrap_or_empty(&config.local_forward),
            remote_forward: unwrap_or_empty(&config.remote_forward),
            step: Step::Basic,
            focused: Field::Host,
            error: None,
            editing: Some(config.host.clone()),
            available_keys,
            key_index,
        };
        assert(s.texts() =~= config_texts(config@, s.available_keys@));
        s
    }

    /// The error that ends the basic step, if any: a missing alias or
    /// address, or a port that is not a valid port number.
    pub open spec fn basic_error(&self) -> Option<Seq<char>> {
        if self.host@.len() == 0 || self.hostname@.len() == 0 {
            Some("Host and Hostname are required"@)
        } else if self.port@.len() > 0 && parse_unsigned(self.port@, 65535) is None {
            Some("Port must be a number"@)
        } else {
            None
        }
    }

    /// The entry the form saves: the alias and address as typed; no user,
    /// port, `ProxyJump`, `LocalForward` or `RemoteForward` for an empty
    /// field (the port as parsed); key authentication with the identity file
    /// (or `~/.ssh/id_rsa` when it is empty).
    pub open spec fn saved_entry(&self) -> ConfigView {
        ConfigView {
            host: self.host@,
            hostname: self.hostname@,
            username: non_empty(self.user@),
            port: if self.port@.len() == 0 {
                None
            } else {
                match parse_unsigned(self.port@, 65535) {
                    Some(p) => Some(p as u16),
                    None => None,
                }
            },
            auth: Some(
                AuthView::Key(
                    if self.identity_file@.len() == 0 {
                        default_identity()
                    } else {
                        self.identity_file@
                    },
                ),
            ),
            proxy_jump: non_empty(self.proxy_jump@),
            local_forward: non_empty(self.local_forward@),
            remote_forward: non_empty(self.remote_forward@),
        }
    }

    fn validate_basic(&mut self) -> (ok: bool)
        ensures
            ok == (old(self).basic_error() is None),
            !ok ==> *final(self) == (ConfigureScreen { error: final(self).error, ..*old(self) })
                && (final(self).error matches Some(e) && Some(e@) == old(self).basic_error()),
            ok ==> *final(self) == *old(self),
    {
        if self.host.as_str().is_empty() || self.hostname.as_str().is_empty() {
            self.error = Some(String::from_str("Host and Hostname are required"));
            return false;
        }
        if !self.port.as_str().is_empty() {
            if parse_u16(&chars_of(self.port.as_str())).is_none() {
                self.error = Some(String::from_str("Port must be a number"));
                return false;
            }
        }
        true
    }

    fn optional(s: &String) -> (r: Option<String>)
        ensures
            opt_view(r) == non_empty(s@),
    {
        if s.as_str().is_empty() {
            None
        } else {
            Some(s.clone())
        }
    }

    fn entry(&self) -> (c: SSHConfig)
        ensures
            c@ == self.saved_entry(),
    {
        let port = if self.port.as_str().is_empty() {
            None
        } else {
            parse_u16(&chars_of(self.port.as_str()))
        };
        let identity = if self.identity_file.as_str().is_empty() {
            String::from_str("~/.ssh/id_rsa")
        } else {
            self.identity_file.clone()
        };
        let c = SSHConfig {
            host: self.host.clone(),
            hostname: self.hostname.clone(),
            username: Self::optional(&self.user),
            port,
            auth: Some(AuthMethod::Key(identity)),
            proxy_jump: Self::optional(&self.proxy_jump),
            local_forward: Self::optional(&self.local_forward),
            remote_forward: Self::optional(&self.remote_forward),
        };
        assert(c@ =~= self.saved_entry());
        c
    }

    /// The key index after `Left` (previous key, wrapping) or `Right` (next
    /// key, wrapping) on the identity file.
    pub open spec fn key_index_after(&self, key: Key) -> usize {
        let n = self.available_keys@.len();
        if key == Key::Left {
            if self.key_index == 0 {
                (n - 1) as usize
            } else {
                (self.key_index - 1) as usize
            }
        } else {
            ((self.key_index + 1) % (n as int)) as usize
        }
    }

    /// What `match_key` does: how the screen changes on `key` and what
    /// the key press leads to.
    pub open spec fn key_step(old_s: ConfigureScreen, new_s: ConfigureScreen, key: Key, out: Outcome) -> bool {
        &&& (new_s.available_keys == old_s.available_keys)
        &&& (new_s.editing == old_s.editing)
        &&& (match key {
                Key::Esc => if old_s.step == Step::Basic {
                    out matches Outcome::Switch(Screen::Intro(i)) && i.selected == 0
                        && new_s == old_s
                } else {
                    out is Stay && new_s == (ConfigureScreen {
                        step: Step::Basic,
                        focused: Field::Host,
                        error: None,
                        ..old_s
                    })
                },
                Key::Tab | Key::Down => out is Stay && new_s == (ConfigureScreen {
                    focused: field_after(old_s.focused, old_s.step),
                    ..old_s
                }),
                Key::BackTab | Key::Up => out is Stay && new_s == (ConfigureScreen {
                    focused: field_before(old_s.focused, old_s.step),
                    ..old_s
                }),
                Key::Left | Key::Right => {
                    &&& out is Stay
                    &&& if old_s.focused == Field::IdentityFile
                        && old_s.available_keys@.len() > 0 {
                        &&& new_s.key_index == old_s.key_index_after(key)
                        &&& new_s.identity_file == old_s.available_keys@[new_s.key_index as int]
                        &&& new_s == (ConfigureScreen {
                            key_index: new_s.key_index,
                            identity_file: new_s.identity_file,
                            ..old_s
                        })
                    } else {
                        new_s == old_s
                    }
                },
                Key::Backspace | Key::Char(_) => {
                    &&& out is Stay
                    &&& new_s.texts() == texts_edited(old_s.texts(), old_s.focused, key)
                    &&& new_s.step == old_s.step
                    &&& new_s.focused == old_s.focused
                    &&& new_s.error == old_s.error
                    &&& new_s.key_index == old_s.key_index
                },
                Key::Enter => if old_s.step == Step::Basic {
                    &&& out is Stay
                    &&& new_s.texts() == old_s.texts()
                    &&& new_s.key_index == old_s.key_index
                    &&& match old_s.basic_error() {
                        Some(msg) => new_s.step == Step::Basic && new_s.focused == old_s.focused && (new_s.error matches Some(e) && e@ == msg),
                        None => new_s.step == Step::Tunnel && new_s.focused
                            == Field::LocalForward && new_s.error is None,
                    }
                } else {
                    &&& new_s == old_s
                    &&& out matches Outcome::Perform(Request::SaveHost { config, editing })
                    &&& config@ == old_s.saved_entry()
                    &&& editing == old_s.editing
                },
                _ => out is Stay && new_s == old_s,
            })
    }

    /// Handles a key.  `Tab`/`Down` and `BackTab`/`Up` move between the
    /// fields of the current step; `Left`/`Right` on the identity file
    /// choose among the keys found; characters and `Backspace` edit the
    /// focused field (except the identity file); `Enter` on the basic step
    /// checks it and goes on to the tunnel step, on the tunnel step asks to
    /// save the entry; `Esc` goes back to the menu from the basic step and
    /// back to the basic step from the tunnel step.
    pub fn match_key(&mut self, key: Key) -> (out: Outcome)
        requires
            old(self).wf(),
        ensures
            final(self).wf(),
            Self::key_step(*old(self), *final(self), key, out),
    {
        match key {
            Key::Esc => {
                match self.step {
                    Step::Basic => {
                        return Outcome::Switch(Screen::Intro(IntroScreen::new()));
                    },
                    Step::Tunnel => {
                        self.step = Step::Basic;
                        self.focused = Field::Host;
                        self.error = None;
                    },
                }
            },
            Key::Tab | Key::Down => {
                self.focused = self.focused.next(self.step);
            },
            Key::BackTab | Key::Up => {
                self.focused = self.focused.prev(self.step);
            },
            Key::Left => {
                if self.focused == Field::IdentityFile && self.available_keys.len() > 0 {
                    if self.key_index == 0 {
                        self.key_index = self.available_keys.len() - 1;
                    } else {
                        self.key_index -= 1;
                    }
                    self.identity_file = self.available_keys[self.key_index].clone();
                }
            },
            Key::Right => {
                if self.focused == Field::IdentityFile && self.available_keys.len() > 0 {
                    self.key_index = (self.key_index + 1) % self.available_keys.len();
                    self.identity_file = self.available_keys[self.key_index].clone();
                }
            },
            Key::Backspace | Key::Char(_) => {
                match self.focused {
                    Field::Host => apply_edit(&mut self.host, key),
                    Field::Hostname => apply_edit(&mut self.hostname, key),
                    Field::Port => apply_edit(&mut self.port, key),
                    Field::User => apply_edit(&mut self.user, key),
                    Field::IdentityFile => {},
                    Field::ProxyJump => apply_edit(&mut self.proxy_jump, key),
                    Field::LocalForward => apply_edit(&mut self.local_forward, key),
                    Field::RemoteForward => apply_edit(&mut self.remote_forward, key),
                }
                assert(self.texts() =~= texts_edited(old(self).texts(), old(self).focused, key));
            },
            Key::Enter => {
                match self.step {
                    Step::Basic => {
                        if self.validate_basic() {
                            self.step = Step::Tunnel;
                            self.focused = Field::LocalForward;
                            self.error = None;
                        }
                    },
                    Step::Tunnel => {
                        let config = self.entry();
                        let editing = clone_opt(&self.editing);
                        return Outcome::Perform(Request::SaveHost { config, editing });
                    },
                }
            },
            _ => {},
        }
        Outcome::Stay
    }

    /// Continues saving once the entry was written: on success the menu
    /// opens; on failure the form shows `Failed to write: ` and the error.
    pub fn on_save_result(&mut self, result: Result<(), String>) -> (out: Outcome)
        ensures
            result is Ok ==> (out matches Outcome::Switch(Screen::Intro(i)) && i.selected == 0)
                && *final(self) == *old(self),
            result matches Err(e) ==> out is Stay && *final(self) == (ConfigureScreen {
                error: final(self).error,
                ..*old(self)
            }) && (final(self).error matches Some(m) && m@ == "Failed to write: "@ + e@),
    {
        match result {
            Ok(()) => Outcome::Switch(Screen::Intro(IntroScreen::new())),
            Err(e) => {
                let mut msg = String::from_str("Failed to write: ");
                msg.append(e.as_str());
                self.error = Some(msg);
                Outcome::Stay
            },
        }
    }
}

impl ConfigureScreen {
    /// The title of the form: whether it edits or adds a host, and which of
    /// its two steps is shown.
    pub fn title(&self) -> (t: &'static str)
        ensures
            t@ == match (self.editing is Some, self.step) {
                (true, Step::Basic) => " Edit Connection (1/2) "@,
                (false, Step::Basic) => " New Connection (1/2) "@,
                (true, Step::Tunnel) => " Edit Connection (2/2) - Tunnels "@,
                (false, Step::Tunnel) => " New Connection (2/2) - Tunnels "@,
            },
    {
        match self.step {
            Step::Basic => if self.editing.is_some() {
                " Edit Connection (1/2) "
            } else {
                " New Connection (1/2) "
            },
            Step::Tunnel => if self.editing.is_some() {
                " Edit Connection (2/2) - Tunnels "
            } else {
                " New Connection (2/2) - Tunnels "
            },
        }
    }
}

} // verus!
