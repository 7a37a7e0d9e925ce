//! The screens of the interface and what they share: the keys they react
//! to, the list cursor, and the outcome of a key press (stay, switch screen,
//! or ask the caller for outside work such as writing a file).
use vstd::prelude::*;

use crate::ssh_config::config_reader::SSHConfig;
use crate::text::{pop_char, push_char};

pub mod command_output_screen;
pub mod configure_screen;
pub mod connect_screen;
pub mod import_screen;
pub mod intro_screen;
pub mod keygen_screen;
pub mod known_hosts_screen;
pub mod portforward_screen;
pub mod quick_command_screen;
pub mod transfer_screen;
pub mod upload_screen;

use command_output_screen::CommandOutputScreen;
use configure_screen::ConfigureScreen;
use connect_screen::ConnectScreen;
use import_screen::ImportScreen;
use intro_screen::IntroScreen;
use keygen_screen::{KeygenRequest, KeygenScreen};
use known_hosts_screen::KnownHostsScreen;
use portforward_screen::{PortForwardRequest, PortForwardScreen};
use quick_command_screen::{QuickCommandRequest, QuickCommandScreen};
use transfer_screen::{TransferRequest, TransferScreen};
use upload_screen::{UploadRequest, UploadScreen};

verus! {

/// Width of a screen, in percent of the terminal.
pub const SCREEN_WIDTH_PERCENTAGE: u16 = 90;

/// Height of a screen, in percent of the terminal.
pub const SCREEN_HEIGHT_PERCENTAGE: u16 = 95;

/// A key press, as the screens distinguish them.
#[derive(Debug, Clone, Copy, PartialEq, Eq, Structural)]
pub enum Key {
    Char(char),
    Enter,
    Esc,
    Tab,
    BackTab,
    Up,
    Down,
    Left,
    Right,
    Backspace,
    /// Any other key.
    Other,
}

/// The text of a field after an editing key: `Backspace` removes the last
/// character (if any), a character key appends it; other keys change
/// nothing.
pub open spec fn edited(s: Seq<char>, key: Key) -> Seq<char> {
    match key {
        Key::Backspace => if s.len() > 0 {
            s.drop_last()
        } else {
            s
        },
        Key::Char(c) => s.push(c),
        _ => s,
    }
}

/// Applies an editing key to a text field.
pub fn apply_edit(field: &mut String, key: Key)
    ensures
        final(field)@ == edited(old(field)@, key),
{
    match key {
        Key::Backspace => {
            pop_char(field);
        },
        Key::Char(c) => push_char(field, c),
        _ => {},
    }
}

/// `f` applied `n` times to `x`.
pub open spec fn iterate<A>(f: spec_fn(A) -> A, n: nat, x: A) -> A
    decreases n,
{
    if n == 0 {
        x
    } else {
        iterate(f, (n - 1) as nat, f(x))
    }
}

/// The colour of a status message.
#[derive(Debug, Clone, Copy, PartialEq, Eq, Structural)]
pub enum StatusColor {
    Green,
    Red,
    Yellow,
}

// ---------------------------------------------------------------------------
// List cursor
// ---------------------------------------------------------------------------

/// The selection of a list, as `ratatui`'s `ListState` keeps it: the
/// selected index (which may lie past the end until the list is drawn) and
/// the index of the first item shown.
#[derive(Debug, Clone, Copy, PartialEq, Eq, Structural)]
pub struct ListCursor {
    pub selected: Option<usize>,
    pub offset: usize,
}

/// `ratatui`'s `ListState::default().with_selected(selected)`: the given
/// selection and offset 0.
#[verifier::external_body]
fn list_state_with_selected(selected: Option<usize>) -> (r: (Option<usize>, usize))
    ensures
        r == (selected, 0usize),
{
    let state = ratatui::widgets::ListState::default().with_selected(selected);
    (state.selected(), state.offset())
}

/// `ratatui`'s `ListState::select_next`: the index after the selected one
/// (saturating), or 0 when nothing is selected; the offset is kept.
#[verifier::external_body]
fn list_state_select_next(selected: Option<usize>, offset: usize) -> (r: (Option<usize>, usize))
    ensures
        r.0 == Some(
            match selected {
                Some(i) => if i == usize::MAX {
                    i
                } else {
                    (i + 1) as usize
                },
                None => 0usize,
            },
        ),
        r.1 == offset,
{
    let mut state = ratatui::widgets::ListState::default().with_selected(selected).with_offset(
        offset,
    );
    state.select_next();
    (state.selected(), state.offset())
}

/// `ratatui`'s `ListState::select_previous`: the index before the selected
/// one (saturating at 0), or `usize::MAX` (the last item, once drawn) when
/// nothing is selected; the offset is kept.
#[verifier::external_body]
fn list_state_select_previous(selected: Option<usize>, offset: usize) -> (r: (
    Option<usize>,
    usize,
))
    ensures
        r.0 == Some(
            match selected {
                Some(i) => if i == 0 {
                    0usize
                } else {
                    (i - 1) as usize
                },
                None => usize::MAX,
            },
        ),
        r.1 == offset,
{
    let mut state = ratatui::widgets::ListState::default().with_selected(selected).with_offset(
        offset,
    );
    state.select_previous();
    (state.selected(), state.offset())
}

/// `ratatui`'s `ListState::select`: the given selection; clearing the
/// selection also resets the offset to 0.
#[verifier::external_body]
fn list_state_select(selected: Option<usize>, offset: usize, index: Option<usize>) -> (r: (
    Option<usize>,
    usize,
))
    ensures
        r.0 == index,
        r.1 == if index is None {
            0usize
        } else {
            offset
        },
{
    let mut state = ratatui::widgets::ListState::default().with_selected(selected).with_offset(
        offset,
    );
    state.select(index);
    (state.selected(), state.offset())
}

impl ListCursor {
    /// The cursor of a freshly opened list: the first item selected.
    pub open spec fn at_top() -> ListCursor {
        ListCursor { selected: Some(0), offset: 0 }
    }

    /// A cursor on the first item.
    pub fn top() -> (c: ListCursor)
        ensures
            c == ListCursor::at_top(),
    {
        let (selected, offset) = list_state_with_selected(Some(0));
        ListCursor { selected, offset }
    }

    /// Moves the selection down by one.
    pub fn select_next(&mut self)
        ensures
            final(self).offset == old(self).offset,
            final(self).selected == Some(
                match old(self).selected {
                    Some(i) => if i == usize::MAX {
                        i
                    } else {
                        (i + 1) as usize
                    },
                    None => 0usize,
                },
            ),
    {
        let (selected, offset) = list_state_select_next(self.selected, self.offset);
        self.selected = selected;
        self.offset = offset;
    }

    /// Moves the selection up by one.
    pub fn select_previous(&mut self)
        ensures
            final(self).offset == old(self).offset,
            final(self).selected == Some(
                match old(self).selected {
                    Some(i) => if i == 0 {
                        0usize
                    } else {
                        (i - 1) as usize
                    },
                    None => usize::MAX,
                },
            ),
    {
        let (selected, offset) = list_state_select_previous(self.selected, self.offset);
        self.selected = selected;
        self.offset = offset;
    }

    /// Selects `index`; clearing the selection resets the offset.
    pub fn select(&mut self, index: Option<usize>)
        ensures
            final(self).selected == index,
            final(self).offset == if index is None {
                0usize
            } else {
                old(self).offset
            },
    {
        let (selected, offset) = list_state_select(self.selected, self.offset, index);
        self.selected = selected;
        self.offset = offset;
    }

    /// Records the selection and offset that drawing the list settled on.
    pub fn set_drawn(&mut self, selected: Option<usize>, offset: usize)
        ensures
            final(self).selected == selected,
            final(self).offset == offset,
    {
        self.selected = selected;
        self.offset = offset;
    }
}

// ---------------------------------------------------------------------------
// Screens and outcomes
// ---------------------------------------------------------------------------

/// The screen shown, or the external command about to run.
#[derive(Debug)]
pub enum Screen {
    Intro(IntroScreen),
    Connect(ConnectScreen),
    Configure(ConfigureScreen),
    Upload(UploadScreen),
    UploadExecute(UploadRequest),
    Keygen(KeygenScreen),
    KeygenExecute(KeygenRequest),
    KnownHosts(KnownHostsScreen),
    PortForward(PortForwardScreen),
    PortForwardExecute(PortForwardRequest),
    Transfer(TransferScreen),
    TransferExecute(TransferRequest),
    Import(ImportScreen),
    QuickCommand(QuickCommandScreen),
    QuickCommandExecute(QuickCommandRequest),
    CommandOutput(CommandOutputScreen),
}

/// Work outside the screens that a key press asks for; the caller performs
/// it and reports back where the screen needs the result.
#[derive(Debug)]
pub enum Request {
    /// Open the form for a new host (it lists the private keys in `~/.ssh`).
    NewHost,
    /// Open the form for a new host with this address.
    NewHostFor(String),
    /// Open the form to edit this host.
    EditHost(SSHConfig),
    /// Open the key upload form (it lists the public keys in `~/.ssh`).
    UploadKey,
    /// Check whether a key file exists before generating a key into it.
    CheckKeyFile(String),
    /// Write a host entry: append it, or replace the block of `editing`.
    SaveHost { config: SSHConfig, editing: Option<String> },
    /// Remove the block of `host` from the configuration and reload the
    /// list; `index` is its position in the list.
    DeleteHost { host: String, index: usize },
    /// Remove the lines of `host` from known_hosts and reload the list;
    /// `index` is its position in the list.
    RemoveKnownHost { host: String, index: usize },
    /// Probe whether each host accepts TCP connections.
    TestReachability,
    /// Open an SSH session to this host.
    Ssh(SSHConfig),
}

/// What a key press leads to.
#[derive(Debug)]
pub enum Outcome {
    /// The screen stays (its state may have changed).
    Stay,
    /// Another screen replaces it.
    Switch(Screen),
    /// Outside work is needed.
    Perform(Request),
}

} // verus!
