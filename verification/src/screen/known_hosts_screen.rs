//! The hosts of `~/.ssh/known_hosts`: importing one into the configuration
//! or removing its lines.
use vstd::prelude::*;

use super::intro_screen::IntroScreen;
use super::{Key, ListCursor, Outcome, Request, Screen, StatusColor};
use crate::text::string_views;

verus! {

/// The known_hosts list.
#[derive(Debug)]
pub struct KnownHostsScreen {
    pub hosts: Vec<String>,
    /// The addresses of the configured hosts.
    pub existing: Vec<String>,
    pub list_state: ListCursor,
    /// Whether `hosts` and `existing` were read.
    pub loaded: bool,
    /// The index in `hosts` awaiting confirmation of its removal.
    pub confirm_delete: Option<usize>,
    pub status: Option<(String, StatusColor)>,
}

impl KnownHostsScreen {
    /// Whether this is the list as it opens: nothing read, the first item
    /// selected, nothing pending, no message.
    pub open spec fn is_fresh(&self) -> bool {
        &&& self.hosts@.len() == 0
        &&& self.existing@.len() == 0
        &&& self.list_state == ListCursor::at_top()
        &&& !self.loaded
        &&& self.confirm_delete is None
        &&& self.status is None
    }

    /// Whether `host` is the address of a configured host.
    pub open spec fn configured(&self, host: Seq<char>) -> bool {
        string_views(self.existing@).contains(host)
    }

    /// The list as it opens.
    pub fn new() -> (s: KnownHostsScreen)
        ensures
            s.is_fresh(),
    {
        KnownHostsScreen {
            hosts: Vec::new(),
            existing: Vec::new(),
            list_state: ListCursor::top(),
            loaded: false,
            confirm_delete: None,
            status: None,
        }
    }

    /// Whether the hosts still have to be read.
    pub fn needs_hosts(&self) -> (r: bool)
        ensures
            r == !self.loaded,
    {
        !self.loaded
    }

    /// Takes the hosts of known_hosts and the addresses of the configured
    /// hosts, unless they were already read.
    pub fn load_hosts(&mut self, known: Vec<String>, existing: Vec<String>)
        ensures
            old(self).loaded ==> *final(self) == *old(self),
            !old(self).loaded ==> *final(self) == (KnownHostsScreen {
                hosts: known,
                existing,
                loaded: true,
                ..*old(self)
            }),
    {
        if !self.loaded {
            self.loaded = true;
            self.hosts = known;
            self.existing = existing;
        }
    }

    /// Whether `host` is the address of a configured host.
    pub fn is_configured(&self, host: &String) -> (r: bool)
        ensures
            r == self.configured(host@),
    {
        let ghost ev = string_views(self.existing@);
        let mut i: usize = 0;
        while i < self.existing.len()
            invariant
                0 <= i <= self.existing.len(),
                ev == string_views(self.existing@),
                forall|k: int| 0 <= k < i ==> ev[k] != host@,
            decreases self.existing.len() - i,
        {
            if self.existing[i] == *host {
                assert(ev[i as int] == host@);
                return true;
            }
            i += 1;
        }
        false
    }

    /// What `match_key` does when a removal awaits confirmation.
    pub open spec fn confirming_step(
        old_s: KnownHostsScreen,
        new_s: KnownHostsScreen,
        key: Key,
        out: Outcome,
    ) -> bool {
        let idx = old_s.confirm_delete->0;
        if key == Key::Char('y') {
            &&& new_s == KnownHostsScreen { confirm_delete: None, ..old_s }
            &&& if idx < old_s.hosts@.len() {
                &&& out matches Outcome::Perform(Request::RemoveKnownHost { host, index })
                &&& host == old_s.hosts@[idx as int]
                &&& index == idx
            } else {
                out is Stay
            }
        } else if key == Key::Char('n') || key == Key::Esc {
            out is Stay && new_s == KnownHostsScreen { confirm_delete: None, status: None, ..old_s }
        } else {
            out is Stay && new_s == old_s
        }
    }

    /// What `match_key` does in the plain list.
    pub open spec fn browsing_step(
        old_s: KnownHostsScreen,
        new_s: KnownHostsScreen,
        key: Key,
        out: Outcome,
    ) -> bool {
        let sel = old_s.list_state.selected;
        let selects_item = sel matches Some(s) && s < old_s.hosts@.len();
        let host = old_s.hosts@[sel->0 as int];
        match key {
            Key::Up => out is Stay && new_s == KnownHostsScreen {
                list_state: ListCursor {
                    selected: Some(
                        match sel {
                            Some(i) => if i == 0 {
                                0usize
                            } else {
                                (i - 1) as usize
                            },
                            None => usize::MAX,
                        },
                    ),
                    offset: old_s.list_state.offset,
                },
                status: None,
                ..old_s
            },
            Key::Down => out is Stay && new_s == KnownHostsScreen {
                list_state: ListCursor {
                    selected: Some(
                        match sel {
                            Some(i) => if i == usize::MAX {
                                i
                            } else {
                                (i + 1) as usize
                            },
                            None => 0usize,
                        },
                    ),
                    offset: old_s.list_state.offset,
                },
                status: None,
                ..old_s
            },
            Key::Enter => if selects_item && !old_s.configured(host@) {
                new_s == old_s && (out matches Outcome::Perform(Request::NewHostFor(h)) && h == host)
            } else if selects_item {
                &&& out is Stay
                &&& new_s == KnownHostsScreen { status: new_s.status, ..old_s }
                &&& new_s.status matches Some((m, c))
                &&& m@ == "Already configured"@
                &&& c == StatusColor::Yellow
            } else {
                out is Stay && new_s == old_s
            },
            Key::Char('d') => out is Stay && if selects_item {
                new_s == KnownHostsScreen { confirm_delete: sel, status: None, ..old_s }
            } else {
                new_s == old_s
            },
            Key::Esc => new_s == old_s && (out matches Outcome::Switch(Screen::Intro(i))
                && i.selected == 0),
            _ => out is Stay && new_s == old_s,
        }
    }

    /// What `match_key` does: how the screen changes on `key` and what
    /// the key press leads to.
    pub open spec fn key_step(old_s: KnownHostsScreen, new_s: KnownHostsScreen, key: Key, out: Outcome) -> bool {
        &&& (old_s.confirm_delete is Some ==> Self::confirming_step(
                old_s,
                new_s,
                key,
                out,
            ))
        &&& (old_s.confirm_delete is None ==> Self::browsing_step(
                old_s,
                new_s,
                key,
                out,
            ))
    }

    /// Handles a key.  While a removal awaits confirmation, `y` asks for it
    /// and `n`/`Esc` cancel it.  Otherwise `Up`/`Down` move, `Enter` opens
    /// the form for the selected host unless it is configured already, `d`
    /// asks to confirm removing it and `Esc` goes back to the menu.
    pub fn match_key(&mut self, key: Key) -> (out: Outcome)
        ensures
            Self::key_step(*old(self), *final(self), key, out),
    {
        if let Some(idx) = self.confirm_delete {
            return match key {
                Key::Char('y') => {
                    self.confirm_delete = None;
                    if idx < self.hosts.len() {
                        let host = self.hosts[idx].clone();
                        Outcome::Perform(Request::RemoveKnownHost { host, index: idx })
                    } else {
                        Outcome::Stay
                    }
                },
                Key::Char('n') | Key::Esc => {
                    self.confirm_delete = None;
                    self.status = None;
                    Outcome::Stay
                },
                _ => Outcome::Stay,
            };
        }
        match key {
            Key::Up => {
                self.list_state.select_previous();
                self.status = None;
                Outcome::Stay
            },
            Key::Down => {
                self.list_state.select_next();
                self.status = None;
                Outcome::Stay
            },
            Key::Enter => {
                if let Some(selected) = self.list_state.selected {
                    if selected < self.hosts.len() {
                        if !self.is_configured(&self.hosts[selected]) {
                            let host = self.hosts[selected].clone();
                            return Outcome::Perform(Request::NewHostFor(host));
                        } else {
                            self.status = Some(
                                (String::from_str("Already configured"), StatusColor::Yellow),
                            );
                        }
                    }
                }
                Outcome::Stay
            },
            Key::Char('d') => {
                if let Some(selected) = self.list_state.selected {
                    if selected < self.hosts.len() {
                        self.confirm_delete = Some(selected);
                        self.status = None;
                    }
                }
                Outcome::Stay
            },
            Key::Esc => Outcome::Switch(Screen::Intro(IntroScreen::new())),
            _ => Outcome::Stay,
        }
    }

    /// Takes the outcome of removing `host` (at `index` in the list): on
    /// success the hosts and addresses read back, with the message
    /// `Removed '<host>'`; the selection is cleared when the list became
    /// empty and moved to the last item when it pointed past it.  On failure
    /// the message is `Error: ` and the error.
    pub fn after_remove(
        &mut self,
        host: &String,
        index: usize,
        result: Result<(Vec<String>, Vec<String>), String>,
    )
        ensures
            final(self).loaded == old(self).loaded,
            final(self).confirm_delete == old(self).confirm_delete,
            match result {
                Ok((hosts, existing)) => {
                    &&& final(self).hosts == hosts
                    &&& final(self).existing == existing
                    &&& final(self).status matches Some((m, c))
                    &&& m@ == "Removed '"@ + host@ + "'"@
                    &&& c == StatusColor::Green
                    &&& hosts@.len() == 0 ==> final(self).list_state == (ListCursor {
                        selected: None,
                        offset: 0,
                    })
                    &&& hosts@.len() > 0 && index >= hosts@.len() ==> final(self).list_state
                        == (ListCursor {
                        selected: Some((hosts@.len() - 1) as usize),
                        offset: old(self).list_state.offset,
                    })
                    &&& hosts@.len() > 0 && index < hosts@.len() ==> final(self).list_state
                        == old(self).list_state
                },
                Err(e) => {
                    &&& final(self).hosts == old(self).hosts
                    &&& final(self).existing == old(self).existing
                    &&& final(self).list_state == old(self).list_state
                    &&& final(self).status matches Some((m, c))
                    &&& m@ == "Error: "@ + e@
                    &&& c == StatusColor::Red
                },
            },
    {
        match result {
            Ok((hosts, existing)) => {
                let mut msg = String::from_str("Removed '");
                msg.append(host.as_str());
                msg.append("'");
                self.status = Some((msg, StatusColor::Green));
                self.hosts = hosts;
                self.existing = existing;
                if self.hosts.len() == 0 {
                    self.list_state.select(None);
                } else if index >= self.hosts.len() {
                    let last = self.hosts.len() - 1;
                    self.list_state.select(Some(last));
                }
            },
            Err(e) => {
                let mut msg = String::from_str("Error: ");
                msg.append(e.as_str());
                self.status = Some((msg, StatusColor::Red));
            },
        }
    }
}

impl KnownHostsScreen {
    /// The question asked while a removal awaits confirmation:
    /// `Remove '<host>'? y/n` (`?` for an index past the list).
    pub fn remove_prompt(&self) -> (out: Option<String>)
        ensures
            match self.confirm_delete {
                Some(i) => (out matches Some(m) && m@ == "Remove '"@ + (if i < self.hosts@.len() {
                    self.hosts@[i as int]@
                } else {
                    "?"@
                }) + "'? y/n"@),
                None => out is None,
            },
    {
        match self.confirm_delete {
            Some(i) => {
                let mut m = String::from_str("Remove '");
                if i < self.hosts.len() {
                    m.append(self.hosts[i].as_str());
                } else {
                    m.append("?");
                }
                m.append("'? y/n");
                Some(m)
            },
            None => None,
        }
    }
}

} // verus!
