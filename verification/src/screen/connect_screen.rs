//! The list of configured hosts: filtering, selecting, connecting, editing,
//! deleting and probing reachability.
use vstd::prelude::*;

use super::intro_screen::IntroScreen;
use super::portforward_screen::PortForwardScreen;
use super::quick_command_screen::QuickCommandScreen;
use super::transfer_screen::TransferScreen;
use super::{Key, ListCursor, Outcome, Request, Screen};
use crate::history::{format_relative_time, relative_label};
use crate::ssh_config::config_reader::{config_views, AuthMethod, AuthView, ConfigView, SSHConfig};
use crate::text::{
    chars_of, contains_chars, contains_run, decimal, decimal_chars, lowercase, pop_char, push_char,
    to_lowercase, to_string,
};

verus! {

/// The connection list.
#[derive(Debug)]
pub struct ConnectScreen {
    /// The selection within the filtered list.
    pub list_state: ListCursor,
    pub connections: Vec<SSHConfig>,
    /// Whether `connections` was read from the configuration.
    pub loaded_connections: bool,
    /// Hosts probed so far and whether each answered.
    pub reachability: Vec<(String, bool)>,
    /// The index in `connections` awaiting confirmation of its deletion.
    pub confirm_delete: Option<usize>,
    pub filter: String,
    /// Whether keys are typed into the filter.
    pub filter_mode: bool,
}

/// The probe results by host: the host text and the result.
pub open spec fn reach_view(s: Seq<(String, bool)>) -> Seq<(Seq<char>, bool)> {
    s.map_values(|e: (String, bool)| (e.0@, e.1))
}

/// Whether no host has two recorded results.
pub open spec fn distinct_hosts(s: Seq<(Seq<char>, bool)>) -> bool {
    forall|i: int, j: int| 0 <= i < j < s.len() ==> (#[trigger] s[i]).0 != (#[trigger] s[j]).0
}

/// The first recorded result for `host`.
pub open spec fn reach_lookup(s: Seq<(Seq<char>, bool)>, host: Seq<char>) -> Option<bool>
    decreases s.len(),
{
    if s.len() == 0 {
        None
    } else if s[0].0 == host {
        Some(s[0].1)
    } else {
        reach_lookup(s.drop_first(), host)
    }
}

/// Whether an entry passes the filter: an empty filter passes everything;
/// otherwise the lower-cased filter must occur in the lower-cased alias or
/// address.
pub open spec fn matches_filter(c: ConfigView, filter: Seq<char>) -> bool {
    filter.len() == 0 || contains_run(lowercase(c.host), lowercase(filter)) || contains_run(
        lowercase(c.hostname),
        lowercase(filter),
    )
}

/// The indices among the first `n` entries that pass the filter, in order.
pub open spec fn filtered_upto(cs: Seq<ConfigView>, filter: Seq<char>, n: nat) -> Seq<usize>
    decreases n,
{
    if n == 0 {
        Seq::empty()
    } else {
        let r = filtered_upto(cs, filter, (n - 1) as nat);
        if matches_filter(cs[n - 1], filter) {
            r.push((n - 1) as usize)
        } else {
            r
        }
    }
}

/// The indices of the entries that pass the filter, in order.
pub open spec fn filtered_indices(cs: Seq<ConfigView>, filter: Seq<char>) -> Seq<usize> {
    filtered_upto(cs, filter, cs.len())
}

/// The first index whose entry has the alias `host` (the length when none
/// does).
pub open spec fn first_with_host(cs: Seq<ConfigView>, host: Seq<char>) -> nat
    decreases cs.len(),
{
    if cs.len() == 0 {
        0
    } else if cs[0].host == host {
        0
    } else {
        1 + first_with_host(cs.drop_first(), host)
    }
}

impl ConnectScreen {
    /// Whether this is the list as it opens: nothing loaded, selection on the
    /// first item, no filter, no pending deletion, no probe results.
    pub open spec fn is_fresh(&self) -> bool {
        &&& self.list_state == ListCursor::at_top()
        &&& self.connections@.len() == 0
        &&& !self.loaded_connections
        &&& self.reachability@.len() == 0
        &&& self.confirm_delete is None
        &&& self.filter@.len() == 0
        &&& !self.filter_mode
    }

    /// The entry at `i` of the filtered list, as an index into
    /// `connections`.
    pub open spec fn filtered_at(&self, i: int) -> usize {
        filtered_indices(config_views(self.connections@), self.filter@)[i]
    }

    /// The number of entries in the filtered list.
    pub open spec fn filtered_len(&self) -> nat {
        filtered_indices(config_views(self.connections@), self.filter@).len()
    }

    /// Whether the selection is an item of the filtered list.
    pub open spec fn selects_item(&self) -> bool {
        self.list_state.selected matches Some(s) && s < self.filtered_len()
    }

    /// The selected entry of the filtered list, as an index into
    /// `connections`.
    pub open spec fn selected_connection(&self) -> usize {
        self.filtered_at(self.list_state.selected->0 as int)
    }

    /// The list as it opens.
    pub fn new() -> (s: ConnectScreen)
        ensures
            s.is_fresh(),
    {
        ConnectScreen {
            list_state: ListCursor::top(),
            connections: Vec::new(),
            loaded_connections: false,
            reachability: Vec::new(),
            confirm_delete: None,
            filter: String::new(),
            filter_mode: false,
        }
    }

    /// Whether the entries still have to be read from the configuration.
    pub fn needs_connections(&self) -> (r: bool)
        ensures
            r == !self.loaded_connections,
    {
        !self.loaded_connections
    }

    /// Takes the entries read from the configuration, unless they were
    /// already loaded.
    pub fn load_connections(&mut self, entries: Vec<SSHConfig>)
        ensures
            old(self).loaded_connections ==> *final(self) == *old(self),
            !old(self).loaded_connections ==> final(self).connections == entries
                && final(self).loaded_connections && final(self).list_state == old(self).list_state && final(self).reachability == old(self).reachability && final(self).confirm_delete == old(self).confirm_delete && final(self).filter == old(self).filter
                && final(self).filter_mode == old(self).filter_mode,
    {
        if !self.loaded_connections {
            self.connections = entries;
            self.loaded_connections = true;
        }
    }

    /// The indices (into `connections`) of the entries that pass the filter,
    /// in order.
    pub fn filtered_connections(&self) -> (out: Vec<usize>)
        ensures
            out@ == filtered_indices(config_views(self.connections@), self.filter@),
            forall|k: int| 0 <= k < out@.len() ==> out@[k] < self.connections@.len(),
    {
        let ghost cs = config_views(self.connections@);
        let mut out: Vec<usize> = Vec::new();
        let lower_filter = to_lowercase(self.filter.as_str());
        let lf = chars_of(lower_filter.as_str());
        let empty = self.filter.as_str().is_empty();
        let mut i: usize = 0;
        while i < self.connections.len()
            invariant
                0 <= i <= self.connections.len(),
                cs == config_views(self.connections@),
                lf@ == lowercase(self.filter@),
                empty == (self.filter@.len() == 0),
                out@ == filtered_upto(cs, self.filter@, i as nat),
            decreases self.connections.len() - i,
        {
            let c = &self.connections[i];
            let keep = if empty {
                true
            } else {
                let lh = to_lowercase(c.host.as_str());
                let ln = to_lowercase(c.hostname.as_str());
                contains_chars(&chars_of(lh.as_str()), &lf) || contains_chars(
                    &chars_of(ln.as_str()),
                    &lf,
                )
            };
            assert(cs[i as int] == c@);
            if keep {
                out.push(i);
            }
            i += 1;
        }
        proof {
            lemma_filtered_below(cs, self.filter@, i as nat);
        }
        out
    }

    /// The first index whose entry has the alias `host`.
    fn position_of_host(&self, host: &String) -> (idx: usize)
        ensures
            idx == first_with_host(config_views(self.connections@), host@),
    {
        let ghost cs = config_views(self.connections@);
        let mut i: usize = 0;
        assert(cs.skip(0) =~= cs);
        while i < self.connections.len()
            invariant
                0 <= i <= self.connections.len(),
                cs == config_views(self.connections@),
                first_with_host(cs, host@) == i + first_with_host(cs.skip(i as int), host@),
            decreases self.connections.len() - i,
        {
            assert(cs.skip(i as int)[0] == self.connections@[i as int]@);
            if self.connections[i].host == *host {
                return i;
            }
            assert(cs.skip(i as int).drop_first() =~= cs.skip(i + 1));
            i += 1;
        }
        i
    }

    /// What `match_key` does when a deletion awaits confirmation.
    pub open spec fn confirming_step(old_s: ConnectScreen, new_s: ConnectScreen, key: Key, out: Outcome) -> bool {
        let idx = old_s.confirm_delete->0;
        if key == Key::Char('y') {
            if idx < old_s.connections@.len() {
                &&& out matches Outcome::Perform(Request::DeleteHost { host, index })
                &&& host == old_s.connections@[idx as int].host
                &&& index == idx
                &&& new_s == ConnectScreen { confirm_delete: None, ..old_s }
            } else {
                out is Stay && new_s == old_s
            }
        } else if key == Key::Char('n') || key == Key::Esc {
            out is Stay && new_s == ConnectScreen { confirm_delete: None, ..old_s }
        } else {
            out is Stay && new_s == old_s
        }
    }

    /// What `match_key` does while the filter is being typed.
    pub open spec fn filtering_step(old_s: ConnectScreen, new_s: ConnectScreen, key: Key, out: Outcome) -> bool {
        &&& out is Stay
        &&& new_s.connections == old_s.connections
        &&& new_s.loaded_connections == old_s.loaded_connections
        &&& new_s.reachability == old_s.reachability
        &&& new_s.confirm_delete == old_s.confirm_delete
        &&& match key {
            Key::Esc => !new_s.filter_mode && new_s.filter@.len() == 0
                && new_s.list_state.selected == Some(0usize)
                && new_s.list_state.offset == old_s.list_state.offset,
            Key::Backspace => new_s.filter_mode && new_s.filter@ == (if old_s.filter@.len() > 0 {
                old_s.filter@.drop_last()
            } else {
                old_s.filter@
            }) && new_s.list_state.selected == Some(0usize) && new_s.list_state.offset
                == old_s.list_state.offset,
            Key::Enter => !new_s.filter_mode && new_s.filter == old_s.filter && new_s.list_state
                == old_s.list_state,
            Key::Char(c) => new_s.filter_mode && new_s.filter@ == old_s.filter@.push(c)
                && new_s.list_state.selected == Some(0usize) && new_s.list_state.offset
                == old_s.list_state.offset,
            _ => new_s.filter_mode && new_s.filter == old_s.filter && new_s.list_state
                == old_s.list_state,
        }
    }

    /// What `match_key` does in the plain list.
    pub open spec fn browsing_step(old_s: ConnectScreen, new_s: ConnectScreen, key: Key, out: Outcome) -> bool {
        let sel = old_s.selected_connection();
        let conn = old_s.connections@[sel as int];
        match key {
            Key::Up => out is Stay && new_s == ConnectScreen {
                list_state: ListCursor {
                    selected: Some(
                        match old_s.list_state.selected {
                            Some(i) => if i == 0 {
                                0usize
                            } else {
                                (i - 1) as usize
                            },
                            None => usize::MAX,
                        },
                    ),
                    offset: old_s.list_state.offset,
                },
                ..old_s
            },
            Key::Down => out is Stay && new_s == ConnectScreen {
                list_state: ListCursor {
                    selected: Some(
                        match old_s.list_state.selected {
                            Some(i) => if i == usize::MAX {
                                i
                            } else {
                                (i + 1) as usize
                            },
                            None => 0usize,
                        },
                    ),
                    offset: old_s.list_state.offset,
                },
                ..old_s
            },
            Key::Char('/') => {
                &&& out is Stay
                &&& new_s.filter_mode
                &&& new_s.filter@.len() == 0
                &&& new_s.list_state.selected == Some(0usize)
                &&& new_s.list_state.offset == old_s.list_state.offset
                &&& new_s.connections == old_s.connections
                &&& new_s.loaded_connections == old_s.loaded_connections
                &&& new_s.reachability == old_s.reachability
                &&& new_s.confirm_delete == old_s.confirm_delete
            },
            Key::Char('t') => out matches Outcome::Perform(Request::TestReachability) && new_s
                == old_s,
            Key::Char('d') => out is Stay && if old_s.selects_item() {
                new_s == ConnectScreen {
                    confirm_delete: Some(
                        first_with_host(config_views(old_s.connections@), conn.host@) as usize,
                    ),
                    ..old_s
                }
            } else {
                new_s == old_s
            },
            Key::Char('e') => new_s == old_s && if old_s.selects_item() {
                out matches Outcome::Perform(Request::EditHost(c)) && c == conn
            } else {
                out is Stay
            },
            Key::Char('s') => new_s == old_s && if old_s.selects_item() {
                out matches Outcome::Switch(Screen::Transfer(t)) && t.is_fresh_for(conn)
            } else {
                out is Stay
            },
            Key::Char('r') => new_s == old_s && if old_s.selects_item() {
                out matches Outcome::Switch(Screen::QuickCommand(q)) && q.is_fresh_for(conn)
            } else {
                out is Stay
            },
            Key::Char('f') => new_s == old_s && if old_s.selects_item() {
                out matches Outcome::Switch(Screen::PortForward(p)) && p.is_fresh_for(conn)
            } else {
                out is Stay
            },
            Key::Enter => new_s == old_s && if old_s.selects_item() {
                out matches Outcome::Perform(Request::Ssh(c)) && c == conn
            } else {
                out is Stay
            },
            Key::Esc => new_s == old_s && (out matches Outcome::Switch(Screen::Intro(i))
                && i.selected == 0),
            _ => new_s == old_s && out is Stay,
        }
    }

    /// What `match_key` does: how the screen changes on `key` and what
    /// the key press leads to.
    pub open spec fn key_step(old_s: ConnectScreen, new_s: ConnectScreen, key: Key, out: Outcome) -> bool {
        &&& (old_s.confirm_delete is Some ==> Self::confirming_step(
                old_s,
                new_s,
                key,
                out,
            ))
        &&& (old_s.confirm_delete is None && old_s.filter_mode ==> Self::filtering_step(
                old_s,
                new_s,
                key,
                out,
            ))
        &&& (old_s.confirm_delete is None && !old_s.filter_mode ==> Self::browsing_step(
                old_s,
                new_s,
                key,
                out,
            ))
    }

    /// Handles a key.  While a deletion awaits confirmation, `y` asks for
    /// the deletion and `n`/`Esc` cancel it.  While filtering, characters and
    /// `Backspace` edit the filter (selecting the first item), `Enter` ends
    /// filtering and `Esc` clears the filter.  Otherwise `Up`/`Down` move,
    /// `/` starts a filter, `t` probes reachability, `d` asks to confirm
    /// deleting the selected host, `e` edits it, `s`, `r` and `f` open file
    /// transfer, a remote command and port forwarding for it, `Enter`
    /// connects to it and `Esc` goes back to the menu.
    pub fn match_key(&mut self, key: Key) -> (out: Outcome)
        ensures
            Self::key_step(*old(self), *final(self), key, out),
    {
        if let Some(idx) = self.confirm_delete {
            return match key {
                Key::Char('y') => {
                    if idx < self.connections.len() {
                        let host = self.connections[idx].host.clone();
                        self.confirm_delete = None;
                        Outcome::Perform(Request::DeleteHost { host, index: idx })
                    } else {
                        Outcome::Stay
                    }
                },
                Key::Char('n') | Key::Esc => {
                    self.confirm_delete = None;
                    Outcome::Stay
                },
                _ => Outcome::Stay,
            };
        }
        if self.filter_mode {
            match key {
                Key::Esc => {
                    self.filter_mode = false;
                    self.filter = String::new();
                    self.list_state.select(Some(0));
                },
                Key::Backspace => {
                    pop_char(&mut self.filter);
                    self.list_state.select(Some(0));
                },
                Key::Enter => {
                    self.filter_mode = false;
                },
                Key::Char(c) => {
                    push_char(&mut self.filter, c);
                    self.list_state.select(Some(0));
                },
                _ => {},
            }
            return Outcome::Stay;
        }
        match key {
            Key::Up => {
                self.list_state.select_previous();
                Outcome::Stay
            },
            Key::Down => {
                self.list_state.select_next();
                Outcome::Stay
            },
            Key::Char('/') => {
                self.filter_mode = true;
                self.filter = String::new();
                self.list_state.select(Some(0));
                Outcome::Stay
            },
            Key::Char('t') => Outcome::Perform(Request::TestReachability),
            Key::Char('d') => {
                let filtered = self.filtered_connections();
                if let Some(selected) = self.list_state.selected {
                    if selected < filtered.len() {
                        let host = self.connections[filtered[selected]].host.clone();
                        let idx = self.position_of_host(&host);
                        self.confirm_delete = Some(idx);
                    }
                }
                Outcome::Stay
            },
            Key::Char('e') | Key::Char('s') | Key::Char('r') | Key::Char('f') | Key::Enter => {
                let filtered = self.filtered_connections();
                if let Some(selected) = self.list_state.selected {
                    if selected < filtered.len() {
                        let connection = self.connections[filtered[selected]].clone();
                        return match key {
                            Key::Char('e') => Outcome::Perform(Request::EditHost(connection)),
                            Key::Char('s') => Outcome::Switch(
                                Screen::Transfer(TransferScreen::new(connection)),
                            ),
                            Key::Char('r') => Outcome::Switch(
                                Screen::QuickCommand(QuickCommandScreen::new(connection)),
                            ),
                            Key::Char('f') => Outcome::Switch(
                                Screen::PortForward(PortForwardScreen::new(connection)),
                            ),
                            _ => Outcome::Perform(Request::Ssh(connection)),
                        };
                    }
                }
                Outcome::Stay
            },
            Key::Esc => Outcome::Switch(Screen::Intro(IntroScreen::new())),
            _ => Outcome::Stay,
        }
    }

    /// Takes the list read back after deleting the entry at `index`: the
    /// selection is cleared when the list became empty and moved to the last
    /// item when it pointed past it.
    pub fn after_delete(&mut self, index: usize, reloaded: Vec<SSHConfig>)
        ensures
            final(self).connections == reloaded,
            final(self).loaded_connections,
            final(self).reachability == old(self).reachability,
            final(self).confirm_delete == old(self).confirm_delete,
            final(self).filter == old(self).filter,
            final(self).filter_mode == old(self).filter_mode,
            reloaded@.len() == 0 ==> final(self).list_state == (ListCursor {
                selected: None,
                offset: 0,
            }),
            reloaded@.len() > 0 && index >= reloaded@.len() ==> final(self).list_state
                == (ListCursor {
                selected: Some((reloaded@.len() - 1) as usize),
                offset: old(self).list_state.offset,
            }),
            reloaded@.len() > 0 && index < reloaded@.len() ==> final(self).list_state == old(self).list_state,
    {
        self.connections = reloaded;
        self.loaded_connections = true;
        if self.connections.len() == 0 {
            self.list_state.select(None);
        } else if index >= self.connections.len() {
            let last = self.connections.len() - 1;
            self.list_state.select(Some(last));
        }
    }

    /// The recorded probe result of `host`, if any.
    pub fn reachability_of(&self, host: &String) -> (r: Option<bool>)
        ensures
            r == reach_lookup(reach_view(self.reachability@), host@),
    {
        let ghost rv = reach_view(self.reachability@);
        let mut i: usize = 0;
        assert(rv.skip(0) =~= rv);
        while i < self.reachability.len()
            invariant
                0 <= i <= self.reachability.len(),
                rv == reach_view(self.reachability@),
                reach_lookup(rv, host@) == reach_lookup(rv.skip(i as int), host@),
            decreases self.reachability.len() - i,
        {
            assert(rv.skip(i as int)[0] == (self.reachability@[i as int].0@, self.reachability@[i as int].1));
            if self.reachability[i].0 == *host {
                return Some(self.reachability[i].1);
            }
            assert(rv.skip(i as int).drop_first() =~= rv.skip(i + 1));
            i += 1;
        }
        None
    }

    /// Records the probe result of `host`, replacing an earlier one.
    pub fn record_reachability(&mut self, host: String, reachable: bool)
        ensures
            reach_lookup(reach_view(final(self).reachability@), host@) == Some(reachable),
            distinct_hosts(reach_view(old(self).reachability@)) ==> distinct_hosts(
                reach_view(final(self).reachability@),
            ),
            forall|other: Seq<char>|
                other != host@ ==> reach_lookup(reach_view(final(self).reachability@), other)
                    == reach_lookup(reach_view(old(self).reachability@), other),
            final(self).connections == old(self).connections,
            final(self).list_state == old(self).list_state,
            final(self).confirm_delete == old(self).confirm_delete,
            final(self).filter == old(self).filter,
            final(self).filter_mode == old(self).filter_mode,
            final(self).loaded_connections == old(self).loaded_connections,
    {
        let ghost rv = reach_view(self.reachability@);
        let mut i: usize = 0;
        while i < self.reachability.len()
            invariant
                0 <= i <= self.reachability.len(),
                rv == reach_view(self.reachability@),
                forall|k: int| 0 <= k < i ==> rv[k].0 != host@,
            ensures
                0 <= i <= self.reachability.len(),
                forall|k: int| 0 <= k < i ==> rv[k].0 != host@,
                i < self.reachability.len() ==> rv[i as int].0 == host@,
            decreases self.reachability.len() - i,
        {
            assert(rv[i as int] == (self.reachability@[i as int].0@, self.reachability@[i as int].1));
            if self.reachability[i].0 == host {
                break;
            }
            i += 1;
        }
        let ghost h = host@;
        if i < self.reachability.len() {
            self.reachability.set(i, (host, reachable));
            proof {
                lemma_lookup_replace(rv, i as int, (h, reachable));
                assert(reach_view(self.reachability@) =~= rv.update(i as int, (h, reachable)));
                let nv = rv.update(i as int, (h, reachable));
                if distinct_hosts(rv) {
                    assert forall|a: int, b: int| 0 <= a < b < nv.len() implies (
                    #[trigger] nv[a]).0 != (#[trigger] nv[b]).0 by {
                        assert(nv[a].0 == rv[a].0 && nv[b].0 == rv[b].0);
                    }
                }
            }
        } else {
            self.reachability.push((host, reachable));
            proof {
                lemma_lookup_append(rv, (h, reachable));
                assert(reach_view(self.reachability@) =~= rv.push((h, reachable)));
            }
        }
    }

    /// The probes to run: for each entry, its address, its port (22 when
    /// none is set) and its alias.
    pub fn reachability_targets(&self) -> (out: Vec<(String, u16, String)>)
        ensures
            out@.len() == self.connections@.len(),
            forall|i: int|
                0 <= i < out@.len() ==> ({
                    let c = #[trigger] self.connections@[i];
                    &&& out@[i].0 == c.hostname
                    &&& out@[i].1 == match c.port {
                        Some(p) => p,
                        None => 22u16,
                    }
                    &&& out@[i].2 == c.host
                }),
    {
        let mut out: Vec<(String, u16, String)> = Vec::new();
        let mut i: usize = 0;
        while i < self.connections.len()
            invariant
                0 <= i <= self.connections.len(),
                out@.len() == i,
                forall|k: int|
                    0 <= k < i ==> ({
                        let c = #[trigger] self.connections@[k];
                        &&& out@[k].0 == c.hostname
                        &&& out@[k].1 == match c.port {
                            Some(p) => p,
                            None => 22u16,
                        }
                        &&& out@[k].2 == c.host
                    }),
            decreases self.connections.len() - i,
        {
            let c = &self.connections[i];
            let port = match c.port {
                Some(p) => p,
                None => 22,
            };
            out.push((c.hostname.clone(), port, c.host.clone()));
            i += 1;
        }
        out
    }
}

/// The indices kept among the first `n` entries are below `n`.
proof fn lemma_filtered_below(cs: Seq<ConfigView>, filter: Seq<char>, n: nat)
    requires
        n <= usize::MAX,
    ensures
        forall|k: int|
            0 <= k < filtered_upto(cs, filter, n).len() ==> filtered_upto(cs, filter, n)[k] < n,
    decreases n,
{
    if n > 0 {
        let r = filtered_upto(cs, filter, (n - 1) as nat);
        lemma_filtered_below(cs, filter, (n - 1) as nat);
        assert forall|k: int|
            0 <= k < filtered_upto(cs, filter, n).len() implies filtered_upto(cs, filter, n)[k]
            < n by {
            if k < r.len() {
                assert(filtered_upto(cs, filter, n)[k] == r[k]);
            }
        }
    }
}

/// Replacing the first result of a host (when no earlier entry has that
/// host) makes the lookup of that host give the new result and leaves every
/// other host's lookup unchanged.
proof fn lemma_lookup_replace(s: Seq<(Seq<char>, bool)>, i: int, e: (Seq<char>, bool))
    requires
        0 <= i < s.len(),
        s[i].0 == e.0,
        forall|k: int| 0 <= k < i ==> s[k].0 != e.0,
    ensures
        reach_lookup(s.update(i, e), e.0) == Some(e.1),
        forall|other: Seq<char>|
            other != e.0 ==> reach_lookup(s.update(i, e), other) == reach_lookup(s, other),
    decreases i,
{
    let u = s.update(i, e);
    if i == 0 {
        assert(u[0] == e);
        assert(u.drop_first() =~= s.drop_first());
        assert forall|other: Seq<char>| other != e.0 implies reach_lookup(u, other)
            == reach_lookup(s, other) by {
            assert(reach_lookup(u, other) == reach_lookup(u.drop_first(), other));
            assert(reach_lookup(s, other) == reach_lookup(s.drop_first(), other));
        }
    } else {
        let t = s.drop_first();
        assert forall|k: int| 0 <= k < i - 1 implies t[k].0 != e.0 by {
            assert(t[k] == s[k + 1]);
        }
        lemma_lookup_replace(t, i - 1, e);
        assert(u.drop_first() =~= t.update(i - 1, e));
        assert(u[0] == s[0]);
        assert(s[0].0 != e.0);
        assert(reach_lookup(u, e.0) == reach_lookup(t.update(i - 1, e), e.0));
        assert forall|other: Seq<char>| other != e.0 implies reach_lookup(u, other)
            == reach_lookup(s, other) by {
            if s[0].0 != other {
                assert(reach_lookup(u, other) == reach_lookup(t.update(i - 1, e), other));
                assert(reach_lookup(s, other) == reach_lookup(t, other));
            }
        }
    }
}

/// Appending the result of a host that has none yet makes its lookup give
/// it and leaves every other lookup unchanged.
proof fn lemma_lookup_append(s: Seq<(Seq<char>, bool)>, e: (Seq<char>, bool))
    requires
        forall|k: int| 0 <= k < s.len() ==> s[k].0 != e.0,
    ensures
        reach_lookup(s.push(e), e.0) == Some(e.1),
        forall|other: Seq<char>|
            other != e.0 ==> reach_lookup(s.push(e), other) == reach_lookup(s, other),
    decreases s.len(),
{
    let u = s.push(e);
    if s.len() == 0 {
        assert(u[0] == e);
        assert(u.drop_first() =~= Seq::<(Seq<char>, bool)>::empty());
        assert forall|other: Seq<char>| other != e.0 implies reach_lookup(u, other)
            == reach_lookup(s, other) by {
            assert(reach_lookup(u, other) == reach_lookup(u.drop_first(), other));
        }
    } else {
        let t = s.drop_first();
        assert forall|k: int| 0 <= k < t.len() implies t[k].0 != e.0 by {
            assert(t[k] == s[k + 1]);
        }
        lemma_lookup_append(t, e);
        assert(u.drop_first() =~= t.push(e));
        assert(u[0] == s[0]);
        assert(reach_lookup(u, e.0) == reach_lookup(t.push(e), e.0));
        assert forall|other: Seq<char>| other != e.0 implies reach_lookup(u, other)
            == reach_lookup(s, other) by {
            if s[0].0 != other {
                assert(reach_lookup(u, other) == reach_lookup(t.push(e), other));
                assert(reach_lookup(s, other) == reach_lookup(t, other));
            }
        }
    }
}

/// How a host authenticates, as listed: `key: <path>`, `password`, or
/// nothing.
pub open spec fn auth_text(auth: Option<AuthView>) -> Seq<char> {
    match auth {
        Some(AuthView::Key(p)) => "key: "@ + p,
        Some(AuthView::Password(_)) => "password"@,
        None => Seq::empty(),
    }
}

/// The details line of an entry: `  <user> | <address>:<port> | <auth>`,
/// an absent user or port written as nothing.
pub open spec fn details_text(c: ConfigView) -> Seq<char> {
    "  "@ + match c.username {
        Some(u) => u,
        None => Seq::empty(),
    } + " | "@ + c.hostname + ":"@ + match c.port {
        Some(p) => decimal(p as nat),
        None => Seq::empty(),
    } + " | "@ + auth_text(c.auth)
}

/// The last-connection line of an entry, from the seconds since the last
/// connection: `  last: <label>`, or `  last: never`.
pub open spec fn last_connection_text(elapsed_secs: Option<i64>) -> Seq<char> {
    "  last: "@ + match elapsed_secs {
        Some(e) => relative_label(e as int),
        None => "never"@,
    }
}

/// How a host authenticates, as listed.
pub fn auth_label(auth: &Option<AuthMethod>) -> (out: String)
    ensures
        out@ == auth_text(
            match *auth {
                Some(a) => Some(a@),
                None => None,
            },
        ),
{
    match auth {
        Some(AuthMethod::Key(p)) => {
            let mut out = String::from_str("key: ");
            out.append(p.as_str());
            out
        },
        Some(AuthMethod::Password(_)) => String::from_str("password"),
        None => String::new(),
    }
}

/// The details line of an entry.
pub fn details_line(c: &SSHConfig) -> (out: String)
    ensures
        out@ == details_text(c@),
{
    let mut out = String::from_str("  ");
    match &c.username {
        Some(u) => out.append(u.as_str()),
        None => {},
    }
    out.append(" | ");
    out.append(c.hostname.as_str());
    out.append(":");
    match c.port {
        Some(p) => {
            let digits = to_string(&decimal_chars(p as u64));
            out.append(digits.as_str());
        },
        None => {},
    }
    out.append(" | ");
    let auth = auth_label(&c.auth);
    out.append(auth.as_str());
    assert(out@ =~= details_text(c@));
    out
}

/// The last-connection line of an entry.
pub fn last_connection_line(elapsed_secs: Option<i64>) -> (out: String)
    ensures
        out@ == last_connection_text(elapsed_secs),
{
    let mut out = String::from_str("  last: ");
    match elapsed_secs {
        Some(e) => {
            let label = format_relative_time(e);
            out.append(label.as_str());
        },
        None => out.append("never"),
    }
    out
}

impl ConnectScreen {
    /// Whether the filter bar is shown: while typing or when a filter is
    /// set.
    pub fn shows_filter_bar(&self) -> (r: bool)
        ensures
            r == (self.filter_mode || self.filter@.len() > 0),
    {
        self.filter_mode || !self.filter.as_str().is_empty()
    }

    /// The filter bar: `Filter: <filter>`, with a block cursor while typing.
    pub fn filter_line(&self) -> (out: String)
        ensures
            out@ == "Filter: "@ + self.filter@ + if self.filter_mode {
                seq!['\u{2588}']
            } else {
                Seq::empty()
            },
    {
        let mut out = String::from_str("Filter: ");
        out.append(self.filter.as_str());
        if self.filter_mode {
            crate::text::push_char(&mut out, '\u{2588}');
        }
        assert(out@ =~= "Filter: "@ + self.filter@ + if self.filter_mode {
            seq!['\u{2588}']
        } else {
            Seq::empty()
        });
        out
    }

    /// The question asked while a deletion awaits confirmation:
    /// `Delete '<alias>'? y/n` (`?` for an index past the list).
    pub fn delete_prompt(&self) -> (out: Option<String>)
        ensures
            match self.confirm_delete {
                Some(i) => (out matches Some(m) && m@ == "Delete '"@ + (if i < self.connections@.len() {
                    self.connections@[i as int].host@
                } else {
                    "?"@
                }) + "'? y/n"@),
                None => out is None,
            },
    {
        match self.confirm_delete {
            Some(i) => {
                let mut m = String::from_str("Delete '");
                if i < self.connections.len() {
                    m.append(self.connections[i].host.as_str());
                } else {
                    m.append("?");
                }
                m.append("'? y/n");
                Some(m)
            },
            None => None,
        }
    }
}

/// The filtered list holds exactly the entries that pass the filter, in
/// their order, each once.
pub proof fn lemma_filter_exact(cs: Seq<ConfigView>, filter: Seq<char>)
    requires
        cs.len() <= usize::MAX,
    ensures
        forall|k: int|
            0 <= k < filtered_indices(cs, filter).len() ==> ({
                let i = #[trigger] filtered_indices(cs, filter)[k];
                i < cs.len() && matches_filter(cs[i as int], filter)
            }),
        forall|j: int|
            0 <= j < cs.len() && matches_filter(#[trigger] cs[j], filter) ==> filtered_indices(
                cs,
                filter,
            ).contains(j as usize),
        forall|a: int, b: int|
            0 <= a < b < filtered_indices(cs, filter).len() ==> #[trigger] filtered_indices(
                cs,
                filter,
            )[a] < #[trigger] filtered_indices(cs, filter)[b],
{
    lemma_filter_upto_exact(cs, filter, cs.len());
}

proof fn lemma_filter_upto_exact(cs: Seq<ConfigView>, filter: Seq<char>, n: nat)
    requires
        n <= cs.len(),
        cs.len() <= usize::MAX,
    ensures
        forall|k: int|
            0 <= k < filtered_upto(cs, filter, n).len() ==> ({
                let i = #[trigger] filtered_upto(cs, filter, n)[k];
                i < n && matches_filter(cs[i as int], filter)
            }),
        forall|j: int|
            0 <= j < n && matches_filter(#[trigger] cs[j], filter) ==> filtered_upto(
                cs,
                filter,
                n,
            ).contains(j as usize),
        forall|a: int, b: int|
            0 <= a < b < filtered_upto(cs, filter, n).len() ==> #[trigger] filtered_upto(
                cs,
                filter,
                n,
            )[a] < #[trigger] filtered_upto(cs, filter, n)[b],
    decreases n,
{
    if n > 0 {
        let m = (n - 1) as nat;
        let r = filtered_upto(cs, filter, m);
        let t = filtered_upto(cs, filter, n);
        lemma_filter_upto_exact(cs, filter, m);
        assert forall|k: int| 0 <= k < t.len() implies {
            let i = #[trigger] t[k];
            i < n && matches_filter(cs[i as int], filter)
        } by {
            if k < r.len() {
                assert(t[k] == r[k]);
            }
        }
        assert forall|j: int| 0 <= j < n && matches_filter(#[trigger] cs[j], filter) implies t.contains(
            j as usize,
        ) by {
            if j < m {
                assert(r.contains(j as usize));
                let w = choose|w: int| 0 <= w < r.len() && r[w] == j as usize;
                assert(t[w] == r[w]);
            } else {
                assert(t[r.len() as int] == j as usize);
            }
        }
        assert forall|a: int, b: int| 0 <= a < b < t.len() implies #[trigger] t[a] < #[trigger] t[b] by {
            if b < r.len() {
                assert(t[a] == r[a] && t[b] == r[b]);
            } else {
                assert(t[a] == r[a]);
            }
        }
    }
}

/// An entry is in the filtered list exactly when the filter is empty, or
/// its lower-cased alias or its lower-cased address contains the
/// lower-cased filter.
pub proof fn lemma_filter_by_alias_or_address(cs: Seq<ConfigView>, filter: Seq<char>)
    requires
        cs.len() <= usize::MAX,
    ensures
        forall|j: int|
            0 <= j < cs.len() ==> (filtered_indices(cs, filter).contains(j as usize) <==> (
            filter.len() == 0 || contains_run(lowercase((#[trigger] cs[j]).host), lowercase(filter))
                || contains_run(lowercase(cs[j].hostname), lowercase(filter)))),
{
    lemma_filter_exact(cs, filter);
    let f = filtered_indices(cs, filter);
    assert forall|j: int| 0 <= j < cs.len() implies (f.contains(j as usize) <==> (
    filter.len() == 0 || contains_run(lowercase((#[trigger] cs[j]).host), lowercase(filter))
        || contains_run(lowercase(cs[j].hostname), lowercase(filter)))) by {
        if f.contains(j as usize) {
            let k = choose|k: int| 0 <= k < f.len() && f[k] == j as usize;
            assert(f[k] < cs.len() && matches_filter(cs[f[k] as int], filter));
        }
    }
}

} // verus!
