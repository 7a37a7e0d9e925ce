//! Importing a host of `~/.ssh/known_hosts` that is not configured yet.
use vstd::prelude::*;

use super::intro_screen::IntroScreen;
use super::{Key, ListCursor, Outcome, Request, Screen};
use crate::text::string_views;

verus! {

/// The list of hosts that can be imported.
#[derive(Debug)]
pub struct ImportScreen {
    pub hosts: Vec<String>,
    pub list_state: ListCursor,
    /// Whether `hosts` was read.
    pub loaded: bool,
}

/// The hosts of `known` that are not in `existing`, in order.
pub open spec fn not_configured(known: Seq<Seq<char>>, existing: Seq<Seq<char>>) -> Seq<Seq<char>> {
    known.filter(|h: Seq<char>| !existing.contains(h))
}

impl ImportScreen {
    /// Whether this is the list as it opens.
    pub open spec fn is_fresh(&self) -> bool {
        self.hosts@.len() == 0 && self.list_state == ListCursor::at_top() && !self.loaded
    }

    /// Whether the selection is an item of the list.
    pub open spec fn selects_item(&self) -> bool {
        self.list_state.selected matches Some(s) && s < self.hosts@.len()
    }

    /// The list as it opens.
    pub fn new() -> (s: ImportScreen)
        ensures
            s.is_fresh(),
    {
        ImportScreen { hosts: Vec::new(), list_state: ListCursor::top(), loaded: false }
    }

    /// Whether the hosts still have to be read.
    pub fn needs_hosts(&self) -> (r: bool)
        ensures
            r == !self.loaded,
    {
        !self.loaded
    }

    /// Takes the hosts of known_hosts that are not among the addresses of
    /// the configured hosts, unless the list was already read.
    pub fn load_hosts(&mut self, known: Vec<String>, existing: Vec<String>)
        ensures
            old(self).loaded ==> *final(self) == *old(self),
            !old(self).loaded ==> final(self).loaded && final(self).list_state == old(self).list_state && string_views(final(self).hosts@) == not_configured(
                string_views(known@),
                string_views(existing@),
            ),
    {
        if self.loaded {
            return;
        }
        self.loaded = true;
        let ghost kv = string_views(known@);
        let ghost ev = string_views(existing@);
        let mut hosts: Vec<String> = Vec::new();
        let mut i: usize = 0;
        while i < known.len()
            invariant
                0 <= i <= known.len(),
                kv == string_views(known@),
                ev == string_views(existing@),
                string_views(hosts@) == not_configured(kv.take(i as int), ev),
            decreases known.len() - i,
        {
            let h = &known[i];
            let mut found = false;
            let mut j: usize = 0;
            while j < existing.len()
                invariant
                    0 <= j <= existing.len(),
                    ev == string_views(existing@),
                    found <==> exists|k: int| 0 <= k < j && ev[k] == h@,
                decreases existing.len() - j,
            {
                assert(ev[j as int] == existing@[j as int]@);
                if existing[j] == *h {
                    found = true;
                }
                j += 1;
            }
            assert(found <==> ev.contains(h@));
            assert(kv[i as int] == h@);
            assert(kv.take(i + 1) =~= kv.take(i as int).push(h@));
            let ghost before = hosts@;
            if !found {
                hosts.push(h.clone());
                assert(string_views(hosts@) =~= string_views(before).push(h@));
            } else {
                assert(string_views(hosts@) =~= string_views(before));
            }
            assert(kv.take(i as int).push(h@).filter(|x: Seq<char>| !ev.contains(x))
                =~= if !ev.contains(h@) {
                kv.take(i as int).filter(|x: Seq<char>| !ev.contains(x)).push(h@)
            } else {
                kv.take(i as int).filter(|x: Seq<char>| !ev.contains(x))
            }) by {
                reveal(Seq::filter);
                assert(kv.take(i as int).push(h@).drop_last() =~= kv.take(i as int));
            }
            i += 1;
        }
        assert(kv.take(known@.len() as int) =~= kv);
        self.hosts = hosts;
    }

    /// What `match_key` does: how the screen changes on `key` and what
    /// the key press leads to.
    pub open spec fn key_step(old_s: ImportScreen, new_s: ImportScreen, key: Key, out: Outcome) -> bool {
        &&& (new_s.hosts == old_s.hosts)
        &&& (new_s.loaded == old_s.loaded)
        &&& (key == Key::Up ==> out is Stay && new_s.list_state == (ListCursor {
                selected: Some(
                    match old_s.list_state.selected {
                        Some(i) => if i == 0 {
                            0usize
                        } else {
                            (i - 1) as usize
                        },
                        None => usize::MAX,
                    },
                ),
                offset: old_s.list_state.offset,
            }))
        &&& (key == Key::Down ==> out is Stay && new_s.list_state == (ListCursor {
                selected: Some(
                    match old_s.list_state.selected {
                        Some(i) => if i == usize::MAX {
                            i
                        } else {
                            (i + 1) as usize
                        },
                        None => 0usize,
                    },
                ),
                offset: old_s.list_state.offset,
            }))
        &&& (key != Key::Up && key != Key::Down ==> new_s.list_state == old_s.list_state)
        &&& (key == Key::Enter ==> if old_s.selects_item() {
                (out matches Outcome::Perform(Request::NewHostFor(h)) && h == old_s.hosts@[old_s.list_state.selected->0 as int])
            } else {
                out is Stay
            })
        &&& (key == Key::Esc ==> (out matches Outcome::Switch(Screen::Intro(i)) && i.selected == 0))
        &&& (key != Key::Up && key != Key::Down && key != Key::Enter && key != Key::Esc
                ==> out is Stay)
    }

    /// Handles a key: `Up`/`Down` move, `Enter` opens the form for the
    /// selected host and `Esc` goes back to the menu.
    pub fn match_key(&mut self, key: Key) -> (out: Outcome)
        ensures
            Self::key_step(*old(self), *final(self), key, out),
    {
        match key {
            Key::Up => {
                self.list_state.select_previous();
                Outcome::Stay
            },
            Key::Down => {
                self.list_state.select_next();
                Outcome::Stay
            },
            Key::Enter => {
                if let Some(selected) = self.list_state.selected {
                    if selected < self.hosts.len() {
                        return Outcome::Perform(Request::NewHostFor(self.hosts[selected].clone()));
                    }
                }
                Outcome::Stay
            },
            Key::Esc => Outcome::Switch(Screen::Intro(IntroScreen::new())),
            _ => Outcome::Stay,
        }
    }
}

} // verus!
