//! The connection history: a bounded list of (host, time) records, the time
//! of the last connection to a host, and the "… ago" labels shown for it.
use vstd::prelude::*;

use crate::text::{decimal, decimal_chars, to_string};

verus! {

/// A point in time: whole seconds since the Unix epoch and the nanoseconds
/// after them (as `chrono`'s `timestamp` and `timestamp_subsec_nanos`).
#[derive(Debug, Clone, Copy, PartialEq, Eq, Structural)]
pub struct Timestamp {
    pub secs: i64,
    pub nanos: u32,
}

/// Whether `a` is not later than `b`.
pub open spec fn not_later(a: Timestamp, b: Timestamp) -> bool {
    a.secs < b.secs || (a.secs == b.secs && a.nanos <= b.nanos)
}

/// One successful connection.
#[derive(Debug)]
pub struct ConnectionRecord {
    pub host: String,
    pub timestamp: Timestamp,
}

/// How many records the history keeps.
pub const HISTORY_LIMIT: usize = 500;

/// The host and time of a record.
pub open spec fn record_view(r: ConnectionRecord) -> (Seq<char>, Timestamp) {
    (r.host@, r.timestamp)
}

/// The hosts and times of a list of records.
pub open spec fn history_view(rs: Seq<ConnectionRecord>) -> Seq<(Seq<char>, Timestamp)> {
    rs.map_values(|r: ConnectionRecord| record_view(r))
}

/// The last `n` items of `s` (all of them when there are no more than `n`).
pub open spec fn keep_last<A>(s: Seq<A>, n: nat) -> Seq<A> {
    if s.len() > n {
        s.skip(s.len() - n)
    } else {
        s
    }
}

/// std's `SystemTime::elapsed` on `UNIX_EPOCH`: the time from the epoch to
/// the system clock's present reading, as whole seconds and nanoseconds, or
/// `None` when the clock reads before the epoch (its error).  The
/// nanoseconds of a `Duration` stay below one second.  Which time it
/// returns is not stated.
#[verifier::external_body]
fn clock_since_epoch() -> (t: Option<(u64, u32)>)
    ensures
        t matches Some(p) ==> p.1 < 1_000_000_000,
{
    std::time::UNIX_EPOCH.elapsed().ok().map(|d| (d.as_secs(), d.subsec_nanos()))
}

/// Keeping the last `n` items (`n` at least 1) after appending one leaves
/// at most `n` items, the appended one last, and the items before it as
/// the last of the earlier items, in their order.
pub proof fn lemma_keep_last_bounded<A>(s: Seq<A>, x: A, n: nat)
    requires
        n >= 1,
    ensures
        keep_last(s.push(x), n).len() <= n,
        keep_last(s.push(x), n).last() == x,
        keep_last(s.push(x), n).drop_last() == keep_last(s, (n - 1) as nat),
{
    let t = s.push(x);
    let k = keep_last(t, n);
    if t.len() > n {
        assert(k.last() == t[t.len() - 1]);
        assert(k.drop_last() =~= keep_last(s, (n - 1) as nat));
    } else {
        assert(k.drop_last() =~= s);
    }
}

/// The history after a connection to `host` at time `at`: the record is
/// appended and, when more than `HISTORY_LIMIT` records result, only the
/// last `HISTORY_LIMIT` are kept.
pub fn record_connection(records: Vec<ConnectionRecord>, host: &str, at: Timestamp) -> (out: Vec<
    ConnectionRecord,
>)
    ensures
        history_view(out@) == keep_last(
            history_view(records@).push((host@, at)),
            HISTORY_LIMIT as nat,
        ),
        out@.len() <= HISTORY_LIMIT,
        history_view(out@).last() == (host@, at),
{
    proof {
        lemma_keep_last_bounded(history_view(records@), (host@, at), HISTORY_LIMIT as nat);
    }
    let mut records = records;
    let ghost before = history_view(records@);
    records.push(ConnectionRecord { host: host.to_owned(), timestamp: at });
    assert(history_view(records@) =~= before.push((host@, at)));
    if records.len() > HISTORY_LIMIT {
        let at_index = records.len() - HISTORY_LIMIT;
        let ghost all = records@;
        let tail = records.split_off(at_index);
        assert(history_view(tail@) =~= history_view(all).skip(all.len() - HISTORY_LIMIT));
        tail
    } else {
        records
    }
}

/// The history after logging a connection to `host` with the clock
/// reading `reading` (seconds and nanoseconds since the epoch): the record
/// at that time is added as `record_connection` adds it; without a reading,
/// or with seconds that do not fit an `i64`, the history is unchanged.
pub open spec fn logged(
    rs: Seq<(Seq<char>, Timestamp)>,
    host: Seq<char>,
    reading: Option<(u64, u32)>,
) -> Seq<(Seq<char>, Timestamp)> {
    match reading {
        Some((s, n)) => if s <= i64::MAX {
            keep_last(rs.push((host, Timestamp { secs: s as i64, nanos: n })), HISTORY_LIMIT as nat)
        } else {
            rs
        },
        None => rs,
    }
}

/// Logs a connection to `host` with the clock reading `reading`.
pub fn log_connection_at(records: Vec<ConnectionRecord>, host: &str, reading: Option<(u64, u32)>) -> (out: Vec<ConnectionRecord>)
    ensures
        history_view(out@) == logged(history_view(records@), host@, reading),
{
    match reading {
        Some((secs, nanos)) => if secs <= i64::MAX as u64 {
            record_connection(records, host, Timestamp { secs: secs as i64, nanos })
        } else {
            records
        },
        None => records,
    }
}

/// Logs a connection to `host` now: `log_connection_at` with the reading
/// of the system clock.
pub fn log_connection(records: Vec<ConnectionRecord>, host: &str) -> (out: Vec<ConnectionRecord>)
    ensures
        exists|r: Option<(u64, u32)>|
            (r matches Some(p) ==> p.1 < 1_000_000_000) && history_view(out@) == logged(
                history_view(records@),
                host@,
                r,
            ),
{
    let reading = clock_since_epoch();
    log_connection_at(records, host, reading)
}

/// The latest time among the records of `host`, or `None` when there is no
/// such record.
pub open spec fn latest(rs: Seq<(Seq<char>, Timestamp)>, host: Seq<char>) -> Option<Timestamp>
    decreases rs.len(),
{
    if rs.len() == 0 {
        None
    } else {
        let earlier = latest(rs.drop_last(), host);
        let r = rs.last();
        if r.0 == host {
            match earlier {
                Some(t) => if not_later(t, r.1) {
                    Some(r.1)
                } else {
                    Some(t)
                },
                None => Some(r.1),
            }
        } else {
            earlier
        }
    }
}

/// The time of the last connection to `host`: the latest timestamp among its
/// records, or `None` when it was never connected to.
pub fn get_last_connection(records: &Vec<ConnectionRecord>, host: &str) -> (last: Option<Timestamp>)
    ensures
        last == latest(history_view(records@), host@),
{
    let ghost all = history_view(records@);
    let target = host.to_owned();
    let mut best: Option<Timestamp> = None;
    let mut i: usize = 0;
    while i < records.len()
        invariant
            0 <= i <= records.len(),
            target@ == host@,
            all == history_view(records@),
            best == latest(all.take(i as int), host@),
        decreases records.len() - i,
    {
        assert(all.take(i + 1).drop_last() =~= all.take(i as int));
        assert(all.take(i + 1).last() == record_view(records@[i as int]));
        let r = &records[i];
        if r.host == target {
            let t = r.timestamp;
            best = match best {
                Some(b) => if b.secs < t.secs || (b.secs == t.secs && b.nanos <= t.nanos) {
                    Some(t)
                } else {
                    Some(b)
                },
                None => Some(t),
            };
        }
        i += 1;
    }
    assert(all.take(i as int) =~= all);
    best
}

/// The latest time of a host's records is the time of one of them and no
/// record of the host is later.
pub proof fn lemma_latest_is_maximum(rs: Seq<(Seq<char>, Timestamp)>, host: Seq<char>)
    ensures
        latest(rs, host) is None <==> (forall|i: int| 0 <= i < rs.len() ==> (#[trigger] rs[i]).0
            != host),
        latest(rs, host) matches Some(t) ==> ({
            &&& exists|i: int| 0 <= i < rs.len() && (#[trigger] rs[i]).0 == host && rs[i].1 == t
            &&& forall|i: int| 0 <= i < rs.len() && (#[trigger] rs[i]).0 == host ==> not_later(
                rs[i].1,
                t,
            )
        }),
    decreases rs.len(),
{
    if rs.len() > 0 {
        let init = rs.drop_last();
        lemma_latest_is_maximum(init, host);
        assert forall|i: int| 0 <= i < init.len() implies #[trigger] init[i] == rs[i] by {}
        let r = rs.last();
        if r.0 == host {
            assert(rs[rs.len() - 1] == r);
        }
        if latest(init, host) is None && r.0 != host {
            assert forall|i: int| 0 <= i < rs.len() implies (#[trigger] rs[i]).0 != host by {
                if i < init.len() {
                    assert(init[i] == rs[i]);
                }
            }
        }
        if let Some(t) = latest(init, host) {
            let k = choose|k: int| 0 <= k < init.len() && (#[trigger] init[k]).0 == host
                && init[k].1 == t;
            assert(rs[k] == init[k]);
        }
        if let Some(t) = latest(rs, host) {
            assert forall|i: int| 0 <= i < rs.len() && (#[trigger] rs[i]).0 == host implies not_later(
                rs[i].1,
                t,
            ) by {
                if i < init.len() {
                    assert(init[i] == rs[i]);
                }
            }
        }
    }
}

/// The label for a time `elapsed_secs` seconds ago: `just now` under a
/// minute, then whole minutes (`5m ago`) under an hour, whole hours
/// (`3h ago`) under a day, and whole days (`2d ago`) beyond.  A time in the
/// future reads `just now`.
pub open spec fn relative_label(elapsed_secs: int) -> Seq<char> {
    if elapsed_secs < 60 {
        "just now"@
    } else if elapsed_secs < 3600 {
        decimal((elapsed_secs / 60) as nat) + "m ago"@
    } else if elapsed_secs < 86400 {
        decimal((elapsed_secs / 3600) as nat) + "h ago"@
    } else {
        decimal((elapsed_secs / 86400) as nat) + "d ago"@
    }
}

/// Formats how long ago something happened, from the whole seconds elapsed
/// since then (as `chrono`'s `num_seconds` of the difference).
pub fn format_relative_time(elapsed_secs: i64) -> (label: String)
    ensures
        label@ == relative_label(elapsed_secs as int),
{
    let minutes = elapsed_secs / 60;
    if minutes < 1 {
        String::from_str("just now")
    } else if minutes < 60 {
        let mut out = to_string(&decimal_chars(minutes as u64));
        out.append("m ago");
        out
    } else {
        let hours = elapsed_secs / 3600;
        if hours < 24 {
            let mut out = to_string(&decimal_chars(hours as u64));
            out.append("h ago");
            out
        } else {
            let days = elapsed_secs / 86400;
            let mut out = to_string(&decimal_chars(days as u64));
            out.append("d ago");
            out
        }
    }
}

} // verus!
