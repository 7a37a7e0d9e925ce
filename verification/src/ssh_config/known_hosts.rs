//! The `~/.ssh/known_hosts` format: listing the host names it records and
//! removing every line that records a given host.
use vstd::prelude::*;

use crate::text::{
    chars_of, first_word, lines_from, lemma_lines_of_terminated, lemma_lines_single,
    lemma_trim_drop_last_whitespace, lines, prefix_before, single_line, split_at_char,
    split_lines, split_on, string_views, strip_cr, strip_leading, take_until,
    take_until_whitespace, terminated, to_string, trim, trimmed, views, without_leading,
    write_terminated, chars_eq, is_whitespace,
};

verus! {

/// The host name that one comma-separated item of a host field denotes:
/// `name`, or `[name]:port` with the brackets and port removed.
pub open spec fn entry_host(item: Seq<char>) -> Seq<char> {
    take_until(strip_leading(item, '['), ']')
}

/// The host field of a line: its first white-space separated word.
pub open spec fn host_field(line: Seq<char>) -> Seq<char> {
    take_until_whitespace(trim(line))
}

/// The host names of the items of `items`, in order.
pub open spec fn entry_hosts(items: Seq<Seq<char>>) -> Seq<Seq<char>>
    decreases items.len(),
{
    if items.len() == 0 {
        Seq::empty()
    } else {
        seq![entry_host(items[0])] + entry_hosts(items.drop_first())
    }
}

/// The host names that the host field of a line denotes.
pub open spec fn field_hosts(line: Seq<char>) -> Seq<Seq<char>> {
    entry_hosts(split_on(host_field(line), ','))
}

/// Whether a line is an entry with plain host names: not blank, not a
/// comment (`#`) and not hashed (`|`).
pub open spec fn is_plain_entry(line: Seq<char>) -> bool {
    let t = trim(line);
    t.len() > 0 && t[0] != '#' && t[0] != '|'
}

/// The host names a line contributes to the listing.
pub open spec fn line_hosts(line: Seq<char>) -> Seq<Seq<char>> {
    if is_plain_entry(line) {
        field_hosts(line)
    } else {
        Seq::empty()
    }
}

/// `acc` followed by the non-empty names of `names` that it does not hold
/// yet, in order of first appearance.
pub open spec fn add_new(acc: Seq<Seq<char>>, names: Seq<Seq<char>>) -> Seq<Seq<char>>
    decreases names.len(),
{
    if names.len() == 0 {
        acc
    } else {
        let next = if names[0].len() > 0 && !acc.contains(names[0]) {
            acc.push(names[0])
        } else {
            acc
        };
        add_new(next, names.drop_first())
    }
}

/// `acc` followed by the new host names of the lines `ls`.
pub open spec fn collect_hosts(acc: Seq<Seq<char>>, ls: Seq<Seq<char>>) -> Seq<Seq<char>>
    decreases ls.len(),
{
    if ls.len() == 0 {
        acc
    } else {
        collect_hosts(add_new(acc, line_hosts(ls[0])), ls.drop_first())
    }
}

/// The host names and addresses a known_hosts text records in plain form,
/// each once, in order of first appearance.
pub open spec fn known_hosts(content: Seq<char>) -> Seq<Seq<char>> {
    collect_hosts(Seq::empty(), lines(content))
}

/// Whether a line records `host`: it is neither blank nor a comment and one
/// of the names in its host field is `host`.
pub open spec fn mentions_host(line: Seq<char>, host: Seq<char>) -> bool {
    let t = trim(line);
    t.len() > 0 && t[0] != '#' && field_hosts(line).contains(host)
}

/// The lines of `ls` that do not record `host`, in order.
pub open spec fn lines_without(ls: Seq<Seq<char>>, host: Seq<char>) -> Seq<Seq<char>>
    decreases ls.len(),
{
    if ls.len() == 0 {
        Seq::empty()
    } else {
        let rest = lines_without(ls.drop_first(), host);
        if mentions_host(ls[0], host) {
            rest
        } else {
            seq![ls[0]] + rest
        }
    }
}

/// A known_hosts text without the lines that record `host`: the remaining
/// lines joined by `\n`, with a final `\n`.
pub open spec fn without_host(content: Seq<char>, host: Seq<char>) -> Seq<char> {
    let kept = lines_without(lines(content), host);
    if kept.len() == 0 {
        seq!['\n']
    } else {
        terminated(kept)
    }
}

/// Whether no name occurs twice and none is empty.
pub open spec fn distinct_names(s: Seq<Seq<char>>) -> bool {
    &&& forall|i: int| 0 <= i < s.len() ==> #[trigger] s[i].len() > 0
    &&& forall|i: int, j: int| 0 <= i < j < s.len() ==> s[i] != s[j]
}

fn contains_name(v: &Vec<Vec<char>>, x: &Vec<char>) -> (r: bool)
    ensures
        r == views(v@).contains(x@),
{
    let mut i: usize = 0;
    while i < v.len()
        invariant
            0 <= i <= v.len(),
            forall|k: int| 0 <= k < i ==> views(v@)[k] != x@,
        decreases v.len() - i,
    {
        if chars_eq(&v[i], x) {
            assert(views(v@)[i as int] == x@);
            return true;
        }
        i += 1;
    }
    false
}

/// The host names the host field of `line` denotes.
fn field_host_names(line: &Vec<char>) -> (out: Vec<Vec<char>>)
    ensures
        views(out@) == field_hosts(line@),
{
    let t = trimmed(line);
    let field = first_word(&t);
    let items = split_at_char(&field, ',');
    let ghost all = views(items@);
    let mut out: Vec<Vec<char>> = Vec::new();
    let mut i: usize = 0;
    assert(all.skip(0) =~= all);
    assert(views(out@) + entry_hosts(all) =~= entry_hosts(all));
    while i < items.len()
        invariant
            0 <= i <= items.len(),
            all == views(items@),
            views(out@) + entry_hosts(all.skip(i as int)) == entry_hosts(all),
        decreases items.len() - i,
    {
        assert(all.skip(i as int).drop_first() =~= all.skip(i + 1));
        assert(all.skip(i as int)[0] == items@[i as int]@);
        let stripped = without_leading(&items[i], '[');
        let name = prefix_before(&stripped, ']');
        let ghost before = views(out@);
        out.push(name);
        assert(views(out@) =~= before.push(entry_host(items@[i as int]@)));
        assert(before + entry_hosts(all.skip(i as int)) =~= views(out@) + entry_hosts(
            all.skip(i + 1),
        ));
        i += 1;
    }
    assert(entry_hosts(all.skip(i as int)) =~= Seq::<Seq<char>>::empty());
    assert(views(out@) =~= entry_hosts(all));
    out
}

/// The names of `names` appended to `acc` as `add_new` does.
fn append_new(acc: &mut Vec<Vec<char>>, names: Vec<Vec<char>>)
    ensures
        views(final(acc)@) == add_new(views(old(acc)@), views(names@)),
{
    let ghost all = views(names@);
    let mut i: usize = 0;
    assert(all.skip(0) =~= all);
    while i < names.len()
        invariant
            0 <= i <= names.len(),
            all == views(names@),
            add_new(views(acc@), all.skip(i as int)) == add_new(views(old(acc)@), all),
        decreases names.len() - i,
    {
        assert(all.skip(i as int).drop_first() =~= all.skip(i + 1));
        assert(all.skip(i as int)[0] == names@[i as int]@);
        let name = &names[i];
        if name.len() > 0 && !contains_name(acc, name) {
            let ghost before = views(acc@);
            acc.push(name.clone());
            assert(views(acc@) =~= before.push(names@[i as int]@));
        }
        i += 1;
    }
    assert(all.skip(i as int) =~= Seq::<Seq<char>>::empty());
}

/// Adding new names keeps a list free of empty and repeated names.
proof fn lemma_add_new_distinct(acc: Seq<Seq<char>>, names: Seq<Seq<char>>)
    requires
        distinct_names(acc),
    ensures
        distinct_names(add_new(acc, names)),
    decreases names.len(),
{
    if names.len() > 0 {
        if names[0].len() > 0 && !acc.contains(names[0]) {
            let next = acc.push(names[0]);
            assert forall|i: int, j: int| 0 <= i < j < next.len() implies next[i] != next[j] by {
                if j == acc.len() {
                    assert(next[i] == acc[i]);
                }
            }
            lemma_add_new_distinct(next, names.drop_first());
        } else {
            lemma_add_new_distinct(acc, names.drop_first());
        }
    }
}

proof fn lemma_collect_distinct(acc: Seq<Seq<char>>, ls: Seq<Seq<char>>)
    requires
        distinct_names(acc),
    ensures
        distinct_names(collect_hosts(acc, ls)),
    decreases ls.len(),
{
    if ls.len() > 0 {
        lemma_add_new_distinct(acc, line_hosts(ls[0]));
        lemma_collect_distinct(add_new(acc, line_hosts(ls[0])), ls.drop_first());
    }
}

/// Lists the host names recorded in plain form in a known_hosts text: for
/// every line that is not blank, a comment or hashed, the comma-separated
/// items of its first word, with `[host]:port` reduced to `host`; empty
/// names dropped, each name once, in order of first appearance.
pub fn get_known_hosts(content: &str) -> (hosts: Vec<String>)
    ensures
        string_views(hosts@) == known_hosts(content@),
        distinct_names(string_views(hosts@)),
{
    let text = chars_of(content);
    let ls = split_lines(&text);
    let ghost all = views(ls@);
    let mut acc: Vec<Vec<char>> = Vec::new();
    let mut i: usize = 0;
    assert(all.skip(0) =~= all);
    assert(views(acc@) =~= Seq::<Seq<char>>::empty());
    while i < ls.len()
        invariant
            0 <= i <= ls.len(),
            all == views(ls@),
            all == lines(content@),
            collect_hosts(views(acc@), all.skip(i as int)) == known_hosts(content@),
        decreases ls.len() - i,
    {
        assert(all.skip(i as int).drop_first() =~= all.skip(i + 1));
        assert(all.skip(i as int)[0] == ls@[i as int]@);
        let line = &ls[i];
        let t = trimmed(line);
        if t.len() > 0 && t[0] != '#' && t[0] != '|' {
            let names = field_host_names(line);
            append_new(&mut acc, names);
        } else {
            assert(add_new(views(acc@), Seq::empty()) == views(acc@));
        }
        i += 1;
    }
    assert(all.skip(i as int) =~= Seq::<Seq<char>>::empty());
    proof {
        assert(distinct_names(Seq::<Seq<char>>::empty()));
        lemma_collect_distinct(Seq::empty(), lines(content@));
    }
    let mut hosts: Vec<String> = Vec::new();
    let mut k: usize = 0;
    while k < acc.len()
        invariant
            0 <= k <= acc.len(),
            string_views(hosts@) == views(acc@).take(k as int),
        decreases acc.len() - k,
    {
        let ghost before = string_views(hosts@);
        let name = to_string(&acc[k]);
        hosts.push(name);
        assert(string_views(hosts@) =~= before.push(acc@[k as int]@));
        assert(string_views(hosts@) =~= views(acc@).take(k + 1));
        k += 1;
    }
    assert(views(acc@).take(k as int) =~= views(acc@));
    hosts
}

fn mentions(line: &Vec<char>, host: &Vec<char>) -> (r: bool)
    ensures
        r == mentions_host(line@, host@),
{
    let t = trimmed(line);
    if t.len() == 0 || t[0] == '#' {
        return false;
    }
    let names = field_host_names(line);
    contains_name(&names, host)
}

/// Removes every line that records `hostname` from a known_hosts text:
/// blank lines and comments are kept, and a line is dropped when one of the
/// names in its host field (with `[host]:port` reduced to `host`) equals
/// `hostname`.  The kept lines are joined by `\n` with a final `\n`.
pub fn remove_known_host(content: &str, hostname: &str) -> (out: String)
    ensures
        out@ == without_host(content@, hostname@),
{
    let text = chars_of(content);
    let host = chars_of(hostname);
    let ls = split_lines(&text);
    let ghost all = views(ls@);
    let mut kept: Vec<Vec<char>> = Vec::new();
    let mut i: usize = 0;
    assert(all.skip(0) =~= all);
    assert(views(kept@) + lines_without(all, host@) =~= lines_without(all, host@));
    while i < ls.len()
        invariant
            0 <= i <= ls.len(),
            all == views(ls@),
            all == lines(content@),
            views(kept@) + lines_without(all.skip(i as int), host@) == lines_without(all, host@),
        decreases ls.len() - i,
    {
        assert(all.skip(i as int).drop_first() =~= all.skip(i + 1));
        assert(all.skip(i as int)[0] == ls@[i as int]@);
        if !mentions(&ls[i], &host) {
            let ghost before = views(kept@);
            kept.push(ls[i].clone());
            assert(views(kept@) =~= before.push(ls@[i as int]@));
            assert(before + lines_without(all.skip(i as int), host@) =~= views(kept@)
                + lines_without(all.skip(i + 1), host@));
        }
        i += 1;
    }
    assert(lines_without(all.skip(i as int), host@) =~= Seq::<Seq<char>>::empty());
    assert(views(kept@) =~= lines_without(all, host@));
    let mut out_chars = write_terminated(&kept);
    if kept.len() == 0 {
        out_chars.push('\n');
        assert(out_chars@ =~= seq!['\n']);
    }
    to_string(&out_chars)
}

proof fn lemma_add_new_excludes(acc: Seq<Seq<char>>, names: Seq<Seq<char>>, host: Seq<char>)
    requires
        !acc.contains(host),
        !names.contains(host),
    ensures
        !add_new(acc, names).contains(host),
    decreases names.len(),
{
    if names.len() > 0 {
        assert(names[0] != host);
        let next = if names[0].len() > 0 && !acc.contains(names[0]) {
            acc.push(names[0])
        } else {
            acc
        };
        assert(!next.contains(host)) by {
            if next.contains(host) {
                let k = choose|k: int| 0 <= k < next.len() && next[k] == host;
                if k < acc.len() {
                    assert(acc[k] == host);
                }
            }
        }
        assert(!names.drop_first().contains(host)) by {
            if names.drop_first().contains(host) {
                let k = choose|k: int|
                    0 <= k < names.drop_first().len() && names.drop_first()[k] == host;
                assert(names[k + 1] == host);
            }
        }
        lemma_add_new_excludes(next, names.drop_first(), host);
    }
}

proof fn lemma_collect_excludes(acc: Seq<Seq<char>>, ls: Seq<Seq<char>>, host: Seq<char>)
    requires
        !acc.contains(host),
        forall|i: int| 0 <= i < ls.len() ==> !(#[trigger] line_hosts(ls[i])).contains(host),
    ensures
        !collect_hosts(acc, ls).contains(host),
    decreases ls.len(),
{
    if ls.len() > 0 {
        assert(!line_hosts(ls[0]).contains(host));
        lemma_add_new_excludes(acc, line_hosts(ls[0]), host);
        assert forall|i: int| 0 <= i < ls.drop_first().len() implies !(#[trigger] line_hosts(
            ls.drop_first()[i],
        )).contains(host) by {
            assert(ls.drop_first()[i] == ls[i + 1]);
        }
        lemma_collect_excludes(add_new(acc, line_hosts(ls[0])), ls.drop_first(), host);
    }
}

/// Every line kept by `lines_without` is a line of the input that does not
/// record the host.
proof fn lemma_lines_without_members(ls: Seq<Seq<char>>, host: Seq<char>)
    ensures
        forall|i: int|
            0 <= i < lines_without(ls, host).len() ==> ({
                &&& !mentions_host(#[trigger] lines_without(ls, host)[i], host)
                &&& ls.contains(lines_without(ls, host)[i])
            }),
    decreases ls.len(),
{
    if ls.len() > 0 {
        let rest = ls.drop_first();
        lemma_lines_without_members(rest, host);
        assert forall|i: int| 0 <= i < lines_without(ls, host).len() implies {
            &&& !mentions_host(#[trigger] lines_without(ls, host)[i], host)
            &&& ls.contains(lines_without(ls, host)[i])
        } by {
            let kept = lines_without(ls, host);
            if mentions_host(ls[0], host) {
                let k = choose|k: int| 0 <= k < rest.len() && rest[k] == kept[i];
                assert(ls[k + 1] == kept[i]);
            } else if i == 0 {
                assert(kept[i] == ls[0]);
            } else {
                assert(kept[i] == lines_without(rest, host)[i - 1]);
                let k = choose|k: int| 0 <= k < rest.len() && rest[k] == kept[i];
                assert(ls[k + 1] == kept[i]);
            }
        }
    }
}

/// Removing a host from a known_hosts text and listing the result never
/// yields that host again.
pub proof fn lemma_removed_host_not_listed(content: Seq<char>, host: Seq<char>)
    ensures
        !known_hosts(without_host(content, host)).contains(host),
{
    let ls = lines(content);
    let kept = lines_without(ls, host);
    let out = without_host(content, host);
    lemma_lines_without_members(ls, host);
    assert(single_line(Seq::<char>::empty()));
    lemma_lines_single(Seq::empty(), content);
    if kept.len() == 0 {
        assert(out == seq!['\n']);
        assert(seq!['\n'].drop_first() =~= Seq::<char>::empty());
        assert(out[0] == '\n' && out.len() == 1);
        assert(lines_from(Seq::empty(), out.drop_first()) =~= Seq::<Seq<char>>::empty());
        assert(lines(out) =~= seq![strip_cr(Seq::<char>::empty())]);
        assert(trim(Seq::<char>::empty()) =~= Seq::<char>::empty());
        assert forall|i: int| 0 <= i < lines(out).len() implies !(#[trigger] line_hosts(
            lines(out)[i],
        )).contains(host) by {
            assert(lines(out)[i] =~= Seq::<char>::empty());
            assert(!is_plain_entry(lines(out)[i]));
        }
        lemma_collect_excludes(Seq::empty(), lines(out), host);
    } else {
        assert forall|i: int| 0 <= i < kept.len() implies single_line(#[trigger] kept[i]) by {
            let k = choose|k: int| 0 <= k < ls.len() && ls[k] == kept[i];
        }
        lemma_lines_of_terminated(kept);
        let outl = lines(out);
        assert forall|i: int| 0 <= i < outl.len() implies !(#[trigger] line_hosts(
            outl[i],
        )).contains(host) by {
            let l = kept[i];
            assert(outl[i] == strip_cr(l));
            assert(!mentions_host(l, host));
            if l.len() > 0 && l.last() == '\r' {
                assert(is_whitespace(l.last()));
                lemma_trim_drop_last_whitespace(l);
            }
            assert(trim(outl[i]) == trim(l));
            assert(line_hosts(outl[i]) == line_hosts(l));
            if is_plain_entry(l) {
                assert(!field_hosts(l).contains(host));
            } else {
                assert(line_hosts(l) =~= Seq::<Seq<char>>::empty());
            }
        }
        lemma_collect_excludes(Seq::empty(), outl, host);
    }
}

/// Every line of `ls` that does not record the host is kept.
proof fn lemma_lines_without_keeps_others(ls: Seq<Seq<char>>, host: Seq<char>)
    ensures
        forall|i: int|
            0 <= i < ls.len() && !mentions_host(#[trigger] ls[i], host) ==> lines_without(
                ls,
                host,
            ).contains(ls[i]),
    decreases ls.len(),
{
    if ls.len() > 0 {
        let rest = ls.drop_first();
        lemma_lines_without_keeps_others(rest, host);
        let kept = lines_without(ls, host);
        let tail = lines_without(rest, host);
        assert forall|i: int| 0 <= i < ls.len() && !mentions_host(#[trigger] ls[i], host) implies kept.contains(
            ls[i],
        ) by {
            if i == 0 {
                assert(kept[0] == ls[0]);
            } else {
                assert(ls[i] == rest[i - 1]);
                assert(tail.contains(rest[i - 1]));
                let j = choose|j: int| 0 <= j < tail.len() && tail[j] == rest[i - 1];
                if !mentions_host(ls[0], host) {
                    assert(kept =~= seq![ls[0]] + tail);
                    assert(kept[j + 1] == tail[j]);
                }
            }
        }
    }
}

/// Removing a host keeps every other line: each line that does not record
/// the host (comments and blank lines included) is read back, without a
/// `\r` before its line ending.
pub proof fn lemma_other_lines_kept(content: Seq<char>, host: Seq<char>)
    ensures
        forall|i: int|
            0 <= i < lines(content).len() && !mentions_host(#[trigger] lines(content)[i], host)
                ==> lines(without_host(content, host)).contains(strip_cr(lines(content)[i])),
{
    let ls = lines(content);
    let kept = lines_without(ls, host);
    lemma_lines_without_keeps_others(ls, host);
    lemma_lines_without_members(ls, host);
    assert(single_line(Seq::<char>::empty()));
    lemma_lines_single(Seq::empty(), content);
    assert forall|i: int| 0 <= i < kept.len() implies single_line(#[trigger] kept[i]) by {
        let k = choose|k: int| 0 <= k < ls.len() && ls[k] == kept[i];
    }
    lemma_lines_of_terminated(kept);
    let out = lines(without_host(content, host));
    assert forall|i: int| 0 <= i < ls.len() && !mentions_host(#[trigger] ls[i], host) implies out.contains(
        strip_cr(ls[i]),
    ) by {
        assert(kept.contains(ls[i]));
        let j = choose|j: int| 0 <= j < kept.len() && kept[j] == ls[i];
        assert(kept.len() > 0);
        assert(out[j] == strip_cr(kept[j]));
    }
}

/// Lines none of which records the host are all kept.
proof fn lemma_lines_without_keeps_all(ls: Seq<Seq<char>>, host: Seq<char>)
    requires
        forall|i: int| 0 <= i < ls.len() ==> !mentions_host(#[trigger] ls[i], host),
    ensures
        lines_without(ls, host) == ls,
    decreases ls.len(),
{
    if ls.len() > 0 {
        let rest = ls.drop_first();
        assert forall|i: int| 0 <= i < rest.len() implies !mentions_host(#[trigger] rest[i], host) by {
            assert(rest[i] == ls[i + 1]);
        }
        lemma_lines_without_keeps_all(rest, host);
        assert(!mentions_host(ls[0], host));
        assert(seq![ls[0]] + rest =~= ls);
    }
}

/// Whether no line of a text that is kept when `host` is removed ends with
/// a `\r` left after splitting (a line ending `\r\r\n`, or a last line
/// ending in `\r` without `\n`).
pub open spec fn no_stray_cr(content: Seq<char>, host: Seq<char>) -> bool {
    forall|i: int|
        0 <= i < lines(content).len() && !mentions_host(#[trigger] lines(content)[i], host) ==> !(
        lines(content)[i].len() > 0 && lines(content)[i].last() == '\r')
}

/// Removing a host twice gives what removing it once gave: the second
/// removal finds no line of the host and changes nothing.  This holds for
/// every text whose kept lines keep no `\r` of their own; on a kept line
/// that does, the first removal writes it back with its `\r`, which the
/// second reads as part of the line ending.
pub proof fn lemma_remove_twice_same(content: Seq<char>, host: Seq<char>)
    requires
        no_stray_cr(content, host),
    ensures
        without_host(without_host(content, host), host) == without_host(content, host),
{
    let ls = lines(content);
    let kept = lines_without(ls, host);
    let out = without_host(content, host);
    lemma_lines_without_members(ls, host);
    assert(single_line(Seq::<char>::empty()));
    lemma_lines_single(Seq::empty(), content);
    if kept.len() == 0 {
        assert(out == seq!['\n']);
        assert(seq!['\n'].drop_first() =~= Seq::<char>::empty());
        assert(lines_from(Seq::empty(), out.drop_first()) =~= Seq::<Seq<char>>::empty());
        assert(lines(out) =~= seq![strip_cr(Seq::<char>::empty())]);
        assert(lines(out) =~= seq![Seq::<char>::empty()]);
        assert(trim(Seq::<char>::empty()) =~= Seq::<char>::empty());
        assert(!mentions_host(lines(out)[0], host));
        lemma_lines_without_keeps_all(lines(out), host);
        assert(terminated(seq![Seq::<char>::empty()]) =~= seq!['\n']) by {
            let one = seq![Seq::<char>::empty()];
            assert(one.drop_first() =~= Seq::<Seq<char>>::empty());
            assert(terminated(one.drop_first()) == Seq::<char>::empty());
            assert(one[0] + seq!['\n'] + Seq::<char>::empty() =~= seq!['\n']);
        }
    } else {
        assert forall|i: int| 0 <= i < kept.len() implies single_line(#[trigger] kept[i]) by {
            let k = choose|k: int| 0 <= k < ls.len() && ls[k] == kept[i];
        }
        lemma_lines_of_terminated(kept);
        assert(lines(out) =~= kept) by {
            assert forall|i: int| 0 <= i < kept.len() implies strip_cr(#[trigger] kept[i]) == kept[i] by {
                let k = choose|k: int| 0 <= k < ls.len() && ls[k] == kept[i];
            }
        }
        assert forall|i: int| 0 <= i < kept.len() implies !mentions_host(#[trigger] kept[i], host) by {}
        lemma_lines_without_keeps_all(kept, host);
    }
}

} // verus!
