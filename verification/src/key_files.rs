//! Which files of `~/.ssh` are offered as keys: private keys (files with a
//! `.pub` companion, other than the files OpenSSH keeps there) and public
//! keys, each as a `~/.ssh/<name>` path, in sorted order.
use vstd::prelude::*;

use crate::text::{chars_eq, chars_of, string_views};

verus! {

broadcast use vstd::seq_lib::to_multiset_insert, vstd::seq_lib::to_multiset_build;

/// Code-point order of two texts, the order of `String`'s `Ord`: a proper
/// prefix comes first, otherwise the first differing character decides.
pub open spec fn lex_le(a: Seq<char>, b: Seq<char>) -> bool
    decreases a.len(),
{
    if a.len() == 0 {
        true
    } else if b.len() == 0 {
        false
    } else if (a[0] as int) < (b[0] as int) {
        true
    } else if a[0] == b[0] {
        lex_le(a.drop_first(), b.drop_first())
    } else {
        false
    }
}

/// Whether the texts are in order.
pub open spec fn sorted(s: Seq<Seq<char>>) -> bool {
    forall|i: int, j: int| 0 <= i < j < s.len() ==> lex_le(#[trigger] s[i], #[trigger] s[j])
}

/// Of two texts, one comes first.
pub proof fn lemma_lex_total(a: Seq<char>, b: Seq<char>)
    ensures
        lex_le(a, b) || lex_le(b, a),
    decreases a.len(),
{
    if a.len() > 0 && b.len() > 0 && a[0] == b[0] {
        lemma_lex_total(a.drop_first(), b.drop_first());
    }
}

/// The order is transitive.
pub proof fn lemma_lex_trans(a: Seq<char>, b: Seq<char>, c: Seq<char>)
    requires
        lex_le(a, b),
        lex_le(b, c),
    ensures
        lex_le(a, c),
    decreases a.len(),
{
    if a.len() > 0 && b.len() > 0 && c.len() > 0 && a[0] == b[0] && b[0] == c[0] {
        lemma_lex_trans(a.drop_first(), b.drop_first(), c.drop_first());
    }
}

/// Whether `a` comes no later than `b`.
fn lex_le_chars(a: &Vec<char>, b: &Vec<char>) -> (r: bool)
    ensures
        r == lex_le(a@, b@),
{
    let mut i: usize = 0;
    assert(a@.skip(0) =~= a@);
    assert(b@.skip(0) =~= b@);
    while i < a.len()
        invariant
            0 <= i <= a.len(),
            i <= b.len(),
            a@.subrange(0, i as int) == b@.subrange(0, i as int),
            lex_le(a@, b@) == lex_le(a@.skip(i as int), b@.skip(i as int)),
        decreases a.len() - i,
    {
        if i == b.len() {
            return false;
        }
        let x = a[i];
        let y = b[i];
        assert(a@.skip(i as int)[0] == x && b@.skip(i as int)[0] == y);
        if x < y {
            return true;
        }
        if x != y {
            return false;
        }
        assert(a@.skip(i as int).drop_first() =~= a@.skip(i + 1));
        assert(b@.skip(i as int).drop_first() =~= b@.skip(i + 1));
        assert(a@.subrange(0, i + 1) =~= a@.subrange(0, i as int).push(x));
        assert(b@.subrange(0, i + 1) =~= b@.subrange(0, i as int).push(y));
        i += 1;
    }
    true
}

/// The texts of `items`, sorted: the same texts, each as often, in order.
pub fn sort_texts(items: Vec<String>) -> (out: Vec<String>)
    ensures
        sorted(string_views(out@)),
        string_views(out@).to_multiset() == string_views(items@).to_multiset(),
{
    let ghost iv = string_views(items@);
    let mut out: Vec<String> = Vec::new();
    let mut i: usize = 0;
    assert(iv.take(0) =~= Seq::<Seq<char>>::empty());
    assert(string_views(out@) =~= Seq::<Seq<char>>::empty());
    while i < items.len()
        invariant
            0 <= i <= items.len(),
            iv == string_views(items@),
            sorted(string_views(out@)),
            string_views(out@).to_multiset() == iv.take(i as int).to_multiset(),
        decreases items.len() - i,
    {
        let x = items[i].clone();
        let xc = chars_of(x.as_str());
        let ghost ov = string_views(out@);
        let mut p: usize = 0;
        while p < out.len()
            invariant
                0 <= p <= out.len(),
                ov == string_views(out@),
                xc@ == x@,
                forall|k: int| 0 <= k < p ==> lex_le(#[trigger] ov[k], x@),
            ensures
                0 <= p <= out.len(),
                forall|k: int| 0 <= k < p ==> lex_le(#[trigger] ov[k], x@),
                p < out.len() ==> !lex_le(ov[p as int], x@),
            decreases out.len() - p,
        {
            assert(ov[p as int] == out@[p as int]@);
            if !lex_le_chars(&chars_of(out[p].as_str()), &xc) {
                break;
            }
            p += 1;
        }
        let ghost xv = x@;
        out.insert(p, x);
        proof {
            let nv = ov.insert(p as int, xv);
            assert(string_views(out@) =~= nv);
            assert forall|a: int, b: int| 0 <= a < b < nv.len() implies lex_le(
                #[trigger] nv[a],
                #[trigger] nv[b],
            ) by {
                if b < p {
                    assert(nv[a] == ov[a] && nv[b] == ov[b]);
                } else if b == p {
                    assert(nv[a] == ov[a] && nv[b] == xv);
                } else if a == p {
                    assert(nv[b] == ov[b - 1]);
                    lemma_lex_total(ov[p as int], xv);
                    if b - 1 > p {
                        lemma_lex_trans(xv, ov[p as int], ov[b - 1]);
                    }
                } else if a < p {
                    assert(nv[a] == ov[a] && nv[b] == ov[b - 1]);
                } else {
                    assert(nv[a] == ov[a - 1] && nv[b] == ov[b - 1]);
                }
            }
            assert(iv.take(i + 1) =~= iv.take(i as int).push(xv));
            assert(iv[i as int] == items@[i as int]@);
        }
        i += 1;
    }
    assert(iv.take(items@.len() as int) =~= iv);
    out
}

/// Whether `s` ends with `suffix`.
pub open spec fn ends_with(s: Seq<char>, suffix: Seq<char>) -> bool {
    s.len() >= suffix.len() && s.skip(s.len() - suffix.len()) == suffix
}

/// Whether a file of `~/.ssh` is one OpenSSH keeps there besides keys.
pub open spec fn is_reserved_name(name: Seq<char>) -> bool {
    name == "known_hosts"@ || name == "known_hosts.old"@ || name == "authorized_keys"@ || name
        == "config"@
}

/// Whether a file, given by its name and whether `<name>.pub` exists beside
/// it, is a private key: not a public key, not a reserved file, and with a
/// public key beside it.
pub open spec fn is_private_key(file: (Seq<char>, bool)) -> bool {
    !ends_with(file.0, ".pub"@) && !is_reserved_name(file.0) && file.1
}

/// The path of a file of `~/.ssh` as shown and stored.
pub open spec fn key_path(name: Seq<char>) -> Seq<char> {
    "~/.ssh/"@ + name
}

/// The paths of the private keys among `files`, in the order of `files`.
pub open spec fn private_key_paths(files: Seq<(Seq<char>, bool)>) -> Seq<Seq<char>>
    decreases files.len(),
{
    if files.len() == 0 {
        Seq::empty()
    } else {
        let rest = private_key_paths(files.drop_last());
        if is_private_key(files.last()) {
            rest.push(key_path(files.last().0))
        } else {
            rest
        }
    }
}

/// The paths of the public keys (names ending in `.pub`) among `names`, in
/// the order of `names`.
pub open spec fn public_key_paths(names: Seq<Seq<char>>) -> Seq<Seq<char>>
    decreases names.len(),
{
    if names.len() == 0 {
        Seq::empty()
    } else {
        let rest = public_key_paths(names.drop_last());
        if ends_with(names.last(), ".pub"@) {
            rest.push(key_path(names.last()))
        } else {
            rest
        }
    }
}

/// The names and companion flags of a list of files.
pub open spec fn file_views(files: Seq<(String, bool)>) -> Seq<(Seq<char>, bool)> {
    files.map_values(|f: (String, bool)| (f.0@, f.1))
}

/// Whether `v` ends with `suffix`.
fn ends_with_chars(v: &Vec<char>, suffix: &Vec<char>) -> (r: bool)
    ensures
        r == ends_with(v@, suffix@),
{
    if v.len() < suffix.len() {
        return false;
    }
    let start = v.len() - suffix.len();
    let tail = crate::text::sub_chars(v, start, v.len());
    assert(tail@ =~= v@.skip(start as int));
    chars_eq(&tail, suffix)
}

/// `~/.ssh/` followed by `name`.
fn path_of(name: &String) -> (out: String)
    ensures
        out@ == key_path(name@),
{
    let mut out = String::from_str("~/.ssh/");
    out.append(name.as_str());
    out
}

/// The private keys of `~/.ssh`, from its files: each with its name and
/// whether `<name>.pub` exists beside it.  Files ending in `.pub`, the
/// known_hosts files, `authorized_keys` and `config` are left out, and so
/// is a file without a public key; the rest are given as `~/.ssh/<name>`,
/// sorted.
pub fn private_keys(files: Vec<(String, bool)>) -> (out: Vec<String>)
    ensures
        sorted(string_views(out@)),
        string_views(out@).to_multiset() == private_key_paths(file_views(files@)).to_multiset(),
{
    let ghost fv = file_views(files@);
    let pub_suffix = chars_of(".pub");
    let mut chosen: Vec<String> = Vec::new();
    let mut i: usize = 0;
    assert(fv.take(0) =~= Seq::<(Seq<char>, bool)>::empty());
    assert(string_views(chosen@) =~= Seq::<Seq<char>>::empty());
    while i < files.len()
        invariant
            0 <= i <= files.len(),
            fv == file_views(files@),
            pub_suffix@ == ".pub"@,
            string_views(chosen@) == private_key_paths(fv.take(i as int)),
        decreases files.len() - i,
    {
        let name = &files[i].0;
        let has_pub = files[i].1;
        assert(fv[i as int] == (name@, has_pub));
        let nc = chars_of(name.as_str());
        let reserved = chars_eq(&nc, &chars_of("known_hosts")) || chars_eq(
            &nc,
            &chars_of("known_hosts.old"),
        ) || chars_eq(&nc, &chars_of("authorized_keys")) || chars_eq(&nc, &chars_of("config"));
        assert(fv.take(i + 1).drop_last() =~= fv.take(i as int));
        assert(fv.take(i + 1).last() == fv[i as int]);
        let ghost before = string_views(chosen@);
        if !ends_with_chars(&nc, &pub_suffix) && !reserved && has_pub {
            let p = path_of(name);
            let ghost pv = p@;
            chosen.push(p);
            assert(string_views(chosen@) =~= before.push(pv));
        }
        i += 1;
    }
    assert(fv.take(files@.len() as int) =~= fv);
    sort_texts(chosen)
}

/// The public keys of `~/.ssh`, from the names of its entries: those ending
/// in `.pub`, as `~/.ssh/<name>`, sorted.
pub fn public_keys(names: Vec<String>) -> (out: Vec<String>)
    ensures
        sorted(string_views(out@)),
        string_views(out@).to_multiset() == public_key_paths(string_views(names@)).to_multiset(),
{
    let ghost nv = string_views(names@);
    let pub_suffix = chars_of(".pub");
    let mut chosen: Vec<String> = Vec::new();
    let mut i: usize = 0;
    assert(nv.take(0) =~= Seq::<Seq<char>>::empty());
    assert(string_views(chosen@) =~= Seq::<Seq<char>>::empty());
    while i < names.len()
        invariant
            0 <= i <= names.len(),
            nv == string_views(names@),
            pub_suffix@ == ".pub"@,
            string_views(chosen@) == public_key_paths(nv.take(i as int)),
        decreases names.len() - i,
    {
        let name = &names[i];
        assert(nv[i as int] == name@);
        assert(nv.take(i + 1).drop_last() =~= nv.take(i as int));
        assert(nv.take(i + 1).last() == nv[i as int]);
        let ghost before = string_views(chosen@);
        if ends_with_chars(&chars_of(name.as_str()), &pub_suffix) {
            let p = path_of(name);
            let ghost pv = p@;
            chosen.push(p);
            assert(string_views(chosen@) =~= before.push(pv));
        }
        i += 1;
    }
    assert(nv.take(names@.len() as int) =~= nv);
    sort_texts(chosen)
}

} // verus!
