//! Header lists as maps: which value a name ends up with when it is written
//! more than once, and the one ascending list that holds a given map.

use vstd::prelude::*;

use crate::entities::{Header, HeaderView, headers_view};
use crate::error::RequestError;
use crate::text::{
    Placement, chars_of, has_control, holds_control, is_blank, lemma_precedes_asymmetric,
    lemma_precedes_irreflexive, lemma_precedes_total, lemma_precedes_transitive, part_of,
    placement, precedes, string_of, trim_bounds, trimmed,
};

verus! {

/// The map that a list of headers stands for: each name with the value of
/// its last occurrence.
pub open spec fn as_map(hs: Seq<HeaderView>) -> Map<Seq<char>, Seq<char>>
    decreases hs.len(),
{
    if hs.len() == 0 {
        Map::empty()
    } else {
        as_map(hs.drop_last()).insert(hs.last().name, hs.last().value)
    }
}

/// Whether a header of the name `n` is in the list.
pub open spec fn has_name(hs: Seq<HeaderView>, n: Seq<char>) -> bool {
    exists|i: int| 0 <= i < hs.len() && (#[trigger] hs[i]).name == n
}

/// Whether the names of the list are in strictly ascending lexicographic
/// order. No name then occurs twice.
pub open spec fn ascending(hs: Seq<HeaderView>) -> bool {
    forall|i: int, j: int|
        0 <= i < j < hs.len() ==> precedes(#[trigger] hs[i].name, #[trigger] hs[j].name)
}

/// The header with its name trimmed.
pub open spec fn normalized(h: HeaderView) -> HeaderView {
    HeaderView { name: trimmed(h.name), value: h.value }
}

/// A header that can be sent: its name, once trimmed, is not empty, and
/// neither that name nor the value holds a control character.
pub open spec fn is_valid_header(h: HeaderView) -> bool {
    &&& trimmed(h.name).len() > 0
    &&& !has_control(trimmed(h.name))
    &&& !has_control(h.value)
}

/// A header as a bound request holds it: valid, with its name trimmed.
pub open spec fn is_sendable(h: HeaderView) -> bool {
    &&& h.name.len() > 0
    &&& !is_blank(h.name.first())
    &&& !is_blank(h.name.last())
    &&& !has_control(h.name)
    &&& !has_control(h.value)
}

/// Whether every header of the list is as a bound request holds it.
pub open spec fn all_sendable(hs: Seq<HeaderView>) -> bool {
    forall|i: int| 0 <= i < hs.len() ==> is_sendable(#[trigger] hs[i])
}

/// Whether every header of the list can be sent.
pub open spec fn all_valid(hs: Seq<HeaderView>) -> bool {
    forall|i: int| 0 <= i < hs.len() ==> is_valid_header(#[trigger] hs[i])
}

/// The headers that a list as the user wrote it comes to: names are trimmed,
/// and of several headers with one name the last one counts.
pub open spec fn effective_headers(hs: Seq<HeaderView>) -> Map<Seq<char>, Seq<char>> {
    as_map(hs.map_values(|h: HeaderView| normalized(h)))
}

/// The entries of `m` as a list in ascending order of name.
pub open spec fn listing(m: Map<Seq<char>, Seq<char>>) -> Seq<HeaderView> {
    choose|s: Seq<HeaderView>| ascending(s) && as_map(s) == m
}

/// A name is in the map of a list exactly if a header of the list has it.
pub proof fn lemma_as_map_domain(hs: Seq<HeaderView>, n: Seq<char>)
    ensures
        as_map(hs).dom().contains(n) <==> has_name(hs, n),
    decreases hs.len(),
{
    if hs.len() > 0 {
        let rest = hs.drop_last();
        lemma_as_map_domain(rest, n);
        if has_name(rest, n) {
            let i = choose|i: int| 0 <= i < rest.len() && (#[trigger] rest[i]).name == n;
            assert(hs[i].name == n);
        }
        if hs.last().name == n {
            assert(hs[hs.len() - 1].name == n);
        }
        if has_name(hs, n) {
            let i = choose|i: int| 0 <= i < hs.len() && (#[trigger] hs[i]).name == n;
            if i < hs.len() - 1 {
                assert(rest[i].name == n);
            }
        }
    }
}

/// The last occurrence wins: a header after which its name does not occur
/// again gives the name its value.
pub proof fn lemma_last_occurrence_wins(hs: Seq<HeaderView>, i: int)
    requires
        0 <= i < hs.len(),
        forall|j: int| i < j < hs.len() ==> (#[trigger] hs[j]).name != hs[i].name,
    ensures
        as_map(hs).dom().contains(hs[i].name),
        as_map(hs)[hs[i].name] == hs[i].value,
    decreases hs.len(),
{
    if i < hs.len() - 1 {
        let rest = hs.drop_last();
        assert(hs[hs.len() - 1].name != hs[i].name);
        assert forall|j: int| i < j < rest.len() implies (#[trigger] rest[j]).name
            != rest[i].name by {
            assert(rest[j] == hs[j]);
        }
        lemma_last_occurrence_wins(rest, i);
    }
}

/// In an ascending list every header gives its name its value.
pub proof fn lemma_ascending_entry(hs: Seq<HeaderView>, i: int)
    requires
        ascending(hs),
        0 <= i < hs.len(),
    ensures
        as_map(hs).dom().contains(hs[i].name),
        as_map(hs)[hs[i].name] == hs[i].value,
{
    assert forall|j: int| i < j < hs.len() implies (#[trigger] hs[j]).name != hs[i].name by {
        assert(precedes(hs[i].name, hs[j].name));
        lemma_precedes_irreflexive(hs[i].name);
    }
    lemma_last_occurrence_wins(hs, i);
}

/// Putting a header after the last one of its name, or anywhere where the
/// names after it differ from its own, adds it to the map.
pub proof fn lemma_insert_adds(hs: Seq<HeaderView>, pos: int, h: HeaderView)
    requires
        0 <= pos <= hs.len(),
        forall|j: int| pos <= j < hs.len() ==> (#[trigger] hs[j]).name != h.name,
    ensures
        as_map(hs.insert(pos, h)) == as_map(hs).insert(h.name, h.value),
    decreases hs.len() - pos,
{
    let longer = hs.insert(pos, h);
    if pos == hs.len() {
        assert(longer.drop_last() =~= hs);
    } else {
        let rest = hs.drop_last();
        assert(longer.drop_last() =~= rest.insert(pos, h));
        assert(longer.last() == hs.last());
        assert(hs[hs.len() - 1].name != h.name);
        assert forall|j: int| pos <= j < rest.len() implies (#[trigger] rest[j]).name
            != h.name by {
            assert(rest[j] == hs[j]);
        }
        lemma_insert_adds(rest, pos, h);
        assert(as_map(longer) =~= as_map(hs).insert(h.name, h.value));
    }
}

/// Writing a header in the place of the last one of its name gives the name
/// the new value.
pub proof fn lemma_update_replaces(hs: Seq<HeaderView>, pos: int, h: HeaderView)
    requires
        0 <= pos < hs.len(),
        hs[pos].name == h.name,
        forall|j: int| pos < j < hs.len() ==> (#[trigger] hs[j]).name != h.name,
    ensures
        as_map(hs.update(pos, h)) == as_map(hs).insert(h.name, h.value),
    decreases hs.len(),
{
    let changed = hs.update(pos, h);
    let rest = hs.drop_last();
    if pos == hs.len() - 1 {
        assert(changed.drop_last() =~= rest);
        assert(as_map(changed) =~= as_map(hs).insert(h.name, h.value));
    } else {
        assert(changed.drop_last() =~= rest.update(pos, h));
        assert(changed.last() == hs.last());
        assert(hs[hs.len() - 1].name != h.name);
        assert forall|j: int| pos < j < rest.len() implies (#[trigger] rest[j]).name
            != h.name by {
            assert(rest[j] == hs[j]);
        }
        lemma_update_replaces(rest, pos, h);
        assert(as_map(changed) =~= as_map(hs).insert(h.name, h.value));
    }
}

/// Two ascending lists that stand for the same map are the same list.
pub proof fn lemma_ascending_unique(a: Seq<HeaderView>, b: Seq<HeaderView>)
    requires
        ascending(a),
        ascending(b),
        as_map(a) == as_map(b),
    ensures
        a == b,
    decreases a.len(),
{
    if a.len() == 0 || b.len() == 0 {
        if a.len() > 0 {
            lemma_ascending_entry(a, 0);
        }
        if b.len() > 0 {
            lemma_ascending_entry(b, 0);
        }
        assert(a =~= b);
    } else {
        let la = a.last();
        let lb = b.last();
        let ra = a.drop_last();
        let rb = b.drop_last();
        lemma_ascending_entry(a, a.len() - 1);
        lemma_ascending_entry(b, b.len() - 1);
        lemma_as_map_domain(b, la.name);
        lemma_as_map_domain(a, lb.name);
        let j = choose|j: int| 0 <= j < b.len() && (#[trigger] b[j]).name == la.name;
        let i = choose|i: int| 0 <= i < a.len() && (#[trigger] a[i]).name == lb.name;
        if la.name != lb.name {
            assert(precedes(b[j].name, b[b.len() - 1].name));
            assert(precedes(a[i].name, a[a.len() - 1].name));
            lemma_precedes_asymmetric(la.name, lb.name);
        }
        assert(la == lb);
        lemma_as_map_domain(ra, la.name);
        lemma_as_map_domain(rb, lb.name);
        if has_name(ra, la.name) {
            let k = choose|k: int| 0 <= k < ra.len() && (#[trigger] ra[k]).name == la.name;
            assert(precedes(a[k].name, a[a.len() - 1].name));
            lemma_precedes_irreflexive(la.name);
        }
        if has_name(rb, lb.name) {
            let k = choose|k: int| 0 <= k < rb.len() && (#[trigger] rb[k]).name == lb.name;
            assert(precedes(b[k].name, b[b.len() - 1].name));
            lemma_precedes_irreflexive(lb.name);
        }
        assert(as_map(ra) =~= as_map(a).remove(la.name));
        assert(as_map(rb) =~= as_map(b).remove(lb.name));
        assert(ascending(ra)) by {
            assert forall|x: int, y: int| 0 <= x < y < ra.len() implies precedes(
                #[trigger] ra[x].name,
                #[trigger] ra[y].name,
            ) by {
                assert(precedes(a[x].name, a[y].name));
            }
        }
        assert(ascending(rb)) by {
            assert forall|x: int, y: int| 0 <= x < y < rb.len() implies precedes(
                #[trigger] rb[x].name,
                #[trigger] rb[y].name,
            ) by {
                assert(precedes(b[x].name, b[y].name));
            }
        }
        lemma_ascending_unique(ra, rb);
        assert(a =~= ra.push(la));
        assert(b =~= rb.push(lb));
    }
}

/// An ascending list is the listing of its own map.
pub proof fn lemma_listing_of_ascending(s: Seq<HeaderView>)
    requires
        ascending(s),
    ensures
        listing(as_map(s)) == s,
{
    let m = as_map(s);
    let t = listing(m);
    assert(ascending(t) && as_map(t) == m);
    lemma_ascending_unique(t, s);
}

/// An ascending list that holds what `s` holds and, under the name of `h`,
/// the value of `h`.
proof fn lemma_place(s: Seq<HeaderView>, h: HeaderView) -> (r: Seq<HeaderView>)
    requires
        ascending(s),
    ensures
        ascending(r),
        as_map(r) == as_map(s).insert(h.name, h.value),
    decreases s.len(),
{
    if s.len() == 0 {
        let r = seq![h];
        assert(r.drop_last() =~= s);
        r
    } else {
        let last = s.last();
        let rest = s.drop_last();
        if precedes(last.name, h.name) {
            let r = s.push(h);
            assert(r.drop_last() =~= s);
            assert forall|i: int, j: int| 0 <= i < j < r.len() implies precedes(
                #[trigger] r[i].name,
                #[trigger] r[j].name,
            ) by {
                if j < s.len() {
                    assert(precedes(s[i].name, s[j].name));
                } else if i < s.len() - 1 {
                    assert(precedes(s[i].name, s[s.len() - 1].name));
                    lemma_precedes_transitive(s[i].name, last.name, h.name);
                }
            }
            r
        } else if last.name == h.name {
            let r = rest.push(h);
            assert(r.drop_last() =~= rest);
            assert(as_map(r) =~= as_map(s).insert(h.name, h.value));
            assert forall|i: int, j: int| 0 <= i < j < r.len() implies precedes(
                #[trigger] r[i].name,
                #[trigger] r[j].name,
            ) by {
                assert(precedes(s[i].name, s[j].name));
            }
            r
        } else {
            lemma_precedes_total(last.name, h.name);
            assert forall|i: int, j: int| 0 <= i < j < rest.len() implies precedes(
                #[trigger] rest[i].name,
                #[trigger] rest[j].name,
            ) by {
                assert(precedes(s[i].name, s[j].name));
            }
            let r0 = lemma_place(rest, h);
            let r = r0.push(last);
            assert(r.drop_last() =~= r0);
            assert(as_map(r) =~= as_map(s).insert(h.name, h.value));
            assert forall|i: int, j: int| 0 <= i < j < r.len() implies precedes(
                #[trigger] r[i].name,
                #[trigger] r[j].name,
            ) by {
                if j < r0.len() {
                    assert(precedes(r0[i].name, r0[j].name));
                } else {
                    lemma_ascending_entry(r0, i);
                    lemma_as_map_domain(rest, r0[i].name);
                    if r0[i].name != h.name {
                        let k = choose|k: int|
                            0 <= k < rest.len() && (#[trigger] rest[k]).name == r0[i].name;
                        assert(precedes(s[k].name, s[s.len() - 1].name));
                    }
                }
            }
            r
        }
    }
}

/// An ascending list that stands for the same map as `hs`.
proof fn lemma_sorted(hs: Seq<HeaderView>) -> (s: Seq<HeaderView>)
    ensures
        ascending(s),
        as_map(s) == as_map(hs),
    decreases hs.len(),
{
    if hs.len() == 0 {
        hs
    } else {
        let rest = lemma_sorted(hs.drop_last());
        lemma_place(rest, hs.last())
    }
}

/// Whatever the order in which headers were written, the listing of their
/// map is in strictly ascending order of name and holds that map.
pub proof fn lemma_listing_ascends(hs: Seq<HeaderView>)
    ensures
        ascending(listing(as_map(hs))),
        as_map(listing(as_map(hs))) == as_map(hs),
{
    let s = lemma_sorted(hs);
    assert(ascending(s) && as_map(s) == as_map(hs));
}

/// The last occurrence wins: of the headers whose trimmed names are the same,
/// the one written last gives the name its value.
pub proof fn lemma_last_header_wins(hs: Seq<HeaderView>, i: int)
    requires
        0 <= i < hs.len(),
        forall|j: int| i < j < hs.len() ==> trimmed((#[trigger] hs[j]).name) != trimmed(hs[i].name),
    ensures
        effective_headers(hs).dom().contains(trimmed(hs[i].name)),
        effective_headers(hs)[trimmed(hs[i].name)] == hs[i].value,
{
    let ns = hs.map_values(|h: HeaderView| normalized(h));
    assert forall|j: int| i < j < ns.len() implies (#[trigger] ns[j]).name != ns[i].name by {
        assert(ns[j].name == trimmed(hs[j].name));
    }
    lemma_last_occurrence_wins(ns, i);
}

/// Whether no two headers of the list have the same name once trimmed.
pub open spec fn distinct_names(hs: Seq<HeaderView>) -> bool {
    forall|i: int, j: int|
        0 <= i < j < hs.len() ==> trimmed(#[trigger] hs[i].name) != trimmed(#[trigger] hs[j].name)
}

/// Two lists that hold the same headers, each name once, come to the same
/// headers and are both valid or both not, whatever the order of either.
pub proof fn lemma_same_set_same_headers(a: Seq<HeaderView>, b: Seq<HeaderView>)
    requires
        a.to_set() == b.to_set(),
        distinct_names(a),
        distinct_names(b),
    ensures
        effective_headers(a) == effective_headers(b),
        all_valid(a) == all_valid(b),
{
    lemma_set_decides(a, b);
    lemma_set_decides(b, a);
    assert(effective_headers(a) =~= effective_headers(b));
}

/// What a list with each name once comes to, and whether it is valid, is
/// found again in any such list that holds each of its headers.
proof fn lemma_set_decides(a: Seq<HeaderView>, b: Seq<HeaderView>)
    requires
        a.to_set() == b.to_set(),
        distinct_names(a),
        distinct_names(b),
    ensures
        all_valid(b) ==> all_valid(a),
        forall|n: Seq<char>| #[trigger]
            effective_headers(a).dom().contains(n) ==> effective_headers(b).dom().contains(n)
                && effective_headers(b)[n] == effective_headers(a)[n],
{
    let na = a.map_values(|h: HeaderView| normalized(h));
    let nb = b.map_values(|h: HeaderView| normalized(h));
    assert forall|i: int| 0 <= i < a.len() implies exists|j: int|
        0 <= j < b.len() && b[j] == #[trigger] a[i] by {
        assert(a.contains(a[i]));
        assert(a.to_set().contains(a[i]));
        assert(b.to_set().contains(a[i]));
        assert(b.contains(a[i]));
    }
    if all_valid(b) {
        assert forall|i: int| 0 <= i < a.len() implies is_valid_header(#[trigger] a[i]) by {
            let j = choose|j: int| 0 <= j < b.len() && b[j] == a[i];
            assert(is_valid_header(b[j]));
        }
    }
    assert forall|n: Seq<char>| #[trigger]
        effective_headers(a).dom().contains(n) implies effective_headers(b).dom().contains(n)
        && effective_headers(b)[n] == effective_headers(a)[n] by {
        lemma_as_map_domain(na, n);
        let i = choose|i: int| 0 <= i < na.len() && (#[trigger] na[i]).name == n;
        let j = choose|j: int| 0 <= j < b.len() && b[j] == a[i];
        assert(na[i] == normalized(a[i]));
        assert(nb[j] == normalized(b[j]));
        assert forall|k: int| i < k < na.len() implies (#[trigger] na[k]).name != na[i].name by {
            assert(trimmed(a[i].name) != trimmed(a[k].name));
        }
        assert forall|k: int| j < k < nb.len() implies (#[trigger] nb[k]).name != nb[j].name by {
            assert(trimmed(b[j].name) != trimmed(b[k].name));
        }
        lemma_last_occurrence_wins(na, i);
        lemma_last_occurrence_wins(nb, j);
    }
}

/// Two neighbours with different names may change places: the headers that
/// the list comes to stay the same.
pub proof fn lemma_neighbours_change_places(hs: Seq<HeaderView>, i: int)
    requires
        0 <= i,
        i + 1 < hs.len(),
        trimmed(hs[i].name) != trimmed(hs[i + 1].name),
    ensures
        effective_headers(hs.update(i, hs[i + 1]).update(i + 1, hs[i])) == effective_headers(hs),
        all_valid(hs.update(i, hs[i + 1]).update(i + 1, hs[i])) == all_valid(hs),
{
    let swapped = hs.update(i, hs[i + 1]).update(i + 1, hs[i]);
    let ns = hs.map_values(|h: HeaderView| normalized(h));
    let nswapped = swapped.map_values(|h: HeaderView| normalized(h));
    assert(nswapped =~= ns.update(i, ns[i + 1]).update(i + 1, ns[i]));
    lemma_as_map_swap(ns, i);
    if all_valid(hs) {
        assert forall|k: int| 0 <= k < swapped.len() implies is_valid_header(
            #[trigger] swapped[k],
        ) by {
            if k == i {
                assert(is_valid_header(hs[i + 1]));
            } else if k == i + 1 {
                assert(is_valid_header(hs[i]));
            } else {
                assert(is_valid_header(hs[k]));
            }
        }
    }
    if all_valid(swapped) {
        assert forall|k: int| 0 <= k < hs.len() implies is_valid_header(#[trigger] hs[k]) by {
            if k == i {
                assert(is_valid_header(swapped[i + 1]));
            } else if k == i + 1 {
                assert(is_valid_header(swapped[i]));
            } else {
                assert(is_valid_header(swapped[k]));
            }
        }
    }
}

/// Two neighbours with different names may change places without changing
/// the map of the list.
proof fn lemma_as_map_swap(hs: Seq<HeaderView>, i: int)
    requires
        0 <= i,
        i + 1 < hs.len(),
        hs[i].name != hs[i + 1].name,
    ensures
        as_map(hs.update(i, hs[i + 1]).update(i + 1, hs[i])) == as_map(hs),
    decreases hs.len(),
{
    let swapped = hs.update(i, hs[i + 1]).update(i + 1, hs[i]);
    let rest = hs.drop_last();
    if i + 2 == hs.len() {
        let base = rest.drop_last();
        let a = hs[i];
        let b = hs[i + 1];
        assert(swapped.drop_last().drop_last() =~= base);
        assert(swapped.drop_last().last() == b);
        assert(swapped.last() == a);
        assert(rest.last() == a);
        assert(as_map(rest) == as_map(base).insert(a.name, a.value));
        assert(as_map(swapped.drop_last()) == as_map(base).insert(b.name, b.value));
        assert(as_map(swapped) =~= as_map(hs));
    } else {
        assert(swapped.drop_last() =~= rest.update(i, rest[i + 1]).update(i + 1, rest[i]));
        lemma_as_map_swap(rest, i);
    }
}

/// The header with its name trimmed, and the characters of that name.
/// `None` where the header cannot be sent.
fn normalize(h: &Header) -> (r: Option<(Vec<char>, Header)>)
    ensures
        match r {
            Some((key, n)) => {
                &&& is_valid_header(h@)
                &&& n@ == normalized(h@)
                &&& key@ == n@.name
                &&& is_sendable(n@)
            },
            None => !is_valid_header(h@),
        },
{
    let name_chars = chars_of(h.name.as_str());
    let (start, end) = trim_bounds(&name_chars);
    if start == end {
        return None;
    }
    let key = part_of(&name_chars, start, end);
    if holds_control(&key) {
        return None;
    }
    let value_chars = chars_of(h.value.as_str());
    if holds_control(&value_chars) {
        return None;
    }
    let name = string_of(&name_chars, start, end);
    Some((key, Header { name, value: h.value.clone() }))
}

/// Where `key` belongs among ascending `keys`: the index of the first key
/// that does not come before it, and whether that key is `key` itself.
fn locate(keys: &Vec<Vec<char>>, key: &Vec<char>) -> (r: (usize, bool))
    ensures
        r.0 <= keys.len(),
        forall|j: int| 0 <= j < r.0 ==> precedes((#[trigger] keys@[j])@, key@),
        r.1 ==> r.0 < keys.len() && keys@[r.0 as int]@ == key@,
        !r.1 && r.0 < keys.len() ==> precedes(key@, keys@[r.0 as int]@),
{
    let mut pos: usize = 0;
    while pos < keys.len()
        invariant
            pos <= keys.len(),
            forall|j: int| 0 <= j < pos ==> precedes((#[trigger] keys@[j])@, key@),
        decreases keys.len() - pos,
    {
        match placement(&keys[pos], key) {
            Placement::Before => {
                pos += 1;
            },
            Placement::Same => {
                return (pos, true);
            },
            Placement::After => {
                return (pos, false);
            },
        }
    }
    (pos, false)
}

/// Binds the headers of an endpoint: trims the names, lets the last of
/// several headers with one name count, and lists what is left in ascending
/// order of name. Fails where a header cannot be sent.
pub fn bind_headers(headers: &Vec<Header>) -> (r: Result<Vec<Header>, RequestError>)
    ensures
        match r {
            Ok(bound) => {
                &&& all_valid(headers_view(headers@))
                &&& ascending(headers_view(bound@))
                &&& all_sendable(headers_view(bound@))
                &&& as_map(headers_view(bound@)) == effective_headers(headers_view(headers@))
                &&& headers_view(bound@) == listing(effective_headers(headers_view(headers@)))
            },
            Err(e) => e == RequestError::InvalidHeader && !all_valid(headers_view(headers@)),
        },
{
    let ghost input = headers_view(headers@);
    let mut out: Vec<Header> = Vec::new();
    let mut keys: Vec<Vec<char>> = Vec::new();
    let mut i: usize = 0;
    proof {
        assert(input.take(0).map_values(|h: HeaderView| normalized(h)) =~= Seq::empty());
        assert(headers_view(out@) =~= Seq::empty());
    }
    while i < headers.len()
        invariant
            i <= headers.len(),
            input == headers_view(headers@),
            keys.len() == out.len(),
            forall|k: int| 0 <= k < out.len() ==> (#[trigger] keys@[k])@ == out@[k]@.name,
            ascending(headers_view(out@)),
            all_sendable(headers_view(out@)),
            all_valid(input.take(i as int)),
            as_map(headers_view(out@)) == effective_headers(input.take(i as int)),
        decreases headers.len() - i,
    {
        let ghost before = headers_view(out@);
        let ghost done = input.take(i as int).map_values(|h: HeaderView| normalized(h));
        let ghost next = input.take(i + 1).map_values(|h: HeaderView| normalized(h));
        proof {
            assert(input[i as int] == headers@[i as int]@);
            assert(next.drop_last() =~= done);
            assert(next.last() == normalized(input[i as int]));
        }
        match normalize(&headers[i]) {
            None => {
                proof {
                    assert(!is_valid_header(input[i as int]));
                }
                return Err(RequestError::InvalidHeader);
            },
            Some((key, header)) => {
                let ghost h = header@;
                let (pos, found) = locate(&keys, &key);
                proof {
                    assert forall|j: int| 0 <= j < pos implies precedes(
                        (#[trigger] before[j]).name,
                        h.name,
                    ) by {
                        assert(keys@[j]@ == out@[j]@.name);
                    }
                    assert forall|j: int| pos <= j < before.len() && !(found && j == pos)
                        implies precedes(h.name, (#[trigger] before[j]).name) by {
                        assert(keys@[pos as int]@ == out@[pos as int]@.name);
                        if found {
                            assert(precedes(before[pos as int].name, before[j].name));
                        } else if j > pos {
                            assert(precedes(before[pos as int].name, before[j].name));
                            lemma_precedes_transitive(
                                h.name,
                                before[pos as int].name,
                                before[j].name,
                            );
                        }
                    }
                    assert forall|j: int| pos <= j < before.len() && !(found && j == pos)
                        implies (#[trigger] before[j]).name != h.name by {
                        lemma_precedes_irreflexive(h.name);
                    }
                }
                if found {
                    out.set(pos, header);
                    proof {
                        assert(keys@[pos as int]@ == before[pos as int].name);
                        assert(headers_view(out@) =~= before.update(pos as int, h));
                        lemma_update_replaces(before, pos as int, h);
                    }
                } else {
                    out.insert(pos, header);
                    keys.insert(pos, key);
                    proof {
                        assert(headers_view(out@) =~= before.insert(pos as int, h));
                        lemma_insert_adds(before, pos as int, h);
                    }
                }
                proof {
                    let after = headers_view(out@);
                    assert forall|x: int, y: int| 0 <= x < y < after.len() implies precedes(
                        #[trigger] after[x].name,
                        #[trigger] after[y].name,
                    ) by {
                        if found {
                            assert(after[x].name == before[x].name);
                            assert(after[y].name == before[y].name);
                            assert(precedes(before[x].name, before[y].name));
                        } else if y < pos {
                            assert(precedes(before[x].name, before[y].name));
                        } else if y == pos {
                            assert(precedes(before[x].name, h.name));
                        } else if x < pos {
                            assert(precedes(before[x].name, before[y - 1].name));
                        } else if x == pos {
                            assert(precedes(h.name, before[y - 1].name));
                        } else {
                            assert(precedes(before[x - 1].name, before[y - 1].name));
                        }
                    }
                    assert forall|k: int| 0 <= k < after.len() implies is_sendable(
                        #[trigger] after[k],
                    ) by {
                        if found {
                            if k != pos {
                                assert(is_sendable(before[k]));
                            }
                        } else if k < pos {
                            assert(is_sendable(before[k]));
                        } else if k > pos {
                            assert(is_sendable(before[k - 1]));
                        }
                    }
                    assert forall|k: int| 0 <= k < i + 1 implies is_valid_header(
                        #[trigger] input.take(i + 1)[k],
                    ) by {
                        if k < i {
                            assert(is_valid_header(input.take(i as int)[k]));
                        }
                    }
                }
            },
        }
        i += 1;
    }
    proof {
        assert(input.take(headers.len() as int) =~= input);
        lemma_listing_of_ascending(headers_view(out@));
    }
    Ok(out)
}

} // verus!
