//! Lists: the keys of a map, texts in order, entries by count.
use crate::text::chars_of;
use std::collections::HashMap;
use vstd::prelude::*;
use vstd::std_specs::iter::IteratorSpec;

verus! {

/// Whether a list holds the keys of a map, each once.
pub open spec fn is_listing<K, V>(keys: Seq<K>, m: Map<K, V>) -> bool {
    &&& keys.no_duplicates()
    &&& forall|k: K| #[trigger] keys.contains(k) <==> m.contains_key(k)
}

/// The keys of a map by register address, in no particular order.
pub fn addresses_of<V>(m: &HashMap<usize, V>) -> (r: Vec<usize>)
    ensures
        is_listing(r@, m@),
{
    broadcast use vstd::std_specs::hash::group_hash_axioms;

    let mut r: Vec<usize> = Vec::new();
    let keys = m.keys();
    let ghost all = keys.remaining().unref();
    for k in it: keys
        invariant
            it.seq().unref() == all,
            r@ == all.take(it.index() as int),
    {
        let ghost before = r@;
        assert(*k == all[it.index() as int]);
        r.push(*k);
        assert(all.take(it.index() as int + 1) =~= before.push(*k));
    }
    assert(r@ =~= all);
    r
}

/// The keys of a map by function code, in no particular order.
pub fn codes_of(m: &HashMap<u8, usize>) -> (r: Vec<u8>)
    ensures
        is_listing(r@, m@),
{
    broadcast use vstd::std_specs::hash::group_hash_axioms;

    let mut r: Vec<u8> = Vec::new();
    let keys = m.keys();
    let ghost all = keys.remaining().unref();
    for k in it: keys
        invariant
            it.seq().unref() == all,
            r@ == all.take(it.index() as int),
    {
        let ghost before = r@;
        assert(*k == all[it.index() as int]);
        r.push(*k);
        assert(all.take(it.index() as int + 1) =~= before.push(*k));
    }
    assert(r@ =~= all);
    r
}

/// The keys of a map by address in a frame, in no particular order.
pub fn frame_addresses_of(m: &HashMap<u16, usize>) -> (r: Vec<u16>)
    ensures
        is_listing(r@, m@),
{
    broadcast use vstd::std_specs::hash::group_hash_axioms;

    let mut r: Vec<u16> = Vec::new();
    let keys = m.keys();
    let ghost all = keys.remaining().unref();
    for k in it: keys
        invariant
            it.seq().unref() == all,
            r@ == all.take(it.index() as int),
    {
        let ghost before = r@;
        assert(*k == all[it.index() as int]);
        r.push(*k);
        assert(all.take(it.index() as int + 1) =~= before.push(*k));
    }
    assert(r@ =~= all);
    r
}

/// Whether a text stands before another in the order of characters, or is the
/// same.
pub open spec fn text_le(a: Seq<char>, b: Seq<char>) -> bool
    decreases a.len(),
{
    if a.len() == 0 {
        true
    } else if b.len() == 0 {
        false
    } else if a[0] != b[0] {
        a[0] < b[0]
    } else {
        text_le(a.skip(1), b.skip(1))
    }
}

/// The order of texts is total and transitive, and only equal texts stand
/// before each other.
pub proof fn law_text_order(a: Seq<char>, b: Seq<char>, c: Seq<char>)
    ensures
        text_le(a, b) || text_le(b, a),
        text_le(a, b) && text_le(b, c) ==> text_le(a, c),
        text_le(a, b) && text_le(b, a) ==> a == b,
    decreases a.len() + b.len() + c.len(),
{
    if a.len() > 0 && b.len() > 0 && c.len() > 0 {
        law_text_order(a.skip(1), b.skip(1), c.skip(1));
    } else if a.len() > 0 && b.len() > 0 {
        law_text_order(a.skip(1), b.skip(1), c);
    }
    if text_le(a, b) && text_le(b, a) {
        if a.len() == 0 {
            assert(a =~= b);
        } else {
            assert(a =~= seq![a[0]] + a.skip(1));
            assert(b =~= seq![b[0]] + b.skip(1));
        }
    }
}

/// Whether a text stands before another in the order of characters, or is the
/// same.
pub fn text_before(a: &Vec<char>, b: &Vec<char>) -> (r: bool)
    ensures
        r == text_le(a@, b@),
{
    let mut i: usize = 0;
    assert(a@.skip(0) =~= a@);
    assert(b@.skip(0) =~= b@);
    while i < a.len() && i < b.len() && a[i] == b[i]
        invariant
            i <= a@.len(),
            i <= b@.len(),
            text_le(a@, b@) == text_le(a@.skip(i as int), b@.skip(i as int)),
        decreases a.len() - i,
    {
        assert(a@.skip(i as int).skip(1) =~= a@.skip(i + 1));
        assert(b@.skip(i as int).skip(1) =~= b@.skip(i + 1));
        i += 1;
    }
    if i >= a.len() {
        true
    } else if i >= b.len() {
        false
    } else {
        a[i] < b[i]
    }
}

/// Whether a list of places names each place of a list of texts once, in the
/// order of the texts.
pub open spec fn is_order(order: Seq<usize>, names: Seq<Seq<char>>) -> bool {
    &&& order.len() == names.len()
    &&& order.no_duplicates()
    &&& forall|i: int| 0 <= i < order.len() ==> (#[trigger] order[i]) < names.len()
    &&& forall|i: int, j: int|
        0 <= i <= j < order.len() ==> text_le(
            names[(#[trigger] order[i]) as int],
            names[(#[trigger] order[j]) as int],
        )
}

/// The places of a list of texts, in the order of the texts.
pub fn order_of(names: &Vec<Vec<char>>) -> (r: Vec<usize>)
    ensures
        is_order(r@, crate::text::rows(names@)),
{
    let n: usize = names.len();
    let ghost all = crate::text::rows(names@);
    let mut order: Vec<usize> = Vec::new();
    for k in 0..n
        invariant
            n == names@.len(),
            all == crate::text::rows(names@),
            order@.len() == k,
            order@.no_duplicates(),
            forall|i: int| 0 <= i < k ==> (#[trigger] order@[i]) < k,
            forall|i: int, j: int|
                0 <= i <= j < k ==> text_le(
                    all[(#[trigger] order@[i]) as int],
                    all[(#[trigger] order@[j]) as int],
                ),
    {
        let mut p: usize = 0;
        while p < order.len() && text_before(&names[order[p]], &names[k])
            invariant
                n == names@.len(),
                k < n,
                all == crate::text::rows(names@),
                p <= order@.len(),
                forall|i: int| 0 <= i < order@.len() ==> (#[trigger] order@[i]) < k,
                forall|i: int|
                    0 <= i < p ==> text_le(all[(#[trigger] order@[i]) as int], all[k as int]),
            decreases order.len() - p,
        {
            p += 1;
        }
        let ghost before = order@;
        order.insert(p, k);
        proof {
            assert(order@ == before.insert(p as int, k));
            assert forall|i: int, j: int| 0 <= i <= j < order@.len() implies text_le(
                all[(#[trigger] order@[i]) as int],
                all[(#[trigger] order@[j]) as int],
            ) by {
                let x = all[k as int];
                law_text_order(x, x, x);
                if i == p && j > p {
                    law_text_order(x, all[before[p as int] as int], all[before[j - 1] as int]);
                    assert(before[p as int] < k);
                }
            }
            assert(order@.no_duplicates());
        }
    }
    order
}

/// Texts in a given order of their places.
pub open spec fn in_order(order: Seq<usize>, names: Seq<Seq<char>>) -> Seq<Seq<char>> {
    Seq::new(order.len(), |i: int| names[order[i] as int])
}

/// Whether a list holds the texts of another in their order.
pub open spec fn is_sorted_copy(sorted: Seq<Seq<char>>, names: Seq<Seq<char>>) -> bool {
    exists|order: Seq<usize>| #[trigger]
        is_order(order, names) && sorted == in_order(order, names)
}

/// The characters of each text of a list.
pub fn rows_of(names: &Vec<String>) -> (r: Vec<Vec<char>>)
    ensures
        crate::text::rows(r@) == crate::text::texts(names@),
{
    let n: usize = names.len();
    let mut r: Vec<Vec<char>> = Vec::new();
    for i in 0..n
        invariant
            n == names@.len(),
            r@.len() == i,
            forall|j: int| 0 <= j < i ==> (#[trigger] r@[j])@ == names@[j]@,
    {
        r.push(chars_of(names[i].as_str()));
    }
    assert(crate::text::rows(r@) =~= crate::text::texts(names@));
    r
}

/// The texts of a list in their order.
pub fn sort_names(names: &Vec<String>) -> (r: Vec<String>)
    ensures
        is_sorted_copy(crate::text::texts(r@), crate::text::texts(names@)),
{
    let order: Vec<usize> = order_of(&rows_of(names));
    let n: usize = order.len();
    let ghost all = in_order(order@, crate::text::texts(names@));
    let mut r: Vec<String> = Vec::new();
    for i in 0..n
        invariant
            n == order@.len(),
            is_order(order@, crate::text::texts(names@)),
            all == in_order(order@, crate::text::texts(names@)),
            r@.len() == i,
            forall|j: int| 0 <= j < i ==> (#[trigger] r@[j])@ == all[j],
    {
        assert(order@[i as int] < crate::text::texts(names@).len());
        r.push(names[order[i]].clone());
    }
    assert(crate::text::texts(r@) =~= all);
    r
}

/// Whether entries stand from the largest count down.
pub open spec fn counts_fall<K>(s: Seq<(K, usize)>) -> bool {
    forall|i: int, j: int| 0 <= i <= j < s.len() ==> (#[trigger] s[i]).1 >= (#[trigger] s[j]).1
}

/// The entries of a list from the largest count down.
pub fn by_count<K: Copy>(entries: &Vec<(K, usize)>) -> (r: Vec<(K, usize)>)
    ensures
        r@.to_multiset() == entries@.to_multiset(),
        r@.len() == entries@.len(),
        counts_fall(r@),
{
    let n: usize = entries.len();
    let mut r: Vec<(K, usize)> = Vec::new();
    proof {
        assert(entries@.take(0) =~= r@);
    }
    for k in 0..n
        invariant
            n == entries@.len(),
            r@.len() == k,
            r@.to_multiset() == entries@.take(k as int).to_multiset(),
            counts_fall(r@),
    {
        let mut p: usize = 0;
        while p < r.len() && r[p].1 >= entries[k].1
            invariant
                k < n == entries@.len(),
                p <= r@.len(),
                forall|i: int| 0 <= i < p ==> (#[trigger] r@[i]).1 >= entries@[k as int].1,
            decreases r.len() - p,
        {
            p += 1;
        }
        let ghost before = r@;
        let e = entries[k];
        r.insert(p, e);
        proof {
            assert(r@ == before.insert(p as int, e));
            vstd::seq_lib::to_multiset_insert(before, p as int, e);
            let t = entries@.take(k + 1);
            assert(t =~= entries@.take(k as int).push(e));
            vstd::seq_lib::to_multiset_build(entries@.take(k as int), e);
            assert forall|i: int, j: int| 0 <= i <= j < r@.len() implies (#[trigger] r@[i]).1 >= (
            #[trigger] r@[j]).1 by {
                if i == p && j > p {
                    assert(before[p as int].1 >= before[j - 1].1);
                }
            }
        }
    }
    assert(entries@.take(n as int) =~= entries@);
    r
}

/// Whether entries are those of a map, each once, from the largest count down.
pub open spec fn is_ranking<K>(s: Seq<(K, usize)>, m: Map<K, usize>) -> bool {
    &&& counts_fall(s)
    &&& exists|keys: Seq<K>| #[trigger]
        is_listing(keys, m) && s.to_multiset() == Seq::new(
            keys.len(),
            |i: int| (keys[i], m[keys[i]]),
        ).to_multiset()
}

/// How often each function code was counted, from the largest count down; codes
/// with the same count stand in no particular order.
pub fn rank_codes(m: &HashMap<u8, usize>) -> (r: Vec<(u8, usize)>)
    ensures
        is_ranking(r@, m@),
{
    broadcast use vstd::std_specs::hash::group_hash_axioms;

    let keys: Vec<u8> = codes_of(m);
    let n: usize = keys.len();
    let mut entries: Vec<(u8, usize)> = Vec::new();
    for i in 0..n
        invariant
            n == keys@.len(),
            is_listing(keys@, m@),
            entries@.len() == i,
            forall|j: int| 0 <= j < i ==> #[trigger] entries@[j] == (keys@[j], m@[keys@[j]]),
    {
        broadcast use vstd::std_specs::hash::group_hash_axioms;

        assert(keys@.contains(keys@[i as int]));
        match m.get(&keys[i]) {
            Some(c) => {
                entries.push((keys[i], *c));
            },
            None => {
                assert(false);
            },
        }
    }
    assert(entries@ =~= Seq::new(keys@.len(), |i: int| (keys@[i], m@[keys@[i]])));
    by_count(&entries)
}

/// How often each address was counted, from the largest count down; addresses
/// with the same count stand in no particular order.
pub fn rank_addresses(m: &HashMap<u16, usize>) -> (r: Vec<(u16, usize)>)
    ensures
        is_ranking(r@, m@),
{
    broadcast use vstd::std_specs::hash::group_hash_axioms;

    let keys: Vec<u16> = frame_addresses_of(m);
    let n: usize = keys.len();
    let mut entries: Vec<(u16, usize)> = Vec::new();
    for i in 0..n
        invariant
            n == keys@.len(),
            is_listing(keys@, m@),
            entries@.len() == i,
            forall|j: int| 0 <= j < i ==> #[trigger] entries@[j] == (keys@[j], m@[keys@[j]]),
    {
        broadcast use vstd::std_specs::hash::group_hash_axioms;

        assert(keys@.contains(keys@[i as int]));
        match m.get(&keys[i]) {
            Some(c) => {
                entries.push((keys[i], *c));
            },
            None => {
                assert(false);
            },
        }
    }
    assert(entries@ =~= Seq::new(keys@.len(), |i: int| (keys@[i], m@[keys@[i]])));
    by_count(&entries)
}

} // verus!
