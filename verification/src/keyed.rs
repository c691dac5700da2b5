//! Entries keyed by distinct strings, held in a vector and viewed as a map.
use vstd::prelude::*;

use crate::text::str_eq;

verus! {

pub struct Entry<V> {
    pub key: String,
    pub val: V,
}

pub open spec fn entry_key<V>(e: Entry<V>) -> Seq<char> {
    e.key@
}

pub open spec fn distinct<V>(es: Seq<Entry<V>>) -> bool {
    forall|i: int, j: int|
        0 <= i < es.len() && 0 <= j < es.len() && i != j ==> #[trigger] entry_key(es[i])
            != #[trigger] entry_key(es[j])
}

pub open spec fn has_in<V>(es: Seq<Entry<V>>, k: Seq<char>) -> bool {
    exists|i: int| 0 <= i < es.len() && #[trigger] entry_key(es[i]) == k
}

pub open spec fn map_of<V>(es: Seq<Entry<V>>) -> Map<Seq<char>, V> {
    Map::new(
        |k: Seq<char>| has_in(es, k),
        |k: Seq<char>| es[choose|i: int| 0 <= i < es.len() && #[trigger] entry_key(es[i]) == k].val,
    )
}

pub proof fn lemma_map_of_entry<V>(es: Seq<Entry<V>>, i: int)
    requires
        distinct(es),
        0 <= i < es.len(),
    ensures
        map_of(es).contains_key(entry_key(es[i])),
        map_of(es)[entry_key(es[i])] == es[i].val,
{
    let k = entry_key(es[i]);
    assert(has_in(es, k));
    let j = choose|j: int| 0 <= j < es.len() && #[trigger] entry_key(es[j]) == k;
    assert(j == i);
}

pub proof fn lemma_map_of_push<V>(es: Seq<Entry<V>>, e: Entry<V>)
    requires
        distinct(es),
        !has_in(es, entry_key(e)),
    ensures
        distinct(es.push(e)),
        map_of(es.push(e)) == map_of(es).insert(entry_key(e), e.val),
{
    let ns = es.push(e);
    assert(distinct(ns)) by {
        assert forall|i: int, j: int|
            0 <= i < ns.len() && 0 <= j < ns.len() && i != j implies #[trigger] entry_key(ns[i])
            != #[trigger] entry_key(ns[j]) by {
            if i < es.len() && j < es.len() {
                assert(ns[i] == es[i] && ns[j] == es[j]);
            } else if i < es.len() {
                assert(ns[i] == es[i]);
            } else {
                assert(ns[j] == es[j]);
            }
        }
    }
    let m = map_of(es).insert(entry_key(e), e.val);
    assert forall|k: Seq<char>| #[trigger] map_of(ns).contains_key(k) == m.contains_key(k) by {
        if has_in(ns, k) && k != entry_key(e) {
            let i = choose|i: int| 0 <= i < ns.len() && #[trigger] entry_key(ns[i]) == k;
            assert(ns[i] == es[i]);
            assert(has_in(es, k));
        }
        if has_in(es, k) {
            let i = choose|i: int| 0 <= i < es.len() && #[trigger] entry_key(es[i]) == k;
            assert(ns[i] == es[i]);
            assert(has_in(ns, k));
        }
        if k == entry_key(e) {
            assert(entry_key(ns[es.len() as int]) == k);
        }
    }
    assert forall|k: Seq<char>| #[trigger] map_of(ns).contains_key(k) implies map_of(ns)[k] == m[k] by {
        let i = choose|i: int| 0 <= i < ns.len() && #[trigger] entry_key(ns[i]) == k;
        lemma_map_of_entry(ns, i);
        if i < es.len() {
            assert(ns[i] == es[i]);
            lemma_map_of_entry(es, i);
        }
    }
    assert(map_of(ns) =~= m);
}

pub proof fn lemma_map_of_update<V>(es: Seq<Entry<V>>, i: int, e: Entry<V>)
    requires
        distinct(es),
        0 <= i < es.len(),
        entry_key(e) == entry_key(es[i]),
    ensures
        distinct(es.update(i, e)),
        map_of(es.update(i, e)) == map_of(es).insert(entry_key(e), e.val),
{
    let ns = es.update(i, e);
    assert(distinct(ns)) by {
        assert forall|a: int, b: int|
            0 <= a < ns.len() && 0 <= b < ns.len() && a != b implies #[trigger] entry_key(ns[a])
            != #[trigger] entry_key(ns[b]) by {
            assert(entry_key(ns[a]) == entry_key(es[a]));
            assert(entry_key(ns[b]) == entry_key(es[b]));
        }
    }
    let m = map_of(es).insert(entry_key(e), e.val);
    assert forall|k: Seq<char>| #[trigger] map_of(ns).contains_key(k) == m.contains_key(k) by {
        if has_in(ns, k) {
            let j = choose|j: int| 0 <= j < ns.len() && #[trigger] entry_key(ns[j]) == k;
            assert(entry_key(es[j]) == k);
            assert(has_in(es, k));
        }
        if has_in(es, k) {
            let j = choose|j: int| 0 <= j < es.len() && #[trigger] entry_key(es[j]) == k;
            assert(entry_key(ns[j]) == k);
            assert(has_in(ns, k));
        }
    }
    assert forall|k: Seq<char>| #[trigger] map_of(ns).contains_key(k) implies map_of(ns)[k] == m[k] by {
        let j = choose|j: int| 0 <= j < ns.len() && #[trigger] entry_key(ns[j]) == k;
        lemma_map_of_entry(ns, j);
        if j != i {
            assert(ns[j] == es[j]);
            lemma_map_of_entry(es, j);
        }
    }
    assert(map_of(ns) =~= m);
}

pub proof fn lemma_map_of_remove<V>(es: Seq<Entry<V>>, i: int)
    requires
        distinct(es),
        0 <= i < es.len(),
    ensures
        distinct(es.remove(i)),
        map_of(es.remove(i)) == map_of(es).remove(entry_key(es[i])),
{
    let ns = es.remove(i);
    let gone = entry_key(es[i]);
    assert(distinct(ns)) by {
        assert forall|a: int, b: int|
            0 <= a < ns.len() && 0 <= b < ns.len() && a != b implies #[trigger] entry_key(ns[a])
            != #[trigger] entry_key(ns[b]) by {
            assert(ns[a] == es[if a < i { a } else { a + 1 }]);
            assert(ns[b] == es[if b < i { b } else { b + 1 }]);
        }
    }
    let m = map_of(es).remove(gone);
    assert forall|k: Seq<char>| #[trigger] map_of(ns).contains_key(k) == m.contains_key(k) by {
        if has_in(ns, k) {
            let a = choose|a: int| 0 <= a < ns.len() && #[trigger] entry_key(ns[a]) == k;
            let b = if a < i { a } else { a + 1 };
            assert(ns[a] == es[b]);
            assert(has_in(es, k));
            assert(b != i);
        }
        if has_in(es, k) && k != gone {
            let b = choose|b: int| 0 <= b < es.len() && #[trigger] entry_key(es[b]) == k;
            assert(b != i);
            let a = if b < i { b } else { b - 1 };
            assert(ns[a] == es[b]);
            assert(has_in(ns, k));
        }
    }
    assert forall|k: Seq<char>| #[trigger] map_of(ns).contains_key(k) implies map_of(ns)[k] == m[k] by {
        let a = choose|a: int| 0 <= a < ns.len() && #[trigger] entry_key(ns[a]) == k;
        let b = if a < i { a } else { a + 1 };
        assert(ns[a] == es[b]);
        lemma_map_of_entry(ns, a);
        lemma_map_of_entry(es, b);
    }
    assert(map_of(ns) =~= m);
}

pub proof fn lemma_take_push<V>(es: Seq<Entry<V>>, i: int)
    requires
        distinct(es),
        0 <= i < es.len(),
    ensures
        es.take(i + 1) == es.take(i).push(es[i]),
        distinct(es.take(i)),
        !has_in(es.take(i), entry_key(es[i])),
{
    assert(es.take(i + 1) =~= es.take(i).push(es[i]));
    assert(distinct(es.take(i))) by {
        assert forall|a: int, b: int|
            0 <= a < es.take(i).len() && 0 <= b < es.take(i).len() && a != b implies #[trigger] entry_key(
            es.take(i)[a],
        ) != #[trigger] entry_key(es.take(i)[b]) by {
            assert(es.take(i)[a] == es[a]);
            assert(es.take(i)[b] == es[b]);
        }
    }
    if has_in(es.take(i), entry_key(es[i])) {
        let a = choose|a: int|
            0 <= a < es.take(i).len() && #[trigger] entry_key(es.take(i)[a]) == entry_key(es[i]);
        assert(es.take(i)[a] == es[a]);
    }
}

/// Keeping entry `i` (or not) extends a filtered copy of a prefix by one step.
pub proof fn lemma_filter_step<V>(es: Seq<Entry<V>>, i: int, out: Seq<Entry<V>>, e: Entry<V>, keep: bool)
    requires
        distinct(es),
        0 <= i < es.len(),
        distinct(out),
        forall|a: int| 0 <= a < out.len() ==> has_in(es.take(i), #[trigger] entry_key(out[a])),
        keep ==> entry_key(e) == entry_key(es[i]),
    ensures
        keep ==> !has_in(out, entry_key(e)),
        keep ==> forall|a: int|
            0 <= a < out.push(e).len() ==> has_in(es.take(i + 1), #[trigger] entry_key(out.push(e)[a])),
        !keep ==> forall|a: int|
            0 <= a < out.len() ==> has_in(es.take(i + 1), #[trigger] entry_key(out[a])),
{
    lemma_take_push(es, i);
    if keep && has_in(out, entry_key(e)) {
        let a = choose|a: int| 0 <= a < out.len() && #[trigger] entry_key(out[a]) == entry_key(e);
        assert(has_in(es.take(i), entry_key(out[a])));
    }
    assert forall|a: int| 0 <= a < out.len() implies has_in(es.take(i + 1), #[trigger] entry_key(out[a])) by {
        let w = choose|w: int|
            0 <= w < es.take(i).len() && #[trigger] entry_key(es.take(i)[w]) == entry_key(out[a]);
        assert(es.take(i + 1)[w] == es.take(i)[w]);
    }
    if keep {
        let no = out.push(e);
        assert forall|a: int| 0 <= a < no.len() implies has_in(es.take(i + 1), #[trigger] entry_key(no[a])) by {
            if a < out.len() {
                assert(no[a] == out[a]);
            } else {
                assert(es.take(i + 1)[i] == es[i]);
            }
        }
    }
}

/// Position of `key` among the entries, if present.
pub fn position<V>(es: &Vec<Entry<V>>, key: &str) -> (r: Option<usize>)
    ensures
        match r {
            Some(i) => i < es.len() && entry_key(es@[i as int]) == key@,
            None => !has_in(es@, key@),
        },
{
    let mut i: usize = 0;
    while i < es.len()
        invariant
            i <= es.len(),
            forall|j: int| 0 <= j < i ==> #[trigger] entry_key(es@[j]) != key@,
        decreases es.len() - i,
    {
        if str_eq(es[i].key.as_str(), key) {
            return Some(i);
        }
        i += 1;
    }
    None
}

} // verus!
