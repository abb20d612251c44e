//! Keyed entries: a vector of (key, value) pairs read as a map, where the
//! first entry for a key gives its value.

use vstd::prelude::*;
use crate::proposal::bytes_eq;

verus! {

/// The value of the first entry for key `k`.
pub open spec fn spec_lookup<V>(e: Seq<(Vec<u8>, V)>, k: Seq<u8>) -> Option<V>
    decreases e.len(),
{
    if e.len() == 0 {
        None
    } else if e[0].0@ == k {
        Some(e[0].1)
    } else {
        spec_lookup(e.drop_first(), k)
    }
}

pub(crate) proof fn lemma_lookup_push<V>(e: Seq<(Vec<u8>, V)>, x: (Vec<u8>, V), q: Seq<u8>)
    ensures
        spec_lookup(e.push(x), q) == (if spec_lookup(e, q) is Some {
            spec_lookup(e, q)
        } else if x.0@ == q {
            Some(x.1)
        } else {
            None
        }),
    decreases e.len(),
{
    if e.len() > 0 {
        assert(e.push(x)[0] == e[0]);
        assert(e.push(x).drop_first() =~= e.drop_first().push(x));
        lemma_lookup_push(e.drop_first(), x, q);
    } else {
        assert(e.push(x)[0] == x);
        assert(e.push(x).drop_first() =~= Seq::<(Vec<u8>, V)>::empty());
        assert(spec_lookup(e.push(x).drop_first(), q) is None);
    }
}

pub(crate) proof fn lemma_lookup_update<V>(e: Seq<(Vec<u8>, V)>, i: int, x: (Vec<u8>, V), q: Seq<u8>)
    requires
        0 <= i < e.len(),
        e[i].0@ == x.0@,
        forall|j: int| 0 <= j < i ==> (#[trigger] e[j]).0@ != x.0@,
    ensures
        spec_lookup(e.update(i, x), q) == (if q == x.0@ { Some(x.1) } else { spec_lookup(e, q) }),
    decreases i,
{
    if i > 0 {
        assert(e.update(i, x).drop_first() =~= e.drop_first().update(i - 1, x));
        assert forall|j: int| 0 <= j < i - 1 implies (#[trigger] e.drop_first()[j]).0@ != x.0@ by {
            assert(e.drop_first()[j] == e[j + 1]);
        }
        lemma_lookup_update(e.drop_first(), i - 1, x, q);
        assert(e[0].0@ != x.0@);
    } else {
        assert(e.update(i, x).drop_first() =~= e.drop_first());
    }
}

pub(crate) proof fn lemma_lookup_first<V>(e: Seq<(Vec<u8>, V)>, i: int, k: Seq<u8>)
    requires
        0 <= i <= e.len(),
        forall|j: int| 0 <= j < i ==> (#[trigger] e[j]).0@ != k,
    ensures
        i < e.len() && e[i].0@ == k ==> spec_lookup(e, k) == Some(e[i].1),
        i == e.len() ==> spec_lookup(e, k) is None,
    decreases i,
{
    if i > 0 {
        assert forall|j: int| 0 <= j < i - 1 implies (#[trigger] e.drop_first()[j]).0@ != k by {
            assert(e.drop_first()[j] == e[j + 1]);
        }
        lemma_lookup_first(e.drop_first(), i - 1, k);
        assert(e[0].0@ != k);
    } else if e.len() == 0 {
    }
}

/// The position of the first entry for `peer`, if there is one.
pub(crate) fn find_key<V>(entries: &Vec<(Vec<u8>, V)>, peer: &Vec<u8>) -> (res: Option<usize>)
    ensures
        match res {
            Some(i) => i < entries@.len() && entries@[i as int].0@ == peer@
                && spec_lookup(entries@, peer@) == Some(entries@[i as int].1)
                && forall|j: int| 0 <= j < i ==> (#[trigger] entries@[j]).0@ != peer@,
            None => spec_lookup(entries@, peer@) is None,
        },
{
    let mut i: usize = 0;
    while i < entries.len()
        invariant
            i <= entries@.len(),
            forall|j: int| 0 <= j < i ==> (#[trigger] entries@[j]).0@ != peer@,
        decreases entries@.len() - i,
    {
        if bytes_eq(&entries[i].0, peer) {
            proof {
                lemma_lookup_first(entries@, i as int, peer@);
            }
            return Some(i);
        }
        i = i + 1;
    }
    proof {
        lemma_lookup_first(entries@, i as int, peer@);
    }
    None
}

} // verus!
