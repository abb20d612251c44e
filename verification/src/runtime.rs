//! What an execution of a program reports, and the arithmetic and ordering
//! rules around a run that do not depend on the WebAssembly engine.

use vstd::prelude::*;
use crate::hashing::{blake3_hash, hash_bytes};
use crate::merkle::{
    lemma_pairs_map_concat, lemma_sparse_root_order_invariant, lemma_sparse_root_views, lex_le, lemma_lex_total,
    lemma_lex_transitive, sparse_merkle_root, spec_key_digests_distinct, spec_pairs_map, spec_sparse_root,
};
use crate::types::{ProgramId, StateWrite};
use crate::pex::copy_bytes;
use crate::table::{find_key, lemma_lookup_push, lemma_lookup_update, spec_lookup};

verus! {

/// The result of one execution of a program.
#[derive(Clone, Debug, PartialEq, Eq)]
pub struct ExecutionOutcome {
    pub program_id: ProgramId,
    pub return_data: Vec<u8>,
    pub fuel_consumed: u64,
    pub state_writes: Vec<StateWrite>,
    pub state_root: [u8; 32],
}

/// Limits of an execution.
#[derive(Clone, Debug)]
pub struct ExecutionConfig {
    pub max_fuel: u64,
}

/// The fuel budget of an execution when none is configured.
pub const DEFAULT_MAX_FUEL: u64 = 50_000_000;

impl Default for ExecutionConfig {
    fn default() -> (res: Self)
        ensures
            res.max_fuel == DEFAULT_MAX_FUEL,
    {
        ExecutionConfig { max_fuel: DEFAULT_MAX_FUEL }
    }
}

/// The fuel a run consumed: its budget less what remained (none when more remained).
pub fn fuel_consumed(max_fuel: u64, remaining: u64) -> (res: u64)
    ensures
        res == (if remaining <= max_fuel { max_fuel - remaining } else { 0 }),
{
    max_fuel.saturating_sub(remaining)
}

/// The output pointer and length packed in an entry point's 64-bit result:
/// the high 32 bits, then the low 32 bits, each read as a signed number.
pub fn unpack_output(packed: i64) -> (res: (i32, i32))
    ensures
        res.0 == (packed >> 32i64) as i32,
        res.1 == packed as i32,
{
    ((packed >> 32i64) as i32, packed as i32)
}

/// The little-endian 32-bit signed number in four bytes.
pub open spec fn spec_le_i32(b: Seq<u8>) -> i32 {
    ((b[0] as u32) | ((b[1] as u32) << 8u32) | ((b[2] as u32) << 16u32) | ((b[3] as u32) << 24u32)) as i32
}

/// The output pointer and length that an entry point wrote to its result
/// area: two little-endian 32-bit numbers.
pub fn read_output_slot(meta: &[u8; 8]) -> (res: (i32, i32))
    ensures
        res.0 == spec_le_i32(meta@.subrange(0, 4)),
        res.1 == spec_le_i32(meta@.subrange(4, 8)),
{
    let p = ((meta[0] as u32) | ((meta[1] as u32) << 8u32) | ((meta[2] as u32) << 16u32) | ((meta[3] as u32) << 24u32)) as i32;
    let l = ((meta[4] as u32) | ((meta[5] as u32) << 8u32) | ((meta[6] as u32) << 16u32) | ((meta[7] as u32) << 24u32)) as i32;
    (p, l)
}

/// What a state read answers a program with a buffer of `out_cap` bytes:
/// the value's length when it fits, else the negated length it needs.
pub fn state_get_answer(value_len: usize, out_cap: i32) -> (res: i32)
    ensures
        res == (if (value_len as i32) > out_cap { (-(value_len as i32)) as i32 } else { value_len as i32 }),
{
    let len = value_len as i32;
    if len > out_cap {
        if len == i32::MIN {
            assert(((-(len as int)) as i32) == i32::MIN) by (bit_vector)
                requires
                    len == i32::MIN,
            ;
            return i32::MIN;
        }
        -len
    } else {
        len
    }
}

fn copy_pairs(pairs: &[(Vec<u8>, Vec<u8>)], out: &mut Vec<(Vec<u8>, Vec<u8>)>)
    ensures
        final(out)@.len() == old(out)@.len() + pairs@.len(),
        forall|i: int| 0 <= i < old(out)@.len() ==> #[trigger] final(out)@[i] == old(out)@[i],
        forall|i: int| 0 <= i < pairs@.len() ==> (#[trigger] final(out)@[old(out)@.len() + i]).0@ == pairs@[i].0@
            && final(out)@[old(out)@.len() + i].1@ == pairs@[i].1@,
{
    let ghost start = out@;
    let mut i: usize = 0;
    while i < pairs.len()
        invariant
            i <= pairs@.len(),
            out@.len() == start.len() + i,
            forall|j: int| 0 <= j < start.len() ==> #[trigger] out@[j] == start[j],
            forall|j: int| 0 <= j < i ==> (#[trigger] out@[start.len() + j]).0@ == pairs@[j].0@
                && out@[start.len() + j].1@ == pairs@[j].1@,
        decreases pairs@.len() - i,
    {
        out.push((copy_bytes(&pairs[i].0), copy_bytes(&pairs[i].1)));
        i = i + 1;
    }
}

/// The root a program sees while writes are pending: the sparse Merkle
/// root of its stored state with the pending writes applied over it.
pub fn overlay_root(state: &[(Vec<u8>, Vec<u8>)], pairs: &Vec<(Vec<u8>, Vec<u8>)>) -> (res: [u8; 32])
    ensures
        res == spec_sparse_root(state@ + pairs@),
{
    let mut all: Vec<(Vec<u8>, Vec<u8>)> = Vec::new();
    copy_pairs(state, &mut all);
    let ghost mid = all@;
    copy_pairs(pairs.as_slice(), &mut all);
    let root = sparse_merkle_root(all.as_slice());
    proof {
        let want = state@ + pairs@;
        assert forall|i: int| 0 <= i < want.len() implies (#[trigger] all@[i]).0@ == want[i].0@ && all@[i].1@ == want[i].1@ by {
            if i >= state@.len() {
                let j = i - state@.len();
                assert(all@[mid.len() + j].0@ == pairs@[j].0@);
                assert(want[i] == pairs@[j]);
            } else {
                assert(all@[i] == mid[i]);
                assert(mid[0 + i].0@ == state@[i].0@);
                assert(want[i] == state@[i]);
            }
        }
        lemma_sparse_root_views(all@, want);
    }
    root
}

/// The order of pending writes: by key, as byte strings.
pub open spec fn key_order() -> spec_fn((Vec<u8>, Vec<u8>), (Vec<u8>, Vec<u8>)) -> bool {
    |a: (Vec<u8>, Vec<u8>), b: (Vec<u8>, Vec<u8>)| lex_le(a.0@, b.0@)
}

fn key_le(a: &Vec<u8>, b: &Vec<u8>) -> (res: bool)
    ensures
        res == lex_le(a@, b@),
{
    let mut i: usize = 0;
    assert(a@.skip(0) =~= a@);
    assert(b@.skip(0) =~= b@);
    while i < a.len()
        invariant
            i <= a@.len(),
            i <= b@.len(),
            lex_le(a@, b@) == lex_le(a@.skip(i as int), b@.skip(i as int)),
        decreases a@.len() - i,
    {
        if i >= b.len() {
            assert(b@.skip(i as int).len() == 0);
            assert(a@.skip(i as int).len() > 0);
            return false;
        }
        assert(a@.skip(i as int).drop_first() =~= a@.skip(i + 1));
        assert(b@.skip(i as int).drop_first() =~= b@.skip(i + 1));
        if a[i] < b[i] {
            return true;
        }
        if a[i] > b[i] {
            return false;
        }
        i = i + 1;
    }
    true
}

pub(crate) proof fn lemma_empty_multiset<A>()
    ensures
        Seq::<A>::empty().to_multiset() =~= vstd::multiset::Multiset::<A>::empty(),
{
    broadcast use vstd::seq_lib::group_to_multiset_ensures, vstd::multiset::group_multiset_axioms;
    vstd::multiset::lemma_multiset_empty_len(Seq::<A>::empty().to_multiset());
}

/// The pending writes of a run, ordered by key, as state writes that set
/// each key to its value.
pub fn ordered_state_writes(pending: Vec<(Vec<u8>, Vec<u8>)>) -> (res: Vec<StateWrite>)
    ensures
        res@.len() == pending@.len(),
        exists|sorted: Seq<(Vec<u8>, Vec<u8>)>| {
            &&& vstd::relations::sorted_by(sorted, key_order())
            &&& sorted.to_multiset() == pending@.to_multiset()
            &&& sorted.len() == res@.len()
            &&& forall|i: int| 0 <= i < sorted.len() ==> (#[trigger] res@[i]).key == sorted[i].0
                && res@[i].value == Some(sorted[i].1)
        },
{
    broadcast use vstd::seq_lib::to_multiset_build, vstd::seq_lib::to_multiset_insert, vstd::seq_lib::to_multiset_remove;
    let ghost leq = key_order();
    let ghost input = pending@;
    let mut rest = pending;
    let mut out: Vec<(Vec<u8>, Vec<u8>)> = Vec::new();
    proof {
        lemma_empty_multiset::<(Vec<u8>, Vec<u8>)>();
        assert(out@.to_multiset().add(rest@.to_multiset()) =~= input.to_multiset());
    }
    while rest.len() > 0
        invariant
            leq == key_order(),
            vstd::relations::sorted_by(out@, leq),
            out@.to_multiset().add(rest@.to_multiset()) == input.to_multiset(),
            out@.len() + rest@.len() == input.len(),
        decreases rest@.len(),
    {
        let ghost rest_before = rest@;
        let x = rest.remove(0);
        proof {
            assert(rest_before =~= seq![x] + rest@);
            vstd::seq_lib::to_multiset_remove(rest_before, 0);
        }
        let mut j: usize = 0;
        while j < out.len() && key_le(&out[j].0, &x.0)
            invariant
                j <= out@.len(),
                leq == key_order(),
                forall|k: int| 0 <= k < j ==> leq(#[trigger] out@[k], x),
            decreases out@.len() - j,
        {
            j = j + 1;
        }
        let ghost before = out@;
        out.insert(j, x);
        proof {
            if j < before.len() {
                assert(!leq(before[j as int], x));
                lemma_lex_total(before[j as int].0@, x.0@);
                assert(leq(x, before[j as int]));
                assert forall|q: int| j < q < before.len() implies lex_le(before[j as int].0@, before[q].0@) by {
                    assert(leq(before[j as int], before[q]));
                }
            }
            assert forall|p: int, q: int| 0 <= p < q < out@.len() implies leq(out@[p], out@[q]) by {
                if q < j {
                    assert(out@[p] == before[p] && out@[q] == before[q]);
                } else if q == j {
                    assert(out@[p] == before[p]);
                } else if p < j {
                    assert(out@[p] == before[p] && out@[q] == before[q - 1]);
                    if q - 1 > j {
                        lemma_lex_transitive(x.0@, before[j as int].0@, before[q - 1].0@);
                    }
                    lemma_lex_transitive(before[p].0@, x.0@, before[q - 1].0@);
                } else if p == j {
                    assert(out@[q] == before[q - 1]);
                    if q - 1 > j {
                        lemma_lex_transitive(x.0@, before[j as int].0@, before[q - 1].0@);
                    }
                } else {
                    assert(out@[p] == before[p - 1] && out@[q] == before[q - 1]);
                }
            }
            assert(out@ == before.insert(j as int, x));
            vstd::seq_lib::to_multiset_insert(before, j as int, x);
            assert(rest@ =~= rest_before.remove(0));
            broadcast use vstd::seq_lib::group_to_multiset_ensures, vstd::multiset::group_multiset_axioms;
            assert(rest_before.to_multiset().count(x) > 0);
            assert(out@.to_multiset().add(rest@.to_multiset()) =~= input.to_multiset());
        }
    }
    assert(rest@ =~= Seq::<(Vec<u8>, Vec<u8>)>::empty());
    let ghost sorted = out@;
    let mut writes: Vec<StateWrite> = Vec::new();
    let mut pairs = out;
    let mut i: usize = 0;
    let n = pairs.len();
    while pairs.len() > 0
        invariant
            n == sorted.len(),
            pairs@.len() + writes@.len() == n,
            pairs@ == sorted.skip(writes@.len() as int),
            forall|k: int| 0 <= k < writes@.len() ==> (#[trigger] writes@[k]).key == sorted[k].0
                && writes@[k].value == Some(sorted[k].1),
        decreases pairs@.len(),
    {
        let ghost before = pairs@;
        let (key, value) = pairs.remove(0);
        proof {
            assert(pairs@ =~= sorted.skip(writes@.len() as int + 1));
        }
        writes.push(StateWrite { key, value: Some(value) });
    }
    proof {
        assert(sorted.to_multiset() == input.to_multiset()) by {
            lemma_empty_multiset::<(Vec<u8>, Vec<u8>)>();
            assert(sorted.to_multiset().add(vstd::multiset::Multiset::empty()) =~= sorted.to_multiset());
        }
    }
    writes
}

/// Whatever order the pending writes were put in, the root with them applied
/// is the same: two pending lists that write the same key/value map give the
/// same root over any stored state, as long as no two distinct keys share a
/// BLAKE3 digest.
pub proof fn lemma_overlay_root_order_invariant(
    state: Seq<(Vec<u8>, Vec<u8>)>,
    p1: Seq<(Vec<u8>, Vec<u8>)>,
    p2: Seq<(Vec<u8>, Vec<u8>)>,
)
    requires
        spec_pairs_map(p1) == spec_pairs_map(p2),
        spec_key_digests_distinct(state + p1),
        spec_key_digests_distinct(state + p2),
    ensures
        spec_sparse_root(state + p1) == spec_sparse_root(state + p2),
{
    lemma_pairs_map_concat(state, p1);
    lemma_pairs_map_concat(state, p2);
    lemma_sparse_root_order_invariant(state + p1, state + p2);
}

/// The writes a running program has made and not yet applied: the latest
/// value per key.
#[derive(Clone, Debug)]
pub struct PendingWrites {
    /// Key and value pairs; the first entry for a key gives its value.
    pub entries: Vec<(Vec<u8>, Vec<u8>)>,
}

impl PendingWrites {
    /// The pending value of `key`.
    pub open spec fn lookup(&self, key: Seq<u8>) -> Option<Vec<u8>> {
        spec_lookup(self.entries@, key)
    }

    /// No pending writes.
    pub fn new() -> (res: Self)
        ensures
            forall|k: Seq<u8>| #[trigger] res.lookup(k) is None,
    {
        PendingWrites { entries: Vec::new() }
    }

    /// A program wrote `value` under `key`: a later read of the key sees it,
    /// and every other key keeps its pending value.
    pub fn put(&mut self, key: Vec<u8>, value: Vec<u8>)
        ensures
            final(self).lookup(key@) matches Some(v) && v@ == value@,
            forall|q: Seq<u8>| q != key@ ==> #[trigger] final(self).lookup(q) == old(self).lookup(q),
    {
        let ghost before = self.entries@;
        let ghost k = key@;
        match find_key(&self.entries, &key) {
            Some(i) => {
                let x = (key, value);
                self.entries[i] = x;
                proof {
                    assert(self.entries@ == before.update(i as int, x));
                    assert forall|q: Seq<u8>| #[trigger] spec_lookup(self.entries@, q) == (if q == x.0@ {
                        Some(x.1)
                    } else {
                        spec_lookup(before, q)
                    }) by {
                        lemma_lookup_update(before, i as int, x, q);
                    }
                }
            },
            None => {
                let x = (key, value);
                self.entries.push(x);
                proof {
                    assert forall|q: Seq<u8>| #[trigger] spec_lookup(self.entries@, q) == (if spec_lookup(before, q) is Some {
                        spec_lookup(before, q)
                    } else if x.0@ == q {
                        Some(x.1)
                    } else {
                        None
                    }) by {
                        lemma_lookup_push(before, x, q);
                    }
                }
            },
        }
    }

    /// The pending value of `key`, if the program wrote one.
    pub fn get(&self, key: &Vec<u8>) -> (res: Option<Vec<u8>>)
        ensures
            match self.lookup(key@) {
                Some(v) => res matches Some(r) && r@ == v@,
                None => res is None,
            },
    {
        match find_key(&self.entries, key) {
            Some(i) => Some(copy_bytes(&self.entries[i].1)),
            None => None,
        }
    }
}

} // verus!
