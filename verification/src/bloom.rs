//! Salted Bloom filter over program identifiers, exchanged during inventory sync.

use vstd::prelude::*;
use crate::hashing::{blake3_keyed_hash, keyed_hash_bytes, random_bytes32};

verus! {

/// A Bloom filter: `k` probes per item, each a keyed BLAKE3 hash of the item
/// under the salt with its first byte XOR-ed by the probe number.
#[derive(Clone, Debug, PartialEq, Eq)]
pub struct BloomFilter {
    pub bits: Vec<u8>,
    pub k: u8,
    pub salt: [u8; 32],
}

/// Little-endian value of the first eight bytes.
pub open spec fn spec_le_u64(b: Seq<u8>) -> int {
    b[0] + b[1] * 0x100 + b[2] * 0x1_0000 + b[3] * 0x100_0000 + b[4] * 0x1_0000_0000
        + b[5] * 0x100_0000_0000 + b[6] * 0x1_0000_0000_0000 + b[7] * 0x100_0000_0000_0000
}

/// The bit that a hash selects in a filter of `nbytes` bytes.
pub open spec fn spec_bit_index(nbytes: int, hash: Seq<u8>) -> int {
    ((spec_le_u64(hash) as u64) as usize) as int % (nbytes * 8)
}

/// Whether bit `idx` is set.
pub open spec fn spec_bit_set(bits: Seq<u8>, idx: int) -> bool {
    bits[idx / 8] & (1u8 << ((idx % 8) as u8)) != 0u8
}

/// The bits with bit `idx` set.
pub open spec fn spec_set_bit(bits: Seq<u8>, idx: int) -> Seq<u8> {
    bits.update(idx / 8, bits[idx / 8] | (1u8 << ((idx % 8) as u8)))
}

/// The key of probe `i`: the salt with its first byte XOR-ed by `i`.
pub open spec fn spec_probe_key(salt: [u8; 32], i: u8) -> Seq<u8> {
    salt@.update(0, salt[0] ^ i)
}

/// The bit that probe `i` selects for `data`.
pub open spec fn spec_probe_index(nbytes: int, salt: [u8; 32], i: u8, data: Seq<u8>) -> int {
    spec_bit_index(nbytes, blake3_keyed_hash(spec_probe_key(salt, i), data)@)
}

/// The bits after the first `n` probes of `data` have been set.
pub open spec fn spec_insert_probes(bits: Seq<u8>, salt: [u8; 32], data: Seq<u8>, n: int) -> Seq<u8>
    decreases n,
{
    if n <= 0 {
        bits
    } else {
        let prev = spec_insert_probes(bits, salt, data, n - 1);
        spec_set_bit(prev, spec_probe_index(bits.len() as int, salt, (n - 1) as u8, data))
    }
}

/// The bits after inserting `data`.
pub open spec fn spec_insert(bits: Seq<u8>, k: u8, salt: [u8; 32], data: Seq<u8>) -> Seq<u8> {
    spec_insert_probes(bits, salt, data, k as int)
}

/// The bits after inserting every item of `items`, in order.
pub open spec fn spec_insert_all(bits: Seq<u8>, k: u8, salt: [u8; 32], items: Seq<[u8; 32]>) -> Seq<u8>
    decreases items.len(),
{
    if items.len() == 0 {
        bits
    } else {
        spec_insert(spec_insert_all(bits, k, salt, items.drop_last()), k, salt, items.last()@)
    }
}

/// Whether every probe of `data` hits a set bit.
pub open spec fn spec_contains(bits: Seq<u8>, k: u8, salt: [u8; 32], data: Seq<u8>) -> bool {
    forall|i: int| 0 <= i < k ==> #[trigger] spec_bit_set(bits, spec_probe_index(bits.len() as int, salt, i as u8, data))
}

impl BloomFilter {
    /// The filter has bits to probe and its bit count fits in a `usize`.
    pub open spec fn wf(&self) -> bool {
        0 < self.bits@.len() && self.bits@.len() * 8 <= usize::MAX
    }

    /// An empty filter of `size_bytes` bytes (at least one) and a random salt.
    pub fn new(size_bytes: usize, k: u8) -> (res: Self)
        requires
            size_bytes <= usize::MAX / 8,
        ensures
            res.wf(),
            res.k == k,
            res.bits@ == Seq::new(if size_bytes > 1 { size_bytes as nat } else { 1 }, |i: int| 0u8),
    {
        let salt = random_bytes32();
        let n = if size_bytes > 1 { size_bytes } else { 1 };
        let mut bits: Vec<u8> = Vec::with_capacity(n);
        let mut i: usize = 0;
        while i < n
            invariant
                i <= n,
                bits@ == Seq::new(i as nat, |j: int| 0u8),
            decreases n - i,
        {
            bits.push(0u8);
            i = i + 1;
            assert(bits@ =~= Seq::new(i as nat, |j: int| 0u8));
        }
        BloomFilter { bits, k, salt }
    }

    /// Insert an item: set the bit of each of the `k` probes.
    pub fn insert(&mut self, data: &[u8])
        requires
            old(self).wf(),
        ensures
            final(self).wf(),
            final(self).k == old(self).k,
            final(self).salt == old(self).salt,
            final(self).bits@ == spec_insert(old(self).bits@, old(self).k, old(self).salt, data@),
    {
        let ghost start = self.bits@;
        let mut i: u8 = 0;
        while i < self.k
            invariant
                self.wf(),
                self.k == old(self).k,
                self.salt == old(self).salt,
                start == old(self).bits@,
                start.len() > 0,
                i <= self.k,
                self.bits@ == spec_insert_probes(start, self.salt, data@, i as int),
            decreases self.k - i,
        {
            let mut key = self.salt;
            key[0] = key[0] ^ i;
            assert(key@ =~= spec_probe_key(self.salt, i));
            let hash = keyed_hash_bytes(&key, data);
            proof {
                lemma_insert_probes_len(start, self.salt, data@, i as int);
            }
            self.set_bit(&hash);
            i = i + 1;
        }
    }

    /// Whether every probe of the item hits a set bit.
    pub fn contains(&self, data: &[u8]) -> (res: bool)
        requires
            self.wf(),
        ensures
            res == spec_contains(self.bits@, self.k, self.salt, data@),
    {
        let mut i: u8 = 0;
        while i < self.k
            invariant
                self.wf(),
                i <= self.k,
                forall|j: int| 0 <= j < i ==> #[trigger] spec_bit_set(self.bits@, spec_probe_index(self.bits@.len() as int, self.salt, j as u8, data@)),
            decreases self.k - i,
        {
            let mut key = self.salt;
            key[0] = key[0] ^ i;
            assert(key@ =~= spec_probe_key(self.salt, i));
            let hash = keyed_hash_bytes(&key, data);
            if !self.get_bit(&hash) {
                assert(spec_probe_index(self.bits@.len() as int, self.salt, (i as int) as u8, data@)
                    == spec_bit_index(self.bits@.len() as int, hash@));
                return false;
            }
            i = i + 1;
        }
        true
    }

    fn set_bit(&mut self, hash: &[u8])
        requires
            old(self).wf(),
        ensures
            final(self).wf(),
            final(self).k == old(self).k,
            final(self).salt == old(self).salt,
            final(self).bits@ == if hash@.len() >= 8 {
                spec_set_bit(old(self).bits@, spec_bit_index(old(self).bits@.len() as int, hash@))
            } else {
                old(self).bits@
            },
    {
        if hash.len() < 8 {
            return;
        }
        let idx = (le_u64(hash) as usize) % (self.bits.len() * 8);
        let byte = idx / 8;
        let bit = idx % 8;
        let b = self.bits[byte] | (1u8 << (bit as u8));
        self.bits.set(byte, b);
    }

    fn get_bit(&self, hash: &[u8]) -> (res: bool)
        requires
            self.wf(),
        ensures
            res == (hash@.len() >= 8 && spec_bit_set(self.bits@, spec_bit_index(self.bits@.len() as int, hash@))),
    {
        if hash.len() < 8 {
            return false;
        }
        let idx = (le_u64(hash) as usize) % (self.bits.len() * 8);
        let byte = idx / 8;
        let bit = idx % 8;
        (self.bits[byte] & (1u8 << (bit as u8))) != 0
    }

    /// A filter of 256 bytes and three probes holding every program identifier.
    pub fn from_programs(ids: &[[u8; 32]]) -> (res: Self)
        ensures
            res.wf(),
            res.k == 3,
            res.bits@ == spec_insert_all(Seq::new(256, |i: int| 0u8), 3, res.salt, ids@),
    {
        let mut bloom = Self::new(256, 3);
        let ghost zero = bloom.bits@;
        let mut i: usize = 0;
        while i < ids.len()
            invariant
                bloom.wf(),
                bloom.k == 3,
                zero == Seq::new(256, |i: int| 0u8),
                i <= ids@.len(),
                bloom.bits@ == spec_insert_all(zero, 3, bloom.salt, ids@.take(i as int)),
            decreases ids@.len() - i,
        {
            assert(ids@.take(i + 1).drop_last() =~= ids@.take(i as int));
            bloom.insert(&ids[i]);
            i = i + 1;
        }
        assert(ids@.take(ids@.len() as int) =~= ids@);
        bloom
    }
}

/// The salt a filter gets when none was transmitted.
pub fn default_bloom_salt() -> (res: [u8; 32])
    ensures
        res@ == Seq::new(32, |i: int| 0u8),
{
    let res = [0u8; 32];
    assert(res@ =~= Seq::new(32, |i: int| 0u8));
    res
}

/// Little-endian value of the first eight bytes.
fn le_u64(b: &[u8]) -> (res: u64)
    requires
        b@.len() >= 8,
    ensures
        res == spec_le_u64(b@),
{
    b[0] as u64 + b[1] as u64 * 0x100 + b[2] as u64 * 0x1_0000 + b[3] as u64 * 0x100_0000
        + b[4] as u64 * 0x1_0000_0000 + b[5] as u64 * 0x100_0000_0000
        + b[6] as u64 * 0x1_0000_0000_0000 + b[7] as u64 * 0x100_0000_0000_0000
}

/// The bit a hash selects lies in the filter.
proof fn lemma_bit_index_in_range(nbytes: int, hash: Seq<u8>)
    requires
        nbytes > 0,
    ensures
        0 <= spec_bit_index(nbytes, hash) < nbytes * 8,
        0 <= spec_bit_index(nbytes, hash) / 8 < nbytes,
{
    let x = ((spec_le_u64(hash) as u64) as usize) as int;
    assert(0 <= x % (nbytes * 8) < nbytes * 8) by (nonlinear_arith)
        requires
            nbytes > 0,
            x >= 0,
    ;
    let idx = x % (nbytes * 8);
    assert(idx / 8 < nbytes) by (nonlinear_arith)
        requires
            0 <= idx < nbytes * 8,
    ;
}

proof fn lemma_insert_probes_len(bits: Seq<u8>, salt: [u8; 32], data: Seq<u8>, n: int)
    requires
        bits.len() > 0,
    ensures
        spec_insert_probes(bits, salt, data, n).len() == bits.len(),
    decreases n,
{
    if n > 0 {
        lemma_insert_probes_len(bits, salt, data, n - 1);
        lemma_bit_index_in_range(bits.len() as int, blake3_keyed_hash(spec_probe_key(salt, (n - 1) as u8), data)@);
    }
}

proof fn lemma_or_mask(a: u8, s: u8, t: u8)
    requires
        s < 8,
        t < 8,
    ensures
        (a | (1u8 << s)) & (1u8 << s) != 0u8,
        (a & (1u8 << t)) != 0u8 ==> ((a | (1u8 << s)) & (1u8 << t)) != 0u8,
{
    assert((a | (1u8 << s)) & (1u8 << s) != 0u8) by (bit_vector)
        requires
            s < 8,
    ;
    assert((a & (1u8 << t)) != 0u8 ==> ((a | (1u8 << s)) & (1u8 << t)) != 0u8) by (bit_vector)
        requires
            s < 8,
            t < 8,
    ;
}

/// Setting a bit sets it, keeps every bit that was set, and keeps the length.
proof fn lemma_set_bit(bits: Seq<u8>, idx: int, other: int)
    requires
        0 <= idx < bits.len() * 8,
        0 <= other < bits.len() * 8,
    ensures
        spec_set_bit(bits, idx).len() == bits.len(),
        spec_bit_set(spec_set_bit(bits, idx), idx),
        spec_bit_set(bits, other) ==> spec_bit_set(spec_set_bit(bits, idx), other),
{
    let nb = spec_set_bit(bits, idx);
    assert(idx / 8 < bits.len()) by (nonlinear_arith)
        requires
            0 <= idx < bits.len() * 8,
    ;
    assert(other / 8 < bits.len()) by (nonlinear_arith)
        requires
            0 <= other < bits.len() * 8,
    ;
    lemma_or_mask(bits[idx / 8], (idx % 8) as u8, (other % 8) as u8);
    if other / 8 != idx / 8 {
        assert(nb[other / 8] == bits[other / 8]);
    }
}

proof fn lemma_insert_probes_keeps(bits: Seq<u8>, salt: [u8; 32], data: Seq<u8>, n: int, other: int)
    requires
        bits.len() > 0,
        0 <= other < bits.len() * 8,
        spec_bit_set(bits, other),
    ensures
        spec_bit_set(spec_insert_probes(bits, salt, data, n), other),
    decreases n,
{
    if n > 0 {
        lemma_insert_probes_keeps(bits, salt, data, n - 1, other);
        lemma_insert_probes_len(bits, salt, data, n - 1);
        let prev = spec_insert_probes(bits, salt, data, n - 1);
        let h = blake3_keyed_hash(spec_probe_key(salt, (n - 1) as u8), data)@;
        lemma_bit_index_in_range(bits.len() as int, h);
        lemma_set_bit(prev, spec_bit_index(bits.len() as int, h), other);
    }
}

proof fn lemma_insert_probes_sets(bits: Seq<u8>, salt: [u8; 32], data: Seq<u8>, n: int, i: int)
    requires
        bits.len() > 0,
        0 <= i < n,
        n <= 256,
    ensures
        spec_bit_set(spec_insert_probes(bits, salt, data, n), spec_probe_index(bits.len() as int, salt, i as u8, data)),
    decreases n,
{
    let prev = spec_insert_probes(bits, salt, data, n - 1);
    lemma_insert_probes_len(bits, salt, data, n - 1);
    let h = blake3_keyed_hash(spec_probe_key(salt, (n - 1) as u8), data)@;
    lemma_bit_index_in_range(bits.len() as int, h);
    let target = spec_probe_index(bits.len() as int, salt, i as u8, data);
    lemma_bit_index_in_range(bits.len() as int, blake3_keyed_hash(spec_probe_key(salt, i as u8), data)@);
    if i == n - 1 {
        lemma_set_bit(prev, target, target);
    } else {
        lemma_insert_probes_sets(bits, salt, data, n - 1, i);
        lemma_set_bit(prev, spec_bit_index(bits.len() as int, h), target);
    }
}

/// An inserted item is found: `contains` answers true right after `insert`.
pub proof fn lemma_insert_then_contains(bits: Seq<u8>, k: u8, salt: [u8; 32], data: Seq<u8>)
    requires
        bits.len() > 0,
    ensures
        spec_contains(spec_insert(bits, k, salt, data), k, salt, data),
{
    lemma_insert_probes_len(bits, salt, data, k as int);
    assert forall|i: int| 0 <= i < k implies #[trigger] spec_bit_set(
        spec_insert(bits, k, salt, data),
        spec_probe_index(spec_insert(bits, k, salt, data).len() as int, salt, i as u8, data),
    ) by {
        lemma_insert_probes_sets(bits, salt, data, k as int, i);
    }
}

/// Inserting never removes an item: what the filter contained before an
/// insert, it still contains after it (no false negatives).
pub proof fn lemma_insert_keeps_contained(bits: Seq<u8>, k: u8, salt: [u8; 32], data: Seq<u8>, other: Seq<u8>)
    requires
        bits.len() > 0,
        spec_contains(bits, k, salt, other),
    ensures
        spec_contains(spec_insert(bits, k, salt, data), k, salt, other),
{
    lemma_insert_probes_len(bits, salt, data, k as int);
    assert forall|i: int| 0 <= i < k implies #[trigger] spec_bit_set(
        spec_insert(bits, k, salt, data),
        spec_probe_index(spec_insert(bits, k, salt, data).len() as int, salt, i as u8, other),
    ) by {
        let idx = spec_probe_index(bits.len() as int, salt, i as u8, other);
        assert(spec_bit_set(bits, idx));
        lemma_bit_index_in_range(bits.len() as int, blake3_keyed_hash(spec_probe_key(salt, i as u8), other)@);
        lemma_insert_probes_keeps(bits, salt, data, k as int, idx);
    }
}

proof fn lemma_insert_all_len(bits: Seq<u8>, k: u8, salt: [u8; 32], items: Seq<[u8; 32]>)
    requires
        bits.len() > 0,
    ensures
        spec_insert_all(bits, k, salt, items).len() == bits.len(),
    decreases items.len(),
{
    if items.len() > 0 {
        lemma_insert_all_len(bits, k, salt, items.drop_last());
        lemma_insert_probes_len(spec_insert_all(bits, k, salt, items.drop_last()), salt, items.last()@, k as int);
    }
}

/// Every identifier a filter is built from is contained in it.
pub proof fn lemma_insert_all_contains(bits: Seq<u8>, k: u8, salt: [u8; 32], items: Seq<[u8; 32]>, j: int)
    requires
        bits.len() > 0,
        0 <= j < items.len(),
    ensures
        spec_contains(spec_insert_all(bits, k, salt, items), k, salt, items[j]@),
    decreases items.len(),
{
    let prev = spec_insert_all(bits, k, salt, items.drop_last());
    lemma_insert_all_len(bits, k, salt, items.drop_last());
    if j == items.len() - 1 {
        lemma_insert_then_contains(prev, k, salt, items[j]@);
    } else {
        assert(items.drop_last()[j] == items[j]);
        lemma_insert_all_contains(bits, k, salt, items.drop_last(), j);
        lemma_insert_keeps_contained(prev, k, salt, items.last()@, items[j]@);
    }
}

} // verus!
