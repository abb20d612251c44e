//! Merkle commitments over key/value pairs: a sorted binary Merkle root and a
//! 256-level sparse Merkle tree with inclusion proofs.

use vstd::prelude::*;
use crate::hashing::{blake3_hash, hash_bytes, digest_eq};

verus! {

/// Domain tag of sparse-tree leaves: the bytes of "leaf".
pub const LEAF_TAG: [u8; 4] = [108, 101, 97, 102];

/// Domain tag of sparse-tree interior nodes: the bytes of "node".
pub const NODE_TAG: [u8; 4] = [110, 111, 100, 101];

/// Hashed to give the root of an empty key/value set: the bytes of "onvm-empty-root".
pub const EMPTY_ROOT_LABEL: [u8; 15] = [111, 110, 118, 109, 45, 101, 109, 112, 116, 121, 45, 114, 111, 111, 116];

/// Constant for empty sparse nodes: the bytes of "onvm-smt-empty-onvm-smt-empty!!" and a zero.
pub const SMT_EMPTY: [u8; 32] = [
    111, 110, 118, 109, 45, 115, 109, 116, 45, 101, 109, 112, 116, 121, 45, 111,
    110, 118, 109, 45, 115, 109, 116, 45, 101, 109, 112, 116, 121, 33, 33, 0,
];

/// A sparse-tree leaf: the hash of a key and the leaf hash that commits to its value.
pub type SmtLeaf = ([u8; 32], [u8; 32]);

// ---------------------------------------------------------------------------
// Specification
// ---------------------------------------------------------------------------

pub open spec fn spec_hash_leaf(key_hash: [u8; 32], value_hash: [u8; 32]) -> [u8; 32] {
    blake3_hash(LEAF_TAG@ + key_hash@ + value_hash@)
}

pub open spec fn spec_hash_internal(left: [u8; 32], right: [u8; 32]) -> [u8; 32] {
    blake3_hash(NODE_TAG@ + left@ + right@)
}

/// Bit `depth` of a 256-bit key, most significant bit of byte 0 first.
pub open spec fn spec_bit_at(key: [u8; 32], depth: int) -> bool {
    (key[depth / 8] >> ((7 - depth % 8) as u8)) & 1u8 == 1u8
}

/// The leaves whose key has bit `level` clear.
pub open spec fn spec_left(leaves: Seq<SmtLeaf>, level: int) -> Seq<SmtLeaf> {
    leaves.filter(|p: SmtLeaf| !spec_bit_at(p.0, level))
}

/// The leaves whose key has bit `level` set.
pub open spec fn spec_right(leaves: Seq<SmtLeaf>, level: int) -> Seq<SmtLeaf> {
    leaves.filter(|p: SmtLeaf| spec_bit_at(p.0, level))
}

/// Root of the sparse subtree at `level` holding `leaves`.
pub open spec fn spec_smt_root(level: int, leaves: Seq<SmtLeaf>) -> [u8; 32]
    decreases 256 - level,
{
    if leaves.len() == 0 {
        SMT_EMPTY
    } else if level >= 256 {
        leaves[0].1
    } else {
        spec_hash_internal(
            spec_smt_root(level + 1, spec_left(leaves, level)),
            spec_smt_root(level + 1, spec_right(leaves, level)),
        )
    }
}

/// Sibling hashes on the path to `target` below `level`, deepest first.
pub open spec fn spec_smt_path(level: int, leaves: Seq<SmtLeaf>, target: [u8; 32]) -> Seq<[u8; 32]>
    decreases 256 - level,
{
    if leaves.len() == 0 {
        if level >= 256 {
            Seq::empty()
        } else {
            Seq::new((256 - level) as nat, |i: int| SMT_EMPTY)
        }
    } else if level >= 256 {
        Seq::empty()
    } else if spec_bit_at(target, level) {
        spec_smt_path(level + 1, spec_right(leaves, level), target).push(
            spec_smt_root(level + 1, spec_left(leaves, level)),
        )
    } else {
        spec_smt_path(level + 1, spec_left(leaves, level), target).push(
            spec_smt_root(level + 1, spec_right(leaves, level)),
        )
    }
}

/// The tree depth that proof entry `offset` is checked at.
pub open spec fn spec_proof_depth(offset: int) -> int {
    if offset <= 255 {
        255 - offset
    } else {
        0
    }
}

/// Hash obtained by folding the proof entries onto `leaf`, leaf to root.
pub open spec fn spec_fold_proof(key_hash: [u8; 32], leaf: [u8; 32], proof: Seq<[u8; 32]>) -> [u8; 32]
    decreases proof.len(),
{
    if proof.len() == 0 {
        leaf
    } else {
        let node = spec_fold_proof(key_hash, leaf, proof.drop_last());
        let sibling = proof.last();
        if spec_bit_at(key_hash, spec_proof_depth(proof.len() - 1)) {
            spec_hash_internal(sibling, node)
        } else {
            spec_hash_internal(node, sibling)
        }
    }
}

/// Position of the leaf with key hash `key` in `leaves`, searching from the back.
pub open spec fn spec_find_key(leaves: Seq<SmtLeaf>, key: [u8; 32]) -> Option<int>
    decreases leaves.len(),
{
    if leaves.len() == 0 {
        None
    } else if leaves.last().0 == key {
        Some(leaves.len() - 1)
    } else {
        spec_find_key(leaves.drop_last(), key)
    }
}

/// The sparse-tree leaf committing to one key/value pair.
pub open spec fn spec_pair_leaf(pair: (Vec<u8>, Vec<u8>)) -> SmtLeaf {
    let key_hash = blake3_hash(pair.0@);
    (key_hash, spec_hash_leaf(key_hash, blake3_hash(pair.1@)))
}

/// One leaf per distinct key hash, in order of first appearance; a later pair
/// with the same key hash replaces the value of an earlier one.
pub open spec fn spec_dedup(pairs: Seq<(Vec<u8>, Vec<u8>)>) -> Seq<SmtLeaf>
    decreases pairs.len(),
{
    if pairs.len() == 0 {
        Seq::empty()
    } else {
        let prev = spec_dedup(pairs.drop_last());
        let leaf = spec_pair_leaf(pairs.last());
        match spec_find_key(prev, leaf.0) {
            Some(i) => prev.update(i, leaf),
            None => prev.push(leaf),
        }
    }
}

/// The sparse Merkle root of a list of key/value pairs.
pub open spec fn spec_sparse_root(pairs: Seq<(Vec<u8>, Vec<u8>)>) -> [u8; 32] {
    spec_smt_root(0, spec_dedup(pairs))
}

/// The sparse root depends on the bytes of the keys and values alone.
pub proof fn lemma_sparse_root_views(p: Seq<(Vec<u8>, Vec<u8>)>, q: Seq<(Vec<u8>, Vec<u8>)>)
    requires
        p.len() == q.len(),
        forall|i: int| 0 <= i < p.len() ==> (#[trigger] p[i]).0@ == q[i].0@ && p[i].1@ == q[i].1@,
    ensures
        spec_dedup(p) == spec_dedup(q),
        spec_sparse_root(p) == spec_sparse_root(q),
    decreases p.len(),
{
    if p.len() > 0 {
        lemma_sparse_root_views(p.drop_last(), q.drop_last());
        assert(p.last().0@ == q.last().0@);
        assert(spec_pair_leaf(p.last()) == spec_pair_leaf(q.last()));
    }
}

/// The inclusion proof for `key` over a list of key/value pairs.
pub open spec fn spec_sparse_proof(pairs: Seq<(Vec<u8>, Vec<u8>)>, key: Seq<u8>) -> Seq<[u8; 32]> {
    spec_smt_path(0, spec_dedup(pairs), blake3_hash(key))
}

/// Whether a proof shows `key` bound to `value` under `root`.
pub open spec fn spec_verify_proof(key: Seq<u8>, value: Seq<u8>, proof: Seq<[u8; 32]>, root: [u8; 32]) -> bool {
    let key_hash = blake3_hash(key);
    spec_fold_proof(key_hash, spec_hash_leaf(key_hash, blake3_hash(value)), proof) == root
}


// ---------------------------------------------------------------------------
// Binary Merkle root over sorted leaves
// ---------------------------------------------------------------------------

/// Lexicographic order on byte strings, the order of `[u8; 32]` in Rust.
pub open spec fn lex_le(a: Seq<u8>, b: Seq<u8>) -> bool
    decreases a.len(),
{
    if a.len() == 0 {
        true
    } else if b.len() == 0 {
        false
    } else if a[0] < b[0] {
        true
    } else if a[0] > b[0] {
        false
    } else {
        lex_le(a.drop_first(), b.drop_first())
    }
}

/// The order in which Merkle leaves are sorted.
pub open spec fn leaf_order() -> spec_fn([u8; 32], [u8; 32]) -> bool {
    |a: [u8; 32], b: [u8; 32]| lex_le(a@, b@)
}

pub open spec fn spec_hash_pair(a: [u8; 32], b: [u8; 32]) -> [u8; 32] {
    blake3_hash(a@ + b@)
}

/// The leaf committing to one key/value pair.
pub open spec fn spec_kv_leaf(pair: (Vec<u8>, Vec<u8>)) -> [u8; 32] {
    spec_hash_pair(blake3_hash(pair.0@), blake3_hash(pair.1@))
}

pub open spec fn spec_kv_leaves(pairs: Seq<(Vec<u8>, Vec<u8>)>) -> Seq<[u8; 32]> {
    pairs.map_values(|p: (Vec<u8>, Vec<u8>)| spec_kv_leaf(p))
}

/// One level up: adjacent nodes hashed in pairs, an odd last node paired with itself.
pub open spec fn spec_next_level(nodes: Seq<[u8; 32]>) -> Seq<[u8; 32]> {
    Seq::new(
        ((nodes.len() + 1) / 2) as nat,
        |i: int|
            spec_hash_pair(
                nodes[2 * i],
                if 2 * i + 1 < nodes.len() {
                    nodes[2 * i + 1]
                } else {
                    nodes[2 * i]
                },
            ),
    )
}

/// Root of the binary tree built over `nodes` (which must not be empty).
pub open spec fn spec_reduce(nodes: Seq<[u8; 32]>) -> [u8; 32]
    decreases nodes.len(),
{
    if nodes.len() <= 1 {
        nodes[0]
    } else {
        spec_reduce(spec_next_level(nodes))
    }
}

/// The Merkle root of a list of key/value pairs: the tree over the pair
/// leaves in sorted order, or the hash of "onvm-empty-root" for no pairs.
pub open spec fn spec_merkle_root(pairs: Seq<(Vec<u8>, Vec<u8>)>) -> [u8; 32] {
    if pairs.len() == 0 {
        blake3_hash(EMPTY_ROOT_LABEL@)
    } else {
        spec_reduce(spec_kv_leaves(pairs).sort_by(leaf_order()))
    }
}

pub proof fn lemma_lex_reflexive(a: Seq<u8>)
    ensures
        lex_le(a, a),
    decreases a.len(),
{
    if a.len() > 0 {
        lemma_lex_reflexive(a.drop_first());
    }
}

proof fn lemma_lex_antisymmetric(a: Seq<u8>, b: Seq<u8>)
    requires
        lex_le(a, b),
        lex_le(b, a),
    ensures
        a == b,
    decreases a.len(),
{
    if a.len() > 0 && b.len() > 0 {
        lemma_lex_antisymmetric(a.drop_first(), b.drop_first());
        assert(a =~= seq![a[0]] + a.drop_first());
        assert(b =~= seq![b[0]] + b.drop_first());
    }
}

pub proof fn lemma_lex_transitive(a: Seq<u8>, b: Seq<u8>, c: Seq<u8>)
    requires
        lex_le(a, b),
        lex_le(b, c),
    ensures
        lex_le(a, c),
    decreases a.len(),
{
    if a.len() > 0 && b.len() > 0 && c.len() > 0 && a[0] == b[0] && b[0] == c[0] {
        lemma_lex_transitive(a.drop_first(), b.drop_first(), c.drop_first());
    }
}

pub proof fn lemma_lex_total(a: Seq<u8>, b: Seq<u8>)
    ensures
        lex_le(a, b) || lex_le(b, a),
    decreases a.len(),
{
    if a.len() > 0 && b.len() > 0 && a[0] == b[0] {
        lemma_lex_total(a.drop_first(), b.drop_first());
    }
}

proof fn lemma_leaf_order_total()
    ensures
        vstd::relations::total_ordering(leaf_order()),
{
    let leq = leaf_order();
    assert forall|x: [u8; 32]| #[trigger] leq(x, x) by {
        lemma_lex_reflexive(x@);
    }
    assert forall|x: [u8; 32], y: [u8; 32]| #[trigger] leq(x, y) && #[trigger] leq(y, x) implies x == y by {
        lemma_lex_antisymmetric(x@, y@);
        assert(x =~= y);
    }
    assert forall|x: [u8; 32], y: [u8; 32], z: [u8; 32]|
        #[trigger] leq(x, y) && #[trigger] leq(y, z) implies leq(x, z) by {
        lemma_lex_transitive(x@, y@, z@);
    }
    assert forall|x: [u8; 32], y: [u8; 32]| #[trigger] leq(x, y) || leq(y, x) by {
        lemma_lex_total(x@, y@);
    }
}

/// Two sorted arrangements of the same leaves are the same sequence.
proof fn lemma_sorted_unique(a: Seq<[u8; 32]>, b: Seq<[u8; 32]>)
    requires
        vstd::relations::sorted_by(a, leaf_order()),
        vstd::relations::sorted_by(b, leaf_order()),
        a.to_multiset() == b.to_multiset(),
    ensures
        a == b,
    decreases a.len(),
{
    broadcast use vstd::seq_lib::to_multiset_contains, vstd::seq_lib::to_multiset_len, vstd::seq_lib::to_multiset_remove;
    lemma_leaf_order_total();
    let leq = leaf_order();
    a.to_multiset_ensures();
    b.to_multiset_ensures();
    if a.len() == 0 {
        assert(b.len() == 0);
        assert(a =~= b);
    } else {
        assert(b.len() == a.len());
        assert(a.to_multiset().count(a[0]) > 0);
        assert(b.contains(a[0]));
        let k = choose|k: int| 0 <= k < b.len() && b[k] == a[0];
        assert(leq(b[0], a[0])) by {
            if k > 0 {
                assert(leq(b[0], b[k]));
            }
        }
        assert(a.to_multiset().count(b[0]) > 0);
        let m = choose|m: int| 0 <= m < a.len() && a[m] == b[0];
        assert(leq(a[0], b[0])) by {
            if m > 0 {
                assert(leq(a[0], a[m]));
            }
        }
        assert(a[0] == b[0]);
        let ra = a.remove(0);
        let rb = b.remove(0);
        assert(ra =~= a.drop_first());
        assert(rb =~= b.drop_first());
        assert(vstd::relations::sorted_by(ra, leq)) by {
            assert forall|i: int, j: int| 0 <= i < j < ra.len() implies leq(ra[i], ra[j]) by {
                assert(ra[i] == a[i + 1] && ra[j] == a[j + 1]);
            }
        }
        assert(vstd::relations::sorted_by(rb, leq)) by {
            assert forall|i: int, j: int| 0 <= i < j < rb.len() implies leq(rb[i], rb[j]) by {
                assert(rb[i] == b[i + 1] && rb[j] == b[j + 1]);
            }
        }
        lemma_sorted_unique(ra, rb);
        assert(a =~= seq![a[0]] + ra);
        assert(b =~= seq![b[0]] + rb);
    }
}

/// The Merkle root depends only on which pair digests there are, counted
/// with their multiplicity: listing the pairs in any other order gives the
/// same root.
pub proof fn lemma_merkle_root_order_invariant(p: Seq<(Vec<u8>, Vec<u8>)>, q: Seq<(Vec<u8>, Vec<u8>)>)
    requires
        spec_kv_leaves(p).to_multiset() == spec_kv_leaves(q).to_multiset(),
    ensures
        spec_merkle_root(p) == spec_merkle_root(q),
{
    broadcast use vstd::seq_lib::to_multiset_len;
    let leq = leaf_order();
    lemma_leaf_order_total();
    let la = spec_kv_leaves(p);
    let lb = spec_kv_leaves(q);
    assert(la.len() == p.len());
    assert(lb.len() == q.len());
    assert(la.len() == la.to_multiset().len());
    assert(lb.len() == lb.to_multiset().len());
    la.lemma_sort_by_ensures(leq);
    lb.lemma_sort_by_ensures(leq);
    lemma_sorted_unique(la.sort_by(leq), lb.sort_by(leq));
}

/// The bytes of each key and value, pair by pair.
pub open spec fn spec_pair_views(pairs: Seq<(Vec<u8>, Vec<u8>)>) -> Seq<(Seq<u8>, Seq<u8>)> {
    pairs.map_values(|p: (Vec<u8>, Vec<u8>)| (p.0@, p.1@))
}

/// Pairs that are a permutation of one another give leaves that are a
/// permutation of one another.
proof fn lemma_kv_leaves_permutation(p: Seq<(Vec<u8>, Vec<u8>)>, q: Seq<(Vec<u8>, Vec<u8>)>)
    requires
        spec_pair_views(p).to_multiset() == spec_pair_views(q).to_multiset(),
    ensures
        spec_kv_leaves(p).to_multiset() == spec_kv_leaves(q).to_multiset(),
    decreases p.len(),
{
    broadcast use vstd::multiset::group_multiset_axioms, vstd::seq_lib::to_multiset_build,
        vstd::seq_lib::to_multiset_remove, vstd::seq_lib::to_multiset_contains,
        vstd::seq_lib::to_multiset_len;
    let vp = spec_pair_views(p);
    let vq = spec_pair_views(q);
    if p.len() == 0 {
        assert(vp.len() == 0);
        assert(vq.len() == vq.to_multiset().len());
        assert(spec_kv_leaves(p) =~= Seq::<[u8; 32]>::empty());
        assert(spec_kv_leaves(q) =~= Seq::<[u8; 32]>::empty());
    } else {
        let x = p.last();
        let pp = p.drop_last();
        let vx = (x.0@, x.1@);
        assert(vp =~= spec_pair_views(pp).push(vx));
        assert(vp.to_multiset() == spec_pair_views(pp).to_multiset().insert(vx));
        assert(vq.to_multiset().count(vx) > 0);
        assert(vq.contains(vx));
        let k = choose|k: int| 0 <= k < vq.len() && vq[k] == vx;
        let qq = q.remove(k);
        assert(spec_pair_views(qq) =~= vq.remove(k));
        assert(spec_pair_views(qq).to_multiset() == vq.to_multiset().remove(vx));
        assert(spec_pair_views(qq).to_multiset() =~= spec_pair_views(pp).to_multiset());
        lemma_kv_leaves_permutation(pp, qq);
        let lp = spec_kv_leaves(p);
        let lq = spec_kv_leaves(q);
        let lx = spec_kv_leaf(x);
        assert(lp =~= spec_kv_leaves(pp).push(lx));
        assert(spec_kv_leaves(qq) =~= lq.remove(k));
        assert(q[k].0@ == x.0@ && q[k].1@ == x.1@);
        assert(lq[k] == lx);
        assert(lq.contains(lx));
        assert(lq.remove(k).to_multiset() == lq.to_multiset().remove(lx));
        assert(lq.to_multiset().count(lx) > 0);
        assert(lq.to_multiset() =~= lq.remove(k).to_multiset().insert(lx));
    }
}

/// Listing the pairs in any order gives the same Merkle root: a permutation
/// of the key/value pairs (compared by their bytes) leaves the root unchanged.
pub proof fn lemma_merkle_root_permutation(p: Seq<(Vec<u8>, Vec<u8>)>, q: Seq<(Vec<u8>, Vec<u8>)>)
    requires
        spec_pair_views(p).to_multiset() == spec_pair_views(q).to_multiset(),
    ensures
        spec_merkle_root(p) == spec_merkle_root(q),
{
    lemma_kv_leaves_permutation(p, q);
    lemma_merkle_root_order_invariant(p, q);
}

/// Reordering two pairs does not change the Merkle root: the root depends on
/// the pairs, not on the order in which they are listed.
pub proof fn lemma_merkle_root_swap_invariant(pairs: Seq<(Vec<u8>, Vec<u8>)>, i: int, j: int)
    requires
        0 <= i < pairs.len(),
        0 <= j < pairs.len(),
    ensures
        spec_merkle_root(pairs.update(i, pairs[j]).update(j, pairs[i])) == spec_merkle_root(pairs),
{
    broadcast use vstd::seq_lib::to_multiset_update;
    let swapped = pairs.update(i, pairs[j]).update(j, pairs[i]);
    let la = spec_kv_leaves(pairs);
    let lb = spec_kv_leaves(swapped);
    assert(lb =~= la.update(i, la[j]).update(j, la[i]));
    let leq = leaf_order();
    lemma_leaf_order_total();
    assert(lb.to_multiset() =~= la.to_multiset()) by {
        broadcast use vstd::multiset::group_multiset_axioms, vstd::seq_lib::to_multiset_contains;
        let m = la.update(i, la[j]);
        assert(m.to_multiset() == la.to_multiset().insert(la[j]).remove(la[i]));
        assert(m[j] == la[j]);
        assert(lb =~= m.update(j, la[i]));
        assert(lb.to_multiset() == m.to_multiset().insert(la[i]).remove(la[j]));
        assert(la.contains(la[i]));
        assert(la.to_multiset().count(la[i]) > 0);
    }
    la.lemma_sort_by_ensures(leq);
    lb.lemma_sort_by_ensures(leq);
    lemma_sorted_unique(la.sort_by(leq), lb.sort_by(leq));
}

// ---------------------------------------------------------------------------
// Executable code
// ---------------------------------------------------------------------------

fn push_bytes(buf: &mut Vec<u8>, bytes: &[u8])
    ensures
        final(buf)@ == old(buf)@ + bytes@,
{
    let mut i: usize = 0;
    while i < bytes.len()
        invariant
            i <= bytes@.len(),
            buf@ == old(buf)@ + bytes@.take(i as int),
        decreases bytes@.len() - i,
    {
        buf.push(bytes[i]);
        i = i + 1;
        assert(buf@ =~= old(buf)@ + bytes@.take(i as int));
    }
    assert(bytes@.take(i as int) =~= bytes@);
}

fn hash_leaf(key_hash: &[u8; 32], value_hash: &[u8; 32]) -> (res: [u8; 32])
    ensures
        res == spec_hash_leaf(*key_hash, *value_hash),
{
    let mut buf: Vec<u8> = Vec::with_capacity(4 + 32 + 32);
    push_bytes(&mut buf, &LEAF_TAG);
    push_bytes(&mut buf, key_hash);
    push_bytes(&mut buf, value_hash);
    hash_bytes(buf.as_slice())
}

fn hash_internal(left: &[u8; 32], right: &[u8; 32]) -> (res: [u8; 32])
    ensures
        res == spec_hash_internal(*left, *right),
{
    let mut buf: Vec<u8> = Vec::with_capacity(4 + 32 + 32);
    push_bytes(&mut buf, &NODE_TAG);
    push_bytes(&mut buf, left);
    push_bytes(&mut buf, right);
    hash_bytes(buf.as_slice())
}

fn bit_at(key_hash: &[u8; 32], depth: usize) -> (res: bool)
    requires
        depth < 256,
    ensures
        res == spec_bit_at(*key_hash, depth as int),
{
    let byte = depth / 8;
    let bit = 7 - (depth % 8);
    (key_hash[byte] >> (bit as u8)) & 1 == 1
}


fn find_key(leaves: &Vec<SmtLeaf>, key: &[u8; 32]) -> (res: Option<usize>)
    ensures
        match res {
            Some(i) => spec_find_key(leaves@, *key) == Some(i as int) && i < leaves@.len(),
            None => spec_find_key(leaves@, *key) is None,
        },
{
    let mut j: usize = leaves.len();
    assert(leaves@.take(j as int) =~= leaves@);
    while j > 0
        invariant
            j <= leaves@.len(),
            spec_find_key(leaves@, *key) == spec_find_key(leaves@.take(j as int), *key),
        decreases j,
    {
        assert(leaves@.take(j as int).drop_last() =~= leaves@.take(j - 1));
        if digest_eq(&leaves[j - 1].0, key) {
            return Some(j - 1);
        }
        j = j - 1;
    }
    None
}

fn dedup_leaves(pairs: &[(Vec<u8>, Vec<u8>)]) -> (res: Vec<SmtLeaf>)
    ensures
        res@ == spec_dedup(pairs@),
{
    let mut map: Vec<SmtLeaf> = Vec::new();
    let mut i: usize = 0;
    while i < pairs.len()
        invariant
            i <= pairs@.len(),
            map@ == spec_dedup(pairs@.take(i as int)),
        decreases pairs@.len() - i,
    {
        let key_hash = hash_bytes(pairs[i].0.as_slice());
        let val_hash = hash_bytes(pairs[i].1.as_slice());
        let leaf = hash_leaf(&key_hash, &val_hash);
        assert(pairs@.take(i + 1).drop_last() =~= pairs@.take(i as int));
        match find_key(&map, &key_hash) {
            Some(j) => {
                map.set(j, (key_hash, leaf));
            },
            None => {
                map.push((key_hash, leaf));
            },
        }
        i = i + 1;
    }
    assert(pairs@.take(pairs@.len() as int) =~= pairs@);
    map
}

fn split_by_bit(leaves: &Vec<SmtLeaf>, level: usize) -> (res: (Vec<SmtLeaf>, Vec<SmtLeaf>))
    requires
        level < 256,
    ensures
        res.0@ == spec_left(leaves@, level as int),
        res.1@ == spec_right(leaves@, level as int),
{
    let mut left: Vec<SmtLeaf> = Vec::new();
    let mut right: Vec<SmtLeaf> = Vec::new();
    let mut i: usize = 0;
    while i < leaves.len()
        invariant
            level < 256,
            i <= leaves@.len(),
            left@ == spec_left(leaves@.take(i as int), level as int),
            right@ == spec_right(leaves@.take(i as int), level as int),
        decreases leaves@.len() - i,
    {
        let (k, v) = leaves[i];
        proof {
            let t = leaves@.take(i + 1);
            assert(t.drop_last() =~= leaves@.take(i as int));
            assert(t.last() == (k, v));
            reveal_with_fuel(Seq::filter, 2);
        }
        if bit_at(&k, level) {
            right.push((k, v));
        } else {
            left.push((k, v));
        }
        i = i + 1;
    }
    assert(leaves@.take(leaves@.len() as int) =~= leaves@);
    (left, right)
}

fn compute_smt_root(level: usize, leaves: &Vec<SmtLeaf>) -> (res: [u8; 32])
    requires
        level <= 256,
    ensures
        res == spec_smt_root(level as int, leaves@),
    decreases 256 - level,
{
    if leaves.len() == 0 {
        return SMT_EMPTY;
    }
    if level == 256 {
        // All keys identical; return the leaf hash
        return leaves[0].1;
    }
    let (left, right) = split_by_bit(leaves, level);
    let left_hash = compute_smt_root(level + 1, &left);
    let right_hash = compute_smt_root(level + 1, &right);
    hash_internal(&left_hash, &right_hash)
}

fn compute_smt_with_proof(
    level: usize,
    leaves: &Vec<SmtLeaf>,
    target: &[u8; 32],
    proof: &mut Vec<[u8; 32]>,
) -> (res: [u8; 32])
    requires
        level <= 256,
    ensures
        res == spec_smt_root(level as int, leaves@),
        final(proof)@ == old(proof)@ + spec_smt_path(level as int, leaves@, *target),
    decreases 256 - level,
{
    if leaves.len() == 0 {
        // missing key; use empty path
        let ghost start = proof@;
        let mut n: usize = 0;
        while n < 256 - level
            invariant
                level <= 256,
                n <= 256 - level,
                proof@ == start + Seq::new(n as nat, |i: int| SMT_EMPTY),
            decreases 256 - level - n,
        {
            proof.push(SMT_EMPTY);
            n = n + 1;
            assert(proof@ =~= start + Seq::new(n as nat, |i: int| SMT_EMPTY));
        }
        assert(proof@ =~= start + spec_smt_path(level as int, leaves@, *target));
        return SMT_EMPTY;
    }
    if level == 256 {
        // reached leaf
        assert(proof@ =~= old(proof)@ + spec_smt_path(level as int, leaves@, *target));
        return leaves[0].1;
    }
    let (left, right) = split_by_bit(leaves, level);
    let bit = bit_at(target, level);
    let (keep, sibling) = if bit {
        (right, left)
    } else {
        (left, right)
    };
    let keep_hash = compute_smt_with_proof(level + 1, &keep, target, proof);
    let sibling_hash = compute_smt_root(level + 1, &sibling);
    proof.push(sibling_hash);
    proof {
        let p = spec_smt_path(level as int + 1, keep@, *target);
        assert(proof@ =~= old(proof)@ + p.push(sibling_hash));
    }
    if bit {
        hash_internal(&sibling_hash, &keep_hash)
    } else {
        hash_internal(&keep_hash, &sibling_hash)
    }
}

/// Compute a sparse Merkle tree root (256-bit keyspace) over key/value pairs.
/// Keys are hashed before insertion to avoid structural leakage.
pub fn sparse_merkle_root(pairs: &[(Vec<u8>, Vec<u8>)]) -> (res: [u8; 32])
    ensures
        res == spec_sparse_root(pairs@),
{
    let leaves = dedup_leaves(pairs);
    if leaves.len() == 0 {
        return SMT_EMPTY;
    }
    compute_smt_root(0, &leaves)
}

/// Build a proof for a key in the sparse Merkle tree. Returns (root, proof).
pub fn sparse_merkle_proof(pairs: &[(Vec<u8>, Vec<u8>)], key: &[u8]) -> (res: ([u8; 32], Vec<[u8; 32]>))
    ensures
        res.0 == spec_sparse_root(pairs@),
        res.1@ == spec_sparse_proof(pairs@, key@),
{
    let leaves = dedup_leaves(pairs);
    let target = hash_bytes(key);
    let mut proof: Vec<[u8; 32]> = Vec::with_capacity(256);
    let root = compute_smt_with_proof(0, &leaves, &target, &mut proof);
    assert(proof@ =~= spec_sparse_proof(pairs@, key@));
    (root, proof)
}

/// Verify a sparse Merkle proof for a single key/value pair.
pub fn verify_sparse_merkle_proof(
    key: &[u8],
    value: &[u8],
    proof: &[[u8; 32]],
    expected_root: [u8; 32],
) -> (res: bool)
    ensures
        res == spec_verify_proof(key@, value@, proof@, expected_root),
{
    let key_hash = hash_bytes(key);
    let value_hash = hash_bytes(value);
    let mut node = hash_leaf(&key_hash, &value_hash);
    let ghost leaf = node;
    let mut offset: usize = 0;
    while offset < proof.len()
        invariant
            offset <= proof@.len(),
            key_hash == blake3_hash(key@),
            leaf == spec_hash_leaf(key_hash, blake3_hash(value@)),
            node == spec_fold_proof(key_hash, leaf, proof@.take(offset as int)),
        decreases proof@.len() - offset,
    {
        let sibling = proof[offset];
        // Proof is collected from leaf to root, so walk bits from the least significant upwards.
        let depth = 255usize.saturating_sub(offset);
        let bit = bit_at(&key_hash, depth);
        assert(proof@.take(offset + 1).drop_last() =~= proof@.take(offset as int));
        node = if bit {
            hash_internal(&sibling, &node)
        } else {
            hash_internal(&node, &sibling)
        };
        offset = offset + 1;
    }
    assert(proof@.take(proof@.len() as int) =~= proof@);
    digest_eq(&node, &expected_root)
}


fn hash_pair(a: [u8; 32], b: [u8; 32]) -> (res: [u8; 32])
    ensures
        res == spec_hash_pair(a, b),
{
    let mut buf: Vec<u8> = Vec::with_capacity(64);
    push_bytes(&mut buf, &a);
    push_bytes(&mut buf, &b);
    hash_bytes(buf.as_slice())
}

/// Lexicographic comparison of two leaves.
fn leaf_le(a: &[u8; 32], b: &[u8; 32]) -> (res: bool)
    ensures
        res == lex_le(a@, b@),
{
    let mut i: usize = 0;
    assert(a@.skip(0) =~= a@);
    assert(b@.skip(0) =~= b@);
    while i < 32
        invariant
            i <= 32,
            lex_le(a@, b@) == lex_le(a@.skip(i as int), b@.skip(i as int)),
        decreases 32 - i,
    {
        assert(a@.skip(i as int).drop_first() =~= a@.skip(i + 1));
        assert(b@.skip(i as int).drop_first() =~= b@.skip(i + 1));
        if a[i] < b[i] {
            return true;
        }
        if a[i] > b[i] {
            return false;
        }
        i = i + 1;
    }
    true
}

/// Sort leaves into the order of `leaf_order`.
fn sort_leaves(leaves: Vec<[u8; 32]>) -> (res: Vec<[u8; 32]>)
    ensures
        vstd::relations::sorted_by(res@, leaf_order()),
        res@.to_multiset() == leaves@.to_multiset(),
{
    broadcast use vstd::seq_lib::to_multiset_build, vstd::seq_lib::to_multiset_insert;
    proof {
        lemma_leaf_order_total();
    }
    let ghost leq = leaf_order();
    let mut out: Vec<[u8; 32]> = Vec::with_capacity(leaves.len());
    let mut i: usize = 0;
    proof {
        assert(out@ =~= leaves@.take(0));
    }
    while i < leaves.len()
        invariant
            i <= leaves@.len(),
            vstd::relations::total_ordering(leq),
            leq == leaf_order(),
            vstd::relations::sorted_by(out@, leq),
            out@.to_multiset() == leaves@.take(i as int).to_multiset(),
        decreases leaves@.len() - i,
    {
        let x = leaves[i];
        let mut j: usize = 0;
        while j < out.len() && leaf_le(&out[j], &x)
            invariant
                j <= out@.len(),
                leq == leaf_order(),
                forall|k: int| 0 <= k < j ==> leq(#[trigger] out@[k], x),
            decreases out@.len() - j,
        {
            j = j + 1;
        }
        let ghost before = out@;
        out.insert(j, x);
        proof {
            if j < before.len() {
                assert(!leq(before[j as int], x));
                assert(leq(x, before[j as int]));
            }
            assert forall|p: int, q: int| 0 <= p < q < out@.len() implies leq(out@[p], out@[q]) by {
                if q < j {
                    assert(out@[p] == before[p] && out@[q] == before[q]);
                } else if q == j {
                    assert(out@[p] == before[p]);
                } else if p < j {
                    assert(out@[p] == before[p] && out@[q] == before[q - 1]);
                    assert(leq(before[p], x));
                    assert(leq(x, before[j as int]));
                    if q - 1 > j {
                        assert(leq(before[j as int], before[q - 1]));
                    }
                } else if p == j {
                    assert(out@[q] == before[q - 1]);
                    if q - 1 > j {
                        assert(leq(before[j as int], before[q - 1]));
                    }
                } else {
                    assert(out@[p] == before[p - 1] && out@[q] == before[q - 1]);
                }
            }
            assert(leaves@.take(i + 1) =~= leaves@.take(i as int).push(x));
            assert(out@ == before.insert(j as int, x));
            vstd::seq_lib::to_multiset_insert(before, j as int, x);
            vstd::seq_lib::to_multiset_build(leaves@.take(i as int), x);
        }
        i = i + 1;
    }
    assert(leaves@.take(leaves@.len() as int) =~= leaves@);
    out
}

fn reduce(nodes: Vec<[u8; 32]>) -> (res: [u8; 32])
    requires
        nodes@.len() >= 1,
    ensures
        res == spec_reduce(nodes@),
{
    let ghost start = nodes@;
    let mut nodes = nodes;
    while nodes.len() > 1
        invariant
            nodes@.len() >= 1,
            spec_reduce(nodes@) == spec_reduce(start),
        decreases nodes@.len(),
    {
        let ghost level = nodes@;
        if nodes.len() % 2 == 1 {
            let last = nodes[nodes.len() - 1];
            nodes.push(last);
        }
        let mut next: Vec<[u8; 32]> = Vec::with_capacity(nodes.len() / 2);
        let mut c: usize = 0;
        while c < nodes.len() / 2
            invariant
                nodes@.len() % 2 == 0,
                nodes@.len() == level.len() + level.len() % 2,
                forall|k: int| 0 <= k < level.len() ==> nodes@[k] == level[k],
                level.len() % 2 == 1 ==> nodes@[nodes@.len() - 1] == level[level.len() - 1],
                c <= nodes@.len() / 2,
                next@ =~= spec_next_level(level).take(c as int),
            decreases nodes@.len() / 2 - c,
        {
            let h = hash_pair(nodes[2 * c], nodes[2 * c + 1]);
            next.push(h);
            c = c + 1;
            assert(next@ =~= spec_next_level(level).take(c as int));
        }
        assert(spec_next_level(level).take(c as int) =~= spec_next_level(level));
        nodes = next;
    }
    nodes[0]
}

/// Compute a Merkle root from key/value pairs using deterministic ordering.
pub fn merkle_root(pairs: &[(Vec<u8>, Vec<u8>)]) -> (res: [u8; 32])
    ensures
        res == spec_merkle_root(pairs@),
{
    if pairs.len() == 0 {
        return hash_bytes(&EMPTY_ROOT_LABEL);
    }
    let mut leaves: Vec<[u8; 32]> = Vec::with_capacity(pairs.len());
    let mut i: usize = 0;
    while i < pairs.len()
        invariant
            i <= pairs@.len(),
            leaves@ =~= spec_kv_leaves(pairs@).take(i as int),
        decreases pairs@.len() - i,
    {
        let kh = hash_bytes(pairs[i].0.as_slice());
        let vh = hash_bytes(pairs[i].1.as_slice());
        leaves.push(hash_pair(kh, vh));
        i = i + 1;
    }
    assert(leaves@ =~= spec_kv_leaves(pairs@));
    let sorted = sort_leaves(leaves);
    proof {
        vstd::seq_lib::to_multiset_len(sorted@);
        vstd::seq_lib::to_multiset_len(spec_kv_leaves(pairs@));
        lemma_leaf_order_total();
        spec_kv_leaves(pairs@).lemma_sort_by_ensures(leaf_order());
        lemma_sorted_unique(sorted@, spec_kv_leaves(pairs@).sort_by(leaf_order()));
    }
    reduce(sorted)
}

// ---------------------------------------------------------------------------
// Proofs
// ---------------------------------------------------------------------------

/// No two leaves in the list carry the same key hash.
pub open spec fn spec_distinct_keys(leaves: Seq<SmtLeaf>) -> bool {
    forall|i: int, j: int|
        0 <= i < leaves.len() && 0 <= j < leaves.len() && i != j ==> leaves[i].0 != leaves[j].0
}

spec fn key_functional(leaves: Seq<SmtLeaf>) -> bool {
    forall|x: SmtLeaf, y: SmtLeaf|
        #![trigger leaves.contains(x), leaves.contains(y)]
        leaves.contains(x) && leaves.contains(y) && x.0 == y.0 ==> x == y
}

spec fn agrees_below(leaves: Seq<SmtLeaf>, target: [u8; 32], level: int) -> bool {
    forall|x: SmtLeaf, d: int|
        #![trigger leaves.contains(x), spec_bit_at(x.0, d)]
        leaves.contains(x) && 0 <= d < level ==> spec_bit_at(x.0, d) == spec_bit_at(target, d)
}

proof fn lemma_byte_from_bits(x: u8, y: u8)
    requires
        ((x >> 7u8) & 1u8 == 1u8) == ((y >> 7u8) & 1u8 == 1u8),
        ((x >> 6u8) & 1u8 == 1u8) == ((y >> 6u8) & 1u8 == 1u8),
        ((x >> 5u8) & 1u8 == 1u8) == ((y >> 5u8) & 1u8 == 1u8),
        ((x >> 4u8) & 1u8 == 1u8) == ((y >> 4u8) & 1u8 == 1u8),
        ((x >> 3u8) & 1u8 == 1u8) == ((y >> 3u8) & 1u8 == 1u8),
        ((x >> 2u8) & 1u8 == 1u8) == ((y >> 2u8) & 1u8 == 1u8),
        ((x >> 1u8) & 1u8 == 1u8) == ((y >> 1u8) & 1u8 == 1u8),
        ((x >> 0u8) & 1u8 == 1u8) == ((y >> 0u8) & 1u8 == 1u8),
    ensures
        x == y,
{
    assert(x == y) by (bit_vector)
        requires
            ((x >> 7u8) & 1u8 == 1u8) == ((y >> 7u8) & 1u8 == 1u8),
            ((x >> 6u8) & 1u8 == 1u8) == ((y >> 6u8) & 1u8 == 1u8),
            ((x >> 5u8) & 1u8 == 1u8) == ((y >> 5u8) & 1u8 == 1u8),
            ((x >> 4u8) & 1u8 == 1u8) == ((y >> 4u8) & 1u8 == 1u8),
            ((x >> 3u8) & 1u8 == 1u8) == ((y >> 3u8) & 1u8 == 1u8),
            ((x >> 2u8) & 1u8 == 1u8) == ((y >> 2u8) & 1u8 == 1u8),
            ((x >> 1u8) & 1u8 == 1u8) == ((y >> 1u8) & 1u8 == 1u8),
            ((x >> 0u8) & 1u8 == 1u8) == ((y >> 0u8) & 1u8 == 1u8),
    ;
}

/// Two 256-bit keys that agree on every bit are equal.
proof fn lemma_key_from_bits(a: [u8; 32], b: [u8; 32])
    requires
        forall|d: int| 0 <= d < 256 ==> #[trigger] spec_bit_at(a, d) == spec_bit_at(b, d),
    ensures
        a == b,
{
    assert forall|i: int| 0 <= i < 32 implies a[i] == b[i] by {
        assert(spec_bit_at(a, 8 * i + 0) == spec_bit_at(b, 8 * i + 0));
        assert(spec_bit_at(a, 8 * i + 1) == spec_bit_at(b, 8 * i + 1));
        assert(spec_bit_at(a, 8 * i + 2) == spec_bit_at(b, 8 * i + 2));
        assert(spec_bit_at(a, 8 * i + 3) == spec_bit_at(b, 8 * i + 3));
        assert(spec_bit_at(a, 8 * i + 4) == spec_bit_at(b, 8 * i + 4));
        assert(spec_bit_at(a, 8 * i + 5) == spec_bit_at(b, 8 * i + 5));
        assert(spec_bit_at(a, 8 * i + 6) == spec_bit_at(b, 8 * i + 6));
        assert(spec_bit_at(a, 8 * i + 7) == spec_bit_at(b, 8 * i + 7));
        lemma_byte_from_bits(a[i], b[i]);
    }
    assert(a =~= b);
}

proof fn lemma_filter_subset(s: Seq<SmtLeaf>, pred: spec_fn(SmtLeaf) -> bool, x: SmtLeaf)
    requires
        s.filter(pred).contains(x),
    ensures
        s.contains(x),
        pred(x),
{
    broadcast use Seq::lemma_filter_contains_rev, Seq::lemma_filter_pred;
    let k = choose|k: int| 0 <= k < s.filter(pred).len() && s.filter(pred)[k] == x;
    assert(pred(s.filter(pred)[k]));
}

/// Folding the path to a present key onto its leaf reproduces the subtree root.
proof fn lemma_fold_path(level: int, leaves: Seq<SmtLeaf>, target: [u8; 32], leaf: [u8; 32])
    requires
        0 <= level <= 256,
        leaves.contains((target, leaf)),
        key_functional(leaves),
        agrees_below(leaves, target, level),
    ensures
        spec_smt_path(level, leaves, target).len() == 256 - level,
        spec_fold_proof(target, leaf, spec_smt_path(level, leaves, target)) == spec_smt_root(level, leaves),
    decreases 256 - level,
{
    if level >= 256 {
        let first = leaves[0];
        assert(leaves.contains(first));
        assert forall|d: int| 0 <= d < 256 implies #[trigger] spec_bit_at(first.0, d) == spec_bit_at(target, d) by {
            assert(leaves.contains(first));
        }
        lemma_key_from_bits(first.0, target);
    } else {
        let b = spec_bit_at(target, level);
        let lpred = |p: SmtLeaf| !spec_bit_at(p.0, level);
        let rpred = |p: SmtLeaf| spec_bit_at(p.0, level);
        let left = spec_left(leaves, level);
        let right = spec_right(leaves, level);
        let keep = if b { right } else { left };
        let kpred = if b { rpred } else { lpred };
        assert(keep == leaves.filter(kpred));
        let idx = choose|idx: int| 0 <= idx < leaves.len() && leaves[idx] == (target, leaf);
        broadcast use Seq::lemma_filter_contains;
        assert(kpred(leaves[idx]));
        assert(keep.contains((target, leaf)));
        assert forall|x: SmtLeaf, y: SmtLeaf|
            #![trigger keep.contains(x), keep.contains(y)]
            keep.contains(x) && keep.contains(y) && x.0 == y.0 implies x == y by {
            lemma_filter_subset(leaves, kpred, x);
            lemma_filter_subset(leaves, kpred, y);
        }
        assert forall|x: SmtLeaf, d: int|
            #![trigger keep.contains(x), spec_bit_at(x.0, d)]
            keep.contains(x) && 0 <= d < level + 1 implies spec_bit_at(x.0, d) == spec_bit_at(target, d) by {
            lemma_filter_subset(leaves, kpred, x);
        }
        lemma_fold_path(level + 1, keep, target, leaf);
        let sub = spec_smt_path(level + 1, keep, target);
        let path = spec_smt_path(level, leaves, target);
        assert(path.drop_last() =~= sub);
        assert(spec_proof_depth(path.len() - 1) == level);
    }
}

proof fn lemma_find_key(leaves: Seq<SmtLeaf>, key: [u8; 32])
    ensures
        match spec_find_key(leaves, key) {
            Some(i) => 0 <= i < leaves.len() && leaves[i].0 == key,
            None => forall|i: int| 0 <= i < leaves.len() ==> leaves[i].0 != key,
        },
    decreases leaves.len(),
{
    if leaves.len() == 0 {
    } else if leaves.last().0 == key {
        assert(leaves[leaves.len() - 1].0 == key);
    } else {
        let rest = leaves.drop_last();
        lemma_find_key(rest, key);
        match spec_find_key(rest, key) {
            Some(i) => {
                assert(rest[i] == leaves[i]);
            },
            None => {
                assert forall|i: int| 0 <= i < leaves.len() implies leaves[i].0 != key by {
                    if i < leaves.len() - 1 {
                        assert(rest[i] == leaves[i]);
                    }
                }
            },
        }
    }
}

/// The leaves built from key/value pairs carry distinct key hashes.
pub proof fn lemma_dedup_distinct(pairs: Seq<(Vec<u8>, Vec<u8>)>)
    ensures
        spec_distinct_keys(spec_dedup(pairs)),
    decreases pairs.len(),
{
    if pairs.len() > 0 {
        let prev = spec_dedup(pairs.drop_last());
        lemma_dedup_distinct(pairs.drop_last());
        let leaf = spec_pair_leaf(pairs.last());
        lemma_find_key(prev, leaf.0);
    }
}

/// The leaf of the last pair written for a key is among the deduplicated leaves.
proof fn lemma_dedup_contains(pairs: Seq<(Vec<u8>, Vec<u8>)>, j: int)
    requires
        0 <= j < pairs.len(),
        forall|i: int| j < i < pairs.len() ==> blake3_hash(#[trigger] pairs[i].0@) != blake3_hash(pairs[j].0@),
    ensures
        spec_dedup(pairs).contains(spec_pair_leaf(pairs[j])),
    decreases pairs.len(),
{
    let prev = spec_dedup(pairs.drop_last());
    let leaf = spec_pair_leaf(pairs.last());
    lemma_find_key(prev, leaf.0);
    let cur = spec_dedup(pairs);
    if j == pairs.len() - 1 {
        match spec_find_key(prev, leaf.0) {
            Some(i) => {
                assert(cur[i] == leaf);
            },
            None => {
                assert(cur[prev.len() as int] == leaf);
            },
        }
    } else {
        assert(pairs.drop_last()[j] == pairs[j]);
        assert forall|i: int| j < i < pairs.drop_last().len() implies blake3_hash(
            #[trigger] pairs.drop_last()[i].0@,
        ) != blake3_hash(pairs.drop_last()[j].0@) by {
            assert(pairs.drop_last()[i] == pairs[i]);
        }
        lemma_dedup_contains(pairs.drop_last(), j);
        let target = spec_pair_leaf(pairs[j]);
        let k = choose|k: int| 0 <= k < prev.len() && prev[k] == target;
        assert(pairs.last() == pairs[pairs.len() - 1]);
        match spec_find_key(prev, leaf.0) {
            Some(i) => {
                assert(i != k);
                assert(cur[k] == target);
            },
            None => {
                assert(cur[k] == target);
            },
        }
    }
}

/// Inclusion proofs are complete: the proof that `sparse_merkle_proof` builds
/// for the key of pair `j` verifies, under the root it returns, the value of
/// that pair, provided no later pair writes the same key.
pub proof fn lemma_sparse_proof_verifies(pairs: Seq<(Vec<u8>, Vec<u8>)>, j: int)
    requires
        0 <= j < pairs.len(),
        forall|i: int| j < i < pairs.len() ==> blake3_hash(#[trigger] pairs[i].0@) != blake3_hash(pairs[j].0@),
    ensures
        spec_verify_proof(
            pairs[j].0@,
            pairs[j].1@,
            spec_sparse_proof(pairs, pairs[j].0@),
            spec_sparse_root(pairs),
        ),
{
    let leaves = spec_dedup(pairs);
    let target = blake3_hash(pairs[j].0@);
    let leaf = spec_hash_leaf(target, blake3_hash(pairs[j].1@));
    lemma_dedup_contains(pairs, j);
    lemma_dedup_distinct(pairs);
    lemma_distinct_functional(leaves);
    lemma_fold_path(0, leaves, target, leaf);
}

/// BLAKE3 maps two distinct byte strings to one digest.
pub open spec fn spec_blake3_collides() -> bool {
    exists|x: Seq<u8>, y: Seq<u8>| x != y && blake3_hash(x) == blake3_hash(y)
}

/// Two 32-byte arrays that differ give different tagged node inputs.
proof fn lemma_node_inputs_differ(s: [u8; 32], a: [u8; 32], b: [u8; 32])
    requires
        a != b,
    ensures
        NODE_TAG@ + s@ + a@ != NODE_TAG@ + s@ + b@,
        NODE_TAG@ + a@ + s@ != NODE_TAG@ + b@ + s@,
{
    let x1 = NODE_TAG@ + s@ + a@;
    let y1 = NODE_TAG@ + s@ + b@;
    if x1 == y1 {
        assert forall|i: int| 0 <= i < 32 implies a[i] == b[i] by {
            assert(x1[36 + i] == y1[36 + i]);
        }
        assert(a =~= b);
    }
    let x2 = NODE_TAG@ + a@ + s@;
    let y2 = NODE_TAG@ + b@ + s@;
    if x2 == y2 {
        assert forall|i: int| 0 <= i < 32 implies a[i] == b[i] by {
            assert(x2[4 + i] == y2[4 + i]);
        }
        assert(a =~= b);
    }
}

/// Two distinct leaves never fold to one node along one proof, unless BLAKE3
/// collides.
proof fn lemma_fold_injective(key_hash: [u8; 32], a: [u8; 32], b: [u8; 32], proof: Seq<[u8; 32]>)
    requires
        a != b,
        spec_fold_proof(key_hash, a, proof) == spec_fold_proof(key_hash, b, proof),
    ensures
        spec_blake3_collides(),
    decreases proof.len(),
{
    if proof.len() > 0 {
        let na = spec_fold_proof(key_hash, a, proof.drop_last());
        let nb = spec_fold_proof(key_hash, b, proof.drop_last());
        if na == nb {
            lemma_fold_injective(key_hash, a, b, proof.drop_last());
        } else {
            let s = proof.last();
            lemma_node_inputs_differ(s, na, nb);
            if spec_bit_at(key_hash, spec_proof_depth(proof.len() - 1)) {
                let x = NODE_TAG@ + s@ + na@;
                let y = NODE_TAG@ + s@ + nb@;
                assert(x != y && blake3_hash(x) == blake3_hash(y));
            } else {
                let x = NODE_TAG@ + na@ + s@;
                let y = NODE_TAG@ + nb@ + s@;
                assert(x != y && blake3_hash(x) == blake3_hash(y));
            }
        }
    }
}

/// A proof binds its key to one value: when one proof shows `key` bound under
/// `root` to two values whose digests differ, BLAKE3 collides.
pub proof fn lemma_proof_binds_value(
    key: Seq<u8>,
    v1: Seq<u8>,
    v2: Seq<u8>,
    proof: Seq<[u8; 32]>,
    root: [u8; 32],
)
    requires
        spec_verify_proof(key, v1, proof, root),
        spec_verify_proof(key, v2, proof, root),
        blake3_hash(v1) != blake3_hash(v2),
    ensures
        spec_blake3_collides(),
{
    let kh = blake3_hash(key);
    let h1 = blake3_hash(v1);
    let h2 = blake3_hash(v2);
    let l1 = spec_hash_leaf(kh, h1);
    let l2 = spec_hash_leaf(kh, h2);
    if l1 == l2 {
        let x = LEAF_TAG@ + kh@ + h1@;
        let y = LEAF_TAG@ + kh@ + h2@;
        if x == y {
            assert forall|i: int| 0 <= i < 32 implies h1[i] == h2[i] by {
                assert(x[36 + i] == y[36 + i]);
            }
            assert(h1 =~= h2);
        }
        assert(x != y && blake3_hash(x) == blake3_hash(y));
    } else {
        lemma_fold_injective(kh, l1, l2, proof);
    }
}

/// The key/value map that a list of pairs writes: each key bound to the value
/// of the last pair that carries it.
pub open spec fn spec_pairs_map(pairs: Seq<(Vec<u8>, Vec<u8>)>) -> Map<Seq<u8>, Seq<u8>>
    decreases pairs.len(),
{
    if pairs.len() == 0 {
        Map::empty()
    } else {
        spec_pairs_map(pairs.drop_last()).insert(pairs.last().0@, pairs.last().1@)
    }
}

/// No two distinct keys among the pairs share a BLAKE3 digest.
pub open spec fn spec_key_digests_distinct(pairs: Seq<(Vec<u8>, Vec<u8>)>) -> bool {
    forall|i: int, j: int|
        #![trigger pairs[i], pairs[j]]
        0 <= i < pairs.len() && 0 <= j < pairs.len() && pairs[i].0@ != pairs[j].0@
            ==> blake3_hash(pairs[i].0@) != blake3_hash(pairs[j].0@)
}

/// All leaves agree on the key bits above `level`.
spec fn uniform_below(leaves: Seq<SmtLeaf>, level: int) -> bool {
    forall|x: SmtLeaf, y: SmtLeaf, d: int|
        #![trigger leaves.contains(x), leaves.contains(y), spec_bit_at(x.0, d)]
        leaves.contains(x) && leaves.contains(y) && 0 <= d < level ==> spec_bit_at(x.0, d)
            == spec_bit_at(y.0, d)
}

proof fn lemma_distinct_functional(leaves: Seq<SmtLeaf>)
    requires
        spec_distinct_keys(leaves),
    ensures
        key_functional(leaves),
{
    assert forall|x: SmtLeaf, y: SmtLeaf|
        #![trigger leaves.contains(x), leaves.contains(y)]
        leaves.contains(x) && leaves.contains(y) && x.0 == y.0 implies x == y by {
        let a = choose|a: int| 0 <= a < leaves.len() && leaves[a] == x;
        let b = choose|b: int| 0 <= b < leaves.len() && leaves[b] == y;
        if a != b {
            assert(leaves[a].0 != leaves[b].0);
        }
    }
}

/// The root of a sparse subtree depends on which leaves it holds, not on
/// their order.
proof fn lemma_smt_root_contents(level: int, a: Seq<SmtLeaf>, b: Seq<SmtLeaf>)
    requires
        0 <= level <= 256,
        forall|x: SmtLeaf| a.contains(x) <==> b.contains(x),
        key_functional(a),
        uniform_below(a, level),
    ensures
        spec_smt_root(level, a) == spec_smt_root(level, b),
    decreases 256 - level,
{
    if a.len() == 0 {
        if b.len() > 0 {
            assert(b.contains(b[0]));
        }
    } else if b.len() == 0 {
        assert(a.contains(a[0]));
    } else if level >= 256 {
        assert(a.contains(a[0]) && b.contains(b[0]));
        assert(a.contains(b[0]));
        assert forall|d: int| 0 <= d < 256 implies #[trigger] spec_bit_at(a[0].0, d) == spec_bit_at(
            b[0].0,
            d,
        ) by {
            assert(a.contains(a[0]) && a.contains(b[0]));
        }
        lemma_key_from_bits(a[0].0, b[0].0);
    } else {
        let lpred = |p: SmtLeaf| !spec_bit_at(p.0, level);
        let rpred = |p: SmtLeaf| spec_bit_at(p.0, level);
        broadcast use Seq::lemma_filter_contains;
        let la = spec_left(a, level);
        let lb = spec_left(b, level);
        let ra = spec_right(a, level);
        let rb = spec_right(b, level);
        assert(la == a.filter(lpred) && lb == b.filter(lpred));
        assert(ra == a.filter(rpred) && rb == b.filter(rpred));
        assert forall|x: SmtLeaf| la.contains(x) <==> lb.contains(x) by {
            if la.contains(x) {
                lemma_filter_subset(a, lpred, x);
                let k = choose|k: int| 0 <= k < b.len() && b[k] == x;
                assert(lpred(b[k]));
            }
            if lb.contains(x) {
                lemma_filter_subset(b, lpred, x);
                let k = choose|k: int| 0 <= k < a.len() && a[k] == x;
                assert(lpred(a[k]));
            }
        }
        assert forall|x: SmtLeaf| ra.contains(x) <==> rb.contains(x) by {
            if ra.contains(x) {
                lemma_filter_subset(a, rpred, x);
                let k = choose|k: int| 0 <= k < b.len() && b[k] == x;
                assert(rpred(b[k]));
            }
            if rb.contains(x) {
                lemma_filter_subset(b, rpred, x);
                let k = choose|k: int| 0 <= k < a.len() && a[k] == x;
                assert(rpred(a[k]));
            }
        }
        assert forall|x: SmtLeaf, y: SmtLeaf|
            #![trigger la.contains(x), la.contains(y)]
            la.contains(x) && la.contains(y) && x.0 == y.0 implies x == y by {
            lemma_filter_subset(a, lpred, x);
            lemma_filter_subset(a, lpred, y);
        }
        assert forall|x: SmtLeaf, y: SmtLeaf|
            #![trigger ra.contains(x), ra.contains(y)]
            ra.contains(x) && ra.contains(y) && x.0 == y.0 implies x == y by {
            lemma_filter_subset(a, rpred, x);
            lemma_filter_subset(a, rpred, y);
        }
        assert forall|x: SmtLeaf, y: SmtLeaf, d: int|
            #![trigger la.contains(x), la.contains(y), spec_bit_at(x.0, d)]
            la.contains(x) && la.contains(y) && 0 <= d < level + 1 implies spec_bit_at(x.0, d)
            == spec_bit_at(y.0, d) by {
            lemma_filter_subset(a, lpred, x);
            lemma_filter_subset(a, lpred, y);
        }
        assert forall|x: SmtLeaf, y: SmtLeaf, d: int|
            #![trigger ra.contains(x), ra.contains(y), spec_bit_at(x.0, d)]
            ra.contains(x) && ra.contains(y) && 0 <= d < level + 1 implies spec_bit_at(x.0, d)
            == spec_bit_at(y.0, d) by {
            lemma_filter_subset(a, rpred, x);
            lemma_filter_subset(a, rpred, y);
        }
        lemma_smt_root_contents(level + 1, la, lb);
        lemma_smt_root_contents(level + 1, ra, rb);
    }
}

/// Every deduplicated leaf is the leaf of a pair that no later pair with the
/// same key digest overwrites.
proof fn lemma_dedup_member(pairs: Seq<(Vec<u8>, Vec<u8>)>, x: SmtLeaf)
    requires
        spec_dedup(pairs).contains(x),
    ensures
        exists|j: int|
            0 <= j < pairs.len() && x == spec_pair_leaf(#[trigger] pairs[j]) && forall|i: int|
                j < i < pairs.len() ==> blake3_hash(#[trigger] pairs[i].0@) != blake3_hash(
                    pairs[j].0@,
                ),
    decreases pairs.len(),
{
    let n = pairs.len();
    let rest = pairs.drop_last();
    let prev = spec_dedup(rest);
    let leaf = spec_pair_leaf(pairs.last());
    let cur = spec_dedup(pairs);
    lemma_find_key(prev, leaf.0);
    lemma_dedup_distinct(rest);
    assert(pairs[n - 1] == pairs.last());
    let m = choose|m: int| 0 <= m < cur.len() && cur[m] == x;
    let from_prev = match spec_find_key(prev, leaf.0) {
        Some(i) => m != i,
        None => m < prev.len(),
    };
    if !from_prev {
        assert(x == spec_pair_leaf(pairs[n - 1]));
    } else {
        assert(cur[m] == prev[m]);
        assert(prev.contains(x));
        lemma_dedup_member(rest, x);
        let j = choose|j: int|
            0 <= j < rest.len() && x == spec_pair_leaf(#[trigger] rest[j]) && forall|i: int|
                j < i < rest.len() ==> blake3_hash(#[trigger] rest[i].0@) != blake3_hash(
                    rest[j].0@,
                );
        assert(rest[j] == pairs[j]);
        assert(prev[m].0 != leaf.0);
        assert forall|i: int| j < i < n implies blake3_hash(#[trigger] pairs[i].0@) != blake3_hash(
            pairs[j].0@,
        ) by {
            if i < n - 1 {
                assert(rest[i] == pairs[i]);
            }
        }
        assert(x == spec_pair_leaf(pairs[j]));
    }
}

/// The last pair that carries a key gives the key's value in the map.
proof fn lemma_pairs_map_last(pairs: Seq<(Vec<u8>, Vec<u8>)>, j: int)
    requires
        0 <= j < pairs.len(),
        forall|i: int| j < i < pairs.len() ==> (#[trigger] pairs[i]).0@ != pairs[j].0@,
    ensures
        spec_pairs_map(pairs).dom().contains(pairs[j].0@),
        spec_pairs_map(pairs)[pairs[j].0@] == pairs[j].1@,
    decreases pairs.len(),
{
    let n = pairs.len();
    assert(pairs.last() == pairs[n - 1]);
    if j < n - 1 {
        let rest = pairs.drop_last();
        assert(rest[j] == pairs[j]);
        assert forall|i: int| j < i < rest.len() implies (#[trigger] rest[i]).0@ != rest[j].0@ by {
            assert(rest[i] == pairs[i]);
        }
        lemma_pairs_map_last(rest, j);
    }
}

/// Each key of the map is carried by a last pair.
proof fn lemma_pairs_map_key(pairs: Seq<(Vec<u8>, Vec<u8>)>, k: Seq<u8>)
    requires
        spec_pairs_map(pairs).dom().contains(k),
    ensures
        exists|j: int|
            0 <= j < pairs.len() && (#[trigger] pairs[j]).0@ == k && forall|i: int|
                j < i < pairs.len() ==> (#[trigger] pairs[i]).0@ != k,
    decreases pairs.len(),
{
    let n = pairs.len();
    assert(pairs.last() == pairs[n - 1]);
    if pairs[n - 1].0@ != k {
        let rest = pairs.drop_last();
        lemma_pairs_map_key(rest, k);
        let j = choose|j: int|
            0 <= j < rest.len() && (#[trigger] rest[j]).0@ == k && forall|i: int|
                j < i < rest.len() ==> (#[trigger] rest[i]).0@ != k;
        assert(rest[j] == pairs[j]);
        assert forall|i: int| j < i < n implies (#[trigger] pairs[i]).0@ != k by {
            if i < n - 1 {
                assert(rest[i] == pairs[i]);
            }
        }
    }
}

/// Pairs listed after others write over them: the map of `a + b` is the map
/// of `a` updated with the map of `b`.
pub proof fn lemma_pairs_map_concat(a: Seq<(Vec<u8>, Vec<u8>)>, b: Seq<(Vec<u8>, Vec<u8>)>)
    ensures
        spec_pairs_map(a + b) == spec_pairs_map(a).union_prefer_right(spec_pairs_map(b)),
    decreases b.len(),
{
    if b.len() == 0 {
        assert(a + b =~= a);
        assert(spec_pairs_map(a).union_prefer_right(spec_pairs_map(b)) =~= spec_pairs_map(a));
    } else {
        let bb = b.drop_last();
        assert((a + b).drop_last() =~= a + bb);
        assert((a + b).last() == b.last());
        lemma_pairs_map_concat(a, bb);
        assert(spec_pairs_map(a + b) =~= spec_pairs_map(a).union_prefer_right(spec_pairs_map(b)));
    }
}

/// A leaf of `p`'s deduplicated list is also one of `q`'s when both lists
/// write the same key/value map and their keys have distinct digests.
proof fn lemma_dedup_same_map(p: Seq<(Vec<u8>, Vec<u8>)>, q: Seq<(Vec<u8>, Vec<u8>)>, x: SmtLeaf)
    requires
        spec_pairs_map(p) == spec_pairs_map(q),
        spec_key_digests_distinct(p),
        spec_key_digests_distinct(q),
        spec_dedup(p).contains(x),
    ensures
        spec_dedup(q).contains(x),
{
    lemma_dedup_member(p, x);
    let j = choose|j: int|
        0 <= j < p.len() && x == spec_pair_leaf(#[trigger] p[j]) && forall|i: int|
            j < i < p.len() ==> blake3_hash(#[trigger] p[i].0@) != blake3_hash(p[j].0@);
    let k = p[j].0@;
    assert forall|i: int| j < i < p.len() implies (#[trigger] p[i]).0@ != p[j].0@ by {
        assert(blake3_hash(p[i].0@) != blake3_hash(p[j].0@));
    }
    lemma_pairs_map_last(p, j);
    lemma_pairs_map_key(q, k);
    let j2 = choose|j2: int|
        0 <= j2 < q.len() && (#[trigger] q[j2]).0@ == k && forall|i: int|
            j2 < i < q.len() ==> (#[trigger] q[i]).0@ != k;
    lemma_pairs_map_last(q, j2);
    assert forall|i: int| j2 < i < q.len() implies blake3_hash(#[trigger] q[i].0@) != blake3_hash(
        q[j2].0@,
    ) by {
        assert(q[i].0@ != q[j2].0@);
    }
    lemma_dedup_contains(q, j2);
    assert(spec_pair_leaf(q[j2]) == spec_pair_leaf(p[j]));
}

/// The sparse root depends only on the key/value map that the pairs write:
/// the order of distinct keys, and pairs that a later pair overwrites, do not
/// matter, as long as no two distinct keys share a BLAKE3 digest.
pub proof fn lemma_sparse_root_order_invariant(
    p: Seq<(Vec<u8>, Vec<u8>)>,
    q: Seq<(Vec<u8>, Vec<u8>)>,
)
    requires
        spec_pairs_map(p) == spec_pairs_map(q),
        spec_key_digests_distinct(p),
        spec_key_digests_distinct(q),
    ensures
        spec_sparse_root(p) == spec_sparse_root(q),
{
    let a = spec_dedup(p);
    let b = spec_dedup(q);
    assert forall|x: SmtLeaf| a.contains(x) <==> b.contains(x) by {
        if a.contains(x) {
            lemma_dedup_same_map(p, q, x);
        }
        if b.contains(x) {
            lemma_dedup_same_map(q, p, x);
        }
    }
    lemma_dedup_distinct(p);
    lemma_distinct_functional(a);
    lemma_smt_root_contents(0, a, b);
}

/// Two different pairs of nodes are two different hash inputs.
proof fn lemma_pair_inputs_differ(a: [u8; 32], b: [u8; 32], c: [u8; 32], d: [u8; 32])
    requires
        a != c || b != d,
    ensures
        a@ + b@ != c@ + d@,
{
    let x = a@ + b@;
    let y = c@ + d@;
    if x == y {
        assert forall|i: int| 0 <= i < 32 implies a[i] == c[i] && b[i] == d[i] by {
            assert(x[i] == y[i]);
            assert(x[32 + i] == y[32 + i]);
        }
        assert(a =~= c);
        assert(b =~= d);
    }
}

/// The tree over a level of nodes commits to every node: two different
/// levels of the same length have different roots unless BLAKE3 collides. In
/// particular, the last node of an odd level takes part in the root.
pub proof fn lemma_reduce_binds(a: Seq<[u8; 32]>, b: Seq<[u8; 32]>)
    requires
        a.len() == b.len(),
        a.len() >= 1,
        a != b,
        spec_reduce(a) == spec_reduce(b),
    ensures
        spec_blake3_collides(),
    decreases a.len(),
{
    assert(exists|k: int| 0 <= k < a.len() && a[k] != b[k]) by {
        if forall|k: int| 0 <= k < a.len() ==> a[k] == b[k] {
            assert(a =~= b);
        }
    }
    let k = choose|k: int| 0 <= k < a.len() && a[k] != b[k];
    if a.len() == 1 {
        assert(k == 0);
    } else {
        let na = spec_next_level(a);
        let nb = spec_next_level(b);
        if na != nb {
            lemma_reduce_binds(na, nb);
        } else {
            let i = k / 2;
            let n = a.len();
            let a1 = if 2 * i + 1 < n { a[2 * i + 1] } else { a[2 * i] };
            let b1 = if 2 * i + 1 < n { b[2 * i + 1] } else { b[2 * i] };
            assert(na[i] == spec_hash_pair(a[2 * i], a1));
            assert(nb[i] == spec_hash_pair(b[2 * i], b1));
            lemma_pair_inputs_differ(a[2 * i], a1, b[2 * i], b1);
            let x = a[2 * i]@ + a1@;
            let y = b[2 * i]@ + b1@;
            assert(x != y && blake3_hash(x) == blake3_hash(y));
        }
    }
}

/// The Merkle root commits to the pairs: two lists of the same number of
/// pairs whose leaves are not a permutation of one another have different
/// roots unless BLAKE3 collides.
pub proof fn lemma_merkle_root_binds(p: Seq<(Vec<u8>, Vec<u8>)>, q: Seq<(Vec<u8>, Vec<u8>)>)
    requires
        p.len() == q.len(),
        spec_kv_leaves(p).to_multiset() != spec_kv_leaves(q).to_multiset(),
        spec_merkle_root(p) == spec_merkle_root(q),
    ensures
        spec_blake3_collides(),
{
    broadcast use vstd::seq_lib::to_multiset_len;
    let la = spec_kv_leaves(p);
    let lb = spec_kv_leaves(q);
    if p.len() == 0 {
        assert(la =~= lb);
    } else {
        let leq = leaf_order();
        lemma_leaf_order_total();
        la.lemma_sort_by_ensures(leq);
        lb.lemma_sort_by_ensures(leq);
        let sa = la.sort_by(leq);
        let sb = lb.sort_by(leq);
        assert(la.len() == la.to_multiset().len());
        assert(lb.len() == lb.to_multiset().len());
        assert(sa.len() == sa.to_multiset().len());
        assert(sb.len() == sb.to_multiset().len());
        if sa == sb {
            assert(la.to_multiset() == lb.to_multiset());
        }
        lemma_reduce_binds(sa, sb);
    }
}

/// Every pair is committed: giving one pair a value with a different digest
/// changes the Merkle root, unless BLAKE3 collides.
pub proof fn lemma_merkle_root_commits_each_value(p: Seq<(Vec<u8>, Vec<u8>)>, i: int, v: Vec<u8>)
    requires
        0 <= i < p.len(),
        blake3_hash(v@) != blake3_hash(p[i].1@),
    ensures
        spec_merkle_root(p.update(i, (p[i].0, v))) != spec_merkle_root(p) || spec_blake3_collides(),
{
    broadcast use vstd::multiset::group_multiset_axioms, vstd::seq_lib::to_multiset_update;
    let q = p.update(i, (p[i].0, v));
    let la = spec_kv_leaves(p);
    let lb = spec_kv_leaves(q);
    let old_leaf = la[i];
    let new_leaf = spec_kv_leaf(q[i]);
    let hk = blake3_hash(p[i].0@);
    if new_leaf == old_leaf {
        lemma_pair_inputs_differ(hk, blake3_hash(v@), hk, blake3_hash(p[i].1@));
        let x = hk@ + blake3_hash(v@)@;
        let y = hk@ + blake3_hash(p[i].1@)@;
        assert(x != y && blake3_hash(x) == blake3_hash(y));
    } else if spec_merkle_root(q) == spec_merkle_root(p) {
        assert(lb =~= la.update(i, new_leaf));
        assert(lb.to_multiset() == la.to_multiset().insert(new_leaf).remove(old_leaf));
        assert(lb.to_multiset().count(old_leaf) != la.to_multiset().count(old_leaf)) by {
            vstd::seq_lib::to_multiset_contains(la, old_leaf);
            assert(la.contains(old_leaf));
        }
        lemma_merkle_root_binds(q, p);
    }
}

/// How the tree is built over a level: one node is the root; two nodes are
/// hashed together, left then right; of three, the first two are hashed
/// together and the odd last one with itself, and the two results again.
pub proof fn lemma_reduce_shapes(x: [u8; 32], y: [u8; 32], z: [u8; 32])
    ensures
        spec_reduce(seq![x]) == x,
        spec_reduce(seq![x, y]) == blake3_hash(x@ + y@),
        spec_reduce(seq![x, y, z]) == blake3_hash(blake3_hash(x@ + y@)@ + blake3_hash(z@ + z@)@),
{
    let two = seq![x, y];
    let n2 = spec_next_level(two);
    assert(n2 =~= seq![blake3_hash(x@ + y@)]);
    let three = seq![x, y, z];
    let n3 = spec_next_level(three);
    assert(n3 =~= seq![blake3_hash(x@ + y@), blake3_hash(z@ + z@)]);
    let top = seq![blake3_hash(x@ + y@), blake3_hash(z@ + z@)];
    let root = seq![blake3_hash(blake3_hash(x@ + y@)@ + blake3_hash(z@ + z@)@)];
    assert(spec_next_level(top) =~= root);
    assert(spec_reduce(n2) == n2[0]);
    assert(spec_reduce(two) == spec_reduce(n2));
    assert(spec_reduce(root) == root[0]);
    assert(spec_reduce(top) == spec_reduce(root));
    assert(spec_reduce(three) == spec_reduce(n3));
}

/// The root of a single pair is its leaf: the digest of the key's digest
/// followed by the value's digest; no pairs give the digest of
/// "onvm-empty-root".
pub proof fn lemma_merkle_root_small(pair: (Vec<u8>, Vec<u8>))
    ensures
        spec_merkle_root(seq![pair]) == blake3_hash(blake3_hash(pair.0@)@ + blake3_hash(pair.1@)@),
        spec_merkle_root(Seq::<(Vec<u8>, Vec<u8>)>::empty()) == blake3_hash(
            seq![111u8, 110, 118, 109, 45, 101, 109, 112, 116, 121, 45, 114, 111, 111, 116],
        ),
{
    let leaves = spec_kv_leaves(seq![pair]);
    assert(leaves =~= seq![spec_kv_leaf(pair)]);
    let leq = leaf_order();
    lemma_leaf_order_total();
    leaves.lemma_sort_by_ensures(leq);
    let sorted = leaves.sort_by(leq);
    broadcast use vstd::seq_lib::to_multiset_len, vstd::seq_lib::to_multiset_contains;
    assert(sorted.len() == sorted.to_multiset().len());
    assert(leaves.len() == leaves.to_multiset().len());
    assert(sorted.len() == 1);
    assert(sorted.contains(sorted[0]));
    assert(sorted.to_multiset().count(sorted[0]) > 0);
    assert(leaves.to_multiset().count(sorted[0]) > 0);
    assert(leaves.contains(sorted[0]));
    assert(sorted[0] == spec_kv_leaf(pair));
    assert(EMPTY_ROOT_LABEL@ =~= seq![111u8, 110, 118, 109, 45, 101, 109, 112, 116, 121, 45, 114, 111, 111, 116]);
}

} // verus!
