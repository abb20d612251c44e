//! How program code is cut into chunks for storage and transfer, the keys
//! the chunks are stored under, and the checks on chunks received.

use vstd::prelude::*;
use crate::types::ProgramId;

verus! {

/// Programs are stored in chunks of this many bytes (1 MiB).
pub const PROGRAM_CHUNK_SIZE: usize = 1048576;

/// Programs larger than this (10 MiB) are stored in chunks.
pub const MAX_UNCHUNKED_PROGRAM_SIZE: usize = 10485760;

/// How a chunked program is laid out.
#[derive(Clone, Debug, PartialEq, Eq)]
pub struct ChunkedProgramMetadata {
    pub program_id: ProgramId,
    pub chunk_count: usize,
    pub chunk_sizes: Vec<usize>,
}

/// Whether a program of `len` bytes is stored in chunks.
pub fn needs_chunking(len: usize) -> (res: bool)
    ensures
        res == (len > MAX_UNCHUNKED_PROGRAM_SIZE),
{
    len > MAX_UNCHUNKED_PROGRAM_SIZE
}

/// The bytes of the chunks, one after the other.
pub open spec fn spec_concat(chunks: Seq<Seq<u8>>) -> Seq<u8>
    decreases chunks.len(),
{
    if chunks.len() == 0 {
        Seq::empty()
    } else {
        spec_concat(chunks.drop_last()) + chunks.last()
    }
}

/// Cut `data` into consecutive chunks of `chunk_size` bytes (the last one
/// holds the rest); no chunk for empty data.
pub fn split_program(data: &[u8], chunk_size: usize) -> (res: Vec<Vec<u8>>)
    requires
        chunk_size > 0,
    ensures
        res@.map_values(|c: Vec<u8>| c@) == spec_split(data@, chunk_size as nat),
        spec_concat(res@.map_values(|c: Vec<u8>| c@)) == data@,
        forall|i: int| 0 <= i < res@.len() ==> 0 < (#[trigger] res@[i])@.len() <= chunk_size,
        forall|i: int| 0 <= i < res@.len() - 1 ==> (#[trigger] res@[i])@.len() == chunk_size,
{
    let n = data.len();
    assert(data@.skip(0) =~= data@);
    let mut chunks: Vec<Vec<u8>> = Vec::new();
    let mut offset: usize = 0;
    while offset < n
        invariant
            chunk_size > 0,
            n == data@.len(),
            offset <= n,
            spec_concat(chunks@.map_values(|c: Vec<u8>| c@)) == data@.take(offset as int),
            forall|i: int| 0 <= i < chunks@.len() ==> 0 < (#[trigger] chunks@[i])@.len() <= chunk_size,
            forall|i: int| 0 <= i < chunks@.len() - 1 ==> (#[trigger] chunks@[i])@.len() == chunk_size,
            offset < n ==> forall|i: int| 0 <= i < chunks@.len() ==> (#[trigger] chunks@[i])@.len() == chunk_size,
            chunks@.map_values(|c: Vec<u8>| c@) + spec_split(data@.skip(offset as int), chunk_size as nat)
                == spec_split(data@, chunk_size as nat),
        decreases n - offset,
    {
        let end = if n - offset > chunk_size { offset + chunk_size } else { n };
        let mut chunk: Vec<u8> = Vec::new();
        let mut j: usize = offset;
        while j < end
            invariant
                offset <= j <= end,
                end <= data@.len(),
                chunk@ == data@.subrange(offset as int, j as int),
            decreases end - j,
        {
            chunk.push(data[j]);
            assert(data@.subrange(offset as int, j + 1) =~= data@.subrange(offset as int, j as int).push(data@[j as int]));
            j = j + 1;
        }
        let ghost before = chunks@;
        chunks.push(chunk);
        assert(chunks@.map_values(|c: Vec<u8>| c@) =~= before.map_values(|c: Vec<u8>| c@).push(chunk@));
        assert(chunks@.map_values(|c: Vec<u8>| c@).drop_last() =~= before.map_values(|c: Vec<u8>| c@));
        assert(data@.take(end as int) =~= data@.take(offset as int) + data@.subrange(offset as int, end as int));
        assert forall|i: int| 0 <= i < chunks@.len() implies 0 < (#[trigger] chunks@[i])@.len() <= chunk_size by {
            if i < before.len() {
                assert(chunks@[i] == before[i]);
            }
        }
        assert forall|i: int| 0 <= i < chunks@.len() - 1 implies (#[trigger] chunks@[i])@.len() == chunk_size by {
            assert(chunks@[i] == before[i]);
        }
        proof {
            lemma_split_step(data@, chunk_size as nat, offset as int, end as int);
            let bv = before.map_values(|c: Vec<u8>| c@);
            assert(bv + (seq![chunk@] + spec_split(data@.skip(end as int), chunk_size as nat))
                =~= bv.push(chunk@) + spec_split(data@.skip(end as int), chunk_size as nat));
        }
        offset = end;
    }
    assert(data@.take(n as int) =~= data@);
    proof {
        assert(data@.skip(n as int).len() == 0);
        assert(chunks@.map_values(|c: Vec<u8>| c@) + Seq::<Seq<u8>>::empty() =~= chunks@.map_values(|c: Vec<u8>| c@));
    }
    chunks
}

/// Join chunks back into one byte string.
pub fn reassemble(chunks: &Vec<Vec<u8>>) -> (res: Vec<u8>)
    ensures
        res@ == spec_concat(chunks@.map_values(|c: Vec<u8>| c@)),
{
    let mut out: Vec<u8> = Vec::new();
    let mut i: usize = 0;
    while i < chunks.len()
        invariant
            i <= chunks@.len(),
            out@ == spec_concat(chunks@.take(i as int).map_values(|c: Vec<u8>| c@)),
        decreases chunks@.len() - i,
    {
        let chunk = &chunks[i];
        let ghost start = out@;
        let mut j: usize = 0;
        while j < chunk.len()
            invariant
                j <= chunk@.len(),
                out@ == start + chunk@.take(j as int),
            decreases chunk@.len() - j,
        {
            out.push(chunk[j]);
            assert(chunk@.take(j + 1) =~= chunk@.take(j as int).push(chunk@[j as int]));
            assert(out@ =~= start + chunk@.take(j + 1));
            j = j + 1;
        }
        assert(chunk@.take(chunk@.len() as int) =~= chunk@);
        assert(chunks@.take(i + 1).map_values(|c: Vec<u8>| c@).drop_last()
            =~= chunks@.take(i as int).map_values(|c: Vec<u8>| c@));
        i = i + 1;
    }
    assert(chunks@.take(chunks@.len() as int) =~= chunks@);
    out
}

/// The chunks of `data`: its first `size` bytes, then the chunks of the rest.
pub open spec fn spec_split(data: Seq<u8>, size: nat) -> Seq<Seq<u8>>
    decreases data.len(),
{
    if data.len() == 0 || size == 0 {
        Seq::empty()
    } else if data.len() <= size {
        seq![data]
    } else {
        seq![data.take(size as int)] + spec_split(data.skip(size as int), size)
    }
}

/// Storing a program in chunks loses nothing: joining the chunks of a
/// program gives back the program.
pub proof fn lemma_split_then_reassemble(data: Seq<u8>, size: nat)
    requires
        size > 0,
    ensures
        spec_concat(spec_split(data, size)) == data,
    decreases data.len(),
{
    if data.len() == 0 {
    } else if data.len() <= size {
        lemma_concat_prepend(data, Seq::<Seq<u8>>::empty());
        assert(seq![data] + Seq::<Seq<u8>>::empty() =~= seq![data]);
        assert(spec_concat(Seq::<Seq<u8>>::empty()) == Seq::<u8>::empty());
        assert(data + Seq::<u8>::empty() =~= data);
    } else {
        let rest = spec_split(data.skip(size as int), size);
        lemma_split_then_reassemble(data.skip(size as int), size);
        lemma_concat_prepend(data.take(size as int), rest);
        assert(data.take(size as int) + data.skip(size as int) =~= data);
    }
}

/// Joining a first chunk and more chunks is the first chunk followed by the rest.
proof fn lemma_concat_prepend(first: Seq<u8>, rest: Seq<Seq<u8>>)
    ensures
        spec_concat(seq![first] + rest) == first + spec_concat(rest),
    decreases rest.len(),
{
    let s = seq![first] + rest;
    if rest.len() == 0 {
        assert(s =~= seq![first]);
        assert(s.drop_last() =~= Seq::<Seq<u8>>::empty());
        assert(s.last() == first);
        assert(spec_concat(s.drop_last()) == Seq::<u8>::empty());
        assert(spec_concat(s) == Seq::<u8>::empty() + first);
        assert(Seq::<u8>::empty() + first =~= first);
        assert(spec_concat(rest) == Seq::<u8>::empty());
        assert(first + Seq::<u8>::empty() =~= first);
    } else {
        lemma_concat_prepend(first, rest.drop_last());
        assert(s.drop_last() =~= seq![first] + rest.drop_last());
        assert(s.last() == rest.last());
        assert(spec_concat(s) == spec_concat(s.drop_last()) + s.last());
        assert(spec_concat(rest) == spec_concat(rest.drop_last()) + rest.last());
        assert(first + spec_concat(rest.drop_last()) + rest.last() =~= first + (spec_concat(rest.drop_last()) + rest.last()));
    }
}

/// After `offset` bytes that fill whole chunks, the chunks of the rest start
/// with the next chunk.
proof fn lemma_split_step(data: Seq<u8>, size: nat, offset: int, end: int)
    requires
        size > 0,
        0 <= offset < end <= data.len(),
        end == (if data.len() - offset > size { offset + size } else { data.len() as int }),
    ensures
        spec_split(data.skip(offset), size) == seq![data.subrange(offset, end)] + spec_split(data.skip(end), size),
{
    let d = data.skip(offset);
    if d.len() <= size {
        assert(end == data.len());
        assert(d =~= data.subrange(offset, end));
        assert(data.skip(end).len() == 0);
        assert(spec_split(data.skip(end), size) =~= Seq::<Seq<u8>>::empty());
        assert(seq![d] + Seq::<Seq<u8>>::empty() =~= seq![d]);
    } else {
        assert(d.take(size as int) =~= data.subrange(offset, end));
        assert(d.skip(size as int) =~= data.skip(end));
    }
}

/// The sizes of the chunks.
fn chunk_sizes(chunks: &Vec<Vec<u8>>) -> (res: Vec<usize>)
    ensures
        res@.len() == chunks@.len(),
        forall|i: int| 0 <= i < res@.len() ==> res@[i] == (#[trigger] chunks@[i])@.len(),
{
    let mut sizes: Vec<usize> = Vec::new();
    let mut i: usize = 0;
    while i < chunks.len()
        invariant
            i <= chunks@.len(),
            sizes@.len() == i,
            forall|k: int| 0 <= k < i ==> sizes@[k] == (#[trigger] chunks@[k])@.len(),
        decreases chunks@.len() - i,
    {
        sizes.push(chunks[i].len());
        i = i + 1;
    }
    sizes
}

/// The chunks of a large program and their layout.
pub fn chunk_program(id: &ProgramId, wasm: &[u8]) -> (res: (Vec<Vec<u8>>, ChunkedProgramMetadata))
    ensures
        spec_concat(res.0@.map_values(|c: Vec<u8>| c@)) == wasm@,
        forall|i: int| 0 <= i < res.0@.len() ==> 0 < (#[trigger] res.0@[i])@.len() <= PROGRAM_CHUNK_SIZE,
        forall|i: int| 0 <= i < res.0@.len() - 1 ==> (#[trigger] res.0@[i])@.len() == PROGRAM_CHUNK_SIZE,
        res.1.program_id == *id,
        res.1.chunk_count == res.0@.len(),
        res.1.chunk_sizes@.len() == res.0@.len(),
        forall|i: int| 0 <= i < res.0@.len() ==> res.1.chunk_sizes@[i] == (#[trigger] res.0@[i])@.len(),
{
    let chunks = split_program(wasm, PROGRAM_CHUNK_SIZE);
    let sizes = chunk_sizes(&chunks);
    let meta = ChunkedProgramMetadata { program_id: *id, chunk_count: chunks.len(), chunk_sizes: sizes };
    (chunks, meta)
}

/// The storage key of a program chunk: the program identifier, then the
/// chunk index as four big-endian bytes (modulo 2^32).
pub open spec fn spec_chunk_key(id: ProgramId, index: usize) -> Seq<u8> {
    let x = index as u32;
    id.0@ + seq![(x >> 24u32) as u8, (x >> 16u32) as u8, (x >> 8u32) as u8, x as u8]
}

/// The storage key of chunk `index` of a program.
pub fn chunk_key(id: &ProgramId, index: usize) -> (res: Vec<u8>)
    ensures
        res@ == spec_chunk_key(*id, index),
{
    let mut key: Vec<u8> = Vec::with_capacity(36);
    let mut i: usize = 0;
    while i < 32
        invariant
            i <= 32,
            key@ == id.0@.take(i as int),
        decreases 32 - i,
    {
        key.push(id.0[i]);
        assert(id.0@.take(i + 1) =~= id.0@.take(i as int).push(id.0@[i as int]));
        i = i + 1;
    }
    let x = index as u32;
    key.push((x >> 24u32) as u8);
    key.push((x >> 16u32) as u8);
    key.push((x >> 8u32) as u8);
    key.push(x as u8);
    assert(id.0@.take(32) =~= id.0@);
    assert(key@ =~= spec_chunk_key(*id, index));
    key
}

/// Why a received chunk was refused.
#[derive(Clone, Copy, Debug, PartialEq, Eq, Structural)]
pub enum ChunkError {
    /// The index is not below the chunk count.
    IndexOutOfBounds,
    /// The chunk's length is not the recorded size.
    SizeMismatch,
    /// No size is recorded for the index.
    MissingSize,
}

/// Check a replicated chunk against the layout: its index is below the
/// chunk count and its length is the size recorded for it.
pub fn check_replicated_chunk(meta: &ChunkedProgramMetadata, index: usize, len: usize) -> (res: Result<(), ChunkError>)
    ensures
        index >= meta.chunk_count ==> res == Err::<(), ChunkError>(ChunkError::IndexOutOfBounds),
        index < meta.chunk_count && index >= meta.chunk_sizes@.len()
            ==> res == Err::<(), ChunkError>(ChunkError::MissingSize),
        index < meta.chunk_count && index < meta.chunk_sizes@.len() && len != meta.chunk_sizes@[index as int]
            ==> res == Err::<(), ChunkError>(ChunkError::SizeMismatch),
        index < meta.chunk_count && index < meta.chunk_sizes@.len() && len == meta.chunk_sizes@[index as int]
            ==> res == Ok::<(), ChunkError>(()),
{
    if index >= meta.chunk_count {
        return Err(ChunkError::IndexOutOfBounds);
    }
    if index < meta.chunk_sizes.len() {
        if len != meta.chunk_sizes[index] {
            return Err(ChunkError::SizeMismatch);
        }
        Ok(())
    } else {
        Err(ChunkError::MissingSize)
    }
}

/// Check a single stored chunk against the layout: its index is below the
/// chunk count, and its length is the recorded size when one is recorded.
pub fn check_stored_chunk(meta: &ChunkedProgramMetadata, index: usize, len: usize) -> (res: Result<(), ChunkError>)
    ensures
        index >= meta.chunk_count ==> res == Err::<(), ChunkError>(ChunkError::IndexOutOfBounds),
        index < meta.chunk_count && index < meta.chunk_sizes@.len() && len != meta.chunk_sizes@[index as int]
            ==> res == Err::<(), ChunkError>(ChunkError::SizeMismatch),
        index < meta.chunk_count && !(index < meta.chunk_sizes@.len() && len != meta.chunk_sizes@[index as int])
            ==> res == Ok::<(), ChunkError>(()),
{
    if index >= meta.chunk_count {
        return Err(ChunkError::IndexOutOfBounds);
    }
    if index < meta.chunk_sizes.len() && len != meta.chunk_sizes[index] {
        return Err(ChunkError::SizeMismatch);
    }
    Ok(())
}

} // verus!
