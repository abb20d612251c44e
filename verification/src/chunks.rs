//! Fetching an object from peers: which answers to a chunk, part,
//! metadata or manifest request are taken, and how a large chunk is split
//! into the parts that are asked for.

use vstd::prelude::*;
use crate::hashing::digest_eq;
use crate::protocol::{
    ChunkPartResponse, ChunkResponse, ManifestResponse, ObjectMetadataResponse, TransferResponse, UnifiedResponse,
};
use crate::types::{ChunkId, Manifest, Object};

verus! {

/// Most chunk fetches running at once.
pub const MAX_CONCURRENT_CHUNK_FETCHES: usize = 8;

/// Providers asked for a whole chunk before giving up on this attempt.
pub const MAX_PROVIDER_TRIES_PER_CHUNK: usize = 3;

/// Providers asked for one part of a chunk.
pub const MAX_PROVIDER_TRIES_PER_PART: usize = 3;

/// Attempts at fetching a chunk.
pub const MAX_CHUNK_FETCH_ATTEMPTS: usize = 4;

/// Why a peer's answer was not taken.
#[derive(Clone, Copy, Debug, PartialEq, Eq, Structural)]
pub enum FetchError {
    /// An answer of another kind.
    UnexpectedResponse,
    /// An answer for another chunk.
    ChunkIdMismatch,
    /// A part at another offset.
    OffsetMismatch,
    /// A part of another length.
    WrongPartLength,
    /// The peer does not have it.
    NotFound,
}

/// The unified answer inside a transfer answer.
pub fn unified_of(resp: TransferResponse) -> (res: Result<UnifiedResponse, FetchError>)
    ensures
        match resp {
            TransferResponse::Unified(u) => res == Ok::<UnifiedResponse, FetchError>(u),
            _ => res == Err::<UnifiedResponse, FetchError>(FetchError::UnexpectedResponse),
        },
{
    match resp {
        TransferResponse::Unified(u) => Ok(u),
        _ => Err(FetchError::UnexpectedResponse),
    }
}

/// The data of a chunk answer: it must answer for `chunk_id` and hold data.
pub fn check_chunk_response(resp: UnifiedResponse, chunk_id: &ChunkId) -> (res: Result<Vec<u8>, FetchError>)
    ensures
        match resp {
            UnifiedResponse::Chunk(c) => if c.chunk_id != *chunk_id {
                res == Err::<Vec<u8>, FetchError>(FetchError::ChunkIdMismatch)
            } else {
                match c.data {
                    Some(d) => res == Ok::<Vec<u8>, FetchError>(d),
                    None => res == Err::<Vec<u8>, FetchError>(FetchError::NotFound),
                }
            },
            _ => res == Err::<Vec<u8>, FetchError>(FetchError::UnexpectedResponse),
        },
{
    match resp {
        UnifiedResponse::Chunk(ChunkResponse { chunk_id: got, data }) => {
            if !digest_eq(&got.0, &chunk_id.0) {
                return Err(FetchError::ChunkIdMismatch);
            }
            match data {
                Some(d) => Ok(d),
                None => Err(FetchError::NotFound),
            }
        },
        _ => Err(FetchError::UnexpectedResponse),
    }
}

/// The data of a part answer: it must answer for `chunk_id` at `offset`,
/// hold data, and hold exactly `want_len` bytes.
pub fn check_chunk_part_response(resp: UnifiedResponse, chunk_id: &ChunkId, offset: usize, want_len: usize) -> (res: Result<Vec<u8>, FetchError>)
    ensures
        match resp {
            UnifiedResponse::ChunkPart(p) => if p.chunk_id != *chunk_id {
                res == Err::<Vec<u8>, FetchError>(FetchError::ChunkIdMismatch)
            } else if p.offset != offset {
                res == Err::<Vec<u8>, FetchError>(FetchError::OffsetMismatch)
            } else {
                match p.data {
                    Some(d) => if d@.len() == want_len {
                        res == Ok::<Vec<u8>, FetchError>(d)
                    } else {
                        res == Err::<Vec<u8>, FetchError>(FetchError::WrongPartLength)
                    },
                    None => res == Err::<Vec<u8>, FetchError>(FetchError::NotFound),
                }
            },
            _ => res == Err::<Vec<u8>, FetchError>(FetchError::UnexpectedResponse),
        },
{
    match resp {
        UnifiedResponse::ChunkPart(ChunkPartResponse { chunk_id: got, offset: got_offset, data }) => {
            if !digest_eq(&got.0, &chunk_id.0) {
                return Err(FetchError::ChunkIdMismatch);
            }
            if got_offset as usize != offset {
                return Err(FetchError::OffsetMismatch);
            }
            match data {
                Some(d) => {
                    if d.len() == want_len {
                        Ok(d)
                    } else {
                        Err(FetchError::WrongPartLength)
                    }
                },
                None => Err(FetchError::NotFound),
            }
        },
        _ => Err(FetchError::UnexpectedResponse),
    }
}

/// The object of a metadata answer, when the peer has it.
pub fn check_metadata_response(resp: UnifiedResponse) -> (res: Result<Object, FetchError>)
    ensures
        match resp {
            UnifiedResponse::ObjectMetadata(m) => match m.metadata {
                Some(o) => res == Ok::<Object, FetchError>(o),
                None => res == Err::<Object, FetchError>(FetchError::NotFound),
            },
            _ => res == Err::<Object, FetchError>(FetchError::UnexpectedResponse),
        },
{
    match resp {
        UnifiedResponse::ObjectMetadata(ObjectMetadataResponse { metadata, .. }) => match metadata {
            Some(o) => Ok(o),
            None => Err(FetchError::NotFound),
        },
        _ => Err(FetchError::UnexpectedResponse),
    }
}

/// The manifest of a manifest answer, when the peer has it.
pub fn check_manifest_response(resp: UnifiedResponse) -> (res: Result<Manifest, FetchError>)
    ensures
        match resp {
            UnifiedResponse::Manifest(m) => match m.manifest {
                Some(x) => res == Ok::<Manifest, FetchError>(x),
                None => res == Err::<Manifest, FetchError>(FetchError::NotFound),
            },
            _ => res == Err::<Manifest, FetchError>(FetchError::UnexpectedResponse),
        },
{
    match resp {
        UnifiedResponse::Manifest(ManifestResponse { manifest }) => match manifest {
            Some(x) => Ok(x),
            None => Err(FetchError::NotFound),
        },
        _ => Err(FetchError::UnexpectedResponse),
    }
}

/// The parts a chunk of `size` bytes is fetched in, as offset and length:
/// consecutive, each `part_size` long but the last, covering the chunk.
pub open spec fn spec_parts(size: nat, part_size: nat, offset: nat) -> Seq<(usize, usize)>
    decreases size - offset,
{
    if part_size == 0 || offset >= size {
        Seq::empty()
    } else {
        let len = if size - offset < part_size { (size - offset) as nat } else { part_size };
        seq![(offset as usize, len as usize)] + spec_parts(size, part_size, offset + len)
    }
}

/// The parts a chunk of `size` bytes is fetched in, at most `part_size`
/// bytes each, in order.
pub fn subchunk_parts(size: usize, part_size: usize) -> (res: Vec<(usize, usize)>)
    requires
        part_size > 0,
    ensures
        res@ == spec_parts(size as nat, part_size as nat, 0),
{
    let mut out: Vec<(usize, usize)> = Vec::new();
    let mut offset: usize = 0;
    while offset < size
        invariant
            offset <= size,
            part_size > 0,
            out@ + spec_parts(size as nat, part_size as nat, offset as nat) == spec_parts(size as nat, part_size as nat, 0),
        decreases size - offset,
    {
        let len = if size - offset < part_size { size - offset } else { part_size };
        let ghost before = out@;
        out.push((offset, len));
        assert(before + spec_parts(size as nat, part_size as nat, offset as nat)
            =~= out@ + spec_parts(size as nat, part_size as nat, (offset + len) as nat));
        offset = offset + len;
    }
    assert(out@ + spec_parts(size as nat, part_size as nat, offset as nat) =~= out@);
    out
}

/// The parts cover the chunk without gaps or overlaps: they start at the
/// offset asked for, each begins where the one before ends, none is empty
/// or longer than a part, and the last ends at the chunk's end.
pub proof fn lemma_parts_cover(size: nat, part_size: nat, offset: nat)
    requires
        part_size > 0,
        size <= usize::MAX,
        offset <= size,
    ensures
        ({
            let p = spec_parts(size, part_size, offset);
            &&& offset < size ==> p.len() > 0 && p[0].0 == offset
            &&& offset == size ==> p.len() == 0
            &&& forall|i: int| 0 <= i < p.len() ==> 0 < (#[trigger] p[i]).1 <= part_size && p[i].0 + p[i].1 <= size
            &&& forall|i: int| 0 <= i < p.len() - 1 ==> (#[trigger] p[i]).0 + p[i].1 == p[i + 1].0
            &&& p.len() > 0 ==> p.last().0 + p.last().1 == size
        }),
    decreases size - offset,
{
    if offset < size {
        let len = if size - offset < part_size { (size - offset) as nat } else { part_size };
        lemma_parts_cover(size, part_size, offset + len);
        let rest = spec_parts(size, part_size, offset + len);
        let p = spec_parts(size, part_size, offset);
        assert(p == seq![(offset as usize, len as usize)] + rest);
        assert forall|i: int| 0 <= i < p.len() implies 0 < (#[trigger] p[i]).1 <= part_size && p[i].0 + p[i].1 <= size by {
            if i > 0 {
                assert(p[i] == rest[i - 1]);
            }
        }
        assert forall|i: int| 0 <= i < p.len() - 1 implies (#[trigger] p[i]).0 + p[i].1 == p[i + 1].0 by {
            if i > 0 {
                assert(p[i] == rest[i - 1]);
                assert(p[i + 1] == rest[i]);
            } else {
                assert(p[1] == rest[0]);
            }
        }
        if rest.len() > 0 {
            assert(p.last() == rest.last());
        }
    }
}

} // verus!
