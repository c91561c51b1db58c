//! The block stream engine: the restore as a one-way, step-by-step
//! sequence of fetch-decode steps.
//!
//! The engine owns the ordered block list and an `expected_offset`
//! cursor. The caller asks for the next object path, fetches those bytes
//! from the object store, and feeds them to [`BlockStream::step`], which
//! decompresses them, advances the cursor by the decompressed length,
//! and yields the `(offset, bytes)` pair for one positioned write.
//! Blocks are consumed strictly in manifest order, one at a time; the
//! sequence is not restartable. A divergence between the cursor and the
//! declared offset of the next block surfaces as a [`SkippedData`]
//! condition carrying both offsets, so the caller can decide whether a
//! non-contiguous restore is acceptable (sparse files) or must abort.

use vstd::prelude::*;

use crate::error::RestoreError;
use crate::error::SkippedData;
use crate::manifest::BackupManifest;
use crate::manifest::BlockDescriptor;
use crate::manifest::wf_checksum;
use crate::paths::block_path;
use crate::paths::block_path_spec;
use std::io::Read;

verus! {

/// What the LZ4-frame decoder yields on given compressed bytes: the
/// decompressed payload, or nothing when the input is truncated,
/// malformed or fails a codec-internal integrity check. Decoding is a
/// function of the input bytes alone.
pub uninterp spec fn lz4_frame_decode(input: Seq<u8>) -> Option<Seq<u8>>;

/// Relies on lz4::Decoder (the streaming LZ4-frame format) driven by
/// std::io::Read::read_to_end: decompressing a whole stored block is a
/// deterministic function of the input bytes; a decoder or read error is
/// reported as `None`.
#[verifier::external_body]
fn lz4_decompress(input: &[u8]) -> (r: Option<Vec<u8>>)
    ensures
        match r {
            Some(v) => lz4_frame_decode(input@) == Some(v@),
            None => lz4_frame_decode(input@) is None,
        },
{
    let mut dec = match lz4::Decoder::new(input) {
        Ok(d) => d,
        Err(_) => {
            return None;
        },
    };
    let mut out = Vec::new();
    match dec.read_to_end(&mut out) {
        Ok(_) => Some(out),
        Err(_) => None,
    }
}

/// The gap condition between the end of the previous block (`expected`)
/// and the declared offset of the next one (`found`): nothing when they
/// agree, both offsets when they diverge.
pub open spec fn spec_gap(expected: u128, found: u64) -> Option<SkippedData> {
    if found as u128 == expected {
        None
    } else {
        Some(SkippedData { expected_offset: expected, found_offset: found })
    }
}

/// One decompressed block, ready for a positioned write at `offset`,
/// with the gap condition, if any, between the end of the previous
/// block and this block's declared offset.
#[derive(Debug)]
pub struct StepOutput {
    pub offset: u64,
    pub data: Vec<u8>,
    pub gap: Option<SkippedData>,
}

impl StepOutput {
    /// The gap condition as an error, for a caller that treats any
    /// discontinuity as corruption rather than as a tolerable hole.
    pub fn gap_error(&self) -> (r: Option<RestoreError>)
        ensures
            r == match self.gap {
                Some(g) => Some(RestoreError::Skipped(g)),
                None => None::<RestoreError>,
            },
    {
        match self.gap {
            Some(g) => Some(RestoreError::Skipped(g)),
            None => None,
        }
    }
}

/// The engine's state: the backup's namespace root, the blocks still to
/// be consumed (everything from `next_block` on), and the offset at
/// which the next block is expected to begin. The cursor is one wider
/// than a 64-bit offset, since the end of a block at the top of the
/// offset range can exceed it.
pub struct BlockStream {
    pub basename: Vec<u8>,
    pub blocks: Vec<BlockDescriptor>,
    pub next_block: usize,
    pub expected_offset: u128,
}

impl BlockStream {
    /// The engine invariant: the consumed prefix never outruns the block
    /// list, and every checksum satisfies the addressing invariant.
    pub open spec fn wf(&self) -> bool {
        &&& self.next_block <= self.blocks@.len()
        &&& forall|i: int|
            0 <= i < self.blocks@.len() ==> wf_checksum((#[trigger] self.blocks@[i])@.checksum)
    }

    /// Starts a restore run over the blocks of a resolved manifest,
    /// rooted at `basename`. The first block is expected at offset zero.
    pub fn new(basename: Vec<u8>, manifest: BackupManifest) -> (r: BlockStream)
        requires
            manifest.wf(),
        ensures
            r.wf(),
            r.basename == basename,
            r.blocks == manifest.blocks,
            r.next_block == 0,
            r.expected_offset == 0,
    {
        proof {
            assert forall|i: int| 0 <= i < manifest.blocks@.len() implies wf_checksum(
                (#[trigger] manifest.blocks@[i])@.checksum,
            ) by {
                assert(manifest@.blocks[i] == manifest.blocks@[i]@);
            }
        }
        BlockStream { basename, blocks: manifest.blocks, next_block: 0, expected_offset: 0 }
    }

    /// The object path of the next block to fetch, or nothing when the
    /// run is complete. Blocks are fetched strictly in manifest order:
    /// this is always the first block not yet consumed.
    pub fn next_path(&self) -> (r: Option<Vec<u8>>)
        requires
            self.wf(),
        ensures
            match r {
                Some(p) => {
                    &&& self.next_block < self.blocks@.len()
                    &&& p@ == block_path_spec(
                        self.basename@,
                        self.blocks@[self.next_block as int]@.checksum,
                    )
                },
                None => self.next_block == self.blocks@.len(),
            },
    {
        if self.next_block < self.blocks.len() {
            Some(
                block_path(
                    self.basename.as_slice(),
                    self.blocks[self.next_block].checksum.as_slice(),
                ),
            )
        } else {
            None
        }
    }

    /// Consumes the stored bytes fetched for the next block: decodes
    /// them to completion, advances the cursor to the end of the block,
    /// and yields the pair for one positioned write. Fails when the
    /// compressed payload is corrupt or truncated, leaving the state
    /// unchanged.
    pub fn step(&mut self, fetched: &[u8]) -> (r: Result<StepOutput, RestoreError>)
        requires
            old(self).wf(),
            old(self).next_block < old(self).blocks@.len(),
        ensures
            final(self).wf(),
            final(self).basename == old(self).basename,
            final(self).blocks == old(self).blocks,
            match lz4_frame_decode(fetched@) {
                None => {
                    &&& r matches Err(e) && e == RestoreError::Decode
                    &&& *final(self) == *old(self)
                },
                Some(payload) => {
                    &&& r matches Ok(out)
                    &&& out.offset == old(self).blocks@[old(self).next_block as int]@.offset
                    &&& out.data@ == payload
                    &&& out.gap == spec_gap(old(self).expected_offset, out.offset)
                    &&& final(self).next_block == old(self).next_block + 1
                    &&& final(self).expected_offset == out.offset as u128 + payload.len()
                },
            },
    {
        let n = self.blocks.len();
        assert(self.next_block < n);
        let found = self.blocks[self.next_block].offset;
        match lz4_decompress(fetched) {
            None => Err(RestoreError::Decode),
            Some(data) => {
                let gap = if (found as u128) == self.expected_offset {
                    None
                } else {
                    Some(
                        SkippedData {
                            expected_offset: self.expected_offset,
                            found_offset: found,
                        },
                    )
                };
                self.next_block = self.next_block + 1;
                self.expected_offset = found as u128 + data.len() as u128;
                Ok(StepOutput { offset: found, data, gap })
            },
        }
    }
}

} // verus!
