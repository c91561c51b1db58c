//! The restore model and what a whole run guarantees.
//!
//! [`crate::engine::BlockStream::step`] yields, for the `i`-th block,
//! the pair `(blocks[i].offset, payload_i)` where `payload_i` is the
//! decoded content of the bytes fetched for it, so a complete run over
//! `blocks` yields exactly [`outputs_of`]`(blocks, payloads)`. The writer
//! performs one positioned write per pair, which [`write_at`] models.
//! [`lemma_round_trip`] is the round-trip guarantee of the whole
//! pipeline over that model; [`lemma_writer_writes_every_block`] and
//! [`lemma_writer_touches_nothing_else`] are the writer's own contract:
//! every range holds exactly its block's bytes, and nothing else is
//! touched.

use vstd::prelude::*;

use crate::engine::lz4_frame_decode;
use crate::engine::spec_gap;
use crate::manifest::BlockModel;

verus! {

/// A positioned write: `data` placed at `off`, the rest of the file
/// kept, and any hole between the old end and `off` zero-filled, as a
/// seek past the end followed by a write leaves it.
pub open spec fn write_at(file: Seq<u8>, off: int, data: Seq<u8>) -> Seq<u8>
    recommends
        off >= 0,
{
    let end = off + data.len();
    let n = if file.len() >= end {
        file.len() as int
    } else {
        end
    };
    Seq::new(
        n as nat,
        |j: int|
            if off <= j < end {
                data[j - off]
            } else if j < file.len() {
                file[j]
            } else {
                0u8
            },
    )
}

/// The file after one positioned write per pair, in order.
pub open spec fn apply_writes(file: Seq<u8>, pairs: Seq<(u64, Seq<u8>)>) -> Seq<u8>
    decreases pairs.len(),
{
    if pairs.len() == 0 {
        file
    } else {
        apply_writes(write_at(file, pairs[0].0 as int, pairs[0].1), pairs.skip(1))
    }
}

/// The concatenation of a sequence of payloads.
pub open spec fn concat_all(xs: Seq<Seq<u8>>) -> Seq<u8>
    decreases xs.len(),
{
    if xs.len() == 0 {
        Seq::empty()
    } else {
        xs[0] + concat_all(xs.skip(1))
    }
}

/// What a complete run yields: each block's declared offset paired with
/// its decoded payload, in manifest order.
pub open spec fn outputs_of(blocks: Seq<BlockModel>, payloads: Seq<Seq<u8>>) -> Seq<
    (u64, Seq<u8>),
>
    recommends
        blocks.len() == payloads.len(),
{
    Seq::new(blocks.len(), |i: int| (blocks[i].offset, payloads[i]))
}

/// The number of payload bytes in front of the `i`-th payload.
pub open spec fn prefix_len(payloads: Seq<Seq<u8>>, i: int) -> int
    decreases i,
{
    if i <= 0 {
        0
    } else {
        prefix_len(payloads, i - 1) + payloads[i - 1].len()
    }
}

/// Writing at the current end of the file appends exactly the data.
proof fn lemma_write_at_append(file: Seq<u8>, off: int, data: Seq<u8>)
    requires
        off == file.len(),
    ensures
        write_at(file, off, data) == file + data,
{
    assert(write_at(file, off, data) =~= file + data);
}

/// Dropping the first payload shifts every prefix length down by its
/// length.
proof fn lemma_prefix_len_skip(payloads: Seq<Seq<u8>>, i: int)
    requires
        payloads.len() > 0,
        0 <= i < payloads.len(),
    ensures
        prefix_len(payloads.skip(1), i) == prefix_len(payloads, i + 1) - payloads[0].len(),
    decreases i,
{
    if i > 0 {
        lemma_prefix_len_skip(payloads, i - 1);
        assert(payloads.skip(1)[i - 1] == payloads[i]);
        assert(prefix_len(payloads.skip(1), i) == prefix_len(payloads.skip(1), i - 1)
            + payloads.skip(1)[i - 1].len());
    } else {
        assert(prefix_len(payloads.skip(1), 0) == 0);
        assert(prefix_len(payloads, 0) == 0);
        assert(prefix_len(payloads, 1) == prefix_len(payloads, 0) + payloads[0].len());
    }
}

/// A run over blocks laid out back to back starting at the end of
/// `file` appends exactly the concatenation of the payloads.
proof fn lemma_run_appends(blocks: Seq<BlockModel>, payloads: Seq<Seq<u8>>, file: Seq<u8>)
    requires
        blocks.len() == payloads.len(),
        forall|i: int|
            0 <= i < blocks.len() ==> (#[trigger] blocks[i]).offset == file.len() + prefix_len(
                payloads,
                i,
            ),
    ensures
        apply_writes(file, outputs_of(blocks, payloads)) == file + concat_all(payloads),
    decreases blocks.len(),
{
    if blocks.len() == 0 {
        assert(apply_writes(file, outputs_of(blocks, payloads)) =~= file + concat_all(payloads));
    } else {
        assert(blocks[0].offset == file.len() + prefix_len(payloads, 0));
        let p0 = payloads[0];
        let file1 = write_at(file, blocks[0].offset as int, p0);
        lemma_write_at_append(file, blocks[0].offset as int, p0);
        let outs = outputs_of(blocks, payloads);
        assert(outs[0] == (blocks[0].offset, p0));
        assert(outs.skip(1) =~= outputs_of(blocks.skip(1), payloads.skip(1)));
        assert forall|i: int| 0 <= i < blocks.skip(1).len() implies (#[trigger] blocks.skip(1)[
            i
        ]).offset == file1.len() + prefix_len(payloads.skip(1), i) by {
            lemma_prefix_len_skip(payloads, i);
            assert(blocks.skip(1)[i] == blocks[i + 1]);
            assert(blocks[i + 1].offset == file.len() + prefix_len(payloads, i + 1));
        }
        lemma_run_appends(blocks.skip(1), payloads.skip(1), file1);
        assert(concat_all(payloads) == p0 + concat_all(payloads.skip(1)));
        assert((file + p0) + concat_all(payloads.skip(1)) =~= file + (p0 + concat_all(
            payloads.skip(1),
        )));
    }
}

/// Round trip: payloads compressed with the supported codec and
/// described by a manifest whose offsets are the cumulative payload
/// lengths restore to a destination file byte-identical to the
/// concatenation of the original payloads, and no gap condition
/// surfaces at any step.
pub proof fn lemma_round_trip(blocks: Seq<BlockModel>, stored: Seq<Seq<u8>>, payloads: Seq<Seq<u8>>)
    requires
        blocks.len() == stored.len(),
        blocks.len() == payloads.len(),
        forall|i: int|
            0 <= i < blocks.len() ==> lz4_frame_decode(#[trigger] stored[i]) == Some(payloads[i]),
        forall|i: int|
            0 <= i < blocks.len() ==> (#[trigger] blocks[i]).offset == prefix_len(payloads, i),
    ensures
        apply_writes(Seq::empty(), outputs_of(blocks, payloads)) == concat_all(payloads),
        forall|i: int|
            0 <= i < blocks.len() ==> spec_gap(
                prefix_len(payloads, i) as u128,
                (#[trigger] blocks[i]).offset,
            ) is None,
{
    lemma_run_appends(blocks, payloads, Seq::empty());
}

/// The byte ranges of two positioned writes have no byte in common.
pub open spec fn ranges_disjoint(a: (u64, Seq<u8>), b: (u64, Seq<u8>)) -> bool {
    a.0 + a.1.len() <= b.0 || b.0 + b.1.len() <= a.0
}

/// No two writes of the run touch a common byte.
pub open spec fn pairwise_disjoint(pairs: Seq<(u64, Seq<u8>)>) -> bool {
    forall|i: int, k: int|
        0 <= i < k < pairs.len() ==> ranges_disjoint(#[trigger] pairs[i], #[trigger] pairs[k])
}

/// Byte position `j` lies in the range written by pair `i`.
pub open spec fn covers(pairs: Seq<(u64, Seq<u8>)>, i: int, j: int) -> bool {
    pairs[i].0 <= j < pairs[i].0 + pairs[i].1.len()
}

/// A run of writes never shrinks the file.
proof fn lemma_apply_writes_len(file: Seq<u8>, pairs: Seq<(u64, Seq<u8>)>)
    ensures
        apply_writes(file, pairs).len() >= file.len(),
    decreases pairs.len(),
{
    if pairs.len() > 0 {
        lemma_apply_writes_len(write_at(file, pairs[0].0 as int, pairs[0].1), pairs.skip(1));
    }
}

/// A byte outside every write's range keeps its value, or the zero fill
/// past the original end.
proof fn lemma_apply_writes_untouched(file: Seq<u8>, pairs: Seq<(u64, Seq<u8>)>, j: int)
    requires
        0 <= j,
        forall|i: int| 0 <= i < pairs.len() ==> !covers(pairs, i, j),
    ensures
        j < apply_writes(file, pairs).len() ==> apply_writes(file, pairs)[j] == (
        if j < file.len() {
            file[j]
        } else {
            0u8
        }),
    decreases pairs.len(),
{
    if pairs.len() > 0 {
        let file1 = write_at(file, pairs[0].0 as int, pairs[0].1);
        assert(!covers(pairs, 0, j));
        assert forall|i: int| 0 <= i < pairs.skip(1).len() implies !covers(
            pairs.skip(1),
            i,
            j,
        ) by {
            assert(pairs.skip(1)[i] == pairs[i + 1]);
            assert(!covers(pairs, i + 1, j));
        }
        lemma_apply_writes_untouched(file1, pairs.skip(1), j);
    }
}

/// After the whole run, the range of write `i` holds exactly its data.
proof fn lemma_apply_writes_covered(file: Seq<u8>, pairs: Seq<(u64, Seq<u8>)>, i: int, k: int)
    requires
        pairwise_disjoint(pairs),
        0 <= i < pairs.len(),
        0 <= k < pairs[i].1.len(),
    ensures
        pairs[i].0 + k < apply_writes(file, pairs).len(),
        apply_writes(file, pairs)[pairs[i].0 + k] == pairs[i].1[k],
    decreases pairs.len(),
{
    let file1 = write_at(file, pairs[0].0 as int, pairs[0].1);
    if i == 0 {
        let j = pairs[0].0 + k;
        assert(file1[j] == pairs[0].1[k]);
        assert forall|t: int| 0 <= t < pairs.skip(1).len() implies !covers(
            pairs.skip(1),
            t,
            j,
        ) by {
            assert(pairs.skip(1)[t] == pairs[t + 1]);
            assert(ranges_disjoint(pairs[0], pairs[t + 1]));
        }
        lemma_apply_writes_len(file1, pairs.skip(1));
        lemma_apply_writes_untouched(file1, pairs.skip(1), j);
    } else {
        assert forall|a: int, b: int| 0 <= a < b < pairs.skip(1).len() implies ranges_disjoint(
            #[trigger] pairs.skip(1)[a],
            #[trigger] pairs.skip(1)[b],
        ) by {
            assert(pairs.skip(1)[a] == pairs[a + 1]);
            assert(pairs.skip(1)[b] == pairs[b + 1]);
            assert(ranges_disjoint(pairs[a + 1], pairs[b + 1]));
        }
        assert(pairs.skip(1)[i - 1] == pairs[i]);
        lemma_apply_writes_covered(file1, pairs.skip(1), i - 1, k);
    }
}

/// The writer's contract, first half: starting from an empty (freshly
/// truncated) destination, after one positioned write per pair with no
/// two writes overlapping, byte `k` of write `i`'s range holds exactly
/// byte `k` of its data.
pub proof fn lemma_writer_writes_every_block(pairs: Seq<(u64, Seq<u8>)>, i: int, k: int)
    requires
        pairwise_disjoint(pairs),
        0 <= i < pairs.len(),
        0 <= k < pairs[i].1.len(),
    ensures
        pairs[i].0 + k < apply_writes(Seq::empty(), pairs).len(),
        apply_writes(Seq::empty(), pairs)[pairs[i].0 + k] == pairs[i].1[k],
{
    lemma_apply_writes_covered(Seq::empty(), pairs, i, k);
}

/// The writer's contract, second half: a byte position outside every
/// write's range is not touched by the run — if it lies within the
/// resulting file at all, it is the zero fill of a hole.
pub proof fn lemma_writer_touches_nothing_else(pairs: Seq<(u64, Seq<u8>)>, j: int)
    requires
        0 <= j,
        forall|i: int| 0 <= i < pairs.len() ==> !covers(pairs, i, j),
    ensures
        j < apply_writes(Seq::empty(), pairs).len() ==> apply_writes(Seq::empty(), pairs)[j] == 0,
{
    lemma_apply_writes_untouched(Seq::empty(), pairs, j);
}

} // verus!
