//! The closed error taxonomy of a restore run.
//!
//! Every failure surfaces immediately to the top-level caller; nothing is
//! retried inside the library. Manifest and path errors abort before any
//! fetch; the remaining kinds abort the run in progress.

use vstd::prelude::*;

verus! {

/// The decimal digits of `n`, most significant first, as ASCII bytes.
pub open spec fn dec_rep(n: int) -> Seq<u8>
    recommends
        n >= 0,
    decreases n,
{
    if n < 10 {
        seq![(48 + (if n >= 0 { n } else { 0 })) as u8]
    } else {
        dec_rep(n / 10) + seq![(48 + n % 10) as u8]
    }
}

/// Appends the decimal digits of `n` to `out`.
pub fn push_decimal(out: &mut Vec<u8>, n: u128)
    ensures
        final(out)@ == old(out)@ + dec_rep(n as int),
    decreases n,
{
    if n < 10 {
        out.push(48 + (n as u8));
        assert(out@ =~= old(out)@ + dec_rep(n as int));
    } else {
        push_decimal(out, n / 10);
        out.push(48 + ((n % 10) as u8));
        assert(out@ =~= old(out)@ + dec_rep(n as int));
    }
}

/// An offset discontinuity between consecutive blocks: the previous block
/// ended at `expected_offset`, but the next descriptor declares
/// `found_offset`. A hole means backup data was never written for that
/// byte range; an overlap means a corrupt or malicious manifest. The
/// condition carries both offsets so a caller can decide whether a
/// non-contiguous restore is acceptable (sparse files) or must abort.
///
/// `expected_offset` is the end of the previous block, which can exceed
/// the 64-bit offset range by the previous block's length, so it is kept
/// in a wider integer.
#[derive(Clone, Copy, Debug, PartialEq, Eq, Structural)]
pub struct SkippedData {
    pub expected_offset: u128,
    pub found_offset: u64,
}

/// `Gap in data: expected to find a block for offset ` as ASCII bytes.
pub open spec fn gap_message_head() -> Seq<u8> {
    seq![
        71u8, 97u8, 112u8, 32u8, 105u8, 110u8, 32u8, 100u8, 97u8, 116u8, 97u8, 58u8,
        32u8, 101u8, 120u8, 112u8, 101u8, 99u8, 116u8, 101u8, 100u8, 32u8, 116u8, 111u8,
        32u8, 102u8, 105u8, 110u8, 100u8, 32u8, 97u8, 32u8, 98u8, 108u8, 111u8, 99u8,
        107u8, 32u8, 102u8, 111u8, 114u8, 32u8, 111u8, 102u8, 102u8, 115u8, 101u8, 116u8,
        32u8,
    ]
}

/// `, found ` as ASCII bytes.
pub open spec fn gap_message_mid() -> Seq<u8> {
    seq![44u8, 32u8, 102u8, 111u8, 117u8, 110u8, 100u8, 32u8]
}

/// The diagnostic line for a gap: `Gap in data: expected to find a
/// block for offset <expected>, found <found>`.
pub open spec fn gap_message(g: SkippedData) -> Seq<u8> {
    gap_message_head() + dec_rep(g.expected_offset as int) + gap_message_mid() + dec_rep(
        g.found_offset as int,
    )
}

impl SkippedData {
    /// Renders the diagnostic line for this gap, as ASCII bytes.
    pub fn describe(&self) -> (r: Vec<u8>)
        ensures
            r@ == gap_message(*self),
    {
        let mut out: Vec<u8> = Vec::new();
        out.push(71);
        out.push(97);
        out.push(112);
        out.push(32);
        out.push(105);
        out.push(110);
        out.push(32);
        out.push(100);
        out.push(97);
        out.push(116);
        out.push(97);
        out.push(58);
        out.push(32);
        out.push(101);
        out.push(120);
        out.push(112);
        out.push(101);
        out.push(99);
        out.push(116);
        out.push(101);
        out.push(100);
        out.push(32);
        out.push(116);
        out.push(111);
        out.push(32);
        out.push(102);
        out.push(105);
        out.push(110);
        out.push(100);
        out.push(32);
        out.push(97);
        out.push(32);
        out.push(98);
        out.push(108);
        out.push(111);
        out.push(99);
        out.push(107);
        out.push(32);
        out.push(102);
        out.push(111);
        out.push(114);
        out.push(32);
        out.push(111);
        out.push(102);
        out.push(102);
        out.push(115);
        out.push(101);
        out.push(116);
        out.push(32);
        assert(out@ =~= gap_message_head());
        push_decimal(&mut out, self.expected_offset);
        out.push(44);
        out.push(32);
        out.push(102);
        out.push(111);
        out.push(117);
        out.push(110);
        out.push(100);
        out.push(32);
        assert(out@ =~= gap_message_head() + dec_rep(self.expected_offset as int)
            + gap_message_mid());
        push_decimal(&mut out, self.found_offset as u128);
        assert(out@ =~= gap_message(*self));
        out
    }
}

/// Why a manifest was rejected by the resolver.
#[derive(Clone, Copy, Debug, PartialEq, Eq, Structural)]
pub enum ManifestFault {
    /// The bytes are not a well-formed document of the expected schema.
    Malformed,
    /// The compression method is not a supported codec name.
    UnsupportedCodec,
    /// The block list is empty.
    EmptyBlockList,
    /// A block checksum is shorter than four bytes or not hexadecimal.
    InvalidChecksum,
}

/// Everything that can end a restore run early.
#[derive(Clone, Copy, Debug, PartialEq, Eq, Structural)]
pub enum RestoreError {
    /// Malformed or unsupported manifest; fatal before any fetch.
    Manifest(ManifestFault),
    /// The namespace root cannot be derived from the manifest path.
    Path,
    /// An object fetch failed (not found, transport, auth); raised by the
    /// caller that performs the fetch.
    Remote,
    /// A block's compressed payload is corrupt or truncated.
    Decode,
    /// An offset discontinuity between consecutive blocks.
    Skipped(SkippedData),
    /// A local file seek or write failed; raised by the caller that
    /// performs the write.
    Io,
}

} // verus!
