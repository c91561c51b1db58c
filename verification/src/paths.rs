//! Derivation of object-store paths in the content-addressed namespace.
//!
//! A block whose compressed bytes hash to `checksum` is stored at
//! `<basename>/blocks/<c0c1>/<c2c3>/<checksum>.blk`, where `c0c1` and
//! `c2c3` are the first two byte pairs of the checksum. The two-level
//! sharding keeps any single directory's object count bounded.
//! `basename` itself is the part of the manifest's own storage path in
//! front of the second-from-last `/` separator.

use vstd::prelude::*;

use crate::error::RestoreError;
use crate::util::push_all;
use vstd::slice::slice_subrange;
use vstd::slice::slice_to_vec;

verus! {

/// ASCII `/`.
pub const SLASH: u8 = 47;

/// The fixed `/blocks/` segment of every block path, as ASCII bytes.
pub open spec fn seg_blocks() -> Seq<u8> {
    seq![47u8, 98u8, 108u8, 111u8, 99u8, 107u8, 115u8, 47u8]
}

/// The fixed `.blk` suffix of every block path, as ASCII bytes.
pub open spec fn seg_blk_suffix() -> Seq<u8> {
    seq![46u8, 98u8, 108u8, 107u8]
}

/// The object path of a block: basename, `/blocks/`, the first two
/// checksum bytes, `/`, the next two checksum bytes, `/`, the whole
/// checksum, `.blk`.
pub open spec fn block_path_spec(basename: Seq<u8>, checksum: Seq<u8>) -> Seq<u8> {
    basename + seg_blocks() + checksum.subrange(0, 2) + seq![SLASH] + checksum.subrange(2, 4)
        + seq![SLASH] + checksum + seg_blk_suffix()
}

/// Builds the object path for one block of the backup rooted at `basename`.
pub fn block_path(basename: &[u8], checksum: &[u8]) -> (r: Vec<u8>)
    requires
        checksum@.len() >= 4,
    ensures
        r@ == block_path_spec(basename@, checksum@),
{
    let mut out: Vec<u8> = Vec::new();
    push_all(&mut out, basename);
    out.push(47);  // /
    out.push(98);  // b
    out.push(108);  // l
    out.push(111);  // o
    out.push(99);  // c
    out.push(107);  // k
    out.push(115);  // s
    out.push(47);  // /
    assert(out@ =~= basename@ + seg_blocks());
    out.push(checksum[0]);
    out.push(checksum[1]);
    out.push(47);
    out.push(checksum[2]);
    out.push(checksum[3]);
    out.push(47);
    assert(out@ =~= basename@ + seg_blocks() + checksum@.subrange(0, 2) + seq![SLASH]
        + checksum@.subrange(2, 4) + seq![SLASH]);
    push_all(&mut out, checksum);
    out.push(46);  // .
    out.push(98);  // b
    out.push(108);  // l
    out.push(107);  // k
    assert(out@ =~= block_path_spec(basename@, checksum@));
    out
}

/// The largest index below `end` holding a `/`, or `-1` if there is none.
pub open spec fn last_slash_before(s: Seq<u8>, end: int) -> int
    decreases end,
{
    if end <= 0 || end > s.len() {
        -1
    } else if s[end - 1] == SLASH {
        end - 1
    } else {
        last_slash_before(s, end - 1)
    }
}

/// The index of the second-from-last `/` of `s`, or `-1` if `s` holds
/// fewer than two `/` separators.
pub open spec fn basename_split(s: Seq<u8>) -> int {
    last_slash_before(s, last_slash_before(s, s.len() as int))
}

/// The namespace root of a backup whose manifest is stored at `s`: the
/// part of `s` in front of the second-from-last `/`. The manifest lives
/// at `<basename>/<subdir>/<file>`, so fewer than two `/` separators
/// leave no root to derive.
pub open spec fn spec_basename(s: Seq<u8>) -> Option<Seq<u8>> {
    if basename_split(s) >= 0 {
        Some(s.take(basename_split(s)))
    } else {
        None
    }
}

/// The largest index below `end` where `s` holds a `/`.
fn rfind_slash(s: &[u8], end: usize) -> (r: Option<usize>)
    requires
        end <= s@.len(),
    ensures
        match r {
            Some(j) => j < end && last_slash_before(s@, end as int) == j as int,
            None => last_slash_before(s@, end as int) == -1,
        },
{
    let mut k: usize = end;
    while k > 0
        invariant
            k <= end <= s@.len(),
            last_slash_before(s@, end as int) == last_slash_before(s@, k as int),
        decreases k,
    {
        if s[k - 1] == SLASH {
            return Some(k - 1);
        }
        k = k - 1;
    }
    None
}

/// Derives the namespace root from the manifest's own storage path.
/// Fails when fewer than two `/` separators exist, since the addressing
/// scheme cannot be constructed without a two-level root.
pub fn derive_basename(path: &[u8]) -> (r: Result<Vec<u8>, RestoreError>)
    ensures
        match spec_basename(path@) {
            Some(b) => r matches Ok(v) && v@ == b,
            None => r matches Err(e) && e == RestoreError::Path,
        },
{
    match rfind_slash(path, path.len()) {
        None => Err(RestoreError::Path),
        Some(j1) => match rfind_slash(path, j1) {
            None => Err(RestoreError::Path),
            Some(j0) => {
                let v = slice_to_vec(slice_subrange(path, 0, j0));
                assert(v@ =~= path@.take(j0 as int));
                Ok(v)
            },
        },
    }
}

} // verus!
