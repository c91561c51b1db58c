//! The manifest resolver: raw manifest bytes in, a validated manifest out.
//!
//! A manifest document is a JSON object with exactly two fields,
//! `CompressionMethod` (a string) and `Blocks` (a non-empty array of block
//! objects, each with exactly an `Offset` unsigned integer and a
//! `BlockChecksum` hexadecimal string). Field names are case-sensitive;
//! the two fields of an object may come in either order. Strings are
//! plain: escape sequences and control bytes are not part of the schema,
//! since checksums and codec names are plain ASCII.
//!
//! The grammar accepted by the resolver is written down by the
//! `spec_parse_*` functions below, and the executable parser is proved to
//! return exactly what they say.

use vstd::prelude::*;

use crate::error::ManifestFault;
use crate::error::RestoreError;
use crate::util::bytes_eq;
use vstd::slice::slice_subrange;
use vstd::slice::slice_to_vec;

verus! {

/// ASCII `"`.
pub const QUOTE: u8 = 34;

/// ASCII `\`.
pub const BACKSLASH: u8 = 92;

/// ASCII `{`.
pub const LBRACE: u8 = 123;

/// ASCII `}`.
pub const RBRACE: u8 = 125;

/// ASCII `[`.
pub const LBRACKET: u8 = 91;

/// ASCII `]`.
pub const RBRACKET: u8 = 93;

/// ASCII `:`.
pub const COLON: u8 = 58;

/// ASCII `,`.
pub const COMMA: u8 = 44;

/// One block of the backup: its decompressed bytes begin at `offset` in
/// the destination file, and `checksum` (hexadecimal, at least four
/// digits) is both the content hash of its stored bytes and its address
/// in the object namespace.
#[derive(Clone, Debug, PartialEq, Eq)]
pub struct BlockDescriptor {
    pub offset: u64,
    pub checksum: Vec<u8>,
}

/// The mathematical content of a [`BlockDescriptor`].
pub struct BlockModel {
    pub offset: u64,
    pub checksum: Seq<u8>,
}

impl View for BlockDescriptor {
    type V = BlockModel;

    open spec fn view(&self) -> BlockModel {
        BlockModel { offset: self.offset, checksum: self.checksum@ }
    }
}

/// A validated backup manifest: the codec name used by every block and
/// the ordered list of block descriptors, in fetch order.
#[derive(Clone, Debug, PartialEq, Eq)]
pub struct BackupManifest {
    pub compression_method: Vec<u8>,
    pub blocks: Vec<BlockDescriptor>,
}

/// The mathematical content of a [`BackupManifest`].
pub struct ManifestModel {
    pub compression_method: Seq<u8>,
    pub blocks: Seq<BlockModel>,
}

impl View for BackupManifest {
    type V = ManifestModel;

    open spec fn view(&self) -> ManifestModel {
        ManifestModel {
            compression_method: self.compression_method@,
            blocks: self.blocks@.map_values(|b: BlockDescriptor| b@),
        }
    }
}

/// The one supported codec name, `lz4` (the streaming LZ4-frame format).
pub open spec fn codec_lz4() -> Seq<u8> {
    seq![108u8, 122u8, 52u8]
}

/// A hexadecimal digit: `0`-`9`, `a`-`f` or `A`-`F`.
pub open spec fn is_hex_digit(b: u8) -> bool {
    (48 <= b && b <= 57) || (97 <= b && b <= 102) || (65 <= b && b <= 70)
}

/// A checksum long enough for the two leading byte pairs of the
/// addressing scheme, made of hexadecimal digits only.
pub open spec fn wf_checksum(c: Seq<u8>) -> bool {
    c.len() >= 4 && forall|i: int| 0 <= i < c.len() ==> is_hex_digit(c[i])
}

impl BlockModel {
    /// The block invariant established by the resolver.
    pub open spec fn wf(self) -> bool {
        wf_checksum(self.checksum)
    }
}

impl ManifestModel {
    /// The manifest invariant established by the resolver: the supported
    /// codec, a non-empty block list, every checksum well formed.
    pub open spec fn wf(self) -> bool {
        &&& self.compression_method == codec_lz4()
        &&& self.blocks.len() > 0
        &&& forall|i: int| 0 <= i < self.blocks.len() ==> (#[trigger] self.blocks[i]).wf()
    }
}

impl BackupManifest {
    /// The manifest invariant established by the resolver.
    pub open spec fn wf(&self) -> bool {
        self@.wf()
    }
}

/// JSON insignificant whitespace: space, tab, line feed, carriage return.
pub open spec fn is_json_ws(b: u8) -> bool {
    b == 32 || b == 9 || b == 10 || b == 13
}

/// The first index at or after `i` holding a non-whitespace byte, or the
/// length of `s` if only whitespace remains.
pub open spec fn spec_ws(s: Seq<u8>, i: int) -> int
    decreases s.len() - i,
{
    if 0 <= i && i < s.len() && is_json_ws(s[i]) {
        spec_ws(s, i + 1)
    } else {
        i
    }
}

/// A byte allowed in a plain string literal: anything but the closing
/// quote, a backslash (escape sequences are outside the schema) and
/// control bytes.
pub open spec fn is_plain_str_byte(b: u8) -> bool {
    b != QUOTE && b != BACKSLASH && b >= 32
}

/// The index of the quote closing a string whose content starts at `i`,
/// or `None` if the string is unterminated or holds a byte outside the
/// plain-string alphabet.
pub open spec fn spec_str_end(s: Seq<u8>, i: int) -> Option<int>
    decreases s.len() - i,
{
    if 0 <= i && i < s.len() {
        if s[i] == QUOTE {
            Some(i)
        } else if is_plain_str_byte(s[i]) {
            spec_str_end(s, i + 1)
        } else {
            None
        }
    } else {
        None
    }
}

/// A string literal at `i`: a quote, plain content bytes, a quote.
/// Yields the content and the index just past the closing quote.
pub open spec fn spec_parse_string(s: Seq<u8>, i: int) -> Option<(Seq<u8>, int)> {
    if 0 <= i && i < s.len() && s[i] == QUOTE {
        match spec_str_end(s, i + 1) {
            Some(e) => Some((s.subrange(i + 1, e), e + 1)),
            None => None,
        }
    } else {
        None
    }
}

/// ASCII decimal digit.
pub open spec fn is_digit(b: u8) -> bool {
    48 <= b && b <= 57
}

/// The first index at or after `i` holding a non-digit byte.
pub open spec fn spec_digits_end(s: Seq<u8>, i: int) -> int
    decreases s.len() - i,
{
    if 0 <= i && i < s.len() && is_digit(s[i]) {
        spec_digits_end(s, i + 1)
    } else {
        i
    }
}

/// The value of the decimal digit run `s[i..j)`.
pub open spec fn spec_digits_val(s: Seq<u8>, i: int, j: int) -> int
    decreases j - i,
{
    if i < j {
        spec_digits_val(s, i, j - 1) * 10 + (s[j - 1] - 48)
    } else {
        0
    }
}

/// An unsigned decimal integer at `i`: at least one digit, no leading
/// zero (except the number `0` itself), value within 64 bits. Yields the
/// value and the index just past the last digit.
pub open spec fn spec_parse_u64(s: Seq<u8>, i: int) -> Option<(u64, int)> {
    let e = spec_digits_end(s, i);
    if e == i {
        None
    } else if s[i] == 48 && e > i + 1 {
        None
    } else if spec_digits_val(s, i, e) <= u64::MAX {
        Some((spec_digits_val(s, i, e) as u64, e))
    } else {
        None
    }
}

/// A digit run's value only grows as the run extends to the right.
proof fn lemma_digits_val_mono(s: Seq<u8>, i: int, j: int, e: int)
    requires
        i <= j <= e,
        forall|k: int| i <= k < e ==> is_digit(#[trigger] s[k]),
    ensures
        0 <= spec_digits_val(s, i, j) <= spec_digits_val(s, i, e),
    decreases e - j,
{
    if j == e {
        lemma_digits_val_nonneg(s, i, j);
    } else {
        lemma_digits_val_mono(s, i, j, e - 1);
    }
}

/// A digit run's value is never negative.
proof fn lemma_digits_val_nonneg(s: Seq<u8>, i: int, j: int)
    requires
        forall|k: int| i <= k < j ==> is_digit(#[trigger] s[k]),
    ensures
        spec_digits_val(s, i, j) >= 0,
    decreases j - i,
{
    if i < j {
        lemma_digits_val_nonneg(s, i, j - 1);
    }
}

/// Skips insignificant whitespace from `i`.
fn skip_ws(s: &[u8], i: usize) -> (r: usize)
    requires
        i <= s@.len(),
    ensures
        r == spec_ws(s@, i as int),
        i <= r <= s@.len(),
{
    let mut k: usize = i;
    while k < s.len() && (s[k] == 32 || s[k] == 9 || s[k] == 10 || s[k] == 13)
        invariant
            i <= k <= s@.len(),
            spec_ws(s@, i as int) == spec_ws(s@, k as int),
        decreases s@.len() - k,
    {
        k = k + 1;
    }
    k
}

/// Parses a plain string literal at `i`.
fn parse_string(s: &[u8], i: usize) -> (r: Option<(Vec<u8>, usize)>)
    requires
        i <= s@.len(),
    ensures
        match r {
            Some(p) => {
                &&& spec_parse_string(s@, i as int) == Some((p.0@, p.1 as int))
                &&& i < p.1 <= s@.len()
            },
            None => spec_parse_string(s@, i as int) is None,
        },
{
    if i >= s.len() || s[i] != QUOTE {
        return None;
    }
    let mut k: usize = i + 1;
    loop
        invariant
            i + 1 <= k <= s@.len(),
            i < s@.len(),
            s@[i as int] == QUOTE,
            spec_str_end(s@, i as int + 1) == spec_str_end(s@, k as int),
        decreases s@.len() - k,
    {
        if k >= s.len() {
            return None;
        }
        let b = s[k];
        if b == QUOTE {
            let content = slice_to_vec(slice_subrange(s, i + 1, k));
            return Some((content, k + 1));
        }
        if b == BACKSLASH || b < 32 {
            return None;
        }
        k = k + 1;
    }
}

/// Parses an unsigned 64-bit decimal integer at `i`.
fn parse_u64(s: &[u8], i: usize) -> (r: Option<(u64, usize)>)
    requires
        i <= s@.len(),
    ensures
        match r {
            Some(p) => {
                &&& spec_parse_u64(s@, i as int) == Some((p.0, p.1 as int))
                &&& i < p.1 <= s@.len()
            },
            None => spec_parse_u64(s@, i as int) is None,
        },
{
    // Find the end of the digit run.
    let mut e: usize = i;
    while e < s.len() && 48 <= s[e] && s[e] <= 57
        invariant
            i <= e <= s@.len(),
            spec_digits_end(s@, i as int) == spec_digits_end(s@, e as int),
            forall|k: int| i <= k < e ==> is_digit(#[trigger] s@[k]),
        decreases s@.len() - e,
    {
        e = e + 1;
    }
    assert(spec_digits_end(s@, i as int) == e);
    if e == i {
        return None;
    }
    if s[i] == 48 && e > i + 1 {
        return None;
    }
    // Accumulate the value, rejecting anything beyond 64 bits.
    let mut acc: u64 = 0;
    let mut k: usize = i;
    while k < e
        invariant
            i < e <= s@.len(),
            i <= k <= e,
            spec_digits_end(s@, i as int) == e as int,
            !(s@[i as int] == 48 && e > i + 1),
            forall|j: int| i <= j < e ==> is_digit(#[trigger] s@[j]),
            acc == spec_digits_val(s@, i as int, k as int),
        decreases e - k,
    {
        let d: u64 = (s[k] - 48) as u64;
        let shifted = match acc.checked_mul(10) {
            Some(t) => t,
            None => {
                proof {
                    lemma_digits_val_nonneg(s@, i as int, k as int);
                    assert(spec_digits_val(s@, i as int, k as int + 1) > u64::MAX);
                    lemma_digits_val_mono(s@, i as int, k as int + 1, e as int);
                }
                return None;
            },
        };
        let next = match shifted.checked_add(d) {
            Some(t) => t,
            None => {
                proof {
                    assert(spec_digits_val(s@, i as int, k as int + 1) > u64::MAX);
                    lemma_digits_val_mono(s@, i as int, k as int + 1, e as int);
                }
                return None;
            },
        };
        acc = next;
        k = k + 1;
    }
    proof {
        lemma_digits_val_mono(s@, i as int, e as int, e as int);
    }
    Some((acc, e))
}

/// The `CompressionMethod` field name, as ASCII bytes.
pub open spec fn key_compression_method() -> Seq<u8> {
    seq![
        67u8, 111u8, 109u8, 112u8, 114u8, 101u8, 115u8, 115u8, 105u8, 111u8, 110u8, 77u8, 101u8,
        116u8, 104u8, 111u8, 100u8,
    ]
}

/// The `Blocks` field name, as ASCII bytes.
pub open spec fn key_blocks() -> Seq<u8> {
    seq![66u8, 108u8, 111u8, 99u8, 107u8, 115u8]
}

/// The `Offset` field name, as ASCII bytes.
pub open spec fn key_offset() -> Seq<u8> {
    seq![79u8, 102u8, 102u8, 115u8, 101u8, 116u8]
}

/// The `BlockChecksum` field name, as ASCII bytes.
pub open spec fn key_block_checksum() -> Seq<u8> {
    seq![66u8, 108u8, 111u8, 99u8, 107u8, 67u8, 104u8, 101u8, 99u8, 107u8, 115u8, 117u8, 109u8]
}

/// Builds `CompressionMethod` as bytes.
fn key_compression_method_bytes() -> (r: Vec<u8>)
    ensures
        r@ == key_compression_method(),
{
    let mut v: Vec<u8> = Vec::new();
    v.push(67);
    v.push(111);
    v.push(109);
    v.push(112);
    v.push(114);
    v.push(101);
    v.push(115);
    v.push(115);
    v.push(105);
    v.push(111);
    v.push(110);
    v.push(77);
    v.push(101);
    v.push(116);
    v.push(104);
    v.push(111);
    v.push(100);
    assert(v@ =~= key_compression_method());
    v
}

/// Builds `Blocks` as bytes.
fn key_blocks_bytes() -> (r: Vec<u8>)
    ensures
        r@ == key_blocks(),
{
    let mut v: Vec<u8> = Vec::new();
    v.push(66);
    v.push(108);
    v.push(111);
    v.push(99);
    v.push(107);
    v.push(115);
    assert(v@ =~= key_blocks());
    v
}

/// Builds `Offset` as bytes.
fn key_offset_bytes() -> (r: Vec<u8>)
    ensures
        r@ == key_offset(),
{
    let mut v: Vec<u8> = Vec::new();
    v.push(79);
    v.push(102);
    v.push(102);
    v.push(115);
    v.push(101);
    v.push(116);
    assert(v@ =~= key_offset());
    v
}

/// Builds `BlockChecksum` as bytes.
fn key_block_checksum_bytes() -> (r: Vec<u8>)
    ensures
        r@ == key_block_checksum(),
{
    let mut v: Vec<u8> = Vec::new();
    v.push(66);
    v.push(108);
    v.push(111);
    v.push(99);
    v.push(107);
    v.push(67);
    v.push(104);
    v.push(101);
    v.push(99);
    v.push(107);
    v.push(115);
    v.push(117);
    v.push(109);
    assert(v@ =~= key_block_checksum());
    v
}

/// Builds `lz4` as bytes.
fn codec_lz4_bytes() -> (r: Vec<u8>)
    ensures
        r@ == codec_lz4(),
{
    let mut v: Vec<u8> = Vec::new();
    v.push(108);
    v.push(122);
    v.push(52);
    assert(v@ =~= codec_lz4());
    v
}

/// A scalar field value of the manifest schema.
pub enum JsonScalar {
    Num(u64),
    Text(Seq<u8>),
}

/// The executable form of a scalar field value.
pub enum JsonScalarOwn {
    Num(u64),
    Text(Vec<u8>),
}

impl View for JsonScalarOwn {
    type V = JsonScalar;

    open spec fn view(&self) -> JsonScalar {
        match self {
            JsonScalarOwn::Num(n) => JsonScalar::Num(*n),
            JsonScalarOwn::Text(v) => JsonScalar::Text(v@),
        }
    }
}

/// Whitespace and a `:`; yields the index just past the colon.
pub open spec fn spec_after_colon(s: Seq<u8>, i: int) -> Option<int> {
    let j = spec_ws(s, i);
    if j < s.len() && s[j] == COLON {
        Some(j + 1)
    } else {
        None
    }
}

/// A scalar value at `i`: a string if a quote opens it, else an
/// unsigned integer.
pub open spec fn spec_parse_scalar(s: Seq<u8>, i: int) -> Option<(JsonScalar, int)> {
    if 0 <= i && i < s.len() && s[i] == QUOTE {
        match spec_parse_string(s, i) {
            Some((v, j)) => Some((JsonScalar::Text(v), j)),
            None => None,
        }
    } else {
        match spec_parse_u64(s, i) {
            Some((n, j)) => Some((JsonScalar::Num(n), j)),
            None => None,
        }
    }
}

/// One `"key": value` pair with scalar value, leading whitespace allowed.
pub open spec fn spec_parse_field(s: Seq<u8>, i: int) -> Option<((Seq<u8>, JsonScalar), int)> {
    match spec_parse_string(s, spec_ws(s, i)) {
        Some((k, a)) => match spec_after_colon(s, a) {
            Some(b) => match spec_parse_scalar(s, spec_ws(s, b)) {
                Some((v, c)) => Some(((k, v), c)),
                None => None,
            },
            None => None,
        },
        None => None,
    }
}

/// The two fields of a block object, in either order: `Offset` an
/// unsigned integer, `BlockChecksum` a string.
pub open spec fn spec_block_fields(
    k1: Seq<u8>,
    v1: JsonScalar,
    k2: Seq<u8>,
    v2: JsonScalar,
) -> Option<BlockModel> {
    if k1 == key_offset() && k2 == key_block_checksum() {
        match (v1, v2) {
            (JsonScalar::Num(off), JsonScalar::Text(cs)) => Some(
                BlockModel { offset: off, checksum: cs },
            ),
            _ => None,
        }
    } else if k1 == key_block_checksum() && k2 == key_offset() {
        match (v1, v2) {
            (JsonScalar::Text(cs), JsonScalar::Num(off)) => Some(
                BlockModel { offset: off, checksum: cs },
            ),
            _ => None,
        }
    } else {
        None
    }
}

/// A block object at `i`: `{` and exactly two fields and `}`.
pub open spec fn spec_parse_block(s: Seq<u8>, i: int) -> Option<(BlockModel, int)> {
    let j = spec_ws(s, i);
    if j < s.len() && s[j] == LBRACE {
        match spec_parse_field(s, j + 1) {
            Some((f1, a)) => {
                let b = spec_ws(s, a);
                if b < s.len() && s[b] == COMMA {
                    match spec_parse_field(s, b + 1) {
                        Some((f2, c)) => {
                            let d = spec_ws(s, c);
                            if d < s.len() && s[d] == RBRACE {
                                match spec_block_fields(f1.0, f1.1, f2.0, f2.1) {
                                    Some(bm) => Some((bm, d + 1)),
                                    None => None,
                                }
                            } else {
                                None
                            }
                        },
                        None => None,
                    }
                } else {
                    None
                }
            },
            None => None,
        }
    } else {
        None
    }
}

/// The blocks of a non-empty array, starting after the opening `[`:
/// block objects separated by `,`, closed by `]`.
pub open spec fn spec_blocks_rest(s: Seq<u8>, i: int) -> Option<(Seq<BlockModel>, int)>
    decreases s.len() - i,
{
    match spec_parse_block(s, i) {
        Some((b, j)) => {
            let k = spec_ws(s, j);
            if k < s.len() && s[k] == COMMA {
                if i < k + 1 {
                    match spec_blocks_rest(s, k + 1) {
                        Some((rest, e)) => Some((seq![b] + rest, e)),
                        None => None,
                    }
                } else {
                    None
                }
            } else if k < s.len() && s[k] == RBRACKET {
                Some((seq![b], k + 1))
            } else {
                None
            }
        },
        None => None,
    }
}

/// A block array at `i`: `[`, zero or more block objects, `]`.
pub open spec fn spec_parse_block_list(s: Seq<u8>, i: int) -> Option<(Seq<BlockModel>, int)> {
    let j = spec_ws(s, i);
    if j < s.len() && s[j] == LBRACKET {
        let k = spec_ws(s, j + 1);
        if k < s.len() && s[k] == RBRACKET {
            Some((Seq::empty(), k + 1))
        } else {
            spec_blocks_rest(s, j + 1)
        }
    } else {
        None
    }
}

/// The closing `}` of the document, followed by whitespace only.
pub open spec fn spec_manifest_close(
    s: Seq<u8>,
    i: int,
    method: Seq<u8>,
    blocks: Seq<BlockModel>,
) -> Option<ManifestModel> {
    let j = spec_ws(s, i);
    if j < s.len() && s[j] == RBRACE && spec_ws(s, j + 1) == s.len() {
        Some(ManifestModel { compression_method: method, blocks })
    } else {
        None
    }
}

/// A whole manifest document: an object with exactly the two fields
/// `CompressionMethod` (a string) and `Blocks` (a block array), in either
/// order, and nothing but whitespace around it.
pub open spec fn spec_parse_manifest(s: Seq<u8>) -> Option<ManifestModel> {
    let i0 = spec_ws(s, 0);
    if i0 < s.len() && s[i0] == LBRACE {
        match spec_parse_string(s, spec_ws(s, i0 + 1)) {
            Some((k1, a)) => match spec_after_colon(s, a) {
                Some(b0) => {
                    let b = spec_ws(s, b0);
                    if k1 == key_compression_method() {
                        match spec_parse_string(s, b) {
                            Some((method, c)) => {
                                let d = spec_ws(s, c);
                                if d < s.len() && s[d] == COMMA {
                                    match spec_parse_string(s, spec_ws(s, d + 1)) {
                                        Some((k2, e)) => if k2 == key_blocks() {
                                            match spec_after_colon(s, e) {
                                                Some(f) => match spec_parse_block_list(s, f) {
                                                    Some((bl, g)) => spec_manifest_close(
                                                        s,
                                                        g,
                                                        method,
                                                        bl,
                                                    ),
                                                    None => None,
                                                },
                                                None => None,
                                            }
                                        } else {
                                            None
                                        },
                                        None => None,
                                    }
                                } else {
                                    None
                                }
                            },
                            None => None,
                        }
                    } else if k1 == key_blocks() {
                        match spec_parse_block_list(s, b) {
                            Some((bl, c)) => {
                                let d = spec_ws(s, c);
                                if d < s.len() && s[d] == COMMA {
                                    match spec_parse_string(s, spec_ws(s, d + 1)) {
                                        Some((k2, e)) => if k2 == key_compression_method() {
                                            match spec_after_colon(s, e) {
                                                Some(f) => match spec_parse_string(
                                                    s,
                                                    spec_ws(s, f),
                                                ) {
                                                    Some((method, g)) => spec_manifest_close(
                                                        s,
                                                        g,
                                                        method,
                                                        bl,
                                                    ),
                                                    None => None,
                                                },
                                                None => None,
                                            }
                                        } else {
                                            None
                                        },
                                        None => None,
                                    }
                                } else {
                                    None
                                }
                            },
                            None => None,
                        }
                    } else {
                        None
                    }
                },
                None => None,
            },
            None => None,
        }
    } else {
        None
    }
}

/// Expects whitespace and a `:` at `i`.
fn expect_colon(s: &[u8], i: usize) -> (r: Option<usize>)
    requires
        i <= s@.len(),
    ensures
        match r {
            Some(j) => spec_after_colon(s@, i as int) == Some(j as int) && i < j <= s@.len(),
            None => spec_after_colon(s@, i as int) is None,
        },
{
    let j = skip_ws(s, i);
    if j < s.len() && s[j] == COLON {
        Some(j + 1)
    } else {
        None
    }
}

/// Parses a scalar field value at `i`.
fn parse_scalar(s: &[u8], i: usize) -> (r: Option<(JsonScalarOwn, usize)>)
    requires
        i <= s@.len(),
    ensures
        match r {
            Some(p) => {
                &&& spec_parse_scalar(s@, i as int) == Some((p.0@, p.1 as int))
                &&& i < p.1 <= s@.len()
            },
            None => spec_parse_scalar(s@, i as int) is None,
        },
{
    if i < s.len() && s[i] == QUOTE {
        match parse_string(s, i) {
            Some((v, j)) => Some((JsonScalarOwn::Text(v), j)),
            None => None,
        }
    } else {
        match parse_u64(s, i) {
            Some((n, j)) => Some((JsonScalarOwn::Num(n), j)),
            None => None,
        }
    }
}

/// Parses one `"key": value` pair with scalar value at `i`.
fn parse_field(s: &[u8], i: usize) -> (r: Option<((Vec<u8>, JsonScalarOwn), usize)>)
    requires
        i <= s@.len(),
    ensures
        match r {
            Some(p) => {
                &&& spec_parse_field(s@, i as int) == Some((((p.0).0@, (p.0).1@), p.1 as int))
                &&& i < p.1 <= s@.len()
            },
            None => spec_parse_field(s@, i as int) is None,
        },
{
    let k0 = skip_ws(s, i);
    let (key, a) = match parse_string(s, k0) {
        Some(x) => x,
        None => {
            return None;
        },
    };
    let b = match expect_colon(s, a) {
        Some(x) => x,
        None => {
            return None;
        },
    };
    let b1 = skip_ws(s, b);
    match parse_scalar(s, b1) {
        Some((v, c)) => Some(((key, v), c)),
        None => None,
    }
}

/// Pairs the two fields of a block object into a descriptor, in either
/// field order.
fn block_fields(f1: (Vec<u8>, JsonScalarOwn), f2: (Vec<u8>, JsonScalarOwn)) -> (r: Option<
    BlockDescriptor,
>)
    ensures
        match r {
            Some(bd) => spec_block_fields((f1.0)@, (f1.1)@, (f2.0)@, (f2.1)@) == Some(bd@),
            None => spec_block_fields((f1.0)@, (f1.1)@, (f2.0)@, (f2.1)@) is None,
        },
{
    let key_off = key_offset_bytes();
    let key_cs = key_block_checksum_bytes();
    let (k1, v1) = f1;
    let (k2, v2) = f2;
    if bytes_eq(k1.as_slice(), key_off.as_slice()) && bytes_eq(k2.as_slice(), key_cs.as_slice()) {
        match (v1, v2) {
            (JsonScalarOwn::Num(off), JsonScalarOwn::Text(cs)) => Some(
                BlockDescriptor { offset: off, checksum: cs },
            ),
            _ => None,
        }
    } else if bytes_eq(k1.as_slice(), key_cs.as_slice()) && bytes_eq(
        k2.as_slice(),
        key_off.as_slice(),
    ) {
        match (v1, v2) {
            (JsonScalarOwn::Text(cs), JsonScalarOwn::Num(off)) => Some(
                BlockDescriptor { offset: off, checksum: cs },
            ),
            _ => None,
        }
    } else {
        None
    }
}

/// Parses a block object at `i`.
fn parse_block(s: &[u8], i: usize) -> (r: Option<(BlockDescriptor, usize)>)
    requires
        i <= s@.len(),
    ensures
        match r {
            Some(p) => {
                &&& spec_parse_block(s@, i as int) == Some((p.0@, p.1 as int))
                &&& i < p.1 <= s@.len()
            },
            None => spec_parse_block(s@, i as int) is None,
        },
{
    let j = skip_ws(s, i);
    if !(j < s.len() && s[j] == LBRACE) {
        return None;
    }
    let (f1, a) = match parse_field(s, j + 1) {
        Some(x) => x,
        None => {
            return None;
        },
    };
    let b = skip_ws(s, a);
    if !(b < s.len() && s[b] == COMMA) {
        return None;
    }
    let (f2, c) = match parse_field(s, b + 1) {
        Some(x) => x,
        None => {
            return None;
        },
    };
    let d = skip_ws(s, c);
    if !(d < s.len() && s[d] == RBRACE) {
        return None;
    }
    match block_fields(f1, f2) {
        Some(bd) => Some((bd, d + 1)),
        None => None,
    }
}

/// Parses a block array at `i`.
fn parse_block_list(s: &[u8], i: usize) -> (r: Option<(Vec<BlockDescriptor>, usize)>)
    requires
        i <= s@.len(),
    ensures
        match r {
            Some(p) => {
                &&& spec_parse_block_list(s@, i as int) == Some(
                    (p.0@.map_values(|b: BlockDescriptor| b@), p.1 as int),
                )
                &&& i < p.1 <= s@.len()
            },
            None => spec_parse_block_list(s@, i as int) is None,
        },
{
    let j = skip_ws(s, i);
    if !(j < s.len() && s[j] == LBRACKET) {
        return None;
    }
    let k0 = skip_ws(s, j + 1);
    if k0 < s.len() && s[k0] == RBRACKET {
        let v: Vec<BlockDescriptor> = Vec::new();
        assert(v@.map_values(|b: BlockDescriptor| b@) =~= Seq::<BlockModel>::empty());
        return Some((v, k0 + 1));
    }
    let mut acc: Vec<BlockDescriptor> = Vec::new();
    let mut cur: usize = j + 1;
    loop
        invariant
            i < cur <= s@.len(),
            spec_parse_block_list(s@, i as int) == (match spec_blocks_rest(s@, cur as int) {
                Some(p) => Some(
                    (acc@.map_values(|b: BlockDescriptor| b@) + p.0, p.1),
                ),
                None => None::<(Seq<BlockModel>, int)>,
            }),
        decreases s@.len() - cur,
    {
        let (bd, j2) = match parse_block(s, cur) {
            Some(x) => x,
            None => {
                return None;
            },
        };
        let k = skip_ws(s, j2);
        let ghost old_models = acc@.map_values(|b: BlockDescriptor| b@);
        if k < s.len() && s[k] == COMMA {
            acc.push(bd);
            proof {
                assert(acc@.map_values(|b: BlockDescriptor| b@) =~= old_models.push(bd@));
                match spec_blocks_rest(s@, k as int + 1) {
                    Some(p) => {
                        assert(old_models + (seq![bd@] + p.0) =~= old_models.push(bd@) + p.0);
                    },
                    None => {},
                }
            }
            cur = k + 1;
        } else if k < s.len() && s[k] == RBRACKET {
            acc.push(bd);
            proof {
                assert(acc@.map_values(|b: BlockDescriptor| b@) =~= old_models.push(bd@));
                assert(old_models + seq![bd@] =~= old_models.push(bd@));
            }
            return Some((acc, k + 1));
        } else {
            return None;
        }
    }
}

/// Parses a whole manifest document, yielding the codec name and the
/// block descriptors.
fn parse_manifest_doc(s: &[u8]) -> (r: Option<(Vec<u8>, Vec<BlockDescriptor>)>)
    ensures
        match r {
            Some(p) => spec_parse_manifest(s@) == Some(
                ManifestModel {
                    compression_method: p.0@,
                    blocks: p.1@.map_values(|b: BlockDescriptor| b@),
                },
            ),
            None => spec_parse_manifest(s@) is None,
        },
{
    let key_cm = key_compression_method_bytes();
    let key_bl = key_blocks_bytes();
    let i0 = skip_ws(s, 0);
    if !(i0 < s.len() && s[i0] == LBRACE) {
        return None;
    }
    let k1start = skip_ws(s, i0 + 1);
    let (k1, a) = match parse_string(s, k1start) {
        Some(x) => x,
        None => {
            return None;
        },
    };
    let b0 = match expect_colon(s, a) {
        Some(x) => x,
        None => {
            return None;
        },
    };
    let b = skip_ws(s, b0);
    if bytes_eq(k1.as_slice(), key_cm.as_slice()) {
        let (method, c) = match parse_string(s, b) {
            Some(x) => x,
            None => {
                return None;
            },
        };
        let d = skip_ws(s, c);
        if !(d < s.len() && s[d] == COMMA) {
            return None;
        }
        let k2start = skip_ws(s, d + 1);
        let (k2, e) = match parse_string(s, k2start) {
            Some(x) => x,
            None => {
                return None;
            },
        };
        if !bytes_eq(k2.as_slice(), key_bl.as_slice()) {
            return None;
        }
        let f = match expect_colon(s, e) {
            Some(x) => x,
            None => {
                return None;
            },
        };
        let (blocks, g) = match parse_block_list(s, f) {
            Some(x) => x,
            None => {
                return None;
            },
        };
        let h = skip_ws(s, g);
        if h < s.len() && s[h] == RBRACE && skip_ws(s, h + 1) == s.len() {
            Some((method, blocks))
        } else {
            None
        }
    } else if bytes_eq(k1.as_slice(), key_bl.as_slice()) {
        let (blocks, c) = match parse_block_list(s, b) {
            Some(x) => x,
            None => {
                return None;
            },
        };
        let d = skip_ws(s, c);
        if !(d < s.len() && s[d] == COMMA) {
            return None;
        }
        let k2start = skip_ws(s, d + 1);
        let (k2, e) = match parse_string(s, k2start) {
            Some(x) => x,
            None => {
                return None;
            },
        };
        if !bytes_eq(k2.as_slice(), key_cm.as_slice()) {
            return None;
        }
        let f = match expect_colon(s, e) {
            Some(x) => x,
            None => {
                return None;
            },
        };
        let fw = skip_ws(s, f);
        let (method, g) = match parse_string(s, fw) {
            Some(x) => x,
            None => {
                return None;
            },
        };
        let h = skip_ws(s, g);
        if h < s.len() && s[h] == RBRACE && skip_ws(s, h + 1) == s.len() {
            Some((method, blocks))
        } else {
            None
        }
    } else {
        None
    }
}

/// Checks the checksum invariant of the addressing scheme.
pub fn is_wf_checksum(c: &[u8]) -> (r: bool)
    ensures
        r == wf_checksum(c@),
{
    if c.len() < 4 {
        return false;
    }
    let mut i: usize = 0;
    while i < c.len()
        invariant
            i <= c@.len(),
            c@.len() >= 4,
            forall|j: int| 0 <= j < i ==> is_hex_digit(#[trigger] c@[j]),
        decreases c@.len() - i,
    {
        let b = c[i];
        if !((48 <= b && b <= 57) || (97 <= b && b <= 102) || (65 <= b && b <= 70)) {
            return false;
        }
        i = i + 1;
    }
    true
}

/// Resolves raw manifest bytes into a validated manifest.
///
/// Succeeds exactly when the bytes are a well-formed document of the
/// expected schema, the codec is the supported `lz4`, the block list is
/// non-empty and every checksum satisfies the addressing invariant; the
/// error names the first of these that fails. Pure: no fetching happens
/// here.
pub fn resolve(bytes: &[u8]) -> (r: Result<BackupManifest, RestoreError>)
    ensures
        match spec_parse_manifest(bytes@) {
            None => r matches Err(e) && e == RestoreError::Manifest(ManifestFault::Malformed),
            Some(m) => {
                if m.compression_method != codec_lz4() {
                    r matches Err(e) && e == RestoreError::Manifest(ManifestFault::UnsupportedCodec)
                } else if m.blocks.len() == 0 {
                    r matches Err(e) && e == RestoreError::Manifest(ManifestFault::EmptyBlockList)
                } else if exists|i: int|
                    0 <= i < m.blocks.len() && !(#[trigger] m.blocks[i]).wf() {
                    r matches Err(e) && e == RestoreError::Manifest(ManifestFault::InvalidChecksum)
                } else {
                    r matches Ok(man) && man@ == m && man.wf()
                }
            },
        },
{
    let (method, blocks) = match parse_manifest_doc(bytes) {
        Some(x) => x,
        None => {
            return Err(RestoreError::Manifest(ManifestFault::Malformed));
        },
    };
    let lz4_name = codec_lz4_bytes();
    if !bytes_eq(method.as_slice(), lz4_name.as_slice()) {
        return Err(RestoreError::Manifest(ManifestFault::UnsupportedCodec));
    }
    if blocks.len() == 0 {
        return Err(RestoreError::Manifest(ManifestFault::EmptyBlockList));
    }
    let ghost models = blocks@.map_values(|b: BlockDescriptor| b@);
    let mut i: usize = 0;
    while i < blocks.len()
        invariant
            i <= blocks@.len(),
            models == blocks@.map_values(|b: BlockDescriptor| b@),
            spec_parse_manifest(bytes@) == Some(
                ManifestModel { compression_method: method@, blocks: models },
            ),
            method@ == codec_lz4(),
            models.len() > 0,
            forall|j: int| 0 <= j < i ==> (#[trigger] models[j]).wf(),
        decreases blocks@.len() - i,
    {
        if !is_wf_checksum(blocks[i].checksum.as_slice()) {
            assert(!models[i as int].wf());
            return Err(RestoreError::Manifest(ManifestFault::InvalidChecksum));
        }
        assert(models[i as int].wf());
        i = i + 1;
    }
    let man = BackupManifest { compression_method: method, blocks };
    assert(man@.blocks == models);
    Ok(man)
}

} // verus!

