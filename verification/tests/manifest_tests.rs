use block_restore::is_wf_checksum;
use block_restore::resolve;
use block_restore::ManifestFault;
use block_restore::RestoreError;

fn manifest_json(method: &str, blocks: &[(u64, &str)]) -> Vec<u8> {
    let mut parts: Vec<String> = Vec::new();
    for (off, cs) in blocks {
        parts.push(format!("{{\"Offset\": {}, \"BlockChecksum\": \"{}\"}}", off, cs));
    }
    format!(
        "{{\"CompressionMethod\": \"{}\", \"Blocks\": [{}]}}",
        method,
        parts.join(", ")
    )
    .into_bytes()
}

#[test]
fn resolve_accepts_lz4_manifest() {
    let doc = manifest_json("lz4", &[(0, "abcd1234"), (100, "ffee0011")]);
    let man = resolve(&doc).unwrap();
    assert_eq!(man.compression_method, b"lz4".to_vec());
    assert_eq!(man.blocks.len(), 2);
    assert_eq!(man.blocks[0].offset, 0);
    assert_eq!(man.blocks[0].checksum, b"abcd1234".to_vec());
    assert_eq!(man.blocks[1].offset, 100);
    assert_eq!(man.blocks[1].checksum, b"ffee0011".to_vec());
}

#[test]
fn unsupported_codec_rejected() {
    let doc = manifest_json("gzip", &[(0, "abcd1234")]);
    assert_eq!(
        resolve(&doc),
        Err(RestoreError::Manifest(ManifestFault::UnsupportedCodec))
    );
    let doc = manifest_json("LZ4", &[(0, "abcd1234")]);
    assert_eq!(
        resolve(&doc),
        Err(RestoreError::Manifest(ManifestFault::UnsupportedCodec))
    );
}

#[test]
fn fields_accepted_in_either_order() {
    let doc = b"{\"Blocks\": [{\"BlockChecksum\": \"abcd1234\", \"Offset\": 7}], \"CompressionMethod\": \"lz4\"}";
    let man = resolve(doc).unwrap();
    assert_eq!(man.blocks[0].offset, 7);
    assert_eq!(man.blocks[0].checksum, b"abcd1234".to_vec());
}

#[test]
fn whitespace_is_insignificant() {
    let doc = b" \t{\r\n \"CompressionMethod\" : \"lz4\" ,\n \"Blocks\" : [ { \"Offset\" : 0 , \"BlockChecksum\" : \"abcd1234\" } ] }\n";
    assert!(resolve(doc).is_ok());
}

#[test]
fn empty_block_list_rejected() {
    let doc = b"{\"CompressionMethod\": \"lz4\", \"Blocks\": []}";
    assert_eq!(
        resolve(doc),
        Err(RestoreError::Manifest(ManifestFault::EmptyBlockList))
    );
}

#[test]
fn short_checksum_rejected() {
    let doc = manifest_json("lz4", &[(0, "abc")]);
    assert_eq!(
        resolve(&doc),
        Err(RestoreError::Manifest(ManifestFault::InvalidChecksum))
    );
}

#[test]
fn non_hex_checksum_rejected() {
    let doc = manifest_json("lz4", &[(0, "abcdefgh")]);
    assert_eq!(
        resolve(&doc),
        Err(RestoreError::Manifest(ManifestFault::InvalidChecksum))
    );
}

#[test]
fn malformed_documents_rejected() {
    let malformed = Err(RestoreError::Manifest(ManifestFault::Malformed));
    // Not a document at all.
    assert_eq!(resolve(b""), malformed);
    assert_eq!(resolve(b"hello"), malformed);
    // Truncated.
    assert_eq!(resolve(b"{\"CompressionMethod\": \"lz4\""), malformed);
    // Wrong field name.
    assert_eq!(
        resolve(b"{\"compressionmethod\": \"lz4\", \"Blocks\": [{\"Offset\": 0, \"BlockChecksum\": \"abcd1234\"}]}"),
        malformed
    );
    // Missing second field.
    assert_eq!(resolve(b"{\"CompressionMethod\": \"lz4\"}"), malformed);
    // A block missing a field.
    assert_eq!(
        resolve(b"{\"CompressionMethod\": \"lz4\", \"Blocks\": [{\"Offset\": 0}]}"),
        malformed
    );
    // The same field twice is not the expected two-field schema.
    assert_eq!(
        resolve(b"{\"CompressionMethod\": \"lz4\", \"CompressionMethod\": \"lz4\"}"),
        malformed
    );
    // Trailing bytes after the document.
    assert_eq!(
        resolve(b"{\"CompressionMethod\": \"lz4\", \"Blocks\": [{\"Offset\": 0, \"BlockChecksum\": \"abcd1234\"}]} x"),
        malformed
    );
}

#[test]
fn numbers_are_strict_u64() {
    // Leading zero.
    assert_eq!(
        resolve(b"{\"CompressionMethod\": \"lz4\", \"Blocks\": [{\"Offset\": 01, \"BlockChecksum\": \"abcd1234\"}]}"),
        Err(RestoreError::Manifest(ManifestFault::Malformed))
    );
    // Negative.
    assert_eq!(
        resolve(b"{\"CompressionMethod\": \"lz4\", \"Blocks\": [{\"Offset\": -1, \"BlockChecksum\": \"abcd1234\"}]}"),
        Err(RestoreError::Manifest(ManifestFault::Malformed))
    );
    // One past the 64-bit maximum.
    assert_eq!(
        resolve(b"{\"CompressionMethod\": \"lz4\", \"Blocks\": [{\"Offset\": 18446744073709551616, \"BlockChecksum\": \"abcd1234\"}]}"),
        Err(RestoreError::Manifest(ManifestFault::Malformed))
    );
    // The 64-bit maximum itself is fine.
    let man = resolve(b"{\"CompressionMethod\": \"lz4\", \"Blocks\": [{\"Offset\": 18446744073709551615, \"BlockChecksum\": \"abcd1234\"}]}").unwrap();
    assert_eq!(man.blocks[0].offset, u64::MAX);
    // Zero on its own is fine.
    let man = resolve(b"{\"CompressionMethod\": \"lz4\", \"Blocks\": [{\"Offset\": 0, \"BlockChecksum\": \"abcd1234\"}]}").unwrap();
    assert_eq!(man.blocks[0].offset, 0);
}

#[test]
fn checksum_wellformedness() {
    assert!(is_wf_checksum(b"abcd"));
    assert!(is_wf_checksum(b"0123456789abcdefABCDEF"));
    assert!(!is_wf_checksum(b"abc"));
    assert!(!is_wf_checksum(b""));
    assert!(!is_wf_checksum(b"abcg"));
    assert!(!is_wf_checksum(b"abc "));
}

#[test]
fn escape_sequences_are_outside_the_schema() {
    assert_eq!(
        resolve(b"{\"CompressionMethod\": \"lz\\u0034\", \"Blocks\": [{\"Offset\": 0, \"BlockChecksum\": \"abcd1234\"}]}"),
        Err(RestoreError::Manifest(ManifestFault::Malformed))
    );
}
