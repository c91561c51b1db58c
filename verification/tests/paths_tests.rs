use block_restore::derive_basename;
use block_restore::block_path;
use block_restore::RestoreError;

#[test]
fn namespace_derivation() {
    let path = block_path(b"backups/host1", b"abcd1234");
    assert_eq!(path, b"backups/host1/blocks/ab/cd/abcd1234.blk".to_vec());
}

#[test]
fn namespace_derivation_empty_basename() {
    let path = block_path(b"", b"00ff00ff");
    assert_eq!(path, b"/blocks/00/ff/00ff00ff.blk".to_vec());
}

#[test]
fn namespace_derivation_minimal_checksum() {
    // Four hex digits are exactly enough for the two leading byte pairs.
    let path = block_path(b"r", b"abcd");
    assert_eq!(path, b"r/blocks/ab/cd/abcd.blk".to_vec());
}

#[test]
fn basename_derivation() {
    let b = derive_basename(b"backups/host1/2023-01-01/index.json").unwrap();
    assert_eq!(b, b"backups/host1".to_vec());
}

#[test]
fn basename_two_separators() {
    let b = derive_basename(b"a/b/c").unwrap();
    assert_eq!(b, b"a".to_vec());
}

#[test]
fn basename_too_few_separators() {
    assert_eq!(derive_basename(b"justonename"), Err(RestoreError::Path));
    assert_eq!(derive_basename(b"one/slash.json"), Err(RestoreError::Path));
    assert_eq!(derive_basename(b""), Err(RestoreError::Path));
}

#[test]
fn basename_trailing_separator() {
    // The two final separators are the last and second-from-last ones.
    let b = derive_basename(b"x/y/").unwrap();
    assert_eq!(b, b"x".to_vec());
}
