use std::io::Write;

use block_restore::block_path;
use block_restore::derive_basename;
use block_restore::resolve;
use block_restore::BlockStream;
use block_restore::RestoreError;
use block_restore::SkippedData;

/// A test double for the object store: path-addressed objects, a record
/// of every fetch in order, and an optional fetch index made to fail.
struct FakeStore {
    objects: Vec<(Vec<u8>, Vec<u8>)>,
    fetched: Vec<Vec<u8>>,
    fail_on: Option<usize>,
}

impl FakeStore {
    fn new() -> FakeStore {
        FakeStore { objects: Vec::new(), fetched: Vec::new(), fail_on: None }
    }

    fn put(&mut self, path: Vec<u8>, bytes: Vec<u8>) {
        self.objects.push((path, bytes));
    }

    fn fetch(&mut self, path: &[u8]) -> Option<Vec<u8>> {
        let call_index = self.fetched.len();
        self.fetched.push(path.to_vec());
        if self.fail_on == Some(call_index) {
            return None;
        }
        self.objects
            .iter()
            .find(|(k, _)| k.as_slice() == path)
            .map(|(_, v)| v.clone())
    }
}

fn lz4_compress(data: &[u8]) -> Vec<u8> {
    let mut enc = lz4::EncoderBuilder::new().level(1).build(Vec::new()).unwrap();
    enc.write_all(data).unwrap();
    let (out, result) = enc.finish();
    result.unwrap();
    out
}

/// A positioned write into an in-memory file, with zero fill for holes,
/// as create-or-truncate plus seek-and-write semantics give.
fn write_at(file: &mut Vec<u8>, offset: u64, data: &[u8]) {
    let off = offset as usize;
    if file.len() < off + data.len() {
        file.resize(off + data.len(), 0);
    }
    file[off..off + data.len()].copy_from_slice(data);
}

fn manifest_json(method: &str, blocks: &[(u64, &str)]) -> Vec<u8> {
    let mut parts: Vec<String> = Vec::new();
    for (off, cs) in blocks {
        parts.push(format!("{{\"Offset\": {}, \"BlockChecksum\": \"{}\"}}", off, cs));
    }
    format!(
        "{{\"CompressionMethod\": \"{}\", \"Blocks\": [{}]}}",
        method,
        parts.join(", ")
    )
    .into_bytes()
}

/// Drives a whole restore: resolve, derive the root, then fetch, decode
/// and write one block at a time, in manifest order, aborting on the
/// first failure. Gap conditions are tolerated (sparse restore).
fn run_restore(
    manifest_bytes: &[u8],
    manifest_path: &[u8],
    store: &mut FakeStore,
) -> Result<Vec<u8>, RestoreError> {
    let manifest = resolve(manifest_bytes)?;
    let basename = derive_basename(manifest_path)?;
    let mut stream = BlockStream::new(basename, manifest);
    let mut file: Vec<u8> = Vec::new();
    while let Some(path) = stream.next_path() {
        let bytes = stream_fetch(store, &path)?;
        let out = stream.step(&bytes)?;
        write_at(&mut file, out.offset, &out.data);
    }
    Ok(file)
}

fn stream_fetch(store: &mut FakeStore, path: &[u8]) -> Result<Vec<u8>, RestoreError> {
    match store.fetch(path) {
        Some(b) => Ok(b),
        None => Err(RestoreError::Remote),
    }
}

/// Lays payloads out back to back, stores their compressed bytes under
/// the namespace paths, and returns the manifest document plus the
/// expected concatenation.
fn setup_contiguous(
    payloads: &[&[u8]],
    basename: &[u8],
    store: &mut FakeStore,
) -> (Vec<u8>, Vec<u8>) {
    let mut blocks: Vec<(u64, String)> = Vec::new();
    let mut concat: Vec<u8> = Vec::new();
    let mut offset: u64 = 0;
    for (i, p) in payloads.iter().enumerate() {
        let checksum = format!("{:04x}{:04x}", i, i + 1);
        store.put(
            block_path(basename, checksum.as_bytes()),
            lz4_compress(p),
        );
        blocks.push((offset, checksum));
        concat.extend_from_slice(p);
        offset += p.len() as u64;
    }
    let refs: Vec<(u64, &str)> = blocks.iter().map(|(o, c)| (*o, c.as_str())).collect();
    (manifest_json("lz4", &refs), concat)
}

#[test]
fn round_trip() {
    let mut store = FakeStore::new();
    let payloads: [&[u8]; 3] = [b"hello ", b"backup ", b"world, restored in full"];
    let (doc, expected) = setup_contiguous(&payloads, b"backups/host1", &mut store);
    let file = run_restore(&doc, b"backups/host1/2023-01-01/index.json", &mut store).unwrap();
    assert_eq!(file, expected);
}

#[test]
fn round_trip_large_blocks() {
    let mut store = FakeStore::new();
    let a: Vec<u8> = (0..100000u32).map(|i| (i % 251) as u8).collect();
    let b: Vec<u8> = (0..65536u32).map(|i| (i / 7 % 256) as u8).collect();
    let payloads: [&[u8]; 2] = [&a, &b];
    let (doc, expected) = setup_contiguous(&payloads, b"r/s", &mut store);
    let file = run_restore(&doc, b"r/s/t/u", &mut store).unwrap();
    assert_eq!(file, expected);
}

#[test]
fn fetch_order_follows_manifest() {
    let mut store = FakeStore::new();
    let payloads: [&[u8]; 3] = [b"one", b"two", b"three"];
    let (doc, _) = setup_contiguous(&payloads, b"backups/host1", &mut store);
    run_restore(&doc, b"backups/host1/2023-01-01/index.json", &mut store).unwrap();
    let expected_paths: Vec<Vec<u8>> = vec![
        block_path(b"backups/host1", b"00000001"),
        block_path(b"backups/host1", b"00010002"),
        block_path(b"backups/host1", b"00020003"),
    ];
    assert_eq!(store.fetched, expected_paths);
}

#[test]
fn gap_detection() {
    // Decompressed lengths of 100 each give expected offsets 0, 100, 200,
    // but the manifest declares the third block at 250.
    let mut store = FakeStore::new();
    let payload = [7u8; 100];
    let checksums = ["aa000001", "aa000002", "aa000003"];
    for cs in checksums.iter() {
        store.put(block_path(b"base/x", cs.as_bytes()), lz4_compress(&payload));
    }
    let doc = manifest_json(
        "lz4",
        &[(0, checksums[0]), (100, checksums[1]), (250, checksums[2])],
    );
    let manifest = resolve(&doc).unwrap();
    let mut stream = BlockStream::new(b"base/x".to_vec(), manifest);
    let mut gaps: Vec<Option<SkippedData>> = Vec::new();
    while let Some(path) = stream.next_path() {
        let bytes = store.fetch(&path).unwrap();
        let out = stream.step(&bytes).unwrap();
        gaps.push(out.gap);
    }
    assert_eq!(gaps.len(), 3);
    assert_eq!(gaps[0], None);
    assert_eq!(gaps[1], None);
    assert_eq!(
        gaps[2],
        Some(SkippedData { expected_offset: 200, found_offset: 250 })
    );
}

#[test]
fn strict_caller_turns_a_gap_into_an_error() {
    let mut store = FakeStore::new();
    let payload = [3u8; 10];
    store.put(block_path(b"b/n", b"00aa00aa"), lz4_compress(&payload));
    let doc = manifest_json("lz4", &[(4, "00aa00aa")]);
    let manifest = resolve(&doc).unwrap();
    let mut stream = BlockStream::new(b"b/n".to_vec(), manifest);
    let path = stream.next_path().unwrap();
    let bytes = store.fetch(&path).unwrap();
    let out = stream.step(&bytes).unwrap();
    assert_eq!(
        out.gap_error(),
        Some(RestoreError::Skipped(SkippedData {
            expected_offset: 0,
            found_offset: 4,
        }))
    );
}

#[test]
fn gap_message() {
    let gap = SkippedData { expected_offset: 200, found_offset: 250 };
    assert_eq!(
        gap.describe(),
        b"Gap in data: expected to find a block for offset 200, found 250".to_vec()
    );
}

#[test]
fn fetch_failure_isolation() {
    // The second of three fetches fails: the first block is already
    // written, the run aborts, and the third fetch is never attempted.
    let mut store = FakeStore::new();
    let payloads: [&[u8]; 3] = [b"first block", b"second block", b"third block"];
    let (doc, _) = setup_contiguous(&payloads, b"b/n", &mut store);
    store.fail_on = Some(1);

    let manifest = resolve(&doc).unwrap();
    let mut stream = BlockStream::new(b"b/n".to_vec(), manifest);
    let mut file: Vec<u8> = Vec::new();
    let mut failure: Option<RestoreError> = None;
    while let Some(path) = stream.next_path() {
        let bytes = match stream_fetch(&mut store, &path) {
            Ok(b) => b,
            Err(e) => {
                failure = Some(e);
                break;
            }
        };
        let out = stream.step(&bytes).unwrap();
        write_at(&mut file, out.offset, &out.data);
    }
    assert_eq!(failure, Some(RestoreError::Remote));
    assert_eq!(file, b"first block".to_vec());
    assert_eq!(store.fetched.len(), 2);
}

#[test]
fn corrupt_payload_is_a_decode_error() {
    let doc = manifest_json("lz4", &[(0, "abcd1234")]);
    let manifest = resolve(&doc).unwrap();
    let mut stream = BlockStream::new(b"b/n".to_vec(), manifest);
    assert!(stream.next_path().is_some());
    let r = stream.step(b"this is not an lz4 frame");
    assert_eq!(r.unwrap_err(), RestoreError::Decode);
    // The failed step consumed nothing: the block is still pending.
    assert!(stream.next_path().is_some());
}

#[test]
fn compression_actually_shrinks_and_restores() {
    // A run of equal bytes compresses well; the restored bytes must be
    // the original, not the stored form.
    let payload = [42u8; 4096];
    let stored = lz4_compress(&payload);
    assert!(stored.len() < payload.len());
    let doc = manifest_json("lz4", &[(0, "0042aa55")]);
    let manifest = resolve(&doc).unwrap();
    let mut stream = BlockStream::new(b"b/n".to_vec(), manifest);
    let out = stream.step(&stored).unwrap();
    assert_eq!(out.offset, 0);
    assert_eq!(out.data, payload.to_vec());
    assert_eq!(out.gap, None);
}
