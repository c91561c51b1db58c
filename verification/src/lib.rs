//! Verified core of a block-based backup restore tool.
//!
//! A backup is described by a manifest: a compression method name and an
//! ordered list of block descriptors, each carrying an absolute byte offset
//! in the destination file and a hexadecimal content checksum that doubles
//! as the block's address in the remote object namespace.
//!
//! The library resolves raw manifest bytes into a validated manifest,
//! derives object paths from checksums, and drives the restore as a
//! step-by-step stream: the caller fetches each block's stored bytes and
//! feeds them in; the engine decompresses, checks the offset against the
//! expected cursor, and yields `(offset, bytes)` pairs for positioned
//! writes. All I/O (object fetches, file writes) stays with the caller.

mod engine;
mod error;
mod laws;
mod manifest;
mod paths;
mod util;

pub use engine::BlockStream;
pub use engine::StepOutput;
pub use error::ManifestFault;
pub use error::RestoreError;
pub use error::SkippedData;
pub use manifest::is_wf_checksum;
pub use manifest::resolve;
pub use manifest::BackupManifest;
pub use manifest::BlockDescriptor;
pub use paths::block_path;
pub use paths::derive_basename;
