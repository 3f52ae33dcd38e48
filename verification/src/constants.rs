use vstd::prelude::*;

verus! {

/// Size in bytes of the fixed payload header.
pub const HEADER_SIZE: usize = 24;

/// The only major payload version this dumper understands.
pub const BRILLO_MAJOR_PAYLOAD_VERSION: u64 = 2;

/// Default buffer size of a payload reader.
pub const BUF_SIZE: usize = 262144;

/// Number of reconnect attempts a remote reader makes before giving up.
pub const MAX_RETRIES: usize = 3;

/// Connect timeout of the HTTP agent, in seconds.
pub const REQUEST_TIMEOUT: u64 = 10;

/// Response and body timeout of the HTTP agent, in seconds.
pub const READ_TIMEOUT: u64 = 30;

/// Block size used when the manifest does not name one.
pub const BLOCK_SIZE: u32 = 4096;

/// Status of a download task: not started.
pub const STATUS_IDLE: u8 = 0;

/// Status of a download task: queued, waiting for a slot.
pub const STATUS_PENDING: u8 = 1;

/// Status of a download task: extracting.
pub const STATUS_RUNNING: u8 = 2;

/// Status of a download task: finished successfully.
pub const STATUS_COMPLETED: u8 = 3;

/// Status of a download task: finished with an error.
pub const STATUS_FAILED: u8 = 4;

/// The four bytes a payload starts with: `CrAU`.
pub open spec fn payload_magic() -> Seq<u8> {
    seq![0x43u8, 0x72u8, 0x41u8, 0x55u8]
}

/// The four bytes a ZIP archive starts with: `PK\x03\x04`.
pub open spec fn zip_magic() -> Seq<u8> {
    seq![0x50u8, 0x4bu8, 0x03u8, 0x04u8]
}

} // verus!
