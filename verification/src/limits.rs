//! Fixed operational bounds of the engine: buffer size, deadlines, and
//! the size-adaptive per-file transfer timeout.

use vstd::prelude::*;

verus! {

/// One mebibyte, in bytes.
pub const MIB: u64 = 1024 * 1024;

/// One gibibyte, in bytes.
pub const GIB: u64 = 1024 * 1024 * 1024;

/// Size of the reusable buffer used when streaming a remote file to a
/// local file. Chosen for high-latency, moderate-bandwidth links.
pub const COPY_BUFFER_SIZE: usize = 128 * 1024;

/// Deadline around the whole connection-establishment sequence, in seconds.
pub const CONNECT_TIMEOUT_SECS: u64 = 30;

/// Deadline around a directory-listing operation, in seconds.
pub const LIST_TIMEOUT_SECS: u64 = 30;

/// Ceiling on one whole backup invocation, in seconds (two hours).
pub const WHOLE_JOB_TIMEOUT_SECS: u64 = 7200;

/// Per-file transfer deadline, tiered by the file's reported size:
/// under 10 MiB one minute, under 100 MiB two minutes, under 1 GiB ten
/// minutes, and thirty minutes for anything larger. An unknown size is
/// treated as zero bytes and so falls in the smallest tier.
pub fn calculate_file_timeout(file_size: u64) -> (timeout_secs: u64)
    ensures
        timeout_secs == spec_file_timeout(file_size),
{
    if file_size < 10 * MIB {
        60
    } else if file_size < 100 * MIB {
        120
    } else if file_size < GIB {
        600
    } else {
        1800
    }
}

/// The timeout tier for a given file size, in seconds.
pub open spec fn spec_file_timeout(file_size: u64) -> u64 {
    if file_size < 10 * (MIB as int) {
        60
    } else if file_size < 100 * (MIB as int) {
        120
    } else if file_size < GIB {
        600
    } else {
        1800
    }
}

} // verus!
