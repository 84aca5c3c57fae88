//! The progress throttle: a stateful rate limiter that decides when a
//! progress update is worth emitting, based on wall-clock time and
//! cumulative bytes transferred since the last emission. Time is
//! passed in by the caller as milliseconds from a monotonic clock.

use vstd::prelude::*;

verus! {

/// Minimum interval between two progress emissions, in milliseconds.
pub const UPDATE_INTERVAL_MS: u64 = 3000;

/// Byte delta since the last emission that forces an emission
/// regardless of elapsed time (50 MiB).
pub const BYTE_THRESHOLD: u64 = 50 * 1024 * 1024;

/// `a - b`, floored at zero.
pub open spec fn sat_sub(a: u64, b: u64) -> u64 {
    if a >= b {
        (a - b) as u64
    } else {
        0
    }
}

/// An immutable snapshot of transfer progress, emitted zero or more
/// times per invocation through a caller-supplied sink. Purely
/// observational; it never affects control flow.
pub struct BackupProgress {
    /// Label of the phase the engine is in.
    pub phase: String,
    /// Files fully transferred so far.
    pub transferred_files: usize,
    /// Total files, when known (usually unknown until completion).
    pub total_files: Option<usize>,
    /// Bytes of fully completed files transferred so far.
    pub transferred_bytes: u64,
    /// Remote path of the file being transferred, if any.
    pub current_file: Option<String>,
    /// Whole seconds since the invocation started.
    pub elapsed_seconds: u64,
    /// Mean throughput in bytes per second, absent while elapsed time
    /// is zero.
    pub transfer_speed: Option<u64>,
}

/// State of the rate limiter: when and at what byte count it last
/// emitted, and when the invocation started.
pub struct ProgressThrottle {
    pub last_update_ms: u64,
    pub last_bytes: u64,
    pub start_ms: u64,
    pub update_interval_ms: u64,
    pub byte_threshold: u64,
}

/// An emission is due when the minimum interval has elapsed since the
/// last emission, or the byte delta since the last emission has
/// reached the threshold.
pub open spec fn spec_due(t: ProgressThrottle, now_ms: u64, bytes: u64) -> bool {
    sat_sub(now_ms, t.last_update_ms) >= t.update_interval_ms || sat_sub(bytes, t.last_bytes)
        >= t.byte_threshold
}

impl ProgressThrottle {
    /// A fresh throttle, anchored at `now_ms`.
    pub fn new(now_ms: u64) -> (t: ProgressThrottle)
        ensures
            t.last_update_ms == now_ms,
            t.last_bytes == 0,
            t.start_ms == now_ms,
            t.update_interval_ms == UPDATE_INTERVAL_MS,
            t.byte_threshold == BYTE_THRESHOLD,
    {
        ProgressThrottle {
            last_update_ms: now_ms,
            last_bytes: 0,
            start_ms: now_ms,
            update_interval_ms: UPDATE_INTERVAL_MS,
            byte_threshold: BYTE_THRESHOLD,
        }
    }

    /// Decide whether to emit a progress event now. On a positive
    /// decision both trackers reset to the current time and byte
    /// count; on a negative one the state is unchanged.
    pub fn should_update(&mut self, now_ms: u64, transferred_bytes: u64) -> (emit: bool)
        ensures
            emit == spec_due(*old(self), now_ms, transferred_bytes),
            emit ==> *final(self) == (ProgressThrottle {
                last_update_ms: now_ms,
                last_bytes: transferred_bytes,
                ..*old(self)
            }),
            !emit ==> *final(self) == *old(self),
    {
        let time_elapsed = sat_sub_exec(now_ms, self.last_update_ms) >= self.update_interval_ms;
        let bytes_elapsed = sat_sub_exec(transferred_bytes, self.last_bytes)
            >= self.byte_threshold;
        if time_elapsed || bytes_elapsed {
            self.last_update_ms = now_ms;
            self.last_bytes = transferred_bytes;
            true
        } else {
            false
        }
    }

    /// Whole seconds elapsed since the invocation started.
    pub fn get_elapsed_seconds(&self, now_ms: u64) -> (secs: u64)
        ensures
            secs == sat_sub(now_ms, self.start_ms) / 1000,
    {
        sat_sub_exec(now_ms, self.start_ms) / 1000
    }

    /// Mean throughput in bytes per whole elapsed second; absent while
    /// no whole second has elapsed.
    pub fn calculate_speed(&self, now_ms: u64, total_bytes: u64) -> (speed: Option<u64>)
        ensures
            sat_sub(now_ms, self.start_ms) / 1000 == 0 ==> speed is None,
            sat_sub(now_ms, self.start_ms) / 1000 > 0 ==> speed == Some(
                total_bytes / (sat_sub(now_ms, self.start_ms) / 1000),
            ),
    {
        let elapsed_secs = sat_sub_exec(now_ms, self.start_ms) / 1000;
        if elapsed_secs > 0 {
            Some(total_bytes / elapsed_secs)
        } else {
            None
        }
    }
}

/// Executable saturating subtraction.
fn sat_sub_exec(a: u64, b: u64) -> (r: u64)
    ensures
        r == sat_sub(a, b),
{
    if a >= b {
        a - b
    } else {
        0
    }
}

/// Two emissions can never lie closer together than the minimum
/// interval unless the byte threshold was crossed between them: if an
/// emission happened at time `t1` and byte count `b1`, and a later
/// check at `t2 < t1 + interval` decides to emit again, then at least
/// the byte threshold was transferred since `t1`.
pub proof fn lemma_no_rapid_emissions(t: ProgressThrottle, t2: u64, b2: u64)
    requires
        t2 >= t.last_update_ms,
        sat_sub(t2, t.last_update_ms) < t.update_interval_ms,
        spec_due(t, t2, b2),
    ensures
        sat_sub(b2, t.last_bytes) >= t.byte_threshold,
{
}

/// Once the byte threshold has been crossed since the last emission,
/// an emission is due regardless of elapsed time.
pub proof fn lemma_byte_delta_forces_emission(t: ProgressThrottle, now_ms: u64, bytes: u64)
    requires
        sat_sub(bytes, t.last_bytes) >= t.byte_threshold,
    ensures
        spec_due(t, now_ms, bytes),
{
}

} // verus!
