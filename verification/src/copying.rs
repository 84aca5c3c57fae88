//! Decisions of the buffered copy primitive: what to do after each
//! read of the remote file handle, and the running byte count. The
//! reads and writes themselves are driven by the surrounding
//! application with a fixed reusable buffer.

use vstd::prelude::*;

verus! {

/// What one read of the remote file handle reported.
pub enum ReadEvent {
    /// This many bytes were read; zero means end of stream.
    Chunk { len: usize },
    /// The read was interrupted by a signal.
    Interrupted,
    /// The read failed for any other reason.
    Failed { detail: String },
}

/// What the copy loop does next.
pub enum CopyAction {
    /// Write this many bytes of the buffer to the local file.
    Write { len: usize },
    /// Retry the read; an interrupted read is not an error.
    Retry,
    /// The stream ended normally; this many bytes were moved.
    Finished { total_bytes: u64 },
    /// The copy fails with the read's error text.
    Abort { detail: String },
}

/// The copy loop's running state: bytes of completed writes.
pub struct CopyLoop {
    pub total_bytes: u64,
}

impl CopyLoop {
    /// A fresh copy with nothing moved.
    pub fn new() -> (c: CopyLoop)
        ensures
            c.total_bytes == 0,
    {
        CopyLoop { total_bytes: 0 }
    }

    /// Decide what follows one read: end of stream finishes with the
    /// running total, a non-empty chunk is written, an interrupted
    /// read is retried, and any other failure aborts.
    pub fn on_read(&self, event: ReadEvent) -> (a: CopyAction)
        ensures
            event matches ReadEvent::Chunk { len } ==> a == (if len == 0 {
                CopyAction::Finished { total_bytes: self.total_bytes }
            } else {
                CopyAction::Write { len }
            }),
            event matches ReadEvent::Interrupted ==> a == CopyAction::Retry,
            (event matches ReadEvent::Failed { detail } ==> a matches CopyAction::Abort {
                detail: d,
            } && d@ == detail@),
    {
        match event {
            ReadEvent::Chunk { len } => {
                if len == 0 {
                    CopyAction::Finished { total_bytes: self.total_bytes }
                } else {
                    CopyAction::Write { len }
                }
            },
            ReadEvent::Interrupted => CopyAction::Retry,
            ReadEvent::Failed { detail } => CopyAction::Abort { detail },
        }
    }

    /// Record one completed write of `len` bytes, capped at the
    /// largest representable total.
    pub fn on_written(&mut self, len: usize)
        ensures
            final(self).total_bytes == if old(self).total_bytes + len > u64::MAX {
                u64::MAX as int
            } else {
                old(self).total_bytes + len
            },
    {
        let add = len as u64;
        if self.total_bytes <= u64::MAX - add {
            self.total_bytes = self.total_bytes + add;
        } else {
            self.total_bytes = u64::MAX;
        }
    }
}

} // verus!
