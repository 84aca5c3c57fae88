//! The engine's failure taxonomy. Every failure is structured at its
//! point of origin; a rendered message is derived from the structure,
//! and the text classifier is applied to that rendering only when a
//! failure is surfaced to an operator.

use vstd::prelude::*;
use vstd::string::StrSliceExecFns;
use vstd::string::StringExecFns;
use crate::text::{spec_decimal, spec_octal, decimal_string, octal_string};

verus! {

/// Private key format, detected by content sniffing; used in
/// diagnostics only and never alters behaviour.
#[derive(Clone, Copy, Debug, PartialEq, Eq, Structural)]
pub enum KeyFormat {
    OpenSsh,
    Pem,
    Unknown,
}

/// The diagnostic name of a key format.
pub open spec fn spec_format_name(f: KeyFormat) -> Seq<char> {
    match f {
        KeyFormat::OpenSsh => "OpenSSH"@,
        KeyFormat::Pem => "PEM"@,
        KeyFormat::Unknown => "unknown"@,
    }
}

/// The diagnostic name of a key format.
pub fn format_name(f: KeyFormat) -> (r: &'static str)
    ensures
        r@ == spec_format_name(f),
{
    match f {
        KeyFormat::OpenSsh => "OpenSSH",
        KeyFormat::Pem => "PEM",
        KeyFormat::Unknown => "unknown",
    }
}

/// The one result of a backup invocation: a success with its summary,
/// a distinguished non-error cancellation (never re-classified), or a
/// classified failure.
pub enum TransferOutcome {
    /// The whole tree was mirrored.
    Success { transferred_files: u64, message: String },
    /// The caller requested cancellation; files copied before the
    /// checkpoint remain in place.
    Cancelled { transferred_files: u64 },
    /// The invocation failed; nothing is rolled back.
    Failed { error: BackupError },
}

/// The summary handed back to the surrounding application after a
/// successful backup.
pub struct BackupResult {
    pub message: String,
    pub transferred_files: usize,
    pub elapsed_seconds: u64,
}

/// A failure of one backup-engine operation, distinct from every
/// other. A cancelled run is not an error and is never represented
/// here; it is a distinguished outcome instead.
pub enum BackupError {
    /// The TCP connection could not be opened.
    ConnectionRefusedOrUnreachable { detail: String },
    /// The secure-shell handshake on the raw stream failed.
    HandshakeFailed { detail: String },
    /// The private key file does not exist.
    KeyFileMissing { key_path: String },
    /// The private key file grants access to group or other.
    KeyFilePermissionsUnsafe { key_path: String, mode: u32 },
    /// Public-key authentication was rejected.
    AuthenticationFailed { username: String, key_path: String, key_format: KeyFormat, detail: String },
    /// The handshake succeeded but the session does not report itself
    /// authenticated.
    NotAuthenticated,
    /// The remote root is missing or is not a directory.
    RemoteRootMissingOrNotDirectory { remote_path: String },
    /// The traversal descended past the depth bound.
    RecursionTooDeep { remote_path: String },
    /// A remote directory could not be listed during traversal.
    DirectoryListingFailed { remote_path: String, detail: String },
    /// A local directory or file could not be created or written.
    LocalIoFailed { local_path: String, detail: String },
    /// One file transfer failed.
    FileTransferFailed { remote_path: String, detail: String },
    /// Connection establishment exceeded its deadline.
    EstablishmentTimeout,
    /// One file transfer exceeded its size-adaptive deadline.
    PerFileTimeout { remote_path: String, timeout_secs: u64 },
    /// The whole invocation exceeded its two-hour ceiling.
    WholeJobTimeout,
}

/// The rendered message of a failure: a fixed phrase per variant with
/// the variant's details spliced in.
pub open spec fn spec_render(e: BackupError) -> Seq<char> {
    match e {
        BackupError::ConnectionRefusedOrUnreachable { detail } => "connection to host failed: "@
            + detail@,
        BackupError::HandshakeFailed { detail } => "secure shell handshake with host failed: "@
            + detail@,
        BackupError::KeyFileMissing { key_path } => "private key file not found: "@ + key_path@,
        BackupError::KeyFilePermissionsUnsafe { key_path, mode } => "private key file permissions are unsafe (mode "@
            + spec_octal(mode as int) + "); run: chmod 600 "@ + key_path@,
        BackupError::AuthenticationFailed { username, key_path, key_format, detail } => "public key authentication failed for user "@
            + username@ + " with key "@ + key_path@ + " ("@ + spec_format_name(key_format)
            + " format); hint: an openssh key can be converted with: ssh-keygen -p -m PEM -f "@
            + key_path@ + "; "@ + detail@,
        BackupError::NotAuthenticated => "session reports not authenticated after public key authentication"@,
        BackupError::RemoteRootMissingOrNotDirectory { remote_path } => "remote folder not found or not a directory: "@
            + remote_path@,
        BackupError::RecursionTooDeep { remote_path } => "directory nesting is too deep at: "@
            + remote_path@,
        BackupError::DirectoryListingFailed { remote_path, detail } => "could not read remote directory "@
            + remote_path@ + ": "@ + detail@,
        BackupError::LocalIoFailed { local_path, detail } => "could not write local path "@
            + local_path@ + ": "@ + detail@,
        BackupError::FileTransferFailed { remote_path, detail } => "file transfer failed for "@
            + remote_path@ + ": "@ + detail@,
        BackupError::EstablishmentTimeout => "timed out after 30 seconds during secure shell establishment"@,
        BackupError::PerFileTimeout { remote_path, timeout_secs } => "file transfer timed out after "@
            + spec_decimal(timeout_secs as int) + " seconds: "@ + remote_path@,
        BackupError::WholeJobTimeout => "backup timed out after 7200 seconds; the data set may be very large or the link very slow; consider splitting the backup"@,
    }
}

impl BackupError {
    /// Render this failure as its fixed human-readable message.
    pub fn render(&self) -> (r: String)
        ensures
            r@ == spec_render(*self),
    {
        match self {
            BackupError::ConnectionRefusedOrUnreachable { detail } => {
                let mut s = String::from_str("connection to host failed: ");
                s.append(detail.as_str());
                s
            },
            BackupError::HandshakeFailed { detail } => {
                let mut s = String::from_str("secure shell handshake with host failed: ");
                s.append(detail.as_str());
                s
            },
            BackupError::KeyFileMissing { key_path } => {
                let mut s = String::from_str("private key file not found: ");
                s.append(key_path.as_str());
                s
            },
            BackupError::KeyFilePermissionsUnsafe { key_path, mode } => {
                let mut s = String::from_str("private key file permissions are unsafe (mode ");
                let digits = octal_string(*mode as u64);
                s.append(digits.as_str());
                s.append("); run: chmod 600 ");
                s.append(key_path.as_str());
                proof {
                    assert(s@ =~= spec_render(*self));
                }
                s
            },
            BackupError::AuthenticationFailed { username, key_path, key_format, detail } => {
                let mut s = String::from_str("public key authentication failed for user ");
                s.append(username.as_str());
                s.append(" with key ");
                s.append(key_path.as_str());
                s.append(" (");
                s.append(format_name(*key_format));
                s.append(
                    " format); hint: an openssh key can be converted with: ssh-keygen -p -m PEM -f ",
                );
                s.append(key_path.as_str());
                s.append("; ");
                s.append(detail.as_str());
                proof {
                    assert(s@ =~= spec_render(*self));
                }
                s
            },
            BackupError::NotAuthenticated => {
                String::from_str("session reports not authenticated after public key authentication")
            },
            BackupError::RemoteRootMissingOrNotDirectory { remote_path } => {
                let mut s = String::from_str("remote folder not found or not a directory: ");
                s.append(remote_path.as_str());
                s
            },
            BackupError::RecursionTooDeep { remote_path } => {
                let mut s = String::from_str("directory nesting is too deep at: ");
                s.append(remote_path.as_str());
                s
            },
            BackupError::DirectoryListingFailed { remote_path, detail } => {
                let mut s = String::from_str("could not read remote directory ");
                s.append(remote_path.as_str());
                s.append(": ");
                s.append(detail.as_str());
                proof {
                    assert(s@ =~= spec_render(*self));
                }
                s
            },
            BackupError::LocalIoFailed { local_path, detail } => {
                let mut s = String::from_str("could not write local path ");
                s.append(local_path.as_str());
                s.append(": ");
                s.append(detail.as_str());
                proof {
                    assert(s@ =~= spec_render(*self));
                }
                s
            },
            BackupError::FileTransferFailed { remote_path, detail } => {
                let mut s = String::from_str("file transfer failed for ");
                s.append(remote_path.as_str());
                s.append(": ");
                s.append(detail.as_str());
                proof {
                    assert(s@ =~= spec_render(*self));
                }
                s
            },
            BackupError::EstablishmentTimeout => {
                String::from_str("timed out after 30 seconds during secure shell establishment")
            },
            BackupError::PerFileTimeout { remote_path, timeout_secs } => {
                let mut s = String::from_str("file transfer timed out after ");
                let digits = decimal_string(*timeout_secs);
                s.append(digits.as_str());
                s.append(" seconds: ");
                s.append(remote_path.as_str());
                proof {
                    assert(s@ =~= spec_render(*self));
                }
                s
            },
            BackupError::WholeJobTimeout => {
                String::from_str(
                    "backup timed out after 7200 seconds; the data set may be very large or the link very slow; consider splitting the backup",
                )
            },
        }
    }

    /// Render this failure and wrap it in the template of its
    /// diagnostic category: the form in which every failure except a
    /// cancellation is surfaced to the operator.
    pub fn classified(&self) -> (r: String)
        ensures
            r@ == crate::classify::spec_template(crate::classify::spec_classify(spec_render(*self)))
                + spec_render(*self),
    {
        let rendered = self.render();
        crate::classify::classified_message(rendered.as_str())
    }
}

} // verus!
