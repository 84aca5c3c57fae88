//! Best-effort classification of a failure's rendered message into one
//! of a fixed set of operator-facing diagnostic categories, in a fixed
//! priority order (first match wins). Matching is ASCII
//! case-insensitive over the free text; it improves diagnostics only
//! and never alters the underlying failure.

use vstd::prelude::*;
use vstd::string::StringExecFns;
use crate::text::{contains_ci, text_contains};

verus! {

/// The diagnostic category a failure message is remapped to.
#[derive(Clone, Copy, Debug, PartialEq, Eq, Structural)]
pub enum ErrorCategory {
    Authentication,
    Network,
    Permission,
    DiskSpace,
    Timeout,
    FileSystem,
    Unknown,
}

/// The message speaks of authentication or key material.
pub open spec fn is_auth_text(s: Seq<char>) -> bool {
    contains_ci(s, "authentication"@) || contains_ci(s, "publickey"@) || contains_ci(
        s,
        "passphrase"@,
    ) || contains_ci(s, "permission denied (publickey)"@)
}

/// The message speaks of connectivity. Note that this intercepts most
/// timeout phrasing before the dedicated timeout category is reached.
pub open spec fn is_network_text(s: Seq<char>) -> bool {
    contains_ci(s, "connection"@) || contains_ci(s, "timeout"@) || contains_ci(s, "dns"@)
        || contains_ci(s, "network"@) || contains_ci(s, "host"@)
}

/// The message speaks of denied access.
pub open spec fn is_permission_text(s: Seq<char>) -> bool {
    contains_ci(s, "permission denied"@) || contains_ci(s, "access denied"@) || contains_ci(
        s,
        "forbidden"@,
    )
}

/// The message speaks of exhausted storage.
pub open spec fn is_disk_text(s: Seq<char>) -> bool {
    contains_ci(s, "no space"@) || contains_ci(s, "disk full"@) || contains_ci(s, "quota"@)
}

/// The message speaks of an elapsed deadline.
pub open spec fn is_timeout_text(s: Seq<char>) -> bool {
    contains_ci(s, "timeout"@) || contains_ci(s, "timed out"@)
}

/// The message speaks of a missing file or bad path.
pub open spec fn is_filesystem_text(s: Seq<char>) -> bool {
    contains_ci(s, "no such file"@) || contains_ci(s, "not found"@) || contains_ci(
        s,
        "invalid path"@,
    )
}

/// The category of a message: the first matching group in priority
/// order, authentication first, the generic fallback last.
pub open spec fn spec_classify(s: Seq<char>) -> ErrorCategory {
    if is_auth_text(s) {
        ErrorCategory::Authentication
    } else if is_network_text(s) {
        ErrorCategory::Network
    } else if is_permission_text(s) {
        ErrorCategory::Permission
    } else if is_disk_text(s) {
        ErrorCategory::DiskSpace
    } else if is_timeout_text(s) {
        ErrorCategory::Timeout
    } else if is_filesystem_text(s) {
        ErrorCategory::FileSystem
    } else {
        ErrorCategory::Unknown
    }
}

/// Classify a rendered failure message.
pub fn classify_error(message: &str) -> (c: ErrorCategory)
    ensures
        c == spec_classify(message@),
{
    if text_contains(message, "authentication") || text_contains(message, "publickey")
        || text_contains(message, "passphrase") || text_contains(
        message,
        "permission denied (publickey)",
    ) {
        ErrorCategory::Authentication
    } else if text_contains(message, "connection") || text_contains(message, "timeout")
        || text_contains(message, "dns") || text_contains(message, "network") || text_contains(
        message,
        "host",
    ) {
        ErrorCategory::Network
    } else if text_contains(message, "permission denied") || text_contains(
        message,
        "access denied",
    ) || text_contains(message, "forbidden") {
        ErrorCategory::Permission
    } else if text_contains(message, "no space") || text_contains(message, "disk full")
        || text_contains(message, "quota") {
        ErrorCategory::DiskSpace
    } else if text_contains(message, "timeout") || text_contains(message, "timed out") {
        ErrorCategory::Timeout
    } else if text_contains(message, "no such file") || text_contains(message, "not found")
        || text_contains(message, "invalid path") {
        ErrorCategory::FileSystem
    } else {
        ErrorCategory::Unknown
    }
}

/// A message that mentions both a timeout and authentication is
/// classified as an authentication failure, never as a timeout: the
/// authentication group is checked first.
pub proof fn lemma_authentication_beats_timeout(s: Seq<char>)
    requires
        contains_ci(s, "timeout"@),
        contains_ci(s, "authentication"@),
    ensures
        spec_classify(s) == ErrorCategory::Authentication,
{
}

/// The fixed, operator-facing message template of a category. The
/// original failure text is appended to it verbatim by
/// [`diagnostic_message`].
pub open spec fn spec_template(c: ErrorCategory) -> Seq<char> {
    match c {
        ErrorCategory::Authentication => "[auth] authentication error: check that the private key path is correct, that its permissions are 600 or 400, and that the public key is registered on the server. Details: "@,
        ErrorCategory::Network => "[net] network error: could not reach the server; check your connection, the host name and port, and any firewall or VPN. Details: "@,
        ErrorCategory::Permission => "[deny] permission error: access to a file or directory was refused; check permissions on the server and on the local destination. Details: "@,
        ErrorCategory::DiskSpace => "[disk] disk space error: no free storage; free local disk space or choose another disk. Details: "@,
        ErrorCategory::Timeout => "[slow] timeout error: the operation exceeded its time limit; the network may be slow, retry large files later. Details: "@,
        ErrorCategory::FileSystem => "[path] file system error: a file or directory was not found; check that the given path exists. Details: "@,
        ErrorCategory::Unknown => "[fail] an error occurred: "@,
    }
}

/// The template of `category` with the original failure text appended.
pub fn diagnostic_message(category: ErrorCategory, detail: &str) -> (r: String)
    ensures
        r@ == spec_template(category) + detail@,
{
    let template: &str = match category {
        ErrorCategory::Authentication => "[auth] authentication error: check that the private key path is correct, that its permissions are 600 or 400, and that the public key is registered on the server. Details: ",
        ErrorCategory::Network => "[net] network error: could not reach the server; check your connection, the host name and port, and any firewall or VPN. Details: ",
        ErrorCategory::Permission => "[deny] permission error: access to a file or directory was refused; check permissions on the server and on the local destination. Details: ",
        ErrorCategory::DiskSpace => "[disk] disk space error: no free storage; free local disk space or choose another disk. Details: ",
        ErrorCategory::Timeout => "[slow] timeout error: the operation exceeded its time limit; the network may be slow, retry large files later. Details: ",
        ErrorCategory::FileSystem => "[path] file system error: a file or directory was not found; check that the given path exists. Details: ",
        ErrorCategory::Unknown => "[fail] an error occurred: ",
    };
    let mut s = String::from_str(template);
    s.append(detail);
    s
}

/// Classify `detail` and wrap it in the matching template.
pub fn classified_message(detail: &str) -> (r: String)
    ensures
        r@ == spec_template(spec_classify(detail@)) + detail@,
{
    let category = classify_error(detail);
    diagnostic_message(category, detail)
}

} // verus!
