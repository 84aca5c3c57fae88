//! Decisions of the connection establisher: private-key file
//! validation, key-format sniffing for diagnostics, and the
//! human-readable result of a successful end-to-end test. The
//! transport itself (TCP, handshake, authentication, the liveness
//! command) is driven by the surrounding application, which maps each
//! failing stage to its distinct failure.

use vstd::prelude::*;
use vstd::string::StringExecFns;
use crate::errors::{BackupError, KeyFormat};
use crate::settings::SshConfig;
use crate::text::{contains_sub, text_contains_exact};

verus! {

/// Permission bits that grant group or other any access.
pub const GROUP_OTHER_MASK: u32 = 0o077;

/// A private-key file mode is unsafe when it grants group or other
/// any access.
pub open spec fn spec_key_mode_is_unsafe(mode: u32) -> bool {
    mode & GROUP_OTHER_MASK != 0
}

/// Whether the key file's permission bits are unsafe.
pub fn key_mode_is_unsafe(mode: u32) -> (r: bool)
    ensures
        r == spec_key_mode_is_unsafe(mode),
{
    mode & GROUP_OTHER_MASK != 0
}

/// Validate the private-key file before authentication: it must
/// exist, and on a POSIX platform its permission bits must grant
/// group and other nothing. The reported mode keeps only the
/// permission bits.
pub fn check_key_file(config: &SshConfig, exists: bool, mode: u32) -> (r: Result<
    (),
    BackupError,
>)
    ensures
        !exists ==> (r matches Err(e) && e matches BackupError::KeyFileMissing { key_path } &&
            key_path@ == config.key_path@),
        exists && spec_key_mode_is_unsafe(mode) ==> (r matches Err(e) && e matches
            BackupError::KeyFilePermissionsUnsafe { key_path, mode: m } && key_path@
            == config.key_path@ && m == mode & 0o777),
        exists && !spec_key_mode_is_unsafe(mode) ==> r matches Ok(_),
{
    if !exists {
        Err(BackupError::KeyFileMissing { key_path: config.key_path.clone() })
    } else if key_mode_is_unsafe(mode) {
        Err(
            BackupError::KeyFilePermissionsUnsafe {
                key_path: config.key_path.clone(),
                mode: mode & 0o777,
            },
        )
    } else {
        Ok(())
    }
}

/// The detected format of key file content: OpenSSH when its marker
/// line occurs, else PEM when one of the PEM markers occurs, else
/// unknown. Sniffing serves diagnostics only and never alters
/// behaviour.
pub open spec fn spec_detect_key_format(content: Seq<char>) -> KeyFormat {
    if contains_sub(content, "BEGIN OPENSSH PRIVATE KEY"@) {
        KeyFormat::OpenSsh
    } else if contains_sub(content, "BEGIN RSA PRIVATE KEY"@) || contains_sub(
        content,
        "BEGIN PRIVATE KEY"@,
    ) {
        KeyFormat::Pem
    } else {
        KeyFormat::Unknown
    }
}

/// Sniff the format of private-key file content.
pub fn detect_key_format(content: &str) -> (r: KeyFormat)
    ensures
        r == spec_detect_key_format(content@),
{
    if text_contains_exact(content, "BEGIN OPENSSH PRIVATE KEY") {
        KeyFormat::OpenSsh
    } else if text_contains_exact(content, "BEGIN RSA PRIVATE KEY") || text_contains_exact(
        content,
        "BEGIN PRIVATE KEY",
    ) {
        KeyFormat::Pem
    } else {
        KeyFormat::Unknown
    }
}

/// The failure reported when public-key authentication is rejected,
/// carrying the username, key path, sniffed format and the underlying
/// error text.
pub fn auth_failure(config: &SshConfig, key_format: KeyFormat, detail: String) -> (r: BackupError)
    ensures
        r matches BackupError::AuthenticationFailed { username, key_path, key_format: f, detail: d }
            && username@ == config.username@ && key_path@ == config.key_path@ && f == key_format
            && d@ == detail@,
{
    BackupError::AuthenticationFailed {
        username: config.username.clone(),
        key_path: config.key_path.clone(),
        key_format,
        detail,
    }
}

/// The message of a successful connection test: the endpoint and the
/// liveness command's trimmed output.
pub open spec fn spec_connection_success_message(
    username: Seq<char>,
    hostname: Seq<char>,
    port: int,
    output: Seq<char>,
) -> Seq<char> {
    "connection test succeeded: "@ + username + seq!['@'] + hostname + seq![':']
        + crate::text::spec_decimal(port) + " result: "@ + output
}

/// Build the message of a successful connection test.
pub fn connection_success_message(config: &SshConfig, liveness_output: &str) -> (r: String)
    ensures
        r@ == spec_connection_success_message(
            config.username@,
            config.hostname@,
            config.port as int,
            liveness_output@,
        ),
{
    proof {
        reveal_strlit("@");
        reveal_strlit(":");
        assert("@"@ =~= seq!['@']);
        assert(":"@ =~= seq![':']);
    }
    let mut s = String::from_str("connection test succeeded: ");
    s.append(config.username.as_str());
    s.append("@");
    s.append(config.hostname.as_str());
    s.append(":");
    let digits = crate::text::decimal_string(config.port as u64);
    s.append(digits.as_str());
    s.append(" result: ");
    s.append(liveness_output);
    proof {
        assert(s@ =~= spec_connection_success_message(
            config.username@,
            config.hostname@,
            config.port as int,
            liveness_output@,
        ));
    }
    s
}

} // verus!
