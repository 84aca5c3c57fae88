use kyosho_backup::classify::{classify_error, classified_message, diagnostic_message, ErrorCategory};
use kyosho_backup::errors::{BackupError, KeyFormat};

#[test]
fn authentication_beats_timeout_in_priority() {
    let c = classify_error("authentication attempt hit a timeout");
    assert_eq!(c, ErrorCategory::Authentication);
}

#[test]
fn authentication_keywords() {
    assert_eq!(classify_error("Permission denied (publickey)"), ErrorCategory::Authentication);
    assert_eq!(classify_error("bad PASSPHRASE given"), ErrorCategory::Authentication);
}

#[test]
fn network_keywords() {
    assert_eq!(classify_error("Connection refused"), ErrorCategory::Network);
    assert_eq!(classify_error("DNS lookup error"), ErrorCategory::Network);
    assert_eq!(classify_error("could not resolve host"), ErrorCategory::Network);
    // A generic timeout phrase is intercepted by the network group.
    assert_eq!(classify_error("operation timeout"), ErrorCategory::Network);
}

#[test]
fn permission_keywords() {
    assert_eq!(classify_error("Permission denied while writing"), ErrorCategory::Permission);
    assert_eq!(classify_error("403 Forbidden"), ErrorCategory::Permission);
}

#[test]
fn disk_keywords() {
    assert_eq!(classify_error("No space left on device"), ErrorCategory::DiskSpace);
    assert_eq!(classify_error("quota exceeded"), ErrorCategory::DiskSpace);
}

#[test]
fn timeout_keyword_without_network_words() {
    assert_eq!(classify_error("the transfer timed out"), ErrorCategory::Timeout);
}

#[test]
fn filesystem_keywords() {
    assert_eq!(classify_error("No such file or directory"), ErrorCategory::FileSystem);
    assert_eq!(classify_error("resource not found"), ErrorCategory::FileSystem);
}

#[test]
fn unmatched_text_falls_back() {
    assert_eq!(classify_error("boom"), ErrorCategory::Unknown);
}

#[test]
fn matching_is_case_insensitive() {
    assert_eq!(classify_error("AUTHENTICATION FAILED"), ErrorCategory::Authentication);
}

#[test]
fn diagnostic_message_appends_the_original_text() {
    let m = diagnostic_message(ErrorCategory::DiskSpace, "quota exceeded");
    assert!(m.starts_with("[disk]"));
    assert!(m.ends_with("quota exceeded"));
}

#[test]
fn classified_message_picks_the_category_of_the_detail() {
    let m = classified_message("No such file: /tmp/x");
    assert!(m.starts_with("[path]"));
    assert!(m.ends_with("No such file: /tmp/x"));
}

#[test]
fn per_file_timeout_names_its_bound_and_classifies_as_timeout() {
    let e = BackupError::PerFileTimeout {
        remote_path: String::from("/root/big.bin"),
        timeout_secs: 120,
    };
    let rendered = e.render();
    assert_eq!(rendered, "file transfer timed out after 120 seconds: /root/big.bin");
    let classified = e.classified();
    assert!(classified.starts_with("[slow]"));
}

#[test]
fn key_permission_failure_names_the_mode_and_the_remedy() {
    let e = BackupError::KeyFilePermissionsUnsafe {
        key_path: String::from("/home/u/.ssh/id_rsa"),
        mode: 0o644,
    };
    let rendered = e.render();
    assert_eq!(
        rendered,
        "private key file permissions are unsafe (mode 644); run: chmod 600 /home/u/.ssh/id_rsa"
    );
    // None of the category keywords occur in this message, so it is
    // surfaced under the generic template with its text preserved.
    let c = e.classified();
    assert!(c.starts_with("[fail]"));
    assert!(c.ends_with("chmod 600 /home/u/.ssh/id_rsa"));
}

#[test]
fn authentication_failure_carries_its_diagnostics() {
    let e = BackupError::AuthenticationFailed {
        username: String::from("alex"),
        key_path: String::from("/k"),
        key_format: KeyFormat::OpenSsh,
        detail: String::from("denied"),
    };
    let rendered = e.render();
    assert!(rendered.contains("alex"));
    assert!(rendered.contains("OpenSSH format"));
    assert!(rendered.contains("ssh-keygen -p -m PEM -f /k"));
    assert!(e.classified().starts_with("[auth]"));
}
