use kyosho_backup::settings::{open_settings, seal_settings, AppSettings, ConfigError};

#[test]
fn seal_then_open_returns_the_settings_bytes() {
    let key = [7u8; 32];
    let plain: Vec<u8> = b"{\"backup_configs\":[]}".to_vec();
    let sealed = seal_settings(&key, &plain).expect("sealing succeeds");
    // The sealed form is base64 text, not the plaintext.
    assert!(!sealed.as_bytes().windows(plain.len()).any(|w| w == plain.as_slice()));
    let opened = open_settings(&key, sealed.as_str()).expect("opening succeeds");
    assert_eq!(opened, plain);
}

#[test]
fn open_rejects_text_that_is_not_base64() {
    let key = [0u8; 32];
    assert_eq!(open_settings(&key, "!!not base64!!"), Err(ConfigError::InvalidEncoding));
}

#[test]
fn open_rejects_frames_shorter_than_a_nonce() {
    let key = [0u8; 32];
    // "AAAA" decodes to three zero bytes: too short for the 12-byte nonce.
    assert_eq!(open_settings(&key, "AAAA"), Err(ConfigError::InvalidData));
}

#[test]
fn open_rejects_an_unauthentic_frame() {
    let key = [0u8; 32];
    // 24 zero bytes decode fine and are long enough, but never authenticate.
    let text = "AAAAAAAAAAAAAAAAAAAAAAAAAAAAAAAA";
    assert_eq!(open_settings(&key, text), Err(ConfigError::DecryptionFailed));
}

#[test]
fn open_rejects_the_wrong_key() {
    let key = [1u8; 32];
    let other = [2u8; 32];
    let plain: Vec<u8> = b"secret".to_vec();
    let sealed = seal_settings(&key, &plain).unwrap();
    assert_eq!(open_settings(&other, sealed.as_str()), Err(ConfigError::DecryptionFailed));
}

#[test]
fn default_settings_are_empty_and_daily() {
    let s = AppSettings::default();
    assert!(s.backup_configs.is_empty());
    assert!(s.default_local_backup_path.is_none());
    assert!(!s.auto_backup_enabled);
    assert_eq!(s.auto_backup_interval_hours, 24);
}
