use kyosho_backup::auth::{AuthError, AuthManager};

#[test]
fn pin_must_be_four_to_twenty_digits() {
    let mut m = AuthManager::new();
    assert_eq!(m.setup_pin("123"), Err(AuthError::InvalidPin));
    assert_eq!(m.setup_pin("12a4"), Err(AuthError::InvalidPin));
    assert_eq!(m.setup_pin("123456789012345678901"), Err(AuthError::InvalidPin));
    assert!(!m.is_pin_enabled());
}

#[test]
fn verification_without_a_pin_always_succeeds() {
    let mut m = AuthManager::new();
    assert_eq!(m.verify_pin("anything", 1000), Ok(true));
}

#[test]
fn setup_then_verify_round_trip() {
    let mut m = AuthManager::new();
    assert_eq!(m.setup_pin("4821"), Ok(()));
    assert!(m.is_pin_enabled());
    assert_eq!(m.verify_pin("4821", 1000), Ok(true));
}

#[test]
fn wrong_pin_counts_down_then_locks() {
    let mut m = AuthManager::new();
    m.setup_pin("4821").unwrap();
    assert_eq!(m.verify_pin("0000", 10), Err(AuthError::WrongPinRemaining { remaining: 2 }));
    assert_eq!(m.verify_pin("1111", 20), Err(AuthError::WrongPinRemaining { remaining: 1 }));
    assert_eq!(m.verify_pin("2222", 30), Err(AuthError::WrongPinLockedOut { minutes: 15 }));
    // Even the correct PIN is refused while the lock is engaged.
    assert_eq!(m.verify_pin("4821", 40), Err(AuthError::LockedOut { minutes: 15 }));
    assert_eq!(m.get_lockout_remaining_minutes(30), Some(15));
    // After the lockout elapses the correct PIN works again.
    let after = 30 + 15 * 60;
    assert_eq!(m.get_lockout_remaining_minutes(after), None);
    assert_eq!(m.verify_pin("4821", after), Ok(true));
    assert_eq!(m.get_lockout_remaining_minutes(after), None);
}

#[test]
fn remaining_minutes_round_up() {
    let mut m = AuthManager::new();
    m.setup_pin("9999").unwrap();
    for now in [1000, 1001, 1002] {
        let _ = m.verify_pin("0000", now);
    }
    // Locked at 1002; 61 seconds later, 14 minutes and change remain.
    assert_eq!(m.get_lockout_remaining_minutes(1002 + 61), Some(14));
}

#[test]
fn successful_verification_resets_the_counter() {
    let mut m = AuthManager::new();
    m.setup_pin("7777").unwrap();
    assert!(m.verify_pin("1234", 10).is_err());
    assert_eq!(m.verify_pin("7777", 20), Ok(true));
    // The count starts over: two wrong attempts do not lock.
    assert_eq!(m.verify_pin("0000", 30), Err(AuthError::WrongPinRemaining { remaining: 2 }));
    assert_eq!(m.verify_pin("0000", 40), Err(AuthError::WrongPinRemaining { remaining: 1 }));
}

#[test]
fn disable_pin_clears_the_lock() {
    let mut m = AuthManager::new();
    m.setup_pin("1234").unwrap();
    m.disable_pin();
    assert!(!m.is_pin_enabled());
    assert_eq!(m.verify_pin("whatever", 10), Ok(true));
    assert_eq!(m.get_lockout_remaining_minutes(10), None);
}
