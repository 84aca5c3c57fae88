//! The local PIN access lock: PIN setup and verification with a
//! failed-attempt lockout. Password hashing is delegated to argon2
//! behind trusted wrappers; every locking rule is verified here.
//! Persistence is left to the surrounding application, which also
//! supplies the current time.

use vstd::prelude::*;
use vstd::string::StrSliceExecFns;
use argon2::password_hash::{PasswordHash, PasswordHasher, PasswordVerifier, SaltString};

verus! {

/// Stored access-lock configuration.
#[derive(Debug, PartialEq, Eq)]
pub struct AuthSettings {
    pub pin_hash: Option<String>,
    pub is_enabled: bool,
    pub max_attempts: u32,
    pub lockout_duration_minutes: u32,
}

impl Default for AuthSettings {
    /// The lock starts disabled: no PIN, three attempts, a
    /// fifteen-minute lockout.
    fn default() -> (r: AuthSettings)
        ensures
            r.pin_hash is None,
            !r.is_enabled,
            r.max_attempts == 3,
            r.lockout_duration_minutes == 15,
    {
        AuthSettings { pin_hash: None, is_enabled: false, max_attempts: 3, lockout_duration_minutes: 15 }
    }
}

/// Stored failed-attempt state.
#[derive(Clone, Copy, Debug, PartialEq, Eq)]
pub struct LockoutInfo {
    pub failed_attempts: u32,
    pub last_attempt_timestamp: u64,
    pub is_locked: bool,
}

impl Default for LockoutInfo {
    /// No failures recorded.
    fn default() -> (r: LockoutInfo)
        ensures
            r.failed_attempts == 0,
            r.last_attempt_timestamp == 0,
            !r.is_locked,
    {
        LockoutInfo { failed_attempts: 0, last_attempt_timestamp: 0, is_locked: false }
    }
}

/// A failure of the access lock, distinct per cause.
#[derive(Debug, PartialEq, Eq, Structural)]
pub enum AuthError {
    /// The PIN offered for setup is not 4 to 20 digits.
    InvalidPin,
    /// Hashing the new PIN failed.
    HashingFailed,
    /// The lock is engaged; retry after the given minutes.
    LockedOut { minutes: u32 },
    /// Wrong PIN; this many attempts remain before the lock engages.
    WrongPinRemaining { remaining: u32 },
    /// Wrong PIN, and the lock is now engaged for the given minutes.
    WrongPinLockedOut { minutes: u32 },
    /// The stored PIN hash could not be parsed.
    InvalidStoredHash,
}

/// Whether a PIN matches a stored argon2 hash string: the statement
/// that `Argon2::default().verify_password` accepts it.
pub uninterp spec fn pin_matches(pin: Seq<char>, hash: Seq<char>) -> bool;

/// The argon2 hash string produced for a PIN and a salt with the
/// default parameters; a function of the two alone.
pub uninterp spec fn argon2_hash_of(pin: Seq<char>, salt: Seq<char>) -> Seq<char>;

/// Relies on argon2's `SaltString::generate` over the operating
/// system's random number generator. The result is random; nothing is
/// promised of it.
#[verifier::external_body]
fn generate_salt() -> (r: String) {
    SaltString::generate(&mut argon2::password_hash::rand_core::OsRng).as_str().to_string()
}

/// Relies on `Argon2::hash_password` with the default parameters: the
/// produced PHC hash string is a function of the password and the
/// salt alone, and `Argon2::verify_password` accepts the password
/// against it (password-hash's documented round trip).
#[verifier::external_body]
fn hash_pin(pin: &str, salt: &str) -> (r: Option<String>)
    ensures
        r matches Some(h) ==> h@ == argon2_hash_of(pin@, salt@) && pin_matches(
            pin@,
            argon2_hash_of(pin@, salt@),
        ),
{
    let salt = SaltString::from_b64(salt).ok()?;
    let hashed = argon2::Argon2::default().hash_password(pin.as_bytes(), &salt).ok()?;
    Some(hashed.to_string())
}

/// Relies on `Argon2::verify_password`: acceptance of a password
/// against a parsed PHC hash string depends on the two alone. `None`
/// when the stored hash cannot be parsed.
#[verifier::external_body]
fn verify_pin_hash(pin: &str, stored_hash: &str) -> (r: Option<bool>)
    ensures
        r matches Some(ok) ==> ok == pin_matches(pin@, stored_hash@),
{
    match PasswordHash::new(stored_hash) {
        Ok(parsed) => Some(
            argon2::Argon2::default().verify_password(pin.as_bytes(), &parsed).is_ok(),
        ),
        Err(_) => None,
    }
}

/// A PIN offered for setup must be 4 to 20 characters, digits only.
pub open spec fn spec_valid_pin(pin: Seq<char>) -> bool {
    4 <= pin.len() <= 20 && forall|i: int| 0 <= i < pin.len() ==> '0' <= #[trigger] pin[i] <= '9'
}

/// Validate a PIN offered for setup.
pub fn is_valid_pin(pin: &str) -> (r: bool)
    ensures
        r == spec_valid_pin(pin@),
{
    let n = pin.unicode_len();
    if n < 4 || n > 20 {
        return false;
    }
    let mut i: usize = 0;
    while i < n
        invariant
            n == pin@.len(),
            i <= n,
            forall|k: int| 0 <= k < i ==> '0' <= #[trigger] pin@[k] <= '9',
        decreases n - i,
    {
        let c = pin.get_char(i);
        if c < '0' || c > '9' {
            return false;
        }
        i = i + 1;
    }
    true
}

/// The moment the lock disengages, capped at the largest
/// representable time.
pub open spec fn spec_unlock_time(lockout: LockoutInfo, settings: AuthSettings) -> int {
    let t = lockout.last_attempt_timestamp + settings.lockout_duration_minutes * 60;
    if t > u64::MAX {
        u64::MAX as int
    } else {
        t
    }
}

/// The access lock: configuration and failed-attempt state.
pub struct AuthManager {
    pub settings: AuthSettings,
    pub lockout: LockoutInfo,
}

impl AuthManager {
    /// A lock in its default, disabled state.
    pub fn new() -> (m: AuthManager)
        ensures
            m.settings.pin_hash is None,
            !m.settings.is_enabled,
            m.settings.max_attempts == 3,
            m.settings.lockout_duration_minutes == 15,
            m.lockout == (LockoutInfo { failed_attempts: 0, last_attempt_timestamp: 0, is_locked: false }),
    {
        AuthManager { settings: AuthSettings::default(), lockout: LockoutInfo::default() }
    }

    /// PIN verification is required only while the lock is enabled
    /// and a PIN hash is stored.
    pub open spec fn pin_required(self) -> bool {
        self.settings.is_enabled && self.settings.pin_hash is Some
    }

    /// Enable the lock with a new PIN: 4 to 20 digits. Attempts and
    /// lockout duration return to their defaults and the
    /// failed-attempt state is cleared.
    pub fn setup_pin(&mut self, pin: &str) -> (r: Result<(), AuthError>)
        ensures
            !spec_valid_pin(pin@) ==> r == Result::<(), AuthError>::Err(AuthError::InvalidPin)
                && *final(self) == *old(self),
            spec_valid_pin(pin@) ==> match r {
                Result::Ok(()) => final(self).settings.is_enabled && (final(self).settings.pin_hash matches Some(h) && pin_matches(pin@, h@)) && final(self).settings.max_attempts == 3 && final(self).settings.lockout_duration_minutes == 15
                    && final(self).lockout == (LockoutInfo {
                    failed_attempts: 0,
                    last_attempt_timestamp: 0,
                    is_locked: false,
                }),
                Result::Err(e) => e == AuthError::HashingFailed && *final(self) == *old(self),
            },
    {
        if !is_valid_pin(pin) {
            return Err(AuthError::InvalidPin);
        }
        let salt = generate_salt();
        match hash_pin(pin, salt.as_str()) {
            Option::Some(h) => {
                self.settings = AuthSettings {
                    pin_hash: Some(h),
                    is_enabled: true,
                    max_attempts: 3,
                    lockout_duration_minutes: 15,
                };
                self.lockout = LockoutInfo::default();
                Ok(())
            },
            Option::None => Err(AuthError::HashingFailed),
        }
    }

    /// Disable the lock, forget the PIN, and clear the
    /// failed-attempt state.
    pub fn disable_pin(&mut self)
        ensures
            !final(self).settings.is_enabled,
            final(self).settings.pin_hash is None,
            final(self).settings.max_attempts == old(self).settings.max_attempts,
            final(self).settings.lockout_duration_minutes == old(self).settings.lockout_duration_minutes,
            final(self).lockout == (LockoutInfo {
                failed_attempts: 0,
                last_attempt_timestamp: 0,
                is_locked: false,
            }),
    {
        self.settings.is_enabled = false;
        self.settings.pin_hash = None;
        self.lockout = LockoutInfo::default();
    }

    /// Whether PIN verification is currently required.
    pub fn is_pin_enabled(&self) -> (r: bool)
        ensures
            r == self.pin_required(),
    {
        self.settings.is_enabled && self.settings.pin_hash.is_some()
    }

    /// Whether the lock is engaged at `now`. An elapsed lockout
    /// clears the failed-attempt state as a side effect.
    pub fn is_locked_out(&mut self, now: u64) -> (r: bool)
        ensures
            final(self).settings == old(self).settings,
            r == (old(self).lockout.is_locked && now < spec_unlock_time(
                old(self).lockout,
                old(self).settings,
            )),
            r ==> *final(self) == *old(self),
            !r && old(self).lockout.is_locked ==> final(self).lockout == (LockoutInfo {
                failed_attempts: 0,
                last_attempt_timestamp: 0,
                is_locked: false,
            }),
            !old(self).lockout.is_locked ==> *final(self) == *old(self),
    {
        if !self.lockout.is_locked {
            return false;
        }
        let unlock = unlock_time(&self.lockout, &self.settings);
        if now >= unlock {
            self.lockout = LockoutInfo::default();
            false
        } else {
            true
        }
    }

    /// Verify a PIN at `now`. With the lock disabled this always
    /// succeeds. While the lock is engaged the attempt is refused. A
    /// correct PIN clears the failed-attempt state; a wrong one
    /// counts against the allowed attempts and engages the lock when
    /// they are exhausted.
    pub fn verify_pin(&mut self, pin: &str, now: u64) -> (r: Result<bool, AuthError>)
        ensures
            !old(self).pin_required() ==> r == Result::<bool, AuthError>::Ok(true) && *final(self)
                == *old(self),
            old(self).pin_required() && old(self).lockout.is_locked && now < spec_unlock_time(
                old(self).lockout,
                old(self).settings,
            ) ==> (r matches Err(e) && e == (AuthError::LockedOut {
                minutes: old(self).settings.lockout_duration_minutes,
            })) && *final(self) == *old(self),
            final(self).settings == old(self).settings,
            r matches Ok(b) ==> b,
            old(self).pin_required() ==> ((r matches Ok(b) && b) ==> (old(self).settings.pin_hash matches Some(h) && pin_matches(pin@, h@)) && final(self).lockout
                == (LockoutInfo { failed_attempts: 0, last_attempt_timestamp: 0, is_locked: false })),
            (r matches Err(e) && (e matches AuthError::WrongPinRemaining { .. } || e matches
                AuthError::WrongPinLockedOut { .. }) ==> ({
                let bumped = if old(self).lockout.failed_attempts + 1 > u32::MAX {
                    u32::MAX as int
                } else {
                    old(self).lockout.failed_attempts + 1
                };
                (old(self).settings.pin_hash matches Some(h) && !pin_matches(pin@, h@)) && final(self).lockout.failed_attempts == bumped && final(self).lockout.last_attempt_timestamp
                    == now && final(self).lockout.is_locked == (bumped
                    >= old(self).settings.max_attempts)
            })),
    {
        if !self.is_pin_enabled() {
            return Ok(true);
        }
        let prior_attempts = self.lockout.failed_attempts;
        if self.is_locked_out(now) {
            return Err(AuthError::LockedOut { minutes: self.settings.lockout_duration_minutes });
        }
        let matched = match &self.settings.pin_hash {
            Option::Some(h) => verify_pin_hash(pin, h.as_str()),
            Option::None => Some(false),
        };
        match matched {
            Option::None => Err(AuthError::InvalidStoredHash),
            Option::Some(true) => {
                self.lockout = LockoutInfo::default();
                Ok(true)
            },
            Option::Some(false) => {
                let attempts = if prior_attempts < u32::MAX {
                    prior_attempts + 1
                } else {
                    u32::MAX
                };
                let engaged = attempts >= self.settings.max_attempts;
                self.lockout = LockoutInfo {
                    failed_attempts: attempts,
                    last_attempt_timestamp: now,
                    is_locked: engaged,
                };
                if engaged {
                    Err(AuthError::WrongPinLockedOut {
                        minutes: self.settings.lockout_duration_minutes,
                    })
                } else {
                    Err(AuthError::WrongPinRemaining {
                        remaining: self.settings.max_attempts - attempts,
                    })
                }
            },
        }
    }

    /// How many whole minutes of lockout remain at `now`, rounded up;
    /// `None` when the lock is not engaged or has elapsed.
    pub fn get_lockout_remaining_minutes(&self, now: u64) -> (r: Option<u32>)
        ensures
            !self.lockout.is_locked ==> r is None,
            self.lockout.is_locked && now >= spec_unlock_time(self.lockout, self.settings) ==> r
                is None,
            self.lockout.is_locked && now < spec_unlock_time(self.lockout, self.settings) ==> ({
                let m = (spec_unlock_time(self.lockout, self.settings) - now + 59) / 60;
                r == Some((if m > u32::MAX { u32::MAX as int } else { m }) as u32)
            }),
    {
        if !self.lockout.is_locked {
            return None;
        }
        let unlock = unlock_time(&self.lockout, &self.settings);
        if now >= unlock {
            None
        } else {
            let remaining_seconds = unlock - now;
            let remaining_minutes = if remaining_seconds <= u64::MAX - 59 {
                (remaining_seconds + 59) / 60
            } else {
                u64::MAX / 60
            };
            if remaining_minutes > (u32::MAX as u64) {
                Some(u32::MAX)
            } else {
                Some(remaining_minutes as u32)
            }
        }
    }
}

/// The unlock moment, capped at the largest representable time.
fn unlock_time(lockout: &LockoutInfo, settings: &AuthSettings) -> (r: u64)
    ensures
        r == spec_unlock_time(*lockout, *settings),
{
    let duration_seconds = (settings.lockout_duration_minutes as u64) * 60;
    if lockout.last_attempt_timestamp <= u64::MAX - duration_seconds {
        lockout.last_attempt_timestamp + duration_seconds
    } else {
        u64::MAX
    }
}

} // verus!
