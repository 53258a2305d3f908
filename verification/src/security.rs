//! The administrator PIN of the application: its format, how it is kept
//! (only as a salted Argon2 hash, with a one-time recovery code), and how
//! it is checked, changed and reset.
use vstd::prelude::*;
use argon2::password_hash::rand_core::OsRng;
use argon2::password_hash::SaltString;
use argon2::{Argon2, PasswordHash, PasswordHasher, PasswordVerifier};
use crate::text::{all_digits, concat2, is_digit, owned, starts_with, str_chars, string_from_chars, trim,
    trim_chars};

verus! {

// ---------------------------------------------------------------------------
// Outside calls
// ---------------------------------------------------------------------------

/// Whether an encoded Argon2 hash (PHC string) accepts a secret.
pub uninterp spec fn argon2_accepts(secret: Seq<char>, encoded: Seq<char>) -> bool;

/// Hashes a secret with Argon2 (default parameters) and a fresh random salt
/// (`PasswordHasher::hash_password`), as a PHC string; an error is returned
/// as argon2's text of it. The salt is random, so only this is stated:
/// verifying the secret against the hash succeeds, as
/// `PasswordVerifier::verify_password` recomputes the hash with the salt
/// and parameters that the string carries. With the default parameters and
/// a generated salt, argon2 refuses only a secret of more than `u32::MAX`
/// bytes (`Argon2::verify_inputs`); a secret of fewer than 2^30 characters
/// has fewer bytes than that, so it is hashed. Nothing is stated of the
/// error's text.
#[verifier::external_body]
fn hash_secret(secret: &str) -> (r: Result<String, String>)
    ensures
        r matches Ok(h) ==> argon2_accepts(secret@, h@),
        secret@.len() < 0x4000_0000 ==> r is Ok,
{
    let salt = SaltString::generate(&mut OsRng);
    Argon2::default()
        .hash_password(secret.as_bytes(), &salt)
        .map(|value| value.to_string())
        .map_err(|error| error.to_string())
}

/// The message shown when the credentials cannot be protected.
pub open spec fn protect_failure_prefix() -> Seq<char> {
    "无法保护管理员凭据: "@
}

/// A secret hashed for storage; a hashing failure is reported after the
/// words saying the credentials could not be protected.
fn protect_secret(secret: &str) -> (r: Result<String, String>)
    ensures
        r matches Ok(h) ==> argon2_accepts(secret@, h@),
        r matches Err(e) ==> starts_with(e@, protect_failure_prefix()),
        secret@.len() < 0x4000_0000 ==> r is Ok,
{
    match hash_secret(secret) {
        Ok(h) => Ok(h),
        Err(cause) => {
            let c = str_chars(cause.as_str());
            let e = concat2("无法保护管理员凭据: ", &c);
            proof {
                assert(e@.subrange(0, protect_failure_prefix().len() as int) =~= protect_failure_prefix());
            }
            Err(e)
        },
    }
}

/// Checks a secret against an encoded Argon2 hash (`PasswordHash::new`,
/// then `PasswordVerifier::verify_password`); a hash that does not parse
/// accepts nothing. The result is named: the hash function is not restated.
#[verifier::external_body]
fn verify_secret(secret: &str, encoded_hash: &str) -> (r: bool)
    ensures
        r == argon2_accepts(secret@, encoded_hash@),
{
    let Ok(parsed) = PasswordHash::new(encoded_hash) else {
        return false;
    };
    Argon2::default().verify_password(secret.as_bytes(), &parsed).is_ok()
}

/// A lower-case hexadecimal digit.
pub open spec fn is_lower_hex(c: char) -> bool {
    ('0' <= c && c <= '9') || ('a' <= c && c <= 'f')
}

/// A fresh random UUID in its simple form (`Uuid::new_v4().simple()`):
/// 32 lower-case hexadecimal digits.
#[verifier::external_body]
fn random_uuid_simple() -> (r: String)
    ensures
        r@.len() == 32,
        forall|i: int| 0 <= i < 32 ==> is_lower_hex(#[trigger] r@[i]),
{
    uuid::Uuid::new_v4().simple().to_string()
}

/// The current time in RFC 3339 (`chrono::Utc::now().to_rfc3339()`).
/// Nothing is stated of the clock.
#[verifier::external_body]
pub(crate) fn now_rfc3339() -> (r: String) {
    chrono::Utc::now().to_rfc3339()
}

// ---------------------------------------------------------------------------
// PIN format
// ---------------------------------------------------------------------------

/// The complaint about a badly formed PIN.
pub open spec fn pin_format_message() -> Seq<char> {
    "管理员 PIN 必须是 6 至 12 位数字"@
}

/// A PIN, once trimmed, is 6 to 12 ASCII digits.
pub open spec fn pin_is_valid(pin: Seq<char>) -> bool {
    let t = trim(pin);
    6 <= t.len() <= 12 && all_digits(t)
}

/// Accepts a PIN of 6 to 12 digits (surrounding whitespace ignored).
pub fn validate_pin(pin: &str) -> (r: Result<(), String>)
    ensures
        r is Ok <==> pin_is_valid(pin@),
        r matches Err(e) ==> e@ == pin_format_message(),
{
    let c = str_chars(pin);
    let t = trim_chars(&c);
    let mut ok = 6 <= t.len() && t.len() <= 12;
    let mut i: usize = 0;
    while i < t.len()
        invariant
            i <= t@.len(),
            ok == (6 <= t@.len() <= 12 && forall|k: int| 0 <= k < i ==> is_digit(#[trigger] t@[k])),
        decreases t@.len() - i,
    {
        if !('0' <= t[i] && t[i] <= '9') {
            ok = false;
        }
        i = i + 1;
    }
    if !ok {
        return Err(owned("管理员 PIN 必须是 6 至 12 位数字"));
    }
    Ok(())
}

// ---------------------------------------------------------------------------
// Recovery codes
// ---------------------------------------------------------------------------

/// An upper-case hexadecimal digit.
pub open spec fn is_upper_hex(c: char) -> bool {
    ('0' <= c && c <= '9') || ('A' <= c && c <= 'F')
}

/// A recovery code: four groups of six upper-case hexadecimal digits
/// joined by `-`.
pub open spec fn is_recovery_code(s: Seq<char>) -> bool {
    &&& s.len() == 27
    &&& s[6] == '-' && s[13] == '-' && s[20] == '-'
    &&& forall|i: int| 0 <= i < 27 && i != 6 && i != 13 && i != 20 ==> is_upper_hex(#[trigger] s[i])
}

/// How many group separators come before the `i`-th digit has been written.
spec fn dashes_before(i: int) -> int {
    if i > 18 { 3 } else if i > 12 { 2 } else if i > 6 { 1 } else { 0 }
}

/// A fresh recovery code: 24 digits taken from two random UUIDs, in upper
/// case, in groups of six.
fn recovery_code() -> (r: String)
    ensures
        is_recovery_code(r@),
{
    let a = random_uuid_simple();
    let b = random_uuid_simple();
    let mut digits = str_chars(a.as_str());
    let bc = str_chars(b.as_str());
    crate::text::extend_chars(&mut digits, &bc);
    let mut out: Vec<char> = Vec::new();
    let mut i: usize = 0;
    while i < 24
        invariant
            i <= 24,
            digits@.len() == 64,
            forall|k: int| 0 <= k < 64 ==> is_lower_hex(#[trigger] digits@[k]),
            out@.len() == i + dashes_before(i as int),
            forall|k: int| 0 <= k < out@.len() && k != 6 && k != 13 && k != 20 ==> is_upper_hex(#[trigger] out@[k]),
            out@.len() > 6 ==> out@[6] == '-',
            out@.len() > 13 ==> out@[13] == '-',
            out@.len() > 20 ==> out@[20] == '-',
        decreases 24 - i,
    {
        if i == 6 || i == 12 || i == 18 {
            out.push('-');
        }
        let c = digits[i];
        let upper = if 'a' <= c && c <= 'f' {
            ((c as u32 - 32) as u8) as char
        } else {
            c
        };
        out.push(upper);
        i = i + 1;
    }
    string_from_chars(&out)
}

// ---------------------------------------------------------------------------
// The store
// ---------------------------------------------------------------------------

/// What is kept of the administrator credentials.
#[derive(Debug, Clone)]
pub struct SecurityRecord {
    pub pin_hash: String,
    pub recovery_hash: String,
    pub created_at: String,
    pub updated_at: String,
}

/// The application's administrator credentials, kept in a store file at
/// `path`: at most one record.
#[derive(Debug, Clone)]
pub struct AppSecurityStore {
    path: String,
    record: Option<SecurityRecord>,
}

/// The outcome of checking `pin` against the credentials in `record`.
pub open spec fn verify_outcome(record: Option<SecurityRecord>, pin: Seq<char>) -> Result<
    bool,
    Seq<char>,
> {
    if !pin_is_valid(pin) {
        Err(pin_format_message())
    } else {
        match record {
            None => Err("请先设置软件管理员 PIN"@),
            Some(r) => Ok(argon2_accepts(trim(pin), r.pin_hash@)),
        }
    }
}

/// A result of the store by the text of its error.
pub open spec fn result_view<T>(r: Result<T, String>) -> Result<T, Seq<char>> {
    match r {
        Ok(v) => Ok(v),
        Err(e) => Err(e@),
    }
}

/// The credentials `record` hold the PIN `pin` and the recovery code `recovery`.
pub open spec fn holds_credentials(record: Option<SecurityRecord>, pin: Seq<char>, recovery: Seq<char>) -> bool {
    &&& record matches Some(r)
    &&& argon2_accepts(trim(pin), r.pin_hash@)
    &&& argon2_accepts(recovery, r.recovery_hash@)
}

impl AppSecurityStore {
    /// The path of the store file.
    pub closed spec fn spec_path(&self) -> Seq<char> {
        self.path@
    }

    /// The credentials held.
    pub closed spec fn spec_record(&self) -> Option<SecurityRecord> {
        self.record
    }

    /// A store at `path` that holds no credentials yet.
    pub fn new(path: String) -> (r: Self)
        ensures
            r.spec_path() == path@,
            r.spec_record() is None,
    {
        AppSecurityStore { path, record: None }
    }

    /// A store at `path` holding the credentials read from its file.
    pub fn with_record(path: String, record: Option<SecurityRecord>) -> (r: Self)
        ensures
            r.spec_path() == path@,
            r.spec_record() == record,
    {
        AppSecurityStore { path, record }
    }

    /// The path of the store file.
    pub fn path(&self) -> (r: &str)
        ensures
            r@ == self.spec_path(),
    {
        self.path.as_str()
    }

    /// The credentials to write back to the store file.
    pub fn record(&self) -> (r: Option<SecurityRecord>)
        ensures
            r == self.spec_record(),
    {
        match &self.record {
            Some(rec) => Some(
                SecurityRecord {
                    pin_hash: rec.pin_hash.clone(),
                    recovery_hash: rec.recovery_hash.clone(),
                    created_at: rec.created_at.clone(),
                    updated_at: rec.updated_at.clone(),
                },
            ),
            None => None,
        }
    }

    /// Whether an administrator PIN has been set.
    pub fn configured(&self) -> (r: Result<bool, String>)
        ensures
            r == Ok::<bool, String>(self.spec_record() is Some),
    {
        Ok(self.record.is_some())
    }

    /// Sets the first administrator PIN and returns the one-time recovery code.
    pub fn setup_pin(&mut self, pin: &str) -> (r: Result<String, String>)
        ensures
            final(self).spec_path() == old(self).spec_path(),
            !pin_is_valid(pin@) ==> (r matches Err(e) && e@ == pin_format_message() && final(self).spec_record() == old(self).spec_record()),
            pin_is_valid(pin@) && old(self).spec_record() is Some ==> (r matches Err(e) && e@ == "软件管理员 PIN 已设置"@ && final(self).spec_record() == old(self).spec_record()),
            pin_is_valid(pin@) && old(self).spec_record() is None ==> r is Ok,
            match r {
                Ok(code) => {
                    &&& pin_is_valid(pin@)
                    &&& old(self).spec_record() is None
                    &&& is_recovery_code(code@)
                    &&& holds_credentials(final(self).spec_record(), pin@, code@)
                },
                Err(_) => final(self).spec_record() == old(self).spec_record(),
            },
    {
        validate_pin(pin)?;
        if self.record.is_some() {
            return Err(owned("软件管理员 PIN 已设置"));
        }
        let recovery = recovery_code();
        let c = str_chars(pin);
        let t = trim_chars(&c);
        let trimmed = string_from_chars(&t);
        let pin_hash = protect_secret(trimmed.as_str())?;
        let recovery_hash = protect_secret(recovery.as_str())?;
        let created_at = now_rfc3339();
        let updated_at = now_rfc3339();
        self.record = Some(SecurityRecord { pin_hash, recovery_hash, created_at, updated_at });
        Ok(recovery)
    }

    /// Whether `pin` is the administrator PIN.
    pub fn verify_pin(&self, pin: &str) -> (r: Result<bool, String>)
        ensures
            result_view(r) == verify_outcome(self.spec_record(), pin@),
    {
        validate_pin(pin)?;
        let record = match &self.record {
            None => {
                return Err(owned("请先设置软件管理员 PIN"));
            },
            Some(rec) => rec,
        };
        let c = str_chars(pin);
        let t = trim_chars(&c);
        let trimmed = string_from_chars(&t);
        Ok(verify_secret(trimmed.as_str(), record.pin_hash.as_str()))
    }

    /// Replaces the credentials by new ones for `new_pin` with a fresh
    /// recovery code, keeping the creation time.
    fn replace_credentials(&mut self, new_pin: &str) -> (r: Result<String, String>)
        requires
            old(self).spec_record() is Some,
        ensures
            final(self).spec_path() == old(self).spec_path(),
            pin_is_valid(new_pin@) ==> r is Ok,
            match r {
                Ok(code) => {
                    &&& is_recovery_code(code@)
                    &&& holds_credentials(final(self).spec_record(), new_pin@, code@)
                    &&& final(self).spec_record()->0.created_at == old(self).spec_record()->0.created_at
                },
                Err(e) => {
                    &&& starts_with(e@, protect_failure_prefix())
                    &&& final(self).spec_record() == old(self).spec_record()
                },
            },
    {
        let replacement = recovery_code();
        let c = str_chars(new_pin);
        let t = trim_chars(&c);
        let trimmed = string_from_chars(&t);
        let pin_hash = protect_secret(trimmed.as_str())?;
        let recovery_hash = protect_secret(replacement.as_str())?;
        let updated_at = now_rfc3339();
        let created_at = match &self.record {
            Some(rec) => rec.created_at.clone(),
            None => owned(""),
        };
        self.record = Some(SecurityRecord { pin_hash, recovery_hash, created_at, updated_at });
        Ok(replacement)
    }

    /// Changes the administrator PIN, given the current one; returns a new
    /// recovery code, which replaces the old one.
    pub fn change_pin(&mut self, old_pin: &str, new_pin: &str) -> (r: Result<String, String>)
        ensures
            final(self).spec_path() == old(self).spec_path(),
            !pin_is_valid(old_pin@) ==> (r matches Err(e) && e@ == pin_format_message()),
            pin_is_valid(old_pin@) && !pin_is_valid(new_pin@) ==> (r matches Err(e) && e@ == pin_format_message()),
            pin_is_valid(old_pin@) && pin_is_valid(new_pin@) && verify_outcome(old(self).spec_record(), old_pin@) is Err ==> result_view(r) == Err::<String, Seq<char>>(verify_outcome(old(self).spec_record(), old_pin@)->Err_0),
            verify_outcome(old(self).spec_record(), old_pin@) == Ok::<bool, Seq<char>>(false) && pin_is_valid(new_pin@) ==> (r matches Err(e) && e@ == "旧管理员 PIN 不正确"@),
            verify_outcome(old(self).spec_record(), old_pin@) == Ok::<bool, Seq<char>>(true) && pin_is_valid(new_pin@) ==> r is Ok,
            match r {
                Ok(code) => {
                    &&& pin_is_valid(new_pin@)
                    &&& verify_outcome(old(self).spec_record(), old_pin@) == Ok::<bool, Seq<char>>(true)
                    &&& is_recovery_code(code@)
                    &&& holds_credentials(final(self).spec_record(), new_pin@, code@)
                },
                Err(_) => final(self).spec_record() == old(self).spec_record(),
            },
    {
        validate_pin(old_pin)?;
        validate_pin(new_pin)?;
        if !self.verify_pin(old_pin)? {
            return Err(owned("旧管理员 PIN 不正确"));
        }
        self.replace_credentials(new_pin)
    }

    /// Sets a new administrator PIN with the recovery code; returns a new
    /// recovery code, which replaces the used one.
    pub fn reset_with_recovery(&mut self, recovery: &str, new_pin: &str) -> (r: Result<String, String>)
        ensures
            final(self).spec_path() == old(self).spec_path(),
            !pin_is_valid(new_pin@) ==> (r matches Err(e) && e@ == pin_format_message()),
            pin_is_valid(new_pin@) && old(self).spec_record() is None ==> (r matches Err(e) && e@ == "请先设置软件管理员 PIN"@),
            pin_is_valid(new_pin@) && old(self).spec_record() is Some && !argon2_accepts(trim(recovery@), old(self).spec_record()->0.recovery_hash@) ==> (r matches Err(e) && e@ == "恢复码不正确"@),
            pin_is_valid(new_pin@) && old(self).spec_record() is Some && argon2_accepts(trim(recovery@), old(self).spec_record()->0.recovery_hash@) ==> r is Ok,
            match r {
                Ok(code) => {
                    &&& pin_is_valid(new_pin@)
                    &&& old(self).spec_record() matches Some(rec)
                    &&& argon2_accepts(trim(recovery@), rec.recovery_hash@)
                    &&& is_recovery_code(code@)
                    &&& holds_credentials(final(self).spec_record(), new_pin@, code@)
                },
                Err(_) => final(self).spec_record() == old(self).spec_record(),
            },
    {
        validate_pin(new_pin)?;
        let accepted = match &self.record {
            None => {
                return Err(owned("请先设置软件管理员 PIN"));
            },
            Some(rec) => {
                let c = str_chars(recovery);
                let t = trim_chars(&c);
                let trimmed = string_from_chars(&t);
                verify_secret(trimmed.as_str(), rec.recovery_hash.as_str())
            },
        };
        if !accepted {
            return Err(owned("恢复码不正确"));
        }
        self.replace_credentials(new_pin)
    }
}

// ---------------------------------------------------------------------------
// Laws
// ---------------------------------------------------------------------------

/// Once a PIN has been set, checking that same PIN succeeds.
pub proof fn law_set_pin_is_accepted(record: Option<SecurityRecord>, pin: Seq<char>, recovery: Seq<char>)
    requires
        pin_is_valid(pin),
        holds_credentials(record, pin, recovery),
    ensures
        verify_outcome(record, pin) == Ok::<bool, Seq<char>>(true),
{
}

/// A recovery code is trimmed before it is checked, and a fresh code has no
/// surrounding whitespace: the code handed out when credentials are set is
/// accepted as it is by the next reset.
pub proof fn law_recovery_code_is_accepted(record: Option<SecurityRecord>, pin: Seq<char>, recovery: Seq<char>)
    requires
        holds_credentials(record, pin, recovery),
        is_recovery_code(recovery),
    ensures
        record matches Some(r) && argon2_accepts(trim(recovery), r.recovery_hash@),
{
    lemma_recovery_code_trimmed(recovery);
}

/// A recovery code has nothing to trim.
pub proof fn lemma_recovery_code_trimmed(s: Seq<char>)
    requires
        is_recovery_code(s),
    ensures
        trim(s) == s,
{
    assert(is_upper_hex(s[0]));
    assert(is_upper_hex(s[26]));
    crate::text::lemma_trim_unchanged(s);
}

} // verus!
