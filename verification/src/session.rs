//! The running application's session: whether the administrator is
//! unlocked, the lockout after repeated wrong PINs, the edit lock, and the
//! ledger files opened in this session.
use vstd::prelude::*;
use crate::models::SessionStatus;
use crate::search::{comparable_path, spec_comparable_path};
use crate::security::{
    holds_credentials, is_recovery_code, pin_format_message, pin_is_valid, result_view,
    validate_pin, verify_outcome, AppSecurityStore, SecurityRecord,
};
use crate::text::{chars_eq_str, keep, lemma_keep_step, lemma_take_full, owned, str_chars, strings_view};

verus! {

/// Wrong PINs in a row after which the administrator unlock is suspended.
pub const MAX_LOGIN_ATTEMPTS: u8 = 5;

/// How long the unlock stays suspended, in milliseconds.
pub const LOGIN_COOLDOWN_MS: u64 = 30000;

/// Who is using the application.
#[derive(Clone, Copy, Debug, PartialEq, Eq, Structural)]
pub enum SessionRole {
    Viewer,
    Admin,
}

/// The administrator session. Times are readings of a monotonic clock in
/// milliseconds.
#[derive(Clone, Copy, Debug)]
pub struct SessionState {
    pub role: SessionRole,
    pub failed_attempts: u8,
    pub locked_until: Option<u64>,
    pub edit_locked: bool,
}

/// The session of a viewer: nothing unlocked, no failed attempt.
pub open spec fn viewer_session() -> SessionState {
    SessionState {
        role: SessionRole::Viewer,
        failed_attempts: 0,
        locked_until: None,
        edit_locked: true,
    }
}

/// The session right after the administrator has been unlocked: editing
/// still locked, the failed attempts forgotten.
pub open spec fn admin_session() -> SessionState {
    SessionState {
        role: SessionRole::Admin,
        failed_attempts: 0,
        locked_until: None,
        edit_locked: true,
    }
}

impl Default for SessionState {
    fn default() -> (r: Self)
        ensures
            r == viewer_session(),
    {
        SessionState {
            role: SessionRole::Viewer,
            failed_attempts: 0,
            locked_until: None,
            edit_locked: true,
        }
    }
}

pub open spec fn lockout_message() -> Seq<char> {
    "PIN 尝试次数过多，请稍后再试"@
}

pub open spec fn wrong_pin_message() -> Seq<char> {
    "管理员 PIN 不正确"@
}

pub open spec fn read_only_message() -> Seq<char> {
    "当前为只读模式，请先解锁管理员权限"@
}

pub open spec fn edit_locked_message() -> Seq<char> {
    "编辑已锁定，请先解锁编辑"@
}

pub open spec fn no_vault_message() -> Seq<char> {
    "请先打开礼金库"@
}

/// At time `now` the unlock is suspended.
pub open spec fn locked_out(s: SessionState, now: u64) -> bool {
    s.locked_until matches Some(until) && until > now
}

/// The session after a wrong PIN at time `now`: one more failure, and at
/// the fifth the count starts over and the unlock is suspended.
pub open spec fn after_wrong_pin(s: SessionState, now: u64) -> SessionState {
    if s.failed_attempts + 1 >= MAX_LOGIN_ATTEMPTS {
        SessionState {
            role: s.role,
            failed_attempts: 0,
            locked_until: Some((now + LOGIN_COOLDOWN_MS) as u64),
            edit_locked: s.edit_locked,
        }
    } else {
        SessionState {
            role: s.role,
            failed_attempts: (s.failed_attempts + 1) as u8,
            locked_until: s.locked_until,
            edit_locked: s.edit_locked,
        }
    }
}

/// An attempt to unlock the administrator with `pin` at time `now`: the
/// next session and the answer.
pub open spec fn unlock_step(
    s: SessionState,
    record: Option<SecurityRecord>,
    pin: Seq<char>,
    now: u64,
) -> (SessionState, Result<(), Seq<char>>) {
    if !pin_is_valid(pin) {
        (s, Err(pin_format_message()))
    } else if locked_out(s, now) {
        (s, Err(lockout_message()))
    } else {
        match verify_outcome(record, pin) {
            Err(e) => (s, Err(e)),
            Ok(true) => (admin_session(), Ok(())),
            Ok(false) => (after_wrong_pin(s, now), Err(wrong_pin_message())),
        }
    }
}

/// Changes that stay allowed while editing is locked.
pub open spec fn edit_lock_exempt(reason: Seq<char>) -> bool {
    reason == "set-person-tags"@ || reason == "create-tag"@ || reason == "update-tag-color"@
}

/// Whether a change for `reason` may be made in session `s`.
pub open spec fn admin_gate(s: SessionState, reason: Seq<char>) -> Result<(), Seq<char>> {
    if s.role != SessionRole::Admin {
        Err(read_only_message())
    } else if !edit_lock_exempt(reason) && s.edit_locked {
        Err(edit_locked_message())
    } else {
        Ok(())
    }
}

/// The name of a role as the interface shows it.
pub open spec fn role_name(role: SessionRole) -> Seq<char> {
    match role {
        SessionRole::Admin => "admin"@,
        SessionRole::Viewer => "viewer"@,
    }
}

/// The name of a role as the interface shows it.
pub fn session_role_name(role: SessionRole) -> (r: String)
    ensures
        r@ == role_name(role),
{
    match role {
        SessionRole::Admin => owned("admin"),
        SessionRole::Viewer => owned("viewer"),
    }
}

/// Paths other than the one whose comparable form is `key`.
pub open spec fn other_than(key: Seq<char>) -> spec_fn(Seq<char>) -> bool {
    |p: Seq<char>| spec_comparable_path(p) != key
}

/// The state of the running application.
pub struct AppState {
    vault_path: Option<String>,
    opened_vault_paths: Vec<String>,
    security: AppSecurityStore,
    session: SessionState,
}

impl AppState {
    /// The ledger file in use.
    pub closed spec fn spec_vault_path(&self) -> Option<Seq<char>> {
        match self.vault_path {
            Some(p) => Some(p@),
            None => None,
        }
    }

    /// The ledger files opened in this session, in the order they were opened.
    pub closed spec fn spec_opened(&self) -> Seq<Seq<char>> {
        strings_view(self.opened_vault_paths@)
    }

    pub closed spec fn spec_security(&self) -> AppSecurityStore {
        self.security
    }

    pub closed spec fn spec_session(&self) -> SessionState {
        self.session
    }

    /// The failed attempts stay below the lockout threshold.
    pub open spec fn wf(&self) -> bool {
        self.spec_session().failed_attempts < MAX_LOGIN_ATTEMPTS
    }

    /// The state at start: no ledger open, a viewer session.
    pub fn new(security: AppSecurityStore) -> (r: Self)
        ensures
            r.wf(),
            r.spec_vault_path() is None,
            r.spec_opened() == Seq::<Seq<char>>::empty(),
            r.spec_security() == security,
            r.spec_session() == viewer_session(),
    {
        let r = AppState {
            vault_path: None,
            opened_vault_paths: Vec::new(),
            security,
            session: SessionState::default(),
        };
        assert(r.spec_opened() =~= Seq::<Seq<char>>::empty());
        r
    }

    /// The administrator credentials.
    pub fn security(&self) -> (r: &AppSecurityStore)
        ensures
            *r == self.spec_security(),
    {
        &self.security
    }

    /// The session.
    pub fn session(&self) -> (r: SessionState)
        ensures
            r == self.spec_session(),
    {
        self.session
    }

    /// The ledger file in use.
    pub fn active_vault_path(&self) -> (r: Result<String, String>)
        ensures
            match self.spec_vault_path() {
                Some(p) => r matches Ok(v) && v@ == p,
                None => r matches Err(e) && e@ == no_vault_message(),
            },
    {
        match &self.vault_path {
            Some(p) => Ok(p.clone()),
            None => Err(owned("请先打开礼金库")),
        }
    }

    /// Notes a ledger file, by its canonical path, as opened in this
    /// session; a path already noted is not noted twice.
    pub fn remember_opened_vault_path(&mut self, canonical: String)
        requires
            old(self).wf(),
        ensures
            final(self).wf(),
            final(self).spec_opened() == (if old(self).spec_opened().contains(canonical@) {
                old(self).spec_opened()
            } else {
                old(self).spec_opened().push(canonical@)
            }),
            final(self).spec_vault_path() == old(self).spec_vault_path(),
            final(self).spec_security() == old(self).spec_security(),
            final(self).spec_session() == old(self).spec_session(),
    {
        let ghost sv = strings_view(self.opened_vault_paths@);
        let mut found = false;
        let mut i: usize = 0;
        while i < self.opened_vault_paths.len()
            invariant
                i <= self.opened_vault_paths@.len(),
                sv == strings_view(self.opened_vault_paths@),
                found == exists|k: int| 0 <= k < i && sv[k] == canonical@,
            decreases self.opened_vault_paths@.len() - i,
        {
            assert(sv[i as int] == self.opened_vault_paths@[i as int]@);
            if self.opened_vault_paths[i] == canonical {
                found = true;
            }
            i = i + 1;
        }
        proof {
            if found {
                let k = choose|k: int| 0 <= k < i && sv[k] == canonical@;
                assert(sv.contains(canonical@));
            } else {
                assert(!sv.contains(canonical@));
            }
        }
        if !found {
            self.opened_vault_paths.push(canonical);
            assert(strings_view(self.opened_vault_paths@) =~= sv.push(canonical@));
        }
    }

    /// Forgets every opened ledger file that is the same file as `path`.
    pub fn forget_opened_vault_path(&mut self, path: &str)
        requires
            old(self).wf(),
        ensures
            final(self).wf(),
            final(self).spec_opened() == keep(old(self).spec_opened(), other_than(spec_comparable_path(path@))),
            final(self).spec_vault_path() == old(self).spec_vault_path(),
            final(self).spec_security() == old(self).spec_security(),
            final(self).spec_session() == old(self).spec_session(),
    {
        let key = comparable_path(path);
        let ghost sv = strings_view(self.opened_vault_paths@);
        let ghost pred = other_than(key@);
        let mut kept: Vec<String> = Vec::new();
        let mut i: usize = 0;
        while i < self.opened_vault_paths.len()
            invariant
                i <= self.opened_vault_paths@.len(),
                sv == strings_view(self.opened_vault_paths@),
                key@ == spec_comparable_path(path@),
                pred == other_than(key@),
                strings_view(kept@) == keep(sv.take(i as int), pred),
            decreases self.opened_vault_paths@.len() - i,
        {
            let item_key = comparable_path(self.opened_vault_paths[i].as_str());
            proof {
                lemma_keep_step(sv, pred, i as int);
            }
            if item_key != key {
                kept.push(self.opened_vault_paths[i].clone());
                assert(strings_view(kept@) =~= keep(sv.take(i as int), pred).push(sv[i as int]));
            }
            i = i + 1;
        }
        proof {
            lemma_take_full(sv);
        }
        self.opened_vault_paths = kept;
    }

    /// The ledger files opened in this session.
    pub fn opened_vault_paths(&self) -> (r: Vec<String>)
        ensures
            strings_view(r@) == self.spec_opened(),
    {
        crate::text::clone_strings(&self.opened_vault_paths)
    }

    /// Forgets every opened ledger file.
    pub fn clear_opened_vault_paths(&mut self)
        requires
            old(self).wf(),
        ensures
            final(self).wf(),
            final(self).spec_opened() == Seq::<Seq<char>>::empty(),
            final(self).spec_vault_path() == old(self).spec_vault_path(),
            final(self).spec_security() == old(self).spec_security(),
            final(self).spec_session() == old(self).spec_session(),
    {
        self.opened_vault_paths = Vec::new();
        assert(self.spec_opened() =~= Seq::<Seq<char>>::empty());
    }

    /// Makes `path` the ledger file in use and notes it, by its canonical
    /// path `canonical`, as opened.
    pub fn use_opened_vault(&mut self, path: String, canonical: String)
        requires
            old(self).wf(),
        ensures
            final(self).wf(),
            final(self).spec_vault_path() == Some(path@),
            final(self).spec_opened() == (if old(self).spec_opened().contains(canonical@) {
                old(self).spec_opened()
            } else {
                old(self).spec_opened().push(canonical@)
            }),
            final(self).spec_security() == old(self).spec_security(),
            final(self).spec_session() == old(self).spec_session(),
    {
        self.vault_path = Some(path);
        self.remember_opened_vault_path(canonical);
    }

    /// Closes the ledger: none in use, none noted as opened.
    pub fn close_vault(&mut self) -> (r: Result<(), String>)
        requires
            old(self).wf(),
        ensures
            r is Ok,
            final(self).wf(),
            final(self).spec_vault_path() is None,
            final(self).spec_opened() == Seq::<Seq<char>>::empty(),
            final(self).spec_security() == old(self).spec_security(),
            final(self).spec_session() == old(self).spec_session(),
    {
        self.vault_path = None;
        self.clear_opened_vault_paths();
        Ok(())
    }

    /// Goes back to the start page: as closing the ledger.
    pub fn return_to_start_page(&mut self) -> (r: Result<(), String>)
        requires
            old(self).wf(),
        ensures
            r is Ok,
            final(self).wf(),
            final(self).spec_vault_path() is None,
            final(self).spec_opened() == Seq::<Seq<char>>::empty(),
            final(self).spec_security() == old(self).spec_security(),
            final(self).spec_session() == old(self).spec_session(),
    {
        self.close_vault()
    }

    /// Whether the administrator is unlocked.
    pub fn is_admin_session(&self) -> (r: bool)
        ensures
            r == (self.spec_session().role == SessionRole::Admin),
    {
        self.session.role == SessionRole::Admin
    }

    /// Whether editing is locked.
    pub fn is_edit_locked(&self) -> (r: bool)
        ensures
            r == self.spec_session().edit_locked,
    {
        self.session.edit_locked
    }

    fn set_edit_locked(&mut self, locked: bool)
        requires
            old(self).wf(),
        ensures
            final(self).wf(),
            final(self).spec_session() == (SessionState { edit_locked: locked, ..old(self).spec_session() }),
            final(self).spec_vault_path() == old(self).spec_vault_path(),
            final(self).spec_opened() == old(self).spec_opened(),
            final(self).spec_security() == old(self).spec_security(),
    {
        self.session.edit_locked = locked;
    }

    /// Unlocks the administrator: editing stays locked, failures are forgotten.
    fn set_admin_session(&mut self)
        requires
            old(self).wf(),
        ensures
            final(self).wf(),
            final(self).spec_session() == admin_session(),
            final(self).spec_vault_path() == old(self).spec_vault_path(),
            final(self).spec_opened() == old(self).spec_opened(),
            final(self).spec_security() == old(self).spec_security(),
    {
        self.session = SessionState {
            role: SessionRole::Admin,
            failed_attempts: 0,
            locked_until: None,
            edit_locked: true,
        };
    }

    /// Back to a viewer session.
    fn reset_session(&mut self)
        requires
            old(self).wf(),
        ensures
            final(self).wf(),
            final(self).spec_session() == viewer_session(),
            final(self).spec_vault_path() == old(self).spec_vault_path(),
            final(self).spec_opened() == old(self).spec_opened(),
            final(self).spec_security() == old(self).spec_security(),
    {
        self.session = SessionState::default();
    }

    /// Refuses unless the administrator is unlocked.
    pub fn require_admin(&self) -> (r: Result<(), String>)
        ensures
            self.spec_session().role == SessionRole::Admin ==> r is Ok,
            self.spec_session().role != SessionRole::Admin ==> (r matches Err(e) && e@ == read_only_message()),
    {
        if self.session.role != SessionRole::Admin {
            return Err(owned("当前为只读模式，请先解锁管理员权限"));
        }
        Ok(())
    }

    /// Whether a change for `reason` may be made now: the administrator
    /// must be unlocked and, but for tag changes, editing too.
    pub fn admin_access(&self, reason: &str) -> (r: Result<(), String>)
        ensures
            result_view(r) == admin_gate(self.spec_session(), reason@),
    {
        self.require_admin()?;
        let rc = str_chars(reason);
        let exempt = chars_eq_str(&rc, "set-person-tags") || chars_eq_str(&rc, "create-tag")
            || chars_eq_str(&rc, "update-tag-color");
        if !exempt && self.session.edit_locked {
            return Err(owned("编辑已锁定，请先解锁编辑"));
        }
        Ok(())
    }

    /// Whether a change may be made to another opened ledger file: the
    /// administrator and editing must be unlocked.
    pub fn admin_access_for_path(&self) -> (r: Result<(), String>)
        ensures
            self.spec_session().role != SessionRole::Admin ==> (r matches Err(e) && e@ == read_only_message()),
            self.spec_session().role == SessionRole::Admin && self.spec_session().edit_locked ==> (r matches Err(e) && e@ == edit_locked_message()),
            r is Ok <==> (self.spec_session().role == SessionRole::Admin && !self.spec_session().edit_locked),
    {
        self.require_admin()?;
        if self.session.edit_locked {
            return Err(owned("编辑已锁定，请先解锁编辑"));
        }
        Ok(())
    }

    /// The ledger file a request is about: the one named, else the one in use.
    pub fn requested_vault_path(&self, requested: Option<&str>) -> (r: Result<String, String>)
        ensures
            match self.spec_vault_path() {
                None => r matches Err(e) && e@ == no_vault_message(),
                Some(active) => r matches Ok(p) && p@ == (match requested {
                    Some(q) => q@,
                    None => active,
                }),
            },
    {
        let active = self.active_vault_path()?;
        match requested {
            Some(q) => Ok(owned(q)),
            None => Ok(active),
        }
    }

    /// What the interface shows of the session.
    pub fn session_status(&self) -> (r: Result<SessionStatus, String>)
        ensures
            r matches Ok(st) && st.role@ == role_name(self.spec_session().role)
                && st.security_configured == (self.spec_security().spec_record() is Some)
                && st.edit_locked == self.spec_session().edit_locked,
    {
        let configured = self.security.configured()?;
        Ok(
            SessionStatus {
                role: session_role_name(self.session.role),
                security_configured: configured,
                edit_locked: self.session.edit_locked,
            },
        )
    }

    /// What the interface shows of the session.
    pub fn get_app_security_status(&self) -> (r: Result<SessionStatus, String>)
        ensures
            r matches Ok(st) && st.role@ == role_name(self.spec_session().role)
                && st.security_configured == (self.spec_security().spec_record() is Some)
                && st.edit_locked == self.spec_session().edit_locked,
    {
        self.session_status()
    }

    /// Sets the first administrator PIN, unlocks the administrator and
    /// returns the recovery code.
    pub fn setup_app_admin_pin(&mut self, pin: &str) -> (r: Result<String, String>)
        requires
            old(self).wf(),
        ensures
            final(self).wf(),
            final(self).spec_vault_path() == old(self).spec_vault_path(),
            final(self).spec_opened() == old(self).spec_opened(),
            final(self).spec_security().spec_path() == old(self).spec_security().spec_path(),
            !pin_is_valid(pin@) ==> (r matches Err(e) && e@ == pin_format_message()),
            pin_is_valid(pin@) && old(self).spec_security().spec_record() is Some ==> (r matches Err(e) && e@ == "软件管理员 PIN 已设置"@),
            match r {
                Ok(code) => {
                    &&& old(self).spec_security().spec_record() is None
                    &&& pin_is_valid(pin@)
                    &&& is_recovery_code(code@)
                    &&& holds_credentials(final(self).spec_security().spec_record(), pin@, code@)
                    &&& final(self).spec_session() == admin_session()
                },
                Err(_) => {
                    &&& final(self).spec_security().spec_record() == old(self).spec_security().spec_record()
                    &&& final(self).spec_session() == old(self).spec_session()
                },
            },
    {
        let code = self.security.setup_pin(pin)?;
        self.set_admin_session();
        Ok(code)
    }

    /// An attempt, at time `now`, to unlock the administrator with `pin`.
    pub fn unlock_admin(&mut self, pin: &str, now: u64) -> (r: Result<(), String>)
        requires
            old(self).wf(),
            now <= u64::MAX - LOGIN_COOLDOWN_MS,
        ensures
            final(self).wf(),
            (final(self).spec_session(), result_view(r)) == unlock_step(
                old(self).spec_session(),
                old(self).spec_security().spec_record(),
                pin@,
                now,
            ),
            final(self).spec_vault_path() == old(self).spec_vault_path(),
            final(self).spec_opened() == old(self).spec_opened(),
            final(self).spec_security() == old(self).spec_security(),
    {
        validate_pin(pin)?;
        match self.session.locked_until {
            Some(until) => {
                if until > now {
                    return Err(owned("PIN 尝试次数过多，请稍后再试"));
                }
            },
            None => {},
        }
        if self.security.verify_pin(pin)? {
            self.set_admin_session();
            return Ok(());
        }
        let failed = self.session.failed_attempts + 1;
        if failed >= MAX_LOGIN_ATTEMPTS {
            self.session.failed_attempts = 0;
            self.session.locked_until = Some(now + LOGIN_COOLDOWN_MS);
        } else {
            self.session.failed_attempts = failed;
        }
        Err(owned("管理员 PIN 不正确"))
    }

    /// Locks the administrator again.
    pub fn lock_admin(&mut self) -> (r: Result<(), String>)
        requires
            old(self).wf(),
        ensures
            r is Ok,
            final(self).wf(),
            final(self).spec_session() == viewer_session(),
            final(self).spec_vault_path() == old(self).spec_vault_path(),
            final(self).spec_opened() == old(self).spec_opened(),
            final(self).spec_security() == old(self).spec_security(),
    {
        self.reset_session();
        Ok(())
    }

    /// Unlocks editing; only the administrator may.
    pub fn unlock_editing(&mut self) -> (r: Result<(), String>)
        requires
            old(self).wf(),
        ensures
            final(self).wf(),
            old(self).spec_session().role == SessionRole::Admin ==> r is Ok && final(self).spec_session() == (SessionState { edit_locked: false, ..old(self).spec_session() }),
            old(self).spec_session().role != SessionRole::Admin ==> (r matches Err(e) && e@ == read_only_message() && final(self).spec_session() == old(self).spec_session()),
            final(self).spec_vault_path() == old(self).spec_vault_path(),
            final(self).spec_opened() == old(self).spec_opened(),
            final(self).spec_security() == old(self).spec_security(),
    {
        self.require_admin()?;
        self.set_edit_locked(false);
        Ok(())
    }

    /// Locks editing; only the administrator may.
    pub fn lock_editing(&mut self) -> (r: Result<(), String>)
        requires
            old(self).wf(),
        ensures
            final(self).wf(),
            old(self).spec_session().role == SessionRole::Admin ==> r is Ok && final(self).spec_session() == (SessionState { edit_locked: true, ..old(self).spec_session() }),
            old(self).spec_session().role != SessionRole::Admin ==> (r matches Err(e) && e@ == read_only_message() && final(self).spec_session() == old(self).spec_session()),
            final(self).spec_vault_path() == old(self).spec_vault_path(),
            final(self).spec_opened() == old(self).spec_opened(),
            final(self).spec_security() == old(self).spec_security(),
    {
        self.require_admin()?;
        self.set_edit_locked(true);
        Ok(())
    }

    /// Sets a new PIN with the recovery code, unlocks the administrator and
    /// returns the new recovery code.
    pub fn reset_app_pin_with_recovery(&mut self, recovery: &str, new_pin: &str) -> (r: Result<String, String>)
        requires
            old(self).wf(),
        ensures
            final(self).wf(),
            final(self).spec_vault_path() == old(self).spec_vault_path(),
            final(self).spec_opened() == old(self).spec_opened(),
            final(self).spec_security().spec_path() == old(self).spec_security().spec_path(),
            !pin_is_valid(new_pin@) ==> (r matches Err(e) && e@ == pin_format_message()),
            match r {
                Ok(code) => {
                    &&& pin_is_valid(new_pin@)
                    &&& old(self).spec_security().spec_record() matches Some(rec)
                    &&& crate::security::argon2_accepts(crate::text::trim(recovery@), rec.recovery_hash@)
                    &&& is_recovery_code(code@)
                    &&& holds_credentials(final(self).spec_security().spec_record(), new_pin@, code@)
                    &&& final(self).spec_session() == admin_session()
                },
                Err(_) => {
                    &&& final(self).spec_security().spec_record() == old(self).spec_security().spec_record()
                    &&& final(self).spec_session() == old(self).spec_session()
                },
            },
    {
        let code = self.security.reset_with_recovery(recovery, new_pin)?;
        self.set_admin_session();
        Ok(code)
    }

    /// Changes the PIN, given the current one; only the administrator may.
    /// Returns the new recovery code.
    pub fn change_app_admin_pin(&mut self, old_pin: &str, new_pin: &str) -> (r: Result<String, String>)
        requires
            old(self).wf(),
        ensures
            final(self).wf(),
            final(self).spec_vault_path() == old(self).spec_vault_path(),
            final(self).spec_opened() == old(self).spec_opened(),
            final(self).spec_security().spec_path() == old(self).spec_security().spec_path(),
            old(self).spec_session().role != SessionRole::Admin ==> (r matches Err(e) && e@ == read_only_message()),
            match r {
                Ok(code) => {
                    &&& old(self).spec_session().role == SessionRole::Admin
                    &&& pin_is_valid(new_pin@)
                    &&& verify_outcome(old(self).spec_security().spec_record(), old_pin@) == Ok::<bool, Seq<char>>(true)
                    &&& is_recovery_code(code@)
                    &&& holds_credentials(final(self).spec_security().spec_record(), new_pin@, code@)
                    &&& final(self).spec_session() == admin_session()
                },
                Err(_) => {
                    &&& final(self).spec_security().spec_record() == old(self).spec_security().spec_record()
                    &&& final(self).spec_session() == old(self).spec_session()
                },
            },
    {
        self.require_admin()?;
        let code = self.security.change_pin(old_pin, new_pin)?;
        self.set_admin_session();
        Ok(code)
    }

    /// How a ledger file of schema `version` may be opened in this session:
    /// `Ok(true)` when the administrator must bring it up to date first,
    /// `Ok(false)` when it opens as it is.
    pub fn vault_open_plan(&self, version: i32, has_legacy_security: bool) -> (r: Result<bool, String>)
        ensures
            self.spec_session().role == SessionRole::Admin ==> r == Ok::<bool, String>(
                version < CURRENT_SCHEMA || has_legacy_security,
            ),
            self.spec_session().role != SessionRole::Admin && version < 3 ==> (r matches Err(e) && e@ == "该礼金库需要由管理员模式打开一次完成升级后才能只读查看"@),
            self.spec_session().role != SessionRole::Admin && version >= 3 ==> r == Ok::<bool, String>(false),
    {
        if self.session.role == SessionRole::Admin {
            Ok(version < CURRENT_SCHEMA || has_legacy_security)
        } else if version < 3 {
            Err(owned("该礼金库需要由管理员模式打开一次完成升级后才能只读查看"))
        } else {
            Ok(false)
        }
    }
}

/// The schema version of a current ledger file.
pub const CURRENT_SCHEMA: i32 = 8;

/// Confirms that `requested`, a canonical path, is one of the ledger files
/// opened in this session (`opened`, canonical paths too).
pub fn opened_vault_match(requested: String, opened: &[String]) -> (r: Result<String, String>)
    ensures
        (exists|k: int| 0 <= k < opened@.len() && spec_comparable_path(#[trigger] opened@[k]@) == spec_comparable_path(requested@))
            ==> (r matches Ok(p) && p@ == requested@),
        !(exists|k: int| 0 <= k < opened@.len() && spec_comparable_path(#[trigger] opened@[k]@) == spec_comparable_path(requested@))
            ==> (r matches Err(e) && e@ == "该礼金库未在当前会话中打开"@),
{
    let key = comparable_path(requested.as_str());
    let mut i: usize = 0;
    while i < opened.len()
        invariant
            i <= opened@.len(),
            key@ == spec_comparable_path(requested@),
            forall|k: int| 0 <= k < i ==> spec_comparable_path(#[trigger] opened@[k]@) != key@,
        decreases opened@.len() - i,
    {
        let item = comparable_path(opened[i].as_str());
        if item == key {
            return Ok(requested);
        }
        i = i + 1;
    }
    Err(owned("该礼金库未在当前会话中打开"))
}

// ---------------------------------------------------------------------------
// Laws
// ---------------------------------------------------------------------------

/// While the unlock is suspended every attempt is refused, with the right
/// PIN too, and the session stays as it is.
pub proof fn law_lockout_refuses_every_pin(s: SessionState, record: Option<SecurityRecord>, pin: Seq<char>, now: u64)
    requires
        locked_out(s, now),
        pin_is_valid(pin),
    ensures
        unlock_step(s, record, pin, now) == (s, Err::<(), Seq<char>>(lockout_message())),
{
}

/// A wrong PIN below the threshold is counted and nothing else changes.
pub proof fn law_wrong_pin_is_counted(s: SessionState, record: Option<SecurityRecord>, pin: Seq<char>, now: u64)
    requires
        s.failed_attempts + 1 < MAX_LOGIN_ATTEMPTS,
        !locked_out(s, now),
        pin_is_valid(pin),
        verify_outcome(record, pin) == Ok::<bool, Seq<char>>(false),
    ensures
        unlock_step(s, record, pin, now).0.failed_attempts == s.failed_attempts + 1,
        unlock_step(s, record, pin, now).0.locked_until == s.locked_until,
        unlock_step(s, record, pin, now).0.role == s.role,
        unlock_step(s, record, pin, now).1 == Err::<(), Seq<char>>(wrong_pin_message()),
{
}

/// The fifth wrong PIN in a row suspends the unlock for the cooldown and
/// starts the count over.
pub proof fn law_fifth_wrong_pin_locks(s: SessionState, record: Option<SecurityRecord>, pin: Seq<char>, now: u64)
    requires
        s.failed_attempts == MAX_LOGIN_ATTEMPTS - 1,
        !locked_out(s, now),
        pin_is_valid(pin),
        verify_outcome(record, pin) == Ok::<bool, Seq<char>>(false),
        now <= u64::MAX - LOGIN_COOLDOWN_MS,
    ensures
        unlock_step(s, record, pin, now).0.locked_until == Some((now + LOGIN_COOLDOWN_MS) as u64),
        unlock_step(s, record, pin, now).0.failed_attempts == 0,
        locked_out(unlock_step(s, record, pin, now).0, now),
        unlock_step(s, record, pin, now).1 == Err::<(), Seq<char>>(wrong_pin_message()),
{
}

/// Five wrong PINs in a row, from a session with no failure and no
/// suspension, suspend the unlock: a sixth attempt made before the cooldown
/// has passed is refused, whatever the PIN.
pub proof fn law_five_wrong_pins_suspend(
    s: SessionState,
    record: Option<SecurityRecord>,
    wrong: Seq<char>,
    any_pin: Seq<char>,
    times: Seq<u64>,
    later: u64,
)
    requires
        s.failed_attempts == 0,
        s.locked_until is None,
        pin_is_valid(wrong),
        pin_is_valid(any_pin),
        verify_outcome(record, wrong) == Ok::<bool, Seq<char>>(false),
        times.len() == 5,
        times[4] <= u64::MAX - LOGIN_COOLDOWN_MS,
        times[4] <= later < times[4] + LOGIN_COOLDOWN_MS,
    ensures
        ({
            let s1 = unlock_step(s, record, wrong, times[0]).0;
            let s2 = unlock_step(s1, record, wrong, times[1]).0;
            let s3 = unlock_step(s2, record, wrong, times[2]).0;
            let s4 = unlock_step(s3, record, wrong, times[3]).0;
            let s5 = unlock_step(s4, record, wrong, times[4]).0;
            unlock_step(s5, record, any_pin, later) == (s5, Err::<(), Seq<char>>(lockout_message()))
        }),
{
}

/// The PIN that was set unlocks the administrator, when no suspension is
/// running; editing is still locked after it.
pub proof fn law_set_pin_unlocks(s: SessionState, record: Option<SecurityRecord>, pin: Seq<char>, recovery: Seq<char>, now: u64)
    requires
        pin_is_valid(pin),
        holds_credentials(record, pin, recovery),
        !locked_out(s, now),
    ensures
        unlock_step(s, record, pin, now) == (admin_session(), Ok::<(), Seq<char>>(())),
        admin_session().edit_locked,
{
    crate::security::law_set_pin_is_accepted(record, pin, recovery);
}

/// A viewer session changes nothing, whatever the reason.
pub proof fn law_viewer_is_read_only(reason: Seq<char>)
    ensures
        admin_gate(viewer_session(), reason) == Err::<(), Seq<char>>(read_only_message()),
{
}

/// Right after unlocking, the administrator may change tags only; other
/// changes wait until editing is unlocked.
pub proof fn law_admin_starts_edit_locked(reason: Seq<char>)
    ensures
        admin_gate(admin_session(), reason) == (if edit_lock_exempt(reason) {
            Ok::<(), Seq<char>>(())
        } else {
            Err::<(), Seq<char>>(edit_locked_message())
        }),
        admin_gate(SessionState { edit_locked: false, ..admin_session() }, reason) == Ok::<(), Seq<char>>(()),
{
}

} // verus!
