//! Authentication of the web administration interface.
//!
//! Every operation is a step of a machine over plain values: what the credential table answered,
//! the moment, and the request come in; the new state, the answer and what is to be written to the
//! table come out. An operation that writes has two steps, one before and one after the write. The
//! program around this library holds the state under a lock while it takes them.

use vstd::prelude::*;

use crate::cookie::{self, token_of_header};
use crate::credential::{
    self, credential_hash, load_credential_cache, CredentialCache, CredentialRead, CredentialView,
    PasswordWrite, StoredView, WriteView,
};
use crate::failure::{
    self, record_event, AuthFailure, ClientAddr, EventView, FailureView, PasswordOrigin,
    SecurityEvent, SecurityEventType,
};
use crate::password::{
    self, check_offered, hash_password, validate_password, verify_password,
};
use crate::rate_limit::{
    self, check_lockout, clear_failures, record_failure, RateLimitState, RateLimitView,
};
use crate::session::{
    self, active_session_count, draw_token, issue_session_with, remove_session,
    retain_only_session, token_key, touch_session, SessionEntry, SessionView,
};
use crate::text::{self, decimal_text, joined3};

verus! {

// ---------------------------------------------------------------------------
// The state
// ---------------------------------------------------------------------------

/// The part of the configuration that authentication reads.
#[derive(Debug, Clone, Copy, PartialEq, Eq, Structural)]
pub struct AppConfig {
    /// The minutes without activity after which a session ends.
    pub web_admin_session_idle_minutes: u32,
    /// Whether the session cookie is marked `Secure`.
    pub web_admin_secure_cookie: bool,
}

/// What authentication remembers. Sessions are in memory alone, so a restart ends them.
#[derive(Debug)]
pub struct WebAuthState {
    pub credential: CredentialCache,
    pub sessions: Vec<SessionEntry>,
    pub rate_limit: RateLimitState,
}

/// The state that the operations work on.
#[derive(Debug)]
pub struct AppState {
    /// The configuration, unless it could not be read.
    pub config: Option<AppConfig>,
    pub web_auth: WebAuthState,
    /// Events that wait for the security log, in order.
    pub events: Vec<SecurityEvent>,
}

/// An [`AppState`] over sequences.
#[verifier::ext_equal]
pub struct StateView {
    pub config: Option<AppConfig>,
    pub credential: CredentialView,
    pub sessions: Seq<SessionView>,
    pub rate_limit: RateLimitView,
    pub events: Seq<EventView>,
}

impl View for AppState {
    type V = StateView;

    open spec fn view(&self) -> StateView {
        StateView {
            config: self.config,
            credential: self.web_auth.credential@,
            sessions: session::session_views(self.web_auth.sessions@),
            rate_limit: self.web_auth.rate_limit@,
            events: failure::event_views(self.events@),
        }
    }
}

impl StateView {
    /// What every operation keeps: both tables are bounded, the rate limit is in order, and the
    /// cached credential is all there or not at all.
    pub open spec fn wf(self) -> bool {
        &&& self.sessions.len() <= session::MAX_SESSIONS
        &&& self.rate_limit.wf()
        &&& self.credential.wf()
    }

    /// Whether the session cookie is marked `Secure`.
    pub open spec fn secure(self) -> bool {
        self.config matches Some(config) && config.web_admin_secure_cookie
    }

    /// The seconds without activity after which a session ends.
    pub open spec fn idle(self) -> u64 {
        session::idle_seconds(
            match self.config {
                Some(config) => Some(config.web_admin_session_idle_minutes),
                None => None,
            },
        )
    }

    /// The state once the credential is loaded.
    pub open spec fn loaded(self, stored: Result<Option<StoredView>, Seq<char>>) -> StateView {
        StateView { credential: credential::after_load(self.credential, stored), ..self }
    }

    /// Why the credential cannot be loaded, where it cannot.
    pub open spec fn load_error(self, stored: Result<Option<StoredView>, Seq<char>>) -> Option<
        Seq<char>,
    > {
        credential::load_error(self.credential, stored)
    }

    /// The password hash that counts: the cached one, or the stored one where nothing is cached.
    pub open spec fn hash(self, stored: Result<Option<StoredView>, Seq<char>>) -> Option<Seq<char>> {
        self.loaded(stored).credential.password_hash
    }

    /// The state with one more event.
    pub open spec fn with_event(self, event: EventView) -> StateView {
        StateView { events: self.events.push(event), ..self }
    }
}

impl WebAuthState {
    /// Nothing cached, nobody logged in, no failures.
    pub fn new() -> (state: Self)
        ensures
            state.credential@ == (CredentialView {
                loaded: false,
                password_hash: None,
                updated_at: None,
            }),
            session::session_views(state.sessions@) == Seq::<SessionView>::empty(),
            state.rate_limit@ == (RateLimitView {
                clients: Seq::empty(),
                global_failures: 0,
                global_window_started_at: None,
                global_locked_until: None,
            }),
    {
        let state = WebAuthState {
            credential: CredentialCache::new(),
            sessions: Vec::new(),
            rate_limit: RateLimitState::new(),
        };
        assert(session::session_views(state.sessions@) =~= Seq::empty());
        state
    }
}

impl AppState {
    /// The state at the start of the program.
    pub fn new(config: Option<AppConfig>) -> (state: Self)
        ensures
            state@.wf(),
            state@ == (StateView {
                config,
                credential: CredentialView { loaded: false, password_hash: None, updated_at: None },
                sessions: Seq::empty(),
                rate_limit: RateLimitView {
                    clients: Seq::empty(),
                    global_failures: 0,
                    global_window_started_at: None,
                    global_locked_until: None,
                },
                events: Seq::empty(),
            }),
    {
        let state = AppState { config, web_auth: WebAuthState::new(), events: Vec::new() };
        assert(failure::event_views(state.events@) =~= Seq::empty());
        state
    }
}

/// The seconds without activity after which a session ends.
pub fn idle_timeout(state: &AppState) -> (seconds: u64)
    ensures
        seconds == state@.idle(),
{
    let minutes: u32 = match state.config {
        Some(config) => config.web_admin_session_idle_minutes,
        None => session::DEFAULT_IDLE_MINUTES,
    };
    minutes as u64 * 60
}

/// Whether the session cookie is marked `Secure`; not where the configuration cannot be read.
pub fn secure_cookie_enabled(state: &AppState) -> (secure: bool)
    ensures
        secure == state@.secure(),
{
    match state.config {
        Some(config) => config.web_admin_secure_cookie,
        None => false,
    }
}

// ---------------------------------------------------------------------------
// Access
// ---------------------------------------------------------------------------

/// Whether a request may use the administration interface.
#[derive(Debug, Clone, PartialEq, Eq)]
pub enum AuthOutcome {
    Authorized,
    Rejected(AuthFailure),
}

/// An [`AuthOutcome`] with its failure as a view.
#[verifier::ext_equal]
pub enum OutcomeView {
    Authorized,
    Rejected(FailureView),
}

impl View for AuthOutcome {
    type V = OutcomeView;

    open spec fn view(&self) -> OutcomeView {
        match self {
            AuthOutcome::Authorized => OutcomeView::Authorized,
            AuthOutcome::Rejected(failure) => OutcomeView::Rejected(failure@),
        }
    }
}

/// The state and the outcome of a request with the session token `token`, where it has one.
pub open spec fn authorize_run(
    s: StateView,
    stored: Result<Option<StoredView>, Seq<char>>,
    token: Option<Seq<char>>,
    now: u64,
) -> (StateView, OutcomeView) {
    let ready = s.loaded(stored);
    match s.load_error(stored) {
        Some(error) => (ready, OutcomeView::Rejected(FailureView::Internal(error))),
        None => if s.hash(stored) is None {
            (ready, OutcomeView::Rejected(FailureView::SetupRequired))
        } else {
            match token {
                None => (ready, OutcomeView::Rejected(FailureView::Unauthenticated)),
                Some(value) => {
                    let living = session::alive(ready.sessions, ready.idle(), now);
                    let key = session::key_of(value);
                    (
                        StateView { sessions: session::touched(living, key, now), ..ready },
                        if session::has_key(living, key) {
                            OutcomeView::Authorized
                        } else {
                            OutcomeView::Rejected(FailureView::Unauthenticated)
                        },
                    )
                },
            }
        },
    }
}

/// Judges whether a request may use the administration interface. One that may keeps its session
/// from going idle.
pub fn authorize(
    state: &mut AppState,
    stored: &CredentialRead,
    cookie_header: Option<&str>,
    now: u64,
) -> (outcome: AuthOutcome)
    ensures
        (final(state)@, outcome@) == authorize_run(
            old(state)@,
            credential::read_view(*stored),
            cookie::header_token(cookie_header),
            now,
        ),
        old(state)@.wf() ==> final(state)@.wf(),
{
    match credential_hash(&mut state.web_auth.credential, stored) {
        Ok(None) => {
            return AuthOutcome::Rejected(AuthFailure::SetupRequired);
        },
        Ok(Some(_)) => {},
        Err(error) => {
            return AuthOutcome::Rejected(AuthFailure::Internal(error));
        },
    }
    let idle: u64 = idle_timeout(state);
    match token_of_header(cookie_header) {
        None => AuthOutcome::Rejected(AuthFailure::Unauthenticated),
        Some(token) => {
            let key: [u8; 32] = token_key(token.as_str());
            if touch_session(&mut state.web_auth.sessions, &key, idle, now) {
                AuthOutcome::Authorized
            } else {
                AuthOutcome::Rejected(AuthFailure::Unauthenticated)
            }
        },
    }
}

/// The state after logging out with the session token `token`, where there is one.
pub open spec fn after_logout(s: StateView, token: Option<Seq<char>>) -> StateView {
    match token {
        Some(value) => StateView {
            sessions: session::without_key(s.sessions, session::key_of(value)),
            ..s
        },
        None => s,
    }
}

/// Logs out: the session goes. The caller clears the cookie.
pub fn logout(state: &mut AppState, cookie_header: Option<&str>)
    ensures
        final(state)@ == after_logout(old(state)@, cookie::header_token(cookie_header)),
        old(state)@.wf() ==> final(state)@.wf(),
{
    if let Some(token) = token_of_header(cookie_header) {
        let key: [u8; 32] = token_key(token.as_str());
        remove_session(&mut state.web_auth.sessions, &key);
    }
}

/// The state without any session.
pub open spec fn without_sessions(s: StateView) -> StateView {
    StateView { sessions: Seq::empty(), ..s }
}

/// Ends every session.
pub fn invalidate_sessions(state: &mut AppState)
    ensures
        final(state)@ == without_sessions(old(state)@),
        old(state)@.wf() ==> final(state)@.wf(),
{
    retain_only_session(&mut state.web_auth.sessions, None);
}

// ---------------------------------------------------------------------------
// Logging in
// ---------------------------------------------------------------------------

/// The state and the failure of a login with a wrong password: the failure counts, and both it and
/// a lockout that it brings are recorded.
pub open spec fn rejected_login(s: StateView, client: ClientAddr, now: u64) -> (
    StateView,
    FailureView,
) {
    let counted = StateView {
        rate_limit: rate_limit::after_failure(s.rate_limit, client, now),
        ..s
    }.with_event(
        failure::event(
            SecurityEventType::WebAuthFailed,
            Some(client),
            "Web 管理登录密码错误"@,
        ),
    );
    match rate_limit::failure_lockout(s.rate_limit, client, now) {
        Some(seconds) => (
            counted.with_event(
                failure::event(
                    SecurityEventType::WebAuthLocked,
                    Some(client),
                    "Web 管理登录连续失败，已锁定 "@ + text::decimal(seconds as nat) + " 秒"@,
                ),
            ),
            FailureView::Locked(seconds),
        ),
        None => (counted, FailureView::InvalidPassword),
    }
}

/// The first step of a login: the hash to check the password against, unless there is none or the
/// client is locked out.
pub open spec fn login_begun(
    s: StateView,
    stored: Result<Option<StoredView>, Seq<char>>,
    client: ClientAddr,
    now: u64,
) -> (StateView, Result<Seq<char>, FailureView>) {
    let ready = s.loaded(stored);
    match s.load_error(stored) {
        Some(error) => (ready, Err(FailureView::Internal(error))),
        None => match s.hash(stored) {
            None => (ready, Err(FailureView::SetupRequired)),
            Some(hash) => (
                StateView {
                    rate_limit: rate_limit::after_check(ready.rate_limit, now),
                    ..ready
                },
                match rate_limit::locked_for(ready.rate_limit, client, now) {
                    Some(seconds) => Err(FailureView::Locked(seconds)),
                    None => Ok(hash),
                },
            ),
        },
    }
}

/// The second step of a login: what the verdict on the password comes to.
pub open spec fn login_settled(
    s: StateView,
    client: ClientAddr,
    verdict: Result<bool, Seq<char>>,
    now: u64,
) -> (StateView, Result<(), FailureView>) {
    match verdict {
        Err(error) => (s, Err(FailureView::Internal(error))),
        Ok(false) => {
            let (after, failure) = rejected_login(s, client, now);
            (after, Err(failure))
        },
        Ok(true) => (
            StateView { rate_limit: rate_limit::after_clearing(s.rate_limit, client), ..s },
            Ok(()),
        ),
    }
}

/// The state after issuing a session with the bytes drawn.
pub open spec fn with_session(s: StateView, drawn: Result<Seq<u8>, Seq<char>>, now: u64) -> StateView {
    StateView { sessions: session::issue_sessions(s.sessions, drawn, s.idle(), now), ..s }
}

/// What issuing a session comes to, given the bytes drawn for its token.
pub open spec fn session_issued(s: StateView, drawn: Result<Seq<u8>, Seq<char>>, now: u64) -> (
    StateView,
    Result<Seq<char>, FailureView>,
) {
    (with_session(s, drawn, now), session::issue_outcome(drawn))
}

/// Whether issuing a session can come to `after` and `result`: with some draw of 32 bytes.
pub open spec fn issue_possible(
    s: StateView,
    now: u64,
    after: StateView,
    result: Result<Seq<char>, FailureView>,
) -> bool {
    exists|drawn: Result<Seq<u8>, Seq<char>>|
        {
            &&& drawn matches Ok(raw) ==> raw.len() == 32
            &&& (after, result) == #[trigger] session_issued(s, drawn, now)
        }
}

/// The last step of a login: the session.
pub open spec fn login_finished(
    s: StateView,
    client: ClientAddr,
    drawn: Result<Seq<u8>, Seq<char>>,
    now: u64,
) -> (StateView, Result<Seq<char>, FailureView>) {
    let after = with_session(s, drawn, now);
    (
        if drawn is Ok {
            after.with_event(
                failure::event(
                    SecurityEventType::WebAuthLogin,
                    Some(client),
                    "Web 管理登录成功"@,
                ),
            )
        } else {
            after
        },
        session::issue_outcome(drawn),
    )
}

/// Whether the last step of a login can come to `after` and `result`: with some draw of 32 bytes.
pub open spec fn completion_possible(
    s: StateView,
    client: ClientAddr,
    now: u64,
    after: StateView,
    result: Result<Seq<char>, FailureView>,
) -> bool {
    exists|drawn: Result<Seq<u8>, Seq<char>>|
        {
            &&& drawn matches Ok(raw) ==> raw.len() == 32
            &&& (after, result) == #[trigger] login_finished(s, client, drawn, now)
        }
}

/// The moments of a login. Checking the password takes time, so what follows it happens later than
/// what comes before.
#[derive(Debug, Clone, Copy, PartialEq, Eq, Structural)]
pub struct LoginTimes {
    /// When the lockout is looked at.
    pub checked: u64,
    /// When a wrong password is counted.
    pub settled: u64,
    /// When the session begins.
    pub issued: u64,
}

/// A whole login, given the verdict on the password and the bytes drawn for the session.
pub open spec fn login_run(
    s: StateView,
    stored: Result<Option<StoredView>, Seq<char>>,
    client: ClientAddr,
    verdict: Result<bool, Seq<char>>,
    drawn: Result<Seq<u8>, Seq<char>>,
    times: LoginTimes,
) -> (StateView, Result<Seq<char>, FailureView>) {
    let (begun, hash) = login_begun(s, stored, client, times.checked);
    match hash {
        Err(failure) => (begun, Err(failure)),
        Ok(_) => {
            let (settled, result) = login_settled(begun, client, verdict, times.settled);
            match result {
                Err(failure) => (settled, Err(failure)),
                Ok(()) => login_finished(settled, client, drawn, times.issued),
            }
        },
    }
}

/// Whether a login can come to `after` and `result`: with some verdict that checking the password
/// can come to, and some draw of 32 bytes.
pub open spec fn login_possible(
    s: StateView,
    stored: Result<Option<StoredView>, Seq<char>>,
    client: ClientAddr,
    password: Seq<char>,
    times: LoginTimes,
    after: StateView,
    result: Result<Seq<char>, FailureView>,
) -> bool {
    exists|verdict: Result<bool, Seq<char>>, drawn: Result<Seq<u8>, Seq<char>>|
        {
            &&& login_begun(s, stored, client, times.checked).1 matches Ok(hash)
                ==> password::offer_possible(hash, password, verdict)
            &&& drawn matches Ok(raw) ==> raw.len() == 32
            &&& (after, result) == #[trigger] login_run(s, stored, client, verdict, drawn, times)
        }
}

/// Counts and records a wrong password, and tells what the client is answered.
pub fn reject_login(state: &mut AppState, client: ClientAddr, now: u64) -> (failure: AuthFailure)
    requires
        now <= rate_limit::LAST_MOMENT,
    ensures
        (final(state)@, failure@) == rejected_login(old(state)@, client, now),
        old(state)@.wf() ==> final(state)@.wf(),
{
    let lockout: Option<u64> = record_failure(&mut state.web_auth.rate_limit, client, now);
    record_event(
        &mut state.events,
        SecurityEventType::WebAuthFailed,
        Some(client),
        "Web 管理登录密码错误",
    );
    match lockout {
        Some(seconds) => {
            let digits = decimal_text(seconds);
            let reason = joined3(
                "Web 管理登录连续失败，已锁定 ",
                digits.as_str(),
                " 秒",
            );
            record_event(
                &mut state.events,
                SecurityEventType::WebAuthLocked,
                Some(client),
                reason.as_str(),
            );
            AuthFailure::Locked { retry_after_seconds: seconds }
        },
        None => AuthFailure::InvalidPassword,
    }
}

/// Takes the first step of a login.
pub fn begin_login(
    state: &mut AppState,
    stored: &CredentialRead,
    client: ClientAddr,
    now: u64,
) -> (result: Result<String, AuthFailure>)
    ensures
        (final(state)@, failure::text_outcome(result)) == login_begun(
            old(state)@,
            credential::read_view(*stored),
            client,
            now,
        ),
        old(state)@.wf() ==> final(state)@.wf(),
{
    let hash = match credential_hash(&mut state.web_auth.credential, stored) {
        Ok(Some(hash)) => hash,
        Ok(None) => {
            return Err(AuthFailure::SetupRequired);
        },
        Err(error) => {
            return Err(AuthFailure::Internal(error));
        },
    };
    match check_lockout(&mut state.web_auth.rate_limit, client, now) {
        Ok(()) => Ok(hash),
        Err(failure) => Err(failure),
    }
}

/// Takes the second step of a login.
pub fn settle_login(
    state: &mut AppState,
    client: ClientAddr,
    verdict: Result<bool, String>,
    now: u64,
) -> (result: Result<(), AuthFailure>)
    requires
        now <= rate_limit::LAST_MOMENT,
    ensures
        (final(state)@, failure::outcome(result)) == login_settled(
            old(state)@,
            client,
            password::verdict_result(verdict),
            now,
        ),
        old(state)@.wf() ==> final(state)@.wf(),
{
    match verdict {
        Err(error) => Err(AuthFailure::Internal(error)),
        Ok(false) => Err(reject_login(state, client, now)),
        Ok(true) => {
            clear_failures(&mut state.web_auth.rate_limit, client);
            Ok(())
        },
    }
}

/// Issues a session with the bytes drawn for it.
pub fn issue_drawn(state: &mut AppState, drawn: Result<[u8; 32], String>, now: u64) -> (result: Result<
    String,
    AuthFailure,
>)
    ensures
        (final(state)@, failure::text_outcome(result)) == session_issued(
            old(state)@,
            session::draw_view(drawn),
            now,
        ),
        old(state)@.wf() ==> final(state)@.wf(),
{
    let idle: u64 = idle_timeout(state);
    issue_session_with(&mut state.web_auth.sessions, drawn, idle, now)
}

/// Issues a session: draws the bytes of its token, and answers the token.
pub fn issue_session(state: &mut AppState, now: u64) -> (result: Result<String, AuthFailure>)
    ensures
        issue_possible(old(state)@, now, final(state)@, failure::text_outcome(result)),
        old(state)@.wf() ==> final(state)@.wf(),
{
    let ghost s = state@;
    let drawn = draw_token();
    let ghost bytes = session::draw_view(drawn);
    let result = issue_drawn(state, drawn, now);
    assert((state@, failure::text_outcome(result)) == session_issued(s, bytes, now));
    result
}

/// Takes the last step of a login with the bytes drawn for the session.
pub fn finish_login(
    state: &mut AppState,
    client: ClientAddr,
    drawn: Result<[u8; 32], String>,
    now: u64,
) -> (result: Result<String, AuthFailure>)
    ensures
        (final(state)@, failure::text_outcome(result)) == login_finished(
            old(state)@,
            client,
            session::draw_view(drawn),
            now,
        ),
        old(state)@.wf() ==> final(state)@.wf(),
{
    let result = issue_drawn(state, drawn, now);
    if result.is_ok() {
        record_event(
            &mut state.events,
            SecurityEventType::WebAuthLogin,
            Some(client),
            "Web 管理登录成功",
        );
    }
    result
}

/// Takes the last step of a login: draws the bytes of a token, and answers the token.
pub fn complete_login(state: &mut AppState, client: ClientAddr, now: u64) -> (result: Result<
    String,
    AuthFailure,
>)
    ensures
        completion_possible(
            old(state)@,
            client,
            now,
            final(state)@,
            failure::text_outcome(result),
        ),
        old(state)@.wf() ==> final(state)@.wf(),
{
    let ghost s = state@;
    let drawn = draw_token();
    let ghost bytes = session::draw_view(drawn);
    let result = finish_login(state, client, drawn, now);
    assert((state@, failure::text_outcome(result)) == login_finished(s, client, bytes, now));
    result
}

/// Logs in, with the moments of its steps. A failure counts towards the rate limit and is recorded;
/// a success answers the token of a new session.
pub fn login(
    state: &mut AppState,
    stored: &CredentialRead,
    client: ClientAddr,
    password: &str,
    times: LoginTimes,
) -> (result: Result<String, AuthFailure>)
    requires
        times.settled <= rate_limit::LAST_MOMENT,
    ensures
        login_possible(
            old(state)@,
            credential::read_view(*stored),
            client,
            password@,
            times,
            final(state)@,
            failure::text_outcome(result),
        ),
        old(state)@.wf() ==> final(state)@.wf(),
{
    let ghost s = state@;
    let ghost row = credential::read_view(*stored);
    let ghost undrawn = Err::<Seq<u8>, Seq<char>>(Seq::empty());
    let hash = match begin_login(state, stored, client, times.checked) {
        Ok(hash) => hash,
        Err(failure) => {
            proof {
                let unused = Err::<bool, Seq<char>>(Seq::empty());
                assert((state@, Err::<Seq<char>, FailureView>(failure@)) == login_run(
                    s,
                    row,
                    client,
                    unused,
                    undrawn,
                    times,
                ));
            }
            return Err(failure);
        },
    };
    let verdict = check_offered(hash.as_str(), password);
    let ghost seen = password::verdict_result(verdict);
    if let Err(failure) = settle_login(state, client, verdict, times.settled) {
        assert((state@, Err::<Seq<char>, FailureView>(failure@)) == login_run(
            s,
            row,
            client,
            seen,
            undrawn,
            times,
        ));
        return Err(failure);
    }
    let ghost settled = state@;
    let result = complete_login(state, client, times.issued);
    proof {
        let drawn = choose|drawn: Result<Seq<u8>, Seq<char>>|
            {
                &&& drawn matches Ok(raw) ==> raw.len() == 32
                &&& (state@, failure::text_outcome(result)) == #[trigger] login_finished(
                    settled,
                    client,
                    drawn,
                    times.issued,
                )
            };
        assert((state@, failure::text_outcome(result)) == login_run(
            s,
            row,
            client,
            seen,
            drawn,
            times,
        ));
    }
    result
}

// ---------------------------------------------------------------------------
// The first password
// ---------------------------------------------------------------------------

/// The state once a password change is recorded; where no client is named, it is put down to the
/// one that the origin knows.
pub open spec fn change_recorded(
    s: StateView,
    origin: PasswordOrigin,
    client: Option<ClientAddr>,
) -> StateView {
    s.with_event(
        failure::event(
            SecurityEventType::WebAuthPasswordChanged,
            match client {
                Some(address) => Some(address),
                None => failure::origin_client(origin),
            },
            failure::origin_reason(origin),
        ),
    )
}

/// The state once a hash that was written at the Unix second `at` is cached.
pub open spec fn hash_cached(s: StateView, hash: Seq<char>, at: u64) -> StateView {
    StateView {
        credential: CredentialView {
            loaded: true,
            password_hash: Some(hash),
            updated_at: Some(at),
        },
        ..s
    }
}

/// What creating the first password comes to once a permitted password is hashed: the hash is to
/// be written, unless hashing failed, the table cannot be read, or there is a password already.
pub open spec fn initial_hashed(
    s: StateView,
    stored: Result<Option<StoredView>, Seq<char>>,
    hashed: Result<Seq<char>, Seq<char>>,
    origin: PasswordOrigin,
    client: Option<ClientAddr>,
) -> (StateView, Result<WriteView, FailureView>) {
    match hashed {
        Err(error) => (s, Err(FailureView::Internal(error))),
        Ok(hash) => {
            let ready = s.loaded(stored);
            match s.load_error(stored) {
                Some(error) => (ready, Err(FailureView::Internal(error))),
                None => if s.hash(stored) is Some {
                    (ready, Err(FailureView::AlreadyConfigured))
                } else {
                    (ready, Ok(WriteView { password_hash: hash, origin, client }))
                },
            }
        },
    }
}

/// What creating the first password comes to, given what hashing it came to.
pub open spec fn initial_prepared(
    s: StateView,
    stored: Result<Option<StoredView>, Seq<char>>,
    password: Seq<char>,
    hashed: Result<Seq<char>, Seq<char>>,
    origin: PasswordOrigin,
    client: Option<ClientAddr>,
) -> (StateView, Result<WriteView, FailureView>) {
    match password::password_problem(password) {
        Some(problem) => (s, Err(FailureView::Invalid(problem))),
        None => initial_hashed(s, stored, hashed, origin, client),
    }
}

/// Whether creating the first password can come to `after` and `result`: with something that
/// hashing the password can come to.
pub open spec fn initial_possible(
    s: StateView,
    stored: Result<Option<StoredView>, Seq<char>>,
    password: Seq<char>,
    origin: PasswordOrigin,
    client: Option<ClientAddr>,
    after: StateView,
    result: Result<WriteView, FailureView>,
) -> bool {
    exists|hashed: Result<Seq<char>, Seq<char>>|
        {
            &&& password::hash_possible(password, hashed)
            &&& (after, result) == #[trigger] initial_prepared(
                s,
                stored,
                password,
                hashed,
                origin,
                client,
            )
        }
}

/// A result of a write with its write and failure as views.
pub open spec fn write_outcome(result: Result<PasswordWrite, AuthFailure>) -> Result<
    WriteView,
    FailureView,
> {
    match result {
        Ok(write) => Ok(write@),
        Err(failure) => Err(failure@),
    }
}

/// A result of inserting a row with its error as a sequence of characters: the Unix second of the
/// write, or nothing where there is a row already.
pub open spec fn created_view(created: Result<Option<u64>, String>) -> Result<
    Option<u64>,
    Seq<char>,
> {
    match created {
        Ok(at) => Ok(at),
        Err(error) => Err(error@),
    }
}

/// A result of writing a row with its error as a sequence of characters.
pub open spec fn saved_view(saved: Result<u64, String>) -> Result<u64, Seq<char>> {
    match saved {
        Ok(at) => Ok(at),
        Err(error) => Err(error@),
    }
}

/// What creating the first password comes to after the attempt to insert it. Where a row was there
/// after all, it is read again and cached.
pub open spec fn initial_finished(
    s: StateView,
    write: WriteView,
    created: Result<Option<u64>, Seq<char>>,
    reread: Result<Option<StoredView>, Seq<char>>,
) -> (StateView, Result<(), FailureView>) {
    match created {
        Err(error) => (s, Err(FailureView::Internal(error))),
        Ok(None) => match reread {
            Err(error) => (s, Err(FailureView::Internal(error))),
            Ok(row) => (
                StateView { credential: credential::cached(row), ..s },
                Err(FailureView::AlreadyConfigured),
            ),
        },
        Ok(Some(at)) => (
            change_recorded(
                hash_cached(s, write.password_hash, at),
                write.origin,
                write.client,
            ),
            Ok(()),
        ),
    }
}

/// What the first setup comes to after the attempt to insert the password, given the bytes drawn
/// for the session.
pub open spec fn setup_finished(
    s: StateView,
    write: WriteView,
    created: Result<Option<u64>, Seq<char>>,
    reread: Result<Option<StoredView>, Seq<char>>,
    drawn: Result<Seq<u8>, Seq<char>>,
    now: u64,
) -> (StateView, Result<Seq<char>, FailureView>) {
    let (after, result) = initial_finished(s, write, created, reread);
    match result {
        Err(failure) => (after, Err(failure)),
        Ok(()) => session_issued(after, drawn, now),
    }
}

/// Whether the first setup can come to `after` and `result`: with some draw of 32 bytes.
pub open spec fn setup_possible(
    s: StateView,
    write: WriteView,
    created: Result<Option<u64>, Seq<char>>,
    reread: Result<Option<StoredView>, Seq<char>>,
    now: u64,
    after: StateView,
    result: Result<Seq<char>, FailureView>,
) -> bool {
    exists|drawn: Result<Seq<u8>, Seq<char>>|
        {
            &&& drawn matches Ok(raw) ==> raw.len() == 32
            &&& (after, result) == #[trigger] setup_finished(s, write, created, reread, drawn, now)
        }
}

/// Puts a password change down for the security log.
fn record_change(state: &mut AppState, origin: PasswordOrigin, client: Option<ClientAddr>)
    ensures
        final(state)@ == change_recorded(old(state)@, origin, client),
{
    let named: Option<ClientAddr> = match client {
        Some(address) => Some(address),
        None => origin.client_ip(),
    };
    record_event(
        &mut state.events,
        SecurityEventType::WebAuthPasswordChanged,
        named,
        origin.reason(),
    );
}

/// Creates the first password from what hashing it came to.
pub fn begin_initial_password(
    state: &mut AppState,
    stored: &CredentialRead,
    hashed: Result<String, String>,
    origin: PasswordOrigin,
    client: Option<ClientAddr>,
) -> (result: Result<PasswordWrite, AuthFailure>)
    ensures
        (final(state)@, write_outcome(result)) == initial_hashed(
            old(state)@,
            credential::read_view(*stored),
            password::text_result(hashed),
            origin,
            client,
        ),
        old(state)@.wf() ==> final(state)@.wf(),
{
    let hash = match hashed {
        Ok(hash) => hash,
        Err(error) => {
            return Err(AuthFailure::Internal(error));
        },
    };
    if let Err(error) = load_credential_cache(&mut state.web_auth.credential, stored) {
        return Err(AuthFailure::Internal(error));
    }
    if state.web_auth.credential.password_hash.is_some() {
        return Err(AuthFailure::AlreadyConfigured);
    }
    Ok(PasswordWrite { password_hash: hash, origin, client })
}

/// Creates the first password: answers the hash that is to be inserted into the credential table,
/// where there is no password yet.
pub fn create_initial_password(
    state: &mut AppState,
    stored: &CredentialRead,
    password: &str,
    origin: PasswordOrigin,
    client: Option<ClientAddr>,
) -> (result: Result<PasswordWrite, AuthFailure>)
    ensures
        initial_possible(
            old(state)@,
            credential::read_view(*stored),
            password@,
            origin,
            client,
            final(state)@,
            write_outcome(result),
        ),
        old(state)@.wf() ==> final(state)@.wf(),
{
    let ghost s = state@;
    let ghost row = credential::read_view(*stored);
    if let Err(failure) = validate_password(password) {
        proof {
            let hashed: Result<Seq<char>, Seq<char>> = Err("生成密码盐失败："@ + Seq::empty());
            assert(password::hash_possible(password@, hashed));
            assert((state@, Err::<WriteView, FailureView>(failure@)) == initial_prepared(
                s,
                row,
                password@,
                hashed,
                origin,
                client,
            ));
        }
        return Err(failure);
    }
    let hashed = hash_password(password);
    let ghost seen = password::text_result(hashed);
    let result = begin_initial_password(state, stored, hashed, origin, client);
    assert((state@, write_outcome(result)) == initial_prepared(
        s,
        row,
        password@,
        seen,
        origin,
        client,
    ));
    result
}

/// Finishes creating the first password after the attempt to insert it. The table's own uniqueness
/// has the last word: where a row was there after all, only `reread` is looked at.
pub fn finish_initial_password(
    state: &mut AppState,
    write: PasswordWrite,
    created: &Result<Option<u64>, String>,
    reread: &CredentialRead,
) -> (result: Result<(), AuthFailure>)
    ensures
        (final(state)@, failure::outcome(result)) == initial_finished(
            old(state)@,
            write@,
            created_view(*created),
            credential::read_view(*reread),
        ),
        old(state)@.wf() ==> final(state)@.wf(),
{
    match created {
        Err(error) => Err(AuthFailure::Internal(error.clone())),
        Ok(None) => match reread {
            Err(error) => Err(AuthFailure::Internal(error.clone())),
            Ok(row) => {
                state.web_auth.credential.adopt(row);
                Err(AuthFailure::AlreadyConfigured)
            },
        },
        Ok(Some(at)) => {
            state.web_auth.credential = CredentialCache {
                loaded: true,
                password_hash: Some(write.password_hash),
                updated_at: Some(*at),
            };
            record_change(state, write.origin, write.client);
            Ok(())
        },
    }
}

/// Begins the first setup from the web, which is open only while there is no password.
pub fn setup_password(
    state: &mut AppState,
    stored: &CredentialRead,
    client: ClientAddr,
    password: &str,
) -> (result: Result<PasswordWrite, AuthFailure>)
    ensures
        initial_possible(
            old(state)@,
            credential::read_view(*stored),
            password@,
            PasswordOrigin::WebSetup,
            Some(client),
            final(state)@,
            write_outcome(result),
        ),
        old(state)@.wf() ==> final(state)@.wf(),
{
    create_initial_password(state, stored, password, PasswordOrigin::WebSetup, Some(client))
}

/// Finishes the first setup: once the password is in place, it answers the token of a new session.
pub fn finish_setup(
    state: &mut AppState,
    write: PasswordWrite,
    created: &Result<Option<u64>, String>,
    reread: &CredentialRead,
    now: u64,
) -> (result: Result<String, AuthFailure>)
    ensures
        setup_possible(
            old(state)@,
            write@,
            created_view(*created),
            credential::read_view(*reread),
            now,
            final(state)@,
            failure::text_outcome(result),
        ),
        old(state)@.wf() ==> final(state)@.wf(),
{
    let ghost s = state@;
    let ghost inserted = created_view(*created);
    let ghost row = credential::read_view(*reread);
    let ghost view = write@;
    if let Err(failure) = finish_initial_password(state, write, created, reread) {
        proof {
            let undrawn = Err::<Seq<u8>, Seq<char>>(Seq::empty());
            assert((state@, Err::<Seq<char>, FailureView>(failure@)) == setup_finished(
                s,
                view,
                inserted,
                row,
                undrawn,
                now,
            ));
        }
        return Err(failure);
    }
    let ghost set = state@;
    let result = issue_session(state, now);
    proof {
        let drawn = choose|drawn: Result<Seq<u8>, Seq<char>>|
            {
                &&& drawn matches Ok(raw) ==> raw.len() == 32
                &&& (state@, failure::text_outcome(result)) == #[trigger] session_issued(
                    set,
                    drawn,
                    now,
                )
            };
        assert((state@, failure::text_outcome(result)) == setup_finished(
            s,
            view,
            inserted,
            row,
            drawn,
            now,
        ));
    }
    result
}

// ---------------------------------------------------------------------------
// Changing the password
// ---------------------------------------------------------------------------

/// The hash that the current password is checked against before a change, unless there is none.
pub open spec fn change_begun(s: StateView, stored: Result<Option<StoredView>, Seq<char>>) -> (
    StateView,
    Result<Seq<char>, FailureView>,
) {
    let ready = s.loaded(stored);
    match s.load_error(stored) {
        Some(error) => (ready, Err(FailureView::Internal(error))),
        None => match s.hash(stored) {
            None => (ready, Err(FailureView::SetupRequired)),
            Some(hash) => (ready, Ok(hash)),
        },
    }
}

/// What the verdict on the current password comes to: the new hash is to be written, or the failure
/// is recorded. Unlike a failed login, it does not count towards the rate limit.
pub open spec fn change_settled(
    s: StateView,
    client: ClientAddr,
    new_hash: Seq<char>,
    verdict: Result<bool, Seq<char>>,
) -> (StateView, Result<WriteView, FailureView>) {
    match verdict {
        Err(error) => (s, Err(FailureView::Internal(error))),
        Ok(false) => (
            s.with_event(
                failure::event(
                    SecurityEventType::WebAuthFailed,
                    Some(client),
                    "修改 Web 管理密码时当前密码错误"@,
                ),
            ),
            Err(FailureView::InvalidPassword),
        ),
        Ok(true) => (
            s,
            Ok(
                WriteView {
                    password_hash: new_hash,
                    origin: PasswordOrigin::WebChange,
                    client: Some(client),
                },
            ),
        ),
    }
}

/// What changing the password comes to before the write once a permitted new password is hashed,
/// given what checking the current one came to.
pub open spec fn change_hashed(
    s: StateView,
    stored: Result<Option<StoredView>, Seq<char>>,
    client: ClientAddr,
    hashed: Result<Seq<char>, Seq<char>>,
    verdict: Result<bool, Seq<char>>,
) -> (StateView, Result<WriteView, FailureView>) {
    match hashed {
        Err(error) => (s, Err(FailureView::Internal(error))),
        Ok(new_hash) => {
            let (ready, current) = change_begun(s, stored);
            match current {
                Err(failure) => (ready, Err(failure)),
                Ok(_) => change_settled(ready, client, new_hash, verdict),
            }
        },
    }
}

/// Whether changing the password to one that is hashed can come to `after` and `result`: with some
/// verdict that checking the current one can come to.
pub open spec fn change_hashed_possible(
    s: StateView,
    stored: Result<Option<StoredView>, Seq<char>>,
    client: ClientAddr,
    current_password: Seq<char>,
    hashed: Result<Seq<char>, Seq<char>>,
    after: StateView,
    result: Result<WriteView, FailureView>,
) -> bool {
    exists|verdict: Result<bool, Seq<char>>|
        {
            &&& change_begun(s, stored).1 matches Ok(hash) ==> password::verdict_possible(
                hash,
                current_password,
                verdict,
            )
            &&& (after, result) == #[trigger] change_hashed(s, stored, client, hashed, verdict)
        }
}

/// What changing the password comes to before the write, given what hashing the new password and
/// checking the current one came to.
pub open spec fn change_prepared(
    s: StateView,
    stored: Result<Option<StoredView>, Seq<char>>,
    client: ClientAddr,
    new_password: Seq<char>,
    hashed: Result<Seq<char>, Seq<char>>,
    verdict: Result<bool, Seq<char>>,
) -> (StateView, Result<WriteView, FailureView>) {
    match password::password_problem(new_password) {
        Some(problem) => (s, Err(FailureView::Invalid(problem))),
        None => change_hashed(s, stored, client, hashed, verdict),
    }
}

/// Whether changing the password can come to `after` and `result`: with something that hashing the
/// new password can come to, and some verdict that checking the current one can come to.
pub open spec fn change_possible(
    s: StateView,
    stored: Result<Option<StoredView>, Seq<char>>,
    client: ClientAddr,
    current_password: Seq<char>,
    new_password: Seq<char>,
    after: StateView,
    result: Result<WriteView, FailureView>,
) -> bool {
    exists|hashed: Result<Seq<char>, Seq<char>>, verdict: Result<bool, Seq<char>>|
        {
            &&& password::hash_possible(new_password, hashed)
            &&& change_begun(s, stored).1 matches Ok(hash) ==> password::verdict_possible(
                hash,
                current_password,
                verdict,
            )
            &&& (after, result) == #[trigger] change_prepared(
                s,
                stored,
                client,
                new_password,
                hashed,
                verdict,
            )
        }
}

/// What changing the password comes to after the write: of the sessions only the one with the
/// token stays.
pub open spec fn change_finished(
    s: StateView,
    write: WriteView,
    saved: Result<u64, Seq<char>>,
    token: Option<Seq<char>>,
) -> (StateView, Result<(), FailureView>) {
    match saved {
        Err(error) => (s, Err(FailureView::Internal(error))),
        Ok(at) => {
            let kept = match token {
                Some(value) => Some(session::key_of(value)),
                None => None,
            };
            let credential = CredentialView {
                password_hash: Some(write.password_hash),
                updated_at: Some(at),
                ..s.credential
            };
            (
                change_recorded(
                    StateView {
                        credential,
                        sessions: session::only_key(s.sessions, kept),
                        ..s
                    },
                    write.origin,
                    write.client,
                ),
                Ok(()),
            )
        },
    }
}

/// Finds the hash that the current password is checked against.
pub fn begin_change(state: &mut AppState, stored: &CredentialRead) -> (result: Result<
    String,
    AuthFailure,
>)
    ensures
        (final(state)@, failure::text_outcome(result)) == change_begun(
            old(state)@,
            credential::read_view(*stored),
        ),
        old(state)@.wf() ==> final(state)@.wf(),
{
    match credential_hash(&mut state.web_auth.credential, stored) {
        Ok(Some(hash)) => Ok(hash),
        Ok(None) => Err(AuthFailure::SetupRequired),
        Err(error) => Err(AuthFailure::Internal(error)),
    }
}

/// Acts on the verdict on the current password.
pub fn settle_change(
    state: &mut AppState,
    client: ClientAddr,
    new_hash: String,
    verdict: Result<bool, String>,
) -> (result: Result<PasswordWrite, AuthFailure>)
    ensures
        (final(state)@, write_outcome(result)) == change_settled(
            old(state)@,
            client,
            new_hash@,
            password::verdict_result(verdict),
        ),
        old(state)@.wf() ==> final(state)@.wf(),
{
    match verdict {
        Err(error) => Err(AuthFailure::Internal(error)),
        Ok(false) => {
            record_event(
                &mut state.events,
                SecurityEventType::WebAuthFailed,
                Some(client),
                "修改 Web 管理密码时当前密码错误",
            );
            Err(AuthFailure::InvalidPassword)
        },
        Ok(true) => Ok(
            PasswordWrite {
                password_hash: new_hash,
                origin: PasswordOrigin::WebChange,
                client: Some(client),
            },
        ),
    }
}

/// Changes the password to one that is permitted and has been hashed: checks the current one, and
/// answers the new hash that is to be written to the credential table.
pub fn change_to_hash(
    state: &mut AppState,
    stored: &CredentialRead,
    client: ClientAddr,
    current_password: &str,
    hashed: Result<String, String>,
) -> (result: Result<PasswordWrite, AuthFailure>)
    ensures
        change_hashed_possible(
            old(state)@,
            credential::read_view(*stored),
            client,
            current_password@,
            password::text_result(hashed),
            final(state)@,
            write_outcome(result),
        ),
        old(state)@.wf() ==> final(state)@.wf(),
{
    let ghost s = state@;
    let ghost row = credential::read_view(*stored);
    let ghost seen = password::text_result(hashed);
    // Some verdict on the current password is possible, whether or not it is asked for.
    let ghost some_verdict: Result<bool, Seq<char>> = match change_begun(s, row).1 {
        Ok(hash) => choose|v: Result<bool, Seq<char>>|
            password::verdict_possible(hash, current_password@, v),
        Err(_) => Ok(false),
    };
    proof {
        if let Ok(hash) = change_begun(s, row).1 {
            password::lemma_some_verdict(hash, current_password@);
        }
    }
    let new_hash = match hashed {
        Ok(hash) => hash,
        Err(error) => {
            assert((state@, Err::<WriteView, FailureView>(FailureView::Internal(error@)))
                == change_hashed(s, row, client, seen, some_verdict));
            return Err(AuthFailure::Internal(error));
        },
    };
    let current = match begin_change(state, stored) {
        Ok(hash) => hash,
        Err(failure) => {
            assert((state@, Err::<WriteView, FailureView>(failure@)) == change_hashed(
                s,
                row,
                client,
                seen,
                some_verdict,
            ));
            return Err(failure);
        },
    };
    let verdict = verify_password(current.as_str(), current_password);
    let ghost judged = password::verdict_result(verdict);
    let result = settle_change(state, client, new_hash, verdict);
    assert((state@, write_outcome(result)) == change_hashed(s, row, client, seen, judged));
    result
}

/// Changes the password: checks the current one, and answers the new hash that is to be written to
/// the credential table.
pub fn change_password(
    state: &mut AppState,
    stored: &CredentialRead,
    client: ClientAddr,
    current_password: &str,
    new_password: &str,
) -> (result: Result<PasswordWrite, AuthFailure>)
    ensures
        change_possible(
            old(state)@,
            credential::read_view(*stored),
            client,
            current_password@,
            new_password@,
            final(state)@,
            write_outcome(result),
        ),
        old(state)@.wf() ==> final(state)@.wf(),
{
    let ghost s = state@;
    let ghost row = credential::read_view(*stored);
    if let Err(failure) = validate_password(new_password) {
        proof {
            let unhashed: Result<Seq<char>, Seq<char>> = Err(
                "生成密码盐失败："@ + Seq::empty(),
            );
            assert(password::hash_possible(new_password@, unhashed));
            let verdict: Result<bool, Seq<char>> = match change_begun(s, row).1 {
                Ok(hash) => choose|v: Result<bool, Seq<char>>|
                    password::verdict_possible(hash, current_password@, v),
                Err(_) => Ok(false),
            };
            if let Ok(hash) = change_begun(s, row).1 {
                password::lemma_some_verdict(hash, current_password@);
            }
            assert((state@, Err::<WriteView, FailureView>(failure@)) == change_prepared(
                s,
                row,
                client,
                new_password@,
                unhashed,
                verdict,
            ));
        }
        return Err(failure);
    }
    let hashed = hash_password(new_password);
    let ghost seen = password::text_result(hashed);
    let result = change_to_hash(state, stored, client, current_password, hashed);
    proof {
        let verdict = choose|verdict: Result<bool, Seq<char>>|
            {
                &&& change_begun(s, row).1 matches Ok(hash) ==> password::verdict_possible(
                    hash,
                    current_password@,
                    verdict,
                )
                &&& (state@, write_outcome(result)) == #[trigger] change_hashed(
                    s,
                    row,
                    client,
                    seen,
                    verdict,
                )
            };
        assert((state@, write_outcome(result)) == change_prepared(
            s,
            row,
            client,
            new_password@,
            seen,
            verdict,
        ));
    }
    result
}

/// Finishes changing the password after the write: every session but this one ends.
///
/// Nothing may have changed the credential since the current password was checked, so the state
/// stays locked from that check to this call. The next change is then checked against the password
/// that this one set, and no two can pass on the same one.
pub fn finish_change_password(
    state: &mut AppState,
    write: PasswordWrite,
    saved: &Result<u64, String>,
    cookie_header: Option<&str>,
) -> (result: Result<(), AuthFailure>)
    ensures
        (final(state)@, failure::outcome(result)) == change_finished(
            old(state)@,
            write@,
            saved_view(*saved),
            cookie::header_token(cookie_header),
        ),
        old(state)@.wf() ==> final(state)@.wf(),
{
    let at: u64 = match saved {
        Ok(at) => *at,
        Err(error) => {
            return Err(AuthFailure::Internal(error.clone()));
        },
    };
    state.web_auth.credential.password_hash = Some(write.password_hash);
    state.web_auth.credential.updated_at = Some(at);
    record_change(state, write.origin, write.client);
    match token_of_header(cookie_header) {
        Some(token) => {
            let key: [u8; 32] = token_key(token.as_str());
            retain_only_session(&mut state.web_auth.sessions, Some(&key));
        },
        None => {
            retain_only_session(&mut state.web_auth.sessions, None);
        },
    }
    Ok(())
}

// ---------------------------------------------------------------------------
// Setting and resetting the password on this machine
// ---------------------------------------------------------------------------

/// What storing a password comes to before the write, given what hashing it came to.
pub open spec fn store_prepared(
    password: Seq<char>,
    hashed: Result<Seq<char>, Seq<char>>,
    origin: PasswordOrigin,
    client: Option<ClientAddr>,
) -> Result<WriteView, FailureView> {
    match password::password_problem(password) {
        Some(problem) => Err(FailureView::Invalid(problem)),
        None => match hashed {
            Err(error) => Err(FailureView::Internal(error)),
            Ok(hash) => Ok(WriteView { password_hash: hash, origin, client }),
        },
    }
}

/// Whether storing a password can come to `result` before the write: with something that hashing
/// it can come to.
pub open spec fn store_possible(
    password: Seq<char>,
    origin: PasswordOrigin,
    client: Option<ClientAddr>,
    result: Result<WriteView, FailureView>,
) -> bool {
    exists|hashed: Result<Seq<char>, Seq<char>>|
        {
            &&& password::hash_possible(password, hashed)
            &&& result == #[trigger] store_prepared(password, hashed, origin, client)
        }
}

/// What storing a password comes to after the write.
pub open spec fn store_finished(s: StateView, write: WriteView, saved: Result<u64, Seq<char>>) -> (
    StateView,
    Result<(), FailureView>,
) {
    match saved {
        Err(error) => (s, Err(FailureView::Internal(error))),
        Ok(at) => (
            change_recorded(
                hash_cached(s, write.password_hash, at),
                write.origin,
                write.client,
            ),
            Ok(()),
        ),
    }
}

/// What setting the password on this machine comes to after the write: every session ends.
pub open spec fn local_finished(s: StateView, write: WriteView, saved: Result<u64, Seq<char>>) -> (
    StateView,
    Result<(), FailureView>,
) {
    let (after, result) = store_finished(s, write, saved);
    (
        if result is Ok {
            StateView { sessions: Seq::empty(), ..after }
        } else {
            after
        },
        result,
    )
}

/// Turns what hashing a permitted password came to into what is to be written.
pub fn write_of_hash(
    hashed: Result<String, String>,
    origin: PasswordOrigin,
    client: Option<ClientAddr>,
) -> (result: Result<PasswordWrite, AuthFailure>)
    ensures
        write_outcome(result) == match hashed {
            Ok(hash) => Ok(WriteView { password_hash: hash@, origin, client }),
            Err(error) => Err(FailureView::Internal(error@)),
        },
{
    match hashed {
        Ok(hash) => Ok(PasswordWrite { password_hash: hash, origin, client }),
        Err(error) => Err(AuthFailure::Internal(error)),
    }
}

/// Stores a password whether or not there is one: answers the hash that is to be written.
pub fn store_password(password: &str, origin: PasswordOrigin, client: Option<ClientAddr>) -> (result:
    Result<PasswordWrite, AuthFailure>)
    ensures
        store_possible(password@, origin, client, write_outcome(result)),
{
    if let Err(failure) = validate_password(password) {
        proof {
            let hashed: Result<Seq<char>, Seq<char>> = Err("生成密码盐失败："@ + Seq::empty());
            assert(password::hash_possible(password@, hashed));
            assert(Err::<WriteView, FailureView>(failure@) == store_prepared(
                password@,
                hashed,
                origin,
                client,
            ));
        }
        return Err(failure);
    }
    let hashed = hash_password(password);
    let ghost seen = password::text_result(hashed);
    let result = write_of_hash(hashed, origin, client);
    assert(write_outcome(result) == store_prepared(password@, seen, origin, client));
    result
}

/// Finishes storing a password after the write.
pub fn finish_store_password(
    state: &mut AppState,
    write: PasswordWrite,
    saved: &Result<u64, String>,
) -> (result: Result<(), AuthFailure>)
    ensures
        (final(state)@, failure::outcome(result)) == store_finished(
            old(state)@,
            write@,
            saved_view(*saved),
        ),
        old(state)@.wf() ==> final(state)@.wf(),
{
    match saved {
        Err(error) => Err(AuthFailure::Internal(error.clone())),
        Ok(at) => {
            state.web_auth.credential = CredentialCache {
                loaded: true,
                password_hash: Some(write.password_hash),
                updated_at: Some(*at),
            };
            record_change(state, write.origin, write.client);
            Ok(())
        },
    }
}

/// Sets the password from this machine: answers the hash that is to be written.
pub fn set_password_locally(password: &str, origin: PasswordOrigin) -> (result: Result<
    PasswordWrite,
    AuthFailure,
>)
    ensures
        store_possible(password@, origin, None, write_outcome(result)),
{
    store_password(password, origin, None)
}

/// Finishes setting the password from this machine after the write: no browser that is logged in
/// goes on with the old password.
pub fn finish_set_password_locally(
    state: &mut AppState,
    write: PasswordWrite,
    saved: &Result<u64, String>,
) -> (result: Result<(), AuthFailure>)
    ensures
        (final(state)@, failure::outcome(result)) == local_finished(
            old(state)@,
            write@,
            saved_view(*saved),
        ),
        old(state)@.wf() ==> final(state)@.wf(),
{
    let result = finish_store_password(state, write, saved);
    if result.is_ok() {
        invalidate_sessions(state);
    }
    result
}

/// What resetting the password comes to, given whether clearing the table removed a row.
pub open spec fn reset_run(s: StateView, cleared: Result<bool, Seq<char>>) -> (
    StateView,
    Result<bool, FailureView>,
) {
    match cleared {
        Err(error) => (s, Err(FailureView::Internal(error))),
        Ok(removed) => {
            let empty = StateView {
                credential: credential::cached(None),
                sessions: Seq::empty(),
                ..s
            };
            (
                if removed {
                    change_recorded(empty, PasswordOrigin::LocalReset, None)
                } else {
                    empty
                },
                Ok(removed),
            )
        },
    }
}

/// Forgets the password and every session, which is how someone on this machine recovers from a
/// lost password. Tells whether there was a password.
pub fn reset_password(state: &mut AppState, cleared: &Result<bool, String>) -> (result: Result<
    bool,
    AuthFailure,
>)
    ensures
        (final(state)@, failure::outcome(result)) == reset_run(
            old(state)@,
            password::verdict_result(*cleared),
        ),
        old(state)@.wf() ==> final(state)@.wf(),
{
    match cleared {
        Err(error) => Err(AuthFailure::Internal(error.clone())),
        Ok(removed) => {
            state.web_auth.credential.adopt(&None);
            invalidate_sessions(state);
            if *removed {
                record_change(state, PasswordOrigin::LocalReset, None);
            }
            Ok(*removed)
        },
    }
}

// ---------------------------------------------------------------------------
// Status
// ---------------------------------------------------------------------------

/// What `web-auth status` and the first page of the front end show.
#[derive(Debug, Clone, Copy, PartialEq, Eq, Structural)]
pub struct WebAuthStatus {
    /// Whether there is an administration password.
    pub configured: bool,
    /// The Unix second at which the password was last written.
    pub updated_at: Option<u64>,
    /// How many sessions are alive.
    pub active_sessions: usize,
}

/// The state and the status at `now`.
pub open spec fn status_run(
    s: StateView,
    stored: Result<Option<StoredView>, Seq<char>>,
    now: u64,
) -> (StateView, Result<WebAuthStatus, FailureView>) {
    let ready = s.loaded(stored);
    match s.load_error(stored) {
        Some(error) => (ready, Err(FailureView::Internal(error))),
        None => {
            let living = session::alive(ready.sessions, ready.idle(), now);
            (
                StateView { sessions: living, ..ready },
                Ok(
                    WebAuthStatus {
                        configured: s.hash(stored) is Some,
                        updated_at: ready.credential.updated_at,
                        active_sessions: living.len() as usize,
                    },
                ),
            )
        },
    }
}

/// Tells whether there is a password, since when, and how many sessions are alive.
pub fn status(state: &mut AppState, stored: &CredentialRead, now: u64) -> (result: Result<
    WebAuthStatus,
    AuthFailure,
>)
    ensures
        (final(state)@, failure::outcome(result)) == status_run(
            old(state)@,
            credential::read_view(*stored),
            now,
        ),
        old(state)@.wf() ==> final(state)@.wf(),
        old(state)@.wf() ==> (result matches Ok(told) ==> told.configured
            == told.updated_at.is_some()),
{
    let configured: bool = match credential_hash(&mut state.web_auth.credential, stored) {
        Ok(hash) => hash.is_some(),
        Err(error) => {
            return Err(AuthFailure::Internal(error));
        },
    };
    let updated_at: Option<u64> = state.web_auth.credential.updated_at;
    let idle: u64 = idle_timeout(state);
    let active_sessions: usize = active_session_count(&mut state.web_auth.sessions, idle, now);
    Ok(WebAuthStatus { configured, updated_at, active_sessions })
}

} // verus!
