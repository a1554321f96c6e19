//! Laws of the smaller calls, of which the larger ones are made and which a caller can make one by
//! one.

use vstd::prelude::*;

use crate::arguments::{self, Argument};
use crate::credential::{self, CredentialCache, CredentialRead, PasswordWrite, WriteView};
use crate::failure::{self, AuthFailure, ClientAddr, FailureView, PasswordOrigin};
use crate::failure::{EventView, SecurityEvent, SecurityEventType};
use crate::headless::{self, PasswordPrompt, Step, StepView, TaskView};
use crate::laws_of_access;
use crate::laws_of_changes;
use crate::laws_of_limits;
use crate::laws_of_passwords;
use crate::laws_of_text;
use crate::local_time;
use crate::password;
use crate::rate_limit::{self, ClientAttempts, RateLimitState};
use crate::sequences;
use crate::session::{self, SessionEntry, SessionView};
use crate::startup::{self, FileFacts, FileStep};
use crate::text;
use crate::web_auth::{self, AppConfig, AppState, StateView};

verus! {

// ---------------------------------------------------------------------------
// Texts
// ---------------------------------------------------------------------------

/// A number reads back from its decimal text, and bytes from their hexadecimal text.
pub proof fn law_writing_numbers(n: u64, written: String, bytes: &[u8], digits: String)
    requires
        call_ensures(text::decimal_text, (n,), written),
        call_ensures(text::hex_text, (bytes,), digits),
    ensures
        laws_of_text::decimal_value(written@) == n,
        digits@.len() == 2 * bytes@.len(),
        forall|k: int|
            #![trigger bytes@[k]]
            0 <= k < bytes@.len() ==> bytes@[k] == 16 * laws_of_text::hex_value(digits@[2 * k])
                + laws_of_text::hex_value(digits@[2 * k + 1]),
{
    laws_of_text::law_decimals_read_back(n as nat);
    laws_of_text::law_tokens_read_back(bytes@, bytes@);
}

/// Two texts are the same exactly where all their characters are, and joining them keeps all of
/// both.
pub proof fn law_comparing_and_joining(
    left: &str,
    right: &str,
    same: bool,
    both: String,
)
    requires
        call_ensures(text::same_text, (left, right), same),
        call_ensures(text::joined, (left, right), both),
    ensures
        same <==> left@ == right@,
        both@ == left@ + right@,
{
}

/// Cutting line ends off leaves the rest of the text.
pub proof fn law_cutting_line_ends(whole: &str, kept: String)
    requires
        call_ensures(text::without_line_ends, (whole,), kept),
    ensures
        kept@.len() <= whole@.len(),
        kept@ == whole@.take(kept@.len() as int),
        forall|i: int|
            kept@.len() <= i < whole@.len() ==> laws_of_text::ends_a_line(#[trigger] whole@[i]),
        kept@.len() > 0 ==> !laws_of_text::ends_a_line(kept@.last()),
{
    laws_of_text::law_line_ends_are_all_that_goes(whole@);
}

/// A failure has its code and its message, and a lockout says its seconds.
pub proof fn law_wording_failures(failure: AuthFailure, code: &'static str, message: String)
    requires
        call_ensures(AuthFailure::code, (&failure,), code),
        call_ensures(AuthFailure::message, (&failure,), message),
    ensures
        match failure {
            AuthFailure::SetupRequired => code@ == "setup_required"@,
            AuthFailure::AlreadyConfigured => code@ == "already_configured"@,
            AuthFailure::Unauthenticated => code@ == "unauthenticated"@,
            AuthFailure::InvalidPassword => code@ == "invalid_password"@ && message@ == "密码错误"@,
            AuthFailure::Locked { retry_after_seconds } => code@ == "locked"@ && message@
                == "登录失败次数过多，请在 "@ + text::decimal(retry_after_seconds as nat)
                + " 秒后重试"@,
            AuthFailure::Invalid(why) => code@ == "invalid_request"@ && message@ == why@,
            AuthFailure::Internal(why) => code@ == "internal_error"@ && message@ == why@,
        },
{
}

/// An event is added at the end, of its client, or of this machine where there is none.
pub proof fn law_recording_an_event(
    events: &mut Vec<SecurityEvent>,
    event_type: SecurityEventType,
    client: Option<ClientAddr>,
    reason: &str,
)
    requires
        call_ensures(failure::record_event, (events, event_type, client, reason), ()),
    ensures
        failure::event_views(final(events)@) == failure::event_views(old(events)@).push(
            EventView {
                event_type,
                client: match client {
                    Some(address) => address,
                    None => ClientAddr::V4(127, 0, 0, 1),
                },
                reason: reason@,
            },
        ),
{
}

// ---------------------------------------------------------------------------
// Passwords
// ---------------------------------------------------------------------------

/// A password can never have been stored exactly where it is too long or holds a control character.
pub proof fn law_what_is_never_stored(offered: &str, never: bool)
    requires
        call_ensures(password::is_never_stored, (offered,), never),
    ensures
        never <==> vstd::utf8::encode_utf8(offered@).len() > 128
            || laws_of_passwords::has_control_character(offered@),
{
    laws_of_passwords::law_which_passwords_are_permitted(offered@);
}

/// With a salt drawn, the hash is made with it; without one, the error says so.
pub proof fn law_hashing_with_what_was_drawn(
    chosen: &str,
    drawn: Result<[u8; 16], String>,
    hashed: Result<String, String>,
)
    requires
        call_ensures(password::hash_with_drawn, (chosen, drawn), hashed),
    ensures
        drawn is Ok && hashed is Ok ==> hashed->Ok_0@ == crate::crypto::argon2id_phc(
            vstd::utf8::encode_utf8(chosen@),
            drawn->Ok_0@,
            19456,
            2,
            1,
        ) && laws_of_passwords::confirms(hashed->Ok_0@, chosen@),
        drawn is Err ==> hashed is Err && hashed->Err_0@ == "生成密码盐失败："@ + drawn->Err_0@,
{
    if let Ok(salt) = drawn {
        laws_of_passwords::law_a_salted_hash_is_of_the_whole_password(
            chosen@,
            salt@,
            password::text_result(hashed),
        );
    }
}

/// A verdict stays what it is, and an error of the check is worded as one.
pub proof fn law_wording_a_check(checked: Result<bool, String>, verdict: Result<bool, String>)
    requires
        call_ensures(password::verdict_of_check, (checked,), verdict),
    ensures
        checked matches Ok(right) ==> verdict == Ok::<bool, String>(right),
        checked matches Err(error) ==> verdict is Err && verdict->Err_0@ == "校验管理密码失败："@
            + error@,
{
}

/// What is read of the stored password is remembered, and its hash handed on; what was read before
/// stays.
pub proof fn law_reading_the_hash(
    cache: &mut CredentialCache,
    stored: &CredentialRead,
    result: Result<Option<String>, String>,
)
    requires
        call_ensures(credential::credential_hash, (cache, stored), result),
    ensures
        ({
            let before = old(cache)@;
            let after = final(cache)@;
            &&& before.loaded ==> after == before && result is Ok && credential::opt_text(
                result->Ok_0,
            ) == before.password_hash
            &&& !before.loaded && stored is Err ==> after == before && result is Err
                && result->Err_0@ == stored->Err_0@
            &&& !before.loaded && stored is Ok && stored->Ok_0 is None ==> after.loaded
                && after.password_hash is None && after.updated_at is None && result is Ok
                && result->Ok_0 is None
            &&& !before.loaded && stored is Ok && stored->Ok_0 is Some ==> after.loaded
                && after.password_hash == Some(stored->Ok_0->0.password_hash@)
                && after.updated_at == Some(stored->Ok_0->0.updated_at) && result is Ok
                && result->Ok_0 is Some && result->Ok_0->0@ == stored->Ok_0->0.password_hash@
        }),
{
}

// ---------------------------------------------------------------------------
// Sessions
// ---------------------------------------------------------------------------

/// Whether a session is alive with this idle time in seconds.
pub open spec fn is_within(x: SessionView, idle: u64, now: u64) -> bool {
    now - x.created_at <= 43_200_000_000_000 && now - x.last_seen_at <= idle * 1_000_000_000
}

/// The sessions that are alive with this idle time in seconds are those so seen.
proof fn lemma_within(sessions: Seq<SessionView>, idle: u64, now: u64)
    ensures
        session::alive(sessions, idle, now) == sessions.filter(
            |x: SessionView| is_within(x, idle, now),
        ),
{
    let raw = |x: SessionView| is_within(x, idle, now);
    assert(raw =~= session::is_alive(idle, now));
}

/// The key of a token is the SHA-256 digest of all of it, and keys are equal only byte for byte.
pub proof fn law_keys_of_tokens(
    token: &str,
    key: [u8; 32],
    left: &[u8; 32],
    right: &[u8; 32],
    equal: bool,
)
    requires
        call_ensures(session::token_key, (token,), key),
        call_ensures(session::constant_time_eq, (left, right), equal),
    ensures
        key@ == crate::crypto::sha256(vstd::utf8::encode_utf8(token@)),
        equal <==> left@ == right@,
{
}

/// Pruning leaves the living sessions, in their order, and counting counts those.
pub proof fn law_pruning(
    sessions: &mut Vec<SessionEntry>,
    counted: &mut Vec<SessionEntry>,
    idle: u64,
    now: u64,
    count: usize,
)
    requires
        call_ensures(session::prune_sessions, (sessions, idle, now), ()),
        call_ensures(session::active_session_count, (counted, idle, now), count),
    ensures
        session::session_views(final(sessions)@) == session::session_views(
            old(sessions)@,
        ).filter(|x: SessionView| is_within(x, idle, now)),
        session::session_views(final(counted)@) == session::session_views(old(counted)@).filter(
            |x: SessionView| is_within(x, idle, now),
        ),
        count == final(counted)@.len(),
{
    lemma_within(session::session_views(old(sessions)@), idle, now);
    lemma_within(session::session_views(old(counted)@), idle, now);
    assert(session::session_views(final(counted)@).len() == final(counted)@.len());
}

/// A session is found exactly where one with its key is alive, and is seen now.
pub proof fn law_touching(
    sessions: &mut Vec<SessionEntry>,
    key: &[u8; 32],
    idle: u64,
    now: u64,
    found: bool,
)
    requires
        call_ensures(session::touch_session, (sessions, key, idle, now), found),
    ensures
        found <==> exists|i: int|
            0 <= i < session::session_views(old(sessions)@).len() && (
            #[trigger] session::session_views(old(sessions)@)[i]).key == key@ && is_within(
                session::session_views(old(sessions)@)[i],
                idle,
                now,
            ),
        found ==> exists|i: int|
            0 <= i < session::session_views(final(sessions)@).len() && (
            #[trigger] session::session_views(final(sessions)@)[i]).key == key@
                && session::session_views(final(sessions)@)[i].last_seen_at == now,
        final(sessions)@.len() <= old(sessions)@.len(),
{
    let before = session::session_views(old(sessions)@);
    let raw = |x: SessionView| is_within(x, idle, now);
    let living = session::alive(before, idle, now);
    let after = session::session_views(final(sessions)@);
    lemma_within(before, idle, now);
    sequences::lemma_filtered(before, raw);
    if found {
        let i = choose|i: int| 0 <= i < living.len() && (#[trigger] living[i]).key == key@;
        assert(raw(living[i]));
        let k = choose|k: int| 0 <= k < before.len() && before[k] == living[i];
        assert(before[k].key == key@);
        session::lemma_last_exists(living, key@);
        let at = choose|i: int| session::is_last_with_key(living, key@, i);
        session::lemma_touched(living, key@, now, at);
        assert(after[at].key == key@ && after[at].last_seen_at == now);
    }
    if exists|i: int|
        0 <= i < before.len() && (#[trigger] before[i]).key == key@ && is_within(
            before[i],
            idle,
            now,
        ) {
        let k = choose|i: int|
            0 <= i < before.len() && (#[trigger] before[i]).key == key@ && is_within(
                before[i],
                idle,
                now,
            );
        assert(raw(before[k]));
        assert(living.contains(before[k]));
        let i = choose|i: int| 0 <= i < living.len() && living[i] == before[k];
        assert(living[i].key == key@);
    }
}

/// Removing a key takes the sessions with it away and no other; retaining a key takes all others
/// away, and retaining none takes all.
pub proof fn law_removing_and_retaining(
    sessions: &mut Vec<SessionEntry>,
    others: &mut Vec<SessionEntry>,
    all: &mut Vec<SessionEntry>,
    key: &[u8; 32],
)
    requires
        call_ensures(session::remove_session, (sessions, key), ()),
        call_ensures(session::retain_only_session, (others, Some(key)), ()),
        call_ensures(session::retain_only_session, (all, None::<&[u8; 32]>), ()),
    ensures
        session::session_views(final(sessions)@) == session::session_views(
            old(sessions)@,
        ).filter(|x: SessionView| x.key != key@),
        session::session_views(final(others)@) == session::session_views(old(others)@).filter(
            |x: SessionView| x.key == key@,
        ),
        final(all)@.len() == 0,
{
    let other = |x: SessionView| x.key != key@;
    let own = |x: SessionView| x.key == key@;
    assert(other =~= session::not_keyed(key@));
    assert(own =~= session::keyed(key@));
    assert(session::session_views(final(all)@).len() == final(all)@.len());
}

/// A session opens under the token of the bytes drawn, behind the living ones, of which the first
/// goes where there are sixteen.
pub proof fn law_opening_a_session(
    sessions: &mut Vec<SessionEntry>,
    drawn: Result<[u8; 32], String>,
    idle: u64,
    now: u64,
    result: Result<String, AuthFailure>,
)
    requires
        call_ensures(session::issue_session_with, (sessions, drawn, idle, now), result),
    ensures
        drawn is Ok ==> {
            let living = session::session_views(old(sessions)@).filter(
                |x: SessionView| is_within(x, idle, now),
            );
            let after = session::session_views(final(sessions)@);
            &&& result is Ok
            &&& result->Ok_0@ == session::token_text(drawn->Ok_0@)
            &&& after.last().key == laws_of_access::digest(result->Ok_0@)
            &&& after.last().created_at == now
            &&& after.last().last_seen_at == now
            &&& after.drop_last() == if living.len() < 16 {
                living
            } else {
                living.remove(0)
            }
        },
        drawn is Err ==> result is Err && result->Err_0@ == FailureView::Internal(
            "生成会话 token 失败："@ + drawn->Err_0@,
        ) && session::session_views(final(sessions)@) == session::session_views(old(sessions)@),
{
    lemma_within(session::session_views(old(sessions)@), idle, now);
    if let Ok(raw) = drawn {
        let living = session::alive(session::session_views(old(sessions)@), idle, now);
        let after = session::session_views(final(sessions)@);
        let added = SessionView {
            key: session::key_of(session::token_text(raw@)),
            created_at: now,
            last_seen_at: now,
        };
        if living.len() < 16 {
            assert(living.push(added).drop_last() =~= living);
        } else {
            assert(living.remove(0).push(added).drop_last() =~= living.remove(0));
        }
    }
}

/// The idle time and the mark of the cookie come from the configuration.
pub proof fn law_asking_the_configuration(state: &AppState, idle: u64, secure: bool)
    requires
        call_ensures(web_auth::idle_timeout, (state,), idle),
        call_ensures(web_auth::secure_cookie_enabled, (state,), secure),
    ensures
        state.config matches Some(config) ==> idle == config.web_admin_session_idle_minutes * 60
            && secure == config.web_admin_secure_cookie,
        state.config is None ==> idle == 3600 && !secure,
{
    laws_of_access::law_the_cookie_is_secure_where_configured(state@);
}

/// A new state has nothing remembered, nobody logged in, no failures and no events.
pub proof fn law_beginning(config: Option<AppConfig>, state: AppState)
    requires
        call_ensures(AppState::new, (config,), state),
    ensures
        state.config == config,
        !state@.credential.loaded,
        state@.credential.password_hash is None,
        state@.sessions.len() == 0,
        state@.rate_limit.clients.len() == 0,
        state@.rate_limit.global_failures == 0,
        state@.rate_limit.global_locked_until is None,
        state@.events.len() == 0,
{
}

// ---------------------------------------------------------------------------
// The rate limit
// ---------------------------------------------------------------------------

/// Evicting leaves the records that still count, without the oldest of them where there would be no
/// room for one more, and nothing else changes.
pub proof fn law_evicting(limit: &mut RateLimitState, now: u64)
    requires
        old(limit)@.clients.len() <= 1024,
        call_ensures(rate_limit::evict_stale_attempts, (limit, now), ()),
    ensures
        ({
            let counting = old(limit)@.clients.filter(
                |entry: (ClientAddr, ClientAttempts)|
                    laws_of_limits::still_counts(entry.1, now),
            );
            &&& counting.len() < 1024 ==> final(limit)@.clients == counting
            &&& counting.len() >= 1024 ==> exists|i: int| #[trigger]
                laws_of_limits::is_the_oldest(counting, i) && final(limit)@.clients
                    == counting.remove(i)
            &&& final(limit)@.global_failures == old(limit)@.global_failures
            &&& final(limit)@.global_window_started_at == old(limit)@.global_window_started_at
            &&& final(limit)@.global_locked_until == old(limit)@.global_locked_until
        }),
{
    laws_of_limits::law_what_is_forgotten(old(limit)@.clients, now);
}

/// A rejected login is counted, recorded and answered.
pub proof fn law_rejecting_a_login(
    state: &mut AppState,
    client: ClientAddr,
    now: u64,
    failure: AuthFailure,
)
    requires
        call_ensures(web_auth::reject_login, (state, client, now), failure),
    ensures
        laws_of_passwords::is_counted_failure(
            old(state)@,
            client,
            now,
            final(state)@,
            failure@,
        ),
{
    laws_of_passwords::law_a_wrong_password_is_counted(old(state)@, client, now);
}

/// A session that is issued has a token of sixty-four digits, under which it is the last one.
pub proof fn law_issuing_a_session(state: &mut AppState, now: u64, token: String)
    requires
        call_ensures(web_auth::issue_session, (state, now), Ok(token)),
    ensures
        token@.len() == 64,
        laws_of_access::is_one_session_more(old(state)@, final(state)@.sessions, token@, now),
        final(state)@ == (StateView { sessions: final(state)@.sessions, ..old(state)@ }),
{
    laws_of_access::law_an_issued_token_opens_a_session(
        old(state)@,
        now,
        final(state)@,
        Ok(token@),
    );
}

/// A session that is issued with bytes drawn has the token of those bytes.
pub proof fn law_issuing_what_was_drawn(
    state: &mut AppState,
    drawn: [u8; 32],
    now: u64,
    result: Result<String, AuthFailure>,
)
    requires
        call_ensures(web_auth::issue_drawn, (state, Ok(drawn), now), result),
    ensures
        result is Ok,
        result->Ok_0@ == session::token_text(drawn@),
        laws_of_access::is_one_session_more(
            old(state)@,
            final(state)@.sessions,
            session::token_text(drawn@),
            now,
        ),
        final(state)@ == (StateView { sessions: final(state)@.sessions, ..old(state)@ }),
{
    laws_of_access::law_a_session_is_opened(old(state)@, Ok(drawn@), now);
}

/// Completing a login opens a session and records it.
pub proof fn law_completing_a_login(
    state: &mut AppState,
    client: ClientAddr,
    now: u64,
    token: String,
)
    requires
        call_ensures(web_auth::complete_login, (state, client, now), Ok(token)),
    ensures
        token@.len() == 64,
        laws_of_access::is_one_session_more(old(state)@, final(state)@.sessions, token@, now),
        final(state)@.events == old(state)@.events.push(
            EventView {
                event_type: SecurityEventType::WebAuthLogin,
                client,
                reason: "Web 管理登录成功"@,
            },
        ),
        final(state)@.rate_limit == old(state)@.rate_limit,
        final(state)@.credential == old(state)@.credential,
{
    laws_of_passwords::law_a_completed_login_has_its_token(
        old(state)@,
        client,
        now,
        final(state)@,
        Ok(token@),
    );
}

// ---------------------------------------------------------------------------
// Setting and changing the password
// ---------------------------------------------------------------------------

/// The first setup with a hash at hand writes that hash where no password is known, and otherwise
/// says why not.
pub proof fn law_beginning_a_setup(
    state: &mut AppState,
    stored: &CredentialRead,
    hash: String,
    origin: PasswordOrigin,
    client: Option<ClientAddr>,
    result: Result<PasswordWrite, AuthFailure>,
)
    requires
        call_ensures(
            web_auth::begin_initial_password,
            (state, stored, Ok(hash), origin, client),
            result,
        ),
    ensures
        ({
            let known = laws_of_access::known_hash(old(state)@, credential::read_view(*stored));
            &&& known matches Err(error) ==> result is Err && result->Err_0@
                == FailureView::Internal(error)
            &&& known is Ok && known->Ok_0 is Some ==> result is Err && result->Err_0@
                == FailureView::AlreadyConfigured
            &&& known is Ok && known->Ok_0 is None ==> result is Ok && result->Ok_0@ == (
            WriteView { password_hash: hash@, origin, client })
            &&& final(state)@ == laws_of_changes::looked_at(
                old(state)@,
                credential::read_view(*stored),
            )
        }),
{
    laws_of_changes::law_the_first_setup_needs_an_empty_place(
        old(state)@,
        credential::read_view(*stored),
        Ok(hash@),
        origin,
        client,
    );
}

/// An initial password is a hash of the whole of it, where it is permitted and none is known.
pub proof fn law_creating_an_initial_password(
    state: &mut AppState,
    stored: &CredentialRead,
    chosen: &str,
    origin: PasswordOrigin,
    client: Option<ClientAddr>,
    result: Result<PasswordWrite, AuthFailure>,
)
    requires
        call_ensures(
            web_auth::create_initial_password,
            (state, stored, chosen, origin, client),
            result,
        ),
    ensures
        !laws_of_passwords::is_permitted(chosen@) <==> result is Err && result->Err_0@ is Invalid,
        result matches Ok(write) ==> {
            &&& laws_of_access::known_hash(old(state)@, credential::read_view(*stored)) == Ok::<
                Option<Seq<char>>,
                Seq<char>,
            >(None)
            &&& laws_of_passwords::is_hash_of(write.password_hash@, chosen@)
            &&& write.origin == origin
            &&& write.client == client
        },
        final(state)@.sessions == old(state)@.sessions,
        final(state)@.events == old(state)@.events,
        final(state)@.rate_limit == old(state)@.rate_limit,
{
    laws_of_changes::law_the_first_setup_writes_the_whole_password(
        old(state)@,
        credential::read_view(*stored),
        chosen@,
        origin,
        client,
        final(state)@,
        web_auth::write_outcome(result),
    );
}

/// A first password that was inserted is remembered and recorded; where another was there first,
/// that one is remembered.
pub proof fn law_finishing_an_initial_password(
    state: &mut AppState,
    write: PasswordWrite,
    created: &Result<Option<u64>, String>,
    reread: &CredentialRead,
    result: Result<(), AuthFailure>,
)
    requires
        call_ensures(web_auth::finish_initial_password, (state, write, created, reread), result),
    ensures
        result is Ok <==> created is Ok && created->Ok_0 is Some,
        result is Ok ==> laws_of_changes::is_written(
            old(state)@,
            write@,
            created->Ok_0->0,
            final(state)@,
        ) && final(state)@.credential.loaded,
        created is Ok && created->Ok_0 is None && reread is Ok ==> {
            &&& result->Err_0@ == FailureView::AlreadyConfigured
            &&& final(state)@.events == old(state)@.events
            &&& reread->Ok_0 is Some ==> final(state)@.credential.password_hash == Some(
                reread->Ok_0->0.password_hash@,
            )
        },
        created is Err ==> final(state)@ == old(state)@ && result->Err_0@
            == FailureView::Internal(created->Err_0@),
        final(state)@.sessions == old(state)@.sessions,
{
    laws_of_changes::law_the_first_setup_is_remembered(
        old(state)@,
        write@,
        web_auth::created_view(*created),
        credential::read_view(*reread),
    );
}

/// A change begins with the hash that is known, and is settled by the verdict on the current
/// password.
pub proof fn law_the_steps_of_a_change(
    state: &mut AppState,
    stored: &CredentialRead,
    begun: Result<String, AuthFailure>,
    middle: &mut AppState,
    client: ClientAddr,
    new_hash: String,
    verdict: Result<bool, String>,
    settled: Result<PasswordWrite, AuthFailure>,
)
    requires
        call_ensures(web_auth::begin_change, (state, stored), begun),
        call_ensures(web_auth::settle_change, (middle, client, new_hash, verdict), settled),
    ensures
        begun matches Ok(hash) ==> laws_of_access::known_hash(
            old(state)@,
            credential::read_view(*stored),
        ) == Ok::<Option<Seq<char>>, Seq<char>>(Some(hash@)),
        begun is Err && begun->Err_0@ is SetupRequired <==> laws_of_access::known_hash(
            old(state)@,
            credential::read_view(*stored),
        ) == Ok::<Option<Seq<char>>, Seq<char>>(None),
        settled is Ok <==> verdict == Ok::<bool, String>(true),
        settled matches Ok(write) ==> write.password_hash@ == new_hash@ && write.origin
            == PasswordOrigin::WebChange && write.client == Some(client) && final(middle)@ == old(
            middle,
        )@,
        verdict == Ok::<bool, String>(false) ==> settled->Err_0@ == FailureView::InvalidPassword
            && final(middle)@ == (StateView {
            events: old(middle)@.events.push(laws_of_changes::wrong_change_event(client)),
            ..old(middle)@
        }),
{
    laws_of_changes::law_a_change_begins_with_a_password(
        old(state)@,
        credential::read_view(*stored),
    );
    laws_of_changes::law_a_verdict_settles_the_change(
        old(middle)@,
        client,
        new_hash@,
        password::verdict_result(verdict),
    );
}

/// With the hash of a new password at hand, a change needs the whole of the current one.
pub proof fn law_changing_to_a_hash(
    state: &mut AppState,
    stored: &CredentialRead,
    client: ClientAddr,
    current: &str,
    new_hash: String,
    write: PasswordWrite,
)
    requires
        call_ensures(
            web_auth::change_to_hash,
            (state, stored, client, current, Ok(new_hash)),
            Ok(write),
        ),
    ensures
        laws_of_access::known_hash(old(state)@, credential::read_view(*stored)) matches Ok(
            Some(hash),
        ) && laws_of_passwords::confirms(hash, current@),
        write.password_hash@ == new_hash@,
        write.origin == PasswordOrigin::WebChange,
        write.client == Some(client),
{
    laws_of_changes::law_a_change_needs_the_whole_password(
        old(state)@,
        credential::read_view(*stored),
        client,
        current@,
        Ok(new_hash@),
        final(state)@,
        Ok(write@),
    );
}

/// Storing a password prepares a hash of the whole of it, and once it is saved it is remembered and
/// recorded; no session ends.
pub proof fn law_storing_a_password(
    chosen: &str,
    origin: PasswordOrigin,
    client: Option<ClientAddr>,
    write: PasswordWrite,
    state: &mut AppState,
    saved: &Result<u64, String>,
    result: Result<(), AuthFailure>,
)
    requires
        call_ensures(web_auth::store_password, (chosen, origin, client), Ok(write)),
        call_ensures(web_auth::finish_store_password, (state, write, saved), result),
    ensures
        laws_of_passwords::is_permitted(chosen@),
        laws_of_passwords::is_hash_of(write.password_hash@, chosen@),
        write.origin == origin,
        write.client == client,
        result is Ok <==> saved is Ok,
        saved is Ok ==> laws_of_changes::is_written(
            old(state)@,
            write@,
            saved->Ok_0,
            final(state)@,
        ),
        saved is Err ==> final(state)@ == old(state)@,
        final(state)@.sessions == old(state)@.sessions,
{
    laws_of_changes::law_a_stored_password_is_whole(chosen@, origin, client, Ok(write@));
    laws_of_changes::law_a_stored_password_is_remembered(
        old(state)@,
        write@,
        web_auth::saved_view(*saved),
    );
}

// ---------------------------------------------------------------------------
// The password file
// ---------------------------------------------------------------------------

/// A password file is acceptable exactly where it is a regular file of at most four kilobytes.
pub proof fn law_checking_a_password_file(
    facts: &Result<FileFacts, String>,
    result: Result<(), String>,
)
    requires
        call_ensures(startup::check_password_file, (facts,), result),
    ensures
        result is Ok <==> facts is Ok && facts->Ok_0.is_file && facts->Ok_0.len <= 4096,
        facts is Err ==> result->Err_0@ == "无法读取文件信息："@ + facts->Err_0@,
{
}

/// A failed attempt with a password file is an error that says why, unless there is a password
/// already.
pub proof fn law_judging_an_attempt(
    path: &str,
    attempt: Result<PasswordWrite, AuthFailure>,
    result: Result<FileStep, String>,
)
    requires
        call_ensures(startup::step_of_attempt, (path, attempt), result),
    ensures
        attempt is Ok ==> result is Ok && result->Ok_0 is Insert && result->Ok_0->Insert_0@
            == attempt->Ok_0@,
        attempt is Err && attempt->Err_0@ is AlreadyConfigured ==> result is Ok
            && result->Ok_0 is Ignore,
        attempt is Err && !(attempt->Err_0@ is AlreadyConfigured) ==> result is Err
            && result->Err_0@ == laws_of_changes::file_is_unusable(
            path@,
            failure::failure_message(attempt->Err_0@),
        ),
{
    laws_of_changes::law_an_attempt_with_a_file_is_judged(
        path@,
        web_auth::write_outcome(attempt),
    );
}

/// A password of a file that was inserted is remembered, recorded and reported by its path.
pub proof fn law_finishing_a_password_file(
    state: &mut AppState,
    path: &str,
    write: PasswordWrite,
    created: &Result<Option<u64>, String>,
    reread: &CredentialRead,
    result: Result<String, String>,
)
    requires
        call_ensures(
            startup::finish_password_file,
            (state, path, write, created, reread),
            result,
        ),
    ensures
        created is Ok && created->Ok_0 is Some ==> {
            &&& result is Ok
            &&& result->Ok_0@ == "已从 "@ + path@ + " 设置 Web 管理密码"@
            &&& laws_of_changes::is_written(old(state)@, write@, created->Ok_0->0, final(state)@)
        },
        created is Ok && created->Ok_0 is None && reread is Ok ==> result is Ok && result->Ok_0@
            == laws_of_changes::file_is_ignored(path@),
        created is Err ==> result is Err && final(state)@ == old(state)@,
        final(state)@.sessions == old(state)@.sessions,
{
    let at = web_auth::created_view(*created);
    let row = credential::read_view(*reread);
    laws_of_changes::law_a_password_file_is_reported(old(state)@, path@, write@, at, row);
    laws_of_changes::law_the_first_setup_is_remembered(old(state)@, write@, at, row);
}

/// The start looks at the stored password once and changes nothing else; its lines say whether
/// there is one.
pub proof fn law_logging_the_start(
    state: &mut AppState,
    stored: &CredentialRead,
    listen: &str,
    lines: Vec<String>,
)
    requires
        call_ensures(startup::log_startup_state, (state, stored, listen), lines),
    ensures
        final(state)@ == laws_of_changes::looked_at(old(state)@, credential::read_view(*stored)),
        match laws_of_access::known_hash(old(state)@, credential::read_view(*stored)) {
            Err(error) => lines@.len() == 1 && lines@[0]@ == "[错误] 检查 Web 管理凭据失败："@
                + error,
            Ok(Some(_)) => lines@.len() == 1 && lines@[0]@ == "Web 管理认证：已设置管理密码"@,
            Ok(None) => lines@.len() == 6 && lines@[2]@ == "请立即访问 http://"@ + listen@
                + " 完成设置：在此之前除首次设置页外"@,
        },
{
    let read = credential::read_view(*stored);
    laws_of_access::law_the_password_is_read_once(old(state)@, read);
    laws_of_changes::law_the_start_says_whether_a_password_is_set(old(state)@, read, listen@);
    let seen = text::texts(lines@);
    assert(seen.len() == lines@.len());
    assert(seen[0] == lines@[0]@ || lines@.len() == 0);
    assert(seen[2] == lines@[2]@ || lines@.len() < 3);
}

// ---------------------------------------------------------------------------
// Commands
// ---------------------------------------------------------------------------

/// A command line does what the function of its command does from the third argument on.
pub proof fn law_commands_are_their_functions(
    arguments: &Vec<Argument>,
    web_admin: bool,
    version: &str,
    run: Result<Step, String>,
    serve: Result<Step, String>,
    status: Result<Step, String>,
    healthcheck: Result<Step, String>,
    filters: Result<Step, String>,
    config: Result<Step, String>,
    system_dns: Result<Step, String>,
    web_auth: Result<Step, String>,
    command: Seq<char>,
)
    requires
        call_ensures(headless::run, (arguments, web_admin, version), run),
        call_ensures(headless::serve, (arguments, 2usize, web_admin), serve),
        call_ensures(headless::status, (arguments, 2usize), status),
        call_ensures(headless::healthcheck, (arguments, 2usize), healthcheck),
        call_ensures(headless::filters, (arguments, 2usize), filters),
        call_ensures(headless::config, (arguments, 2usize), config),
        call_ensures(headless::system_dns, (arguments, 2usize), system_dns),
        call_ensures(headless::web_auth, (arguments, 2usize), web_auth),
        arguments@.len() > 1,
        arguments::argument_views(arguments@)[1] == Some(command),
    ensures
        command == "serve"@ ==> headless::step_result(run) == headless::step_result(serve),
        command == "status"@ ==> headless::step_result(run) == headless::step_result(status),
        command == "healthcheck"@ ==> headless::step_result(run) == headless::step_result(
            healthcheck,
        ),
        command == "filters"@ ==> headless::step_result(run) == headless::step_result(filters),
        command == "config"@ ==> headless::step_result(run) == headless::step_result(config),
        command == "system-dns"@ ==> headless::step_result(run) == headless::step_result(
            system_dns,
        ),
        command == "web-auth"@ && web_admin ==> headless::step_result(run)
            == headless::step_result(web_auth),
{
    crate::laws_of_commands::lemma_command_names();
}

/// `system-dns restore` does what its function does from the fourth argument on.
pub proof fn law_a_restore_is_its_function(
    arguments: &Vec<Argument>,
    web_admin: bool,
    version: &str,
    run: Result<Step, String>,
    restore: Result<Step, String>,
)
    requires
        call_ensures(headless::run, (arguments, web_admin, version), run),
        call_ensures(headless::system_dns_restore, (arguments, 3usize), restore),
        arguments@.len() > 2,
        arguments::argument_views(arguments@)[1] == Some("system-dns"@),
        arguments::argument_views(arguments@)[2] == Some("restore"@),
    ensures
        headless::step_result(run) == headless::step_result(restore),
{
    crate::laws_of_commands::law_system_dns_goes_by_its_operation(
        arguments::argument_views(arguments@),
        web_admin,
        version@,
    );
}

/// A configuration that was read is applied as it is, or only reported valid; it is refused from
/// standard input.
pub proof fn law_importing(
    path: &str,
    checked: Result<(), String>,
    config: &str,
    applied: Step,
    reported: Step,
)
    requires
        call_ensures(headless::read_and_validate_config, (Some(path),), checked),
        call_ensures(headless::import_config, (true, config), applied),
        call_ensures(headless::import_config, (false, config), reported),
    ensures
        checked is Err <==> arguments::is_dash_path(path@),
        applied@ == StepView::Call(
            "save_config"@,
            "{\"config\":"@ + config@ + "}"@,
            TaskView::Print,
        ),
        reported@ == StepView::Done("配置有效\n"@),
{
}

/// An export goes to the path, or with a line end to standard output; what could not be written is
/// an error.
pub proof fn law_exporting(
    written: Result<String, String>,
    path: usize,
    to_stdout: bool,
    result: Result<Step, String>,
)
    requires
        call_ensures(headless::export_config, (written, path, to_stdout), result),
    ensures
        result is Ok <==> written is Ok,
        written is Ok && to_stdout ==> result->Ok_0@ == StepView::Done(written->Ok_0@ + "\n"@),
        written is Ok && !to_stdout ==> result->Ok_0@ == StepView::WriteFile(
            path as int,
            written->Ok_0@,
        ),
        written is Err ==> result->Err_0@ == "序列化配置失败："@ + written->Err_0@,
{
}

/// The service is healthy exactly where its resolver is known to run, and a reset says that it
/// cleared a password exactly where it did.
pub proof fn law_judging_replies(
    running: Option<bool>,
    health: Result<Step, String>,
    cleared: Option<bool>,
    told: &'static str,
)
    requires
        call_ensures(headless::health_verdict, (running,), health),
        call_ensures(headless::reset_text, (cleared,), told),
    ensures
        health is Ok <==> running == Some(true),
        told@ == if cleared == Some(true) {
            "已清除 Web 管理密码与全部会话；管理页面会回到首次设置状态\n"@
        } else {
            "当前没有已设置的 Web 管理密码，无需清除\n"@
        },
{
}

/// The status in words says whether the resolver runs, whether it runs by itself, and an error that
/// is not empty.
pub proof fn law_wording_the_status(
    running: bool,
    enabled: bool,
    error: Option<String>,
    shown: String,
)
    requires
        call_ensures(headless::status_text, (running, enabled, error), shown),
    ensures
        shown@ == "服务：已连接\nDNS："@ + (if running {
            "运行中"@
        } else {
            "已停止"@
        }) + "\n自动运行："@ + (if enabled {
            "启用"@
        } else {
            "关闭"@
        }) + "\n"@ + (if error is Some && error->0@.len() > 0 {
            "最近错误："@ + error->0@ + "\n"@
        } else {
            Seq::empty()
        }),
{
    let known = "服务：已连接\nDNS："@ + (if running {
        "运行中"@
    } else {
        "已停止"@
    }) + "\n自动运行："@ + (if enabled {
        "启用"@
    } else {
        "关闭"@
    }) + "\n"@;
    if error is Some && error->0@.len() > 0 {
        assert(shown@ =~= known + ("最近错误："@ + error->0@ + "\n"@));
    } else {
        assert(shown@ =~= known + Seq::empty());
    }
}

/// A terminal is asked twice and shown which line it waits for; anything else is read once, and
/// shown nothing.
pub proof fn law_prompting(
    terminal: bool,
    prompt: PasswordPrompt,
    shown: Option<&'static str>,
)
    requires
        call_ensures(headless::first_prompt, (terminal,), prompt),
        call_ensures(headless::prompt_hidden, (&prompt,), shown),
    ensures
        terminal ==> prompt is First && shown is Some && shown->0@ == "请输入新的 Web 管理密码："@,
        !terminal ==> prompt is Piped && shown is None,
{
}

/// A second is shown in a zone by its date there.
pub proof fn law_showing_a_second_in_a_zone(seconds: u64, offset: i32, shown: String)
    requires
        call_ensures(local_time::format_in_zone, (seconds, offset), shown),
    ensures
        seconds <= 8_210_266_876_799 ==> shown@ == local_time::moment_text(
            seconds as i64,
            offset,
            "%Y-%m-%d %H:%M:%S"@,
        ),
        seconds > 8_210_266_876_799 ==> shown@ == "Unix "@ + text::decimal(seconds as nat),
{
    laws_of_text::law_a_second_is_shown_in_its_zone(seconds, offset);
}

} // verus!
