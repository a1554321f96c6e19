//! Laws of single calls, and of calls one after another: what whatever comes back from a function
//! of this library means for its caller.

use vstd::prelude::*;

use crate::arguments::{self, Argument};
use crate::cookie;
use crate::credential::{self, CredentialRead, PasswordWrite};
use crate::crypto;
use crate::failure::{
    AuthFailure, ClientAddr, EventView, FailureView, PasswordOrigin, SecurityEventType,
};
use crate::headless::{self, PasswordPrompt, PromptStep, PromptStepView, PromptView, Step, StepView};
use crate::headless::{Task, TaskView};
use crate::json;
use crate::laws_of_access;
use crate::laws_of_changes;
use crate::laws_of_commands;
use crate::laws_of_limits;
use crate::laws_of_passwords;
use crate::laws_of_text;
use crate::local_time;
use crate::password;
use crate::rate_limit::{self, RateLimitState};
use crate::session;
use crate::startup::{self, FileDecision, FileFacts, FileStep};
use crate::text;
use crate::web_auth::{self, AppState, AuthOutcome, LoginTimes, StateView, WebAuthStatus};

verus! {

// ---------------------------------------------------------------------------
// Passwords
// ---------------------------------------------------------------------------

/// A password is valid exactly where it is permitted.
pub proof fn law_validating(chosen: &str, result: Result<(), AuthFailure>)
    requires
        call_ensures(password::validate_password, (chosen,), result),
    ensures
        result is Ok <==> laws_of_passwords::is_permitted(chosen@),
        result is Err ==> result->Err_0@ is Invalid && Some(result->Err_0@->Invalid_0)
            == password::password_problem(chosen@),
{
    laws_of_passwords::law_which_passwords_are_permitted(chosen@);
}

/// Hashing gives a hash of the whole password, which confirms it.
pub proof fn law_hashing(chosen: &str, salt: [u8; 16], salted: String, hash: String)
    requires
        call_ensures(password::hash_with_salt, (chosen, salt), Ok(salted)),
        call_ensures(password::hash_password, (chosen,), Ok(hash)),
    ensures
        salted@ == crypto::argon2id_phc(
            vstd::utf8::encode_utf8(chosen@),
            salt@,
            19456,
            2,
            1,
        ),
        laws_of_passwords::confirms(salted@, chosen@),
        laws_of_passwords::is_hash_of(hash@, chosen@),
{
    laws_of_passwords::law_a_salted_hash_is_of_the_whole_password(chosen@, salt@, Ok(salted@));
    laws_of_passwords::law_a_hash_is_of_the_whole_password(chosen@, Ok(hash@));
}

/// Verifying says of a password what Argon2 says of the UTF-8 bytes of the whole of it.
pub proof fn law_verifying(stored: &str, offered: &str, verdict: Result<bool, String>)
    requires
        call_ensures(password::verify_password, (stored, offered), verdict),
    ensures
        verdict matches Ok(right) ==> crypto::phc_fault(stored@) is None && crypto::argon2_verdict(
            stored@,
            vstd::utf8::encode_utf8(offered@),
        ) == Ok::<bool, Seq<char>>(right),
        laws_of_passwords::is_verdict_on(
            stored@,
            offered@,
            match verdict {
                Ok(right) => Ok(right),
                Err(error) => Err(error@),
            },
        ),
{
    laws_of_passwords::law_the_whole_password_is_compared(
        stored@,
        offered@,
        password::verdict_result(verdict),
    );
}

/// What is offered at a login is right only where Argon2 confirms the whole of it, and wrong where
/// it can never have been stored.
pub proof fn law_checking_what_is_offered(
    stored: &str,
    offered: &str,
    verdict: Result<bool, String>,
)
    requires
        call_ensures(password::check_offered, (stored, offered), verdict),
    ensures
        verdict == Ok::<bool, String>(true) ==> laws_of_passwords::confirms(stored@, offered@),
        vstd::utf8::encode_utf8(offered@).len() > 128 || laws_of_passwords::has_control_character(
            offered@,
        ) ==> verdict == Ok::<bool, String>(false),
{
    laws_of_passwords::law_the_whole_password_is_compared(
        stored@,
        offered@,
        password::verdict_result(verdict),
    );
}

// ---------------------------------------------------------------------------
// Cookies
// ---------------------------------------------------------------------------

/// The cookie that is handed out for a token, read back, gives all of that token.
pub proof fn law_handing_out_a_cookie(
    token: &str,
    secure: bool,
    cookie: String,
    header: &str,
    found: Option<String>,
)
    requires
        token@.len() > 0,
        laws_of_text::is_trimmed(token@),
        laws_of_text::lacks(token@, ';'),
        call_ensures(cookie::session_cookie, (token, secure), cookie),
        header@ == cookie@,
        call_ensures(cookie::token_of_header, (Some(header),), found),
    ensures
        found matches Some(value) && value@ == token@,
{
    laws_of_text::law_a_handed_out_cookie_brings_its_token_back(token@, secure);
}

/// The cookie that is taken back gives no token.
pub proof fn law_taking_a_cookie_back(
    secure: bool,
    cookie: String,
    header: &str,
    found: Option<String>,
)
    requires
        call_ensures(cookie::cleared_session_cookie, (secure,), cookie),
        header@ == cookie@,
        call_ensures(cookie::token_of_header, (Some(header),), found),
    ensures
        found is None,
{
    laws_of_text::law_a_cleared_cookie_holds_no_token(secure);
}

/// The token of a header is the one that the header holds.
pub proof fn law_reading_a_cookie(header: Option<&str>, found: Option<String>)
    requires
        call_ensures(cookie::token_of_header, (header,), found),
    ensures
        match header {
            Some(value) => match cookie::session_token(value@) {
                Some(token) => found is Some && found->0@ == token,
                None => found is None,
            },
            None => found is None,
        },
{
}

// ---------------------------------------------------------------------------
// The rate limit
// ---------------------------------------------------------------------------

/// A client is kept out exactly while a lockout of everyone runs or its own does.
pub proof fn law_looking_for_a_lockout(
    limit: &mut RateLimitState,
    client: ClientAddr,
    now: u64,
    result: Result<(), AuthFailure>,
)
    requires
        laws_of_limits::one_record_each(old(limit)@.clients),
        call_ensures(rate_limit::check_lockout, (limit, client, now), result),
    ensures
        result is Err <==> {
            ||| laws_of_limits::runs(old(limit)@.global_locked_until, now)
            ||| exists|i: int|
                0 <= i < old(limit)@.clients.len() && (#[trigger] old(limit)@.clients[i]).0
                    == client && laws_of_limits::runs(old(limit)@.clients[i].1.locked_until, now)
        },
        final(limit)@.clients == old(limit)@.clients,
{
    laws_of_limits::law_who_is_kept_out(old(limit)@, client, now);
    laws_of_limits::law_looking_changes_only_what_has_ended(old(limit)@, client, now);
}

/// A failure that brings a lockout of the client keeps it out for the seconds told, and no longer,
/// unless a lockout of everyone runs.
pub proof fn law_a_failure_and_a_look_later(
    limit: &mut RateLimitState,
    client: ClientAddr,
    now: u64,
    told: Option<u64>,
    next: &mut RateLimitState,
    later: u64,
    result: Result<(), AuthFailure>,
)
    requires
        old(limit)@.wf(),
        now <= 0xffff_ffff_ffff_ffff - 900_000_000_000,
        call_ensures(rate_limit::record_failure, (limit, client, now), told),
        old(next)@ == final(limit)@,
        call_ensures(rate_limit::check_lockout, (next, client, later), result),
        !laws_of_limits::runs(old(next)@.global_locked_until, later),
        exists|i: int|
            0 <= i < old(next)@.clients.len() && (#[trigger] old(next)@.clients[i]).0 == client
                && old(next)@.clients[i].1.failures >= 5,
    ensures
        told is Some,
        result is Err <==> later < now + told->0 * 1_000_000_000,
{
    let after = final(limit)@;
    let i = choose|i: int|
        0 <= i < after.clients.len() && (#[trigger] after.clients[i]).0 == client
            && after.clients[i].1.failures >= 5;
    laws_of_limits::law_a_rate_limit_is_bounded(old(limit)@);
    laws_of_limits::law_a_failure_tells_its_lockout(old(limit)@, client, now, i);
    laws_of_limits::law_a_lockout_lasts_its_time(old(limit)@, client, now, i, later);
}

/// A failure leaves a record of its client whose last failure is now, and clearing leaves none.
pub proof fn law_failing_and_clearing(
    limit: &mut RateLimitState,
    client: ClientAddr,
    now: u64,
    told: Option<u64>,
    next: &mut RateLimitState,
)
    requires
        old(limit)@.wf(),
        call_ensures(rate_limit::record_failure, (limit, client, now), told),
        old(next)@ == final(limit)@,
        call_ensures(rate_limit::clear_failures, (next, client), ()),
    ensures
        final(limit)@ == rate_limit::after_failure(old(limit)@, client, now),
        told == rate_limit::failure_lockout(old(limit)@, client, now),
        exists|i: int|
            0 <= i < final(limit)@.clients.len() && (#[trigger] final(limit)@.clients[i]).0
                == client && final(limit)@.clients[i].1.last_failure_at == now,
        forall|i: int|
            0 <= i < final(next)@.clients.len() ==> (#[trigger] final(next)@.clients[i]).0
                != client,
        forall|i: int|
            0 <= i < final(limit)@.clients.len() && (#[trigger] final(limit)@.clients[i]).0
                != client ==> final(next)@.clients.contains(final(limit)@.clients[i]),
{
    let kept = rate_limit::after_eviction(old(limit)@.clients, now);
    let after = final(limit)@.clients;
    laws_of_limits::law_a_rate_limit_is_bounded(old(limit)@);
    laws_of_limits::law_a_failure_is_recorded(old(limit)@, client, now);
    if exists|i: int| 0 <= i < kept.len() && (#[trigger] kept[i]).0 == client {
        let i = choose|i: int| 0 <= i < kept.len() && (#[trigger] kept[i]).0 == client;
        assert(after[i].0 == client);
    } else {
        assert(after[kept.len() as int].0 == client);
    }
    laws_of_limits::law_forgetting_is_of_one_client(final(limit)@, client);
}

// ---------------------------------------------------------------------------
// Access
// ---------------------------------------------------------------------------

/// A request is let in exactly where a password is known and one of the sessions is alive and is
/// that of the token in its header.
pub proof fn law_authorizing(
    state: &mut AppState,
    stored: &CredentialRead,
    header: Option<&str>,
    now: u64,
    outcome: AuthOutcome,
)
    requires
        call_ensures(web_auth::authorize, (state, stored, header, now), outcome),
    ensures
        outcome is Authorized <==> {
            &&& laws_of_access::known_hash(old(state)@, credential::read_view(*stored)) matches Ok(
                Some(_),
            )
            &&& header is Some
            &&& cookie::session_token(header->0@) is Some
            &&& laws_of_access::holds_a_session(
                old(state)@,
                cookie::session_token(header->0@)->0,
                now,
            )
        },
        final(state)@.rate_limit == old(state)@.rate_limit,
        final(state)@.events == old(state)@.events,
        final(state)@.config == old(state)@.config,
{
    laws_of_access::law_access_goes_by_the_session(
        old(state)@,
        credential::read_view(*stored),
        cookie::header_token(header),
        now,
    );
}

/// After logging out the token of the header has no session, and every other session is there.
pub proof fn law_logging_out(state: &mut AppState, header: &str, token: Seq<char>)
    requires
        call_ensures(web_auth::logout, (state, Some(header)), ()),
        cookie::session_token(header@) == Some(token),
    ensures
        forall|i: int|
            0 <= i < final(state)@.sessions.len() ==> (#[trigger] final(state)@.sessions[i]).key
                != laws_of_access::digest(token),
        forall|i: int|
            0 <= i < old(state)@.sessions.len() && (#[trigger] old(state)@.sessions[i]).key
                != laws_of_access::digest(token) ==> final(state)@.sessions.contains(
                old(state)@.sessions[i],
            ),
        final(state)@ == (StateView { sessions: final(state)@.sessions, ..old(state)@ }),
{
    laws_of_access::law_logout_is_of_one_token(old(state)@, Some(token));
}

/// Ending every session leaves none.
pub proof fn law_ending_every_session(state: &mut AppState)
    requires
        call_ensures(web_auth::invalidate_sessions, (state,), ()),
    ensures
        final(state)@.sessions.len() == 0,
        final(state)@ == (StateView { sessions: final(state)@.sessions, ..old(state)@ }),
{
}

/// The status counts the living sessions and says whether there is a password.
pub proof fn law_asking_for_the_status(
    state: &mut AppState,
    stored: &CredentialRead,
    now: u64,
    told: WebAuthStatus,
)
    requires
        old(state)@.sessions.len() <= 16,
        call_ensures(web_auth::status, (state, stored, now), Ok(told)),
    ensures
        laws_of_access::known_hash(old(state)@, credential::read_view(*stored)) == Ok::<
            Option<Seq<char>>,
            Seq<char>,
        >(final(state)@.credential.password_hash),
        told.configured == (final(state)@.credential.password_hash is Some),
        told.updated_at == final(state)@.credential.updated_at,
        told.active_sessions == laws_of_access::living(
            old(state)@.sessions,
            old(state)@.config,
            now,
        ).len(),
        final(state)@.sessions == laws_of_access::living(
            old(state)@.sessions,
            old(state)@.config,
            now,
        ),
{
    laws_of_access::law_the_status_counts_what_lives(
        old(state)@,
        credential::read_view(*stored),
        now,
    );
}

// ---------------------------------------------------------------------------
// Logging in
// ---------------------------------------------------------------------------

/// A login answers with a token only where Argon2 confirms the UTF-8 bytes of the whole password
/// against the hash that is known, and the client is not kept out.
pub proof fn law_logging_in(
    state: &mut AppState,
    stored: &CredentialRead,
    client: ClientAddr,
    offered: &str,
    times: LoginTimes,
    token: String,
)
    requires
        call_ensures(web_auth::login, (state, stored, client, offered, times), Ok(token)),
    ensures
        laws_of_access::known_hash(old(state)@, credential::read_view(*stored)) matches Ok(
            Some(hash),
        ) && crypto::argon2_verdict(hash, vstd::utf8::encode_utf8(offered@)) == Ok::<
            bool,
            Seq<char>,
        >(true),
        rate_limit::locked_for(old(state)@.rate_limit, client, times.checked) is None,
        token@.len() == 64,
        laws_of_access::is_one_session_more(
            old(state)@,
            final(state)@.sessions,
            token@,
            times.issued,
        ),
        final(state)@.events == old(state)@.events.push(
            EventView {
                event_type: SecurityEventType::WebAuthLogin,
                client,
                reason: "Web 管理登录成功"@,
            },
        ),
{
    laws_of_passwords::law_a_login_needs_the_whole_password(
        old(state)@,
        credential::read_view(*stored),
        client,
        offered@,
        times,
        final(state)@,
        token@,
    );
}

/// A login without a token is told why: that there is no password, that it is locked out, or that
/// the password is wrong; a client that is not kept out is never told that it is unless it failed
/// just now.
pub proof fn law_failing_to_log_in(
    state: &mut AppState,
    stored: &CredentialRead,
    client: ClientAddr,
    offered: &str,
    times: LoginTimes,
    failure: AuthFailure,
)
    requires
        call_ensures(web_auth::login, (state, stored, client, offered, times), Err(failure)),
    ensures
        ({
            let s = old(state)@;
            let read = credential::read_view(*stored);
            let known = laws_of_access::known_hash(s, read);
            let locked = rate_limit::locked_for(s.rate_limit, client, times.checked);
            &&& known matches Err(error) ==> failure@ == FailureView::Internal(error)
            &&& known == Ok::<Option<Seq<char>>, Seq<char>>(None) ==> failure@
                == FailureView::SetupRequired
            &&& known is Ok && known->Ok_0 is Some && locked is Some ==> failure@
                == FailureView::Locked(locked->0)
            &&& known is Ok && known->Ok_0 is Some && locked is None && failure@ is Locked ==> {
                ||| !laws_of_passwords::confirms(known->Ok_0->0, offered@)
                ||| vstd::utf8::encode_utf8(offered@).len() > 128
                ||| laws_of_passwords::has_control_character(offered@)
            }
            &&& failure@ is InvalidPassword ==> {
                ||| !laws_of_passwords::confirms(known->Ok_0->0, offered@)
                ||| vstd::utf8::encode_utf8(offered@).len() > 128
                ||| laws_of_passwords::has_control_character(offered@)
            }
            &&& final(state)@.sessions == s.sessions
        }),
{
    let s = old(state)@;
    let read = credential::read_view(*stored);
    let known = laws_of_access::known_hash(s, read);
    let result: Result<Seq<char>, FailureView> = Err(failure@);
    laws_of_passwords::law_a_login_fails_for_a_reason(
        s,
        read,
        client,
        offered@,
        times,
        final(state)@,
        result,
    );
    if known is Ok && known->Ok_0 is Some && rate_limit::locked_for(
        s.rate_limit,
        client,
        times.checked,
    ) is None && vstd::utf8::encode_utf8(offered@).len() <= 128
        && !laws_of_passwords::has_control_character(offered@) {
        laws_of_passwords::law_a_login_goes_by_the_verdict(
            s,
            read,
            client,
            offered@,
            known->Ok_0->0,
            times,
            final(state)@,
            result,
        );
    }
}

/// The cookie of a login lets the next request in, until the session has been idle too long or is
/// twelve hours old.
pub proof fn law_logging_in_and_coming_back(
    state: &mut AppState,
    stored: &CredentialRead,
    client: ClientAddr,
    offered: &str,
    times: LoginTimes,
    token: String,
    handed: &str,
    secure: bool,
    cookie: String,
    next: &mut AppState,
    reread: &CredentialRead,
    header: &str,
    now: u64,
    outcome: AuthOutcome,
)
    requires
        call_ensures(web_auth::login, (state, stored, client, offered, times), Ok(token)),
        handed@ == token@,
        call_ensures(cookie::session_cookie, (handed, secure), cookie),
        header@ == cookie@,
        old(next)@ == final(state)@,
        call_ensures(web_auth::authorize, (next, reread, Some(header), now), outcome),
        now - times.issued <= 43_200_000_000_000,
        now - times.issued <= match old(state)@.config {
            Some(config) => config.web_admin_session_idle_minutes * 60_000_000_000,
            None => 3_600_000_000_000,
        },
    ensures
        outcome is Authorized,
{
    let before = old(state)@;
    let after = final(state)@;
    let read = credential::read_view(*stored);
    laws_of_passwords::law_a_login_needs_the_whole_password(
        before,
        read,
        client,
        offered@,
        times,
        after,
        token@,
    );
    assert(laws_of_text::is_hex_digit(token@[0]) && laws_of_text::is_hex_digit(token@[63]));
    laws_of_text::law_what_white_space_is(token@[0]);
    laws_of_text::law_what_white_space_is(token@[63]);
    assert forall|i: int| 0 <= i < token@.len() implies #[trigger] token@[i] != ';' by {
        assert(laws_of_text::is_hex_digit(token@[i]));
    }
    laws_of_text::law_a_handed_out_cookie_brings_its_token_back(token@, secure);
    let last = after.sessions.len() - 1;
    assert(after.sessions[last].key == laws_of_access::digest(token@));
    assert(laws_of_access::lives(after.sessions[last], after.config, now));
    assert(laws_of_access::holds_a_session(after, token@, now));
    law_authorizing(next, reread, Some(header), now, outcome);
}

/// The calls that a login is made of do the steps of one: beginning hands on the hash that is known,
/// settling goes by the verdict, and finishing opens the session of the bytes drawn.
pub proof fn law_the_steps_of_a_login(
    state: &mut AppState,
    stored: &CredentialRead,
    client: ClientAddr,
    now: u64,
    begun: Result<String, AuthFailure>,
    middle: &mut AppState,
    verdict: Result<bool, String>,
    settled: Result<(), AuthFailure>,
    end: &mut AppState,
    drawn: Result<[u8; 32], String>,
    finished: Result<String, AuthFailure>,
)
    requires
        call_ensures(web_auth::begin_login, (state, stored, client, now), begun),
        call_ensures(web_auth::settle_login, (middle, client, verdict, now), settled),
        call_ensures(web_auth::finish_login, (end, client, drawn, now), finished),
    ensures
        begun matches Ok(hash) ==> laws_of_access::known_hash(
            old(state)@,
            credential::read_view(*stored),
        ) == Ok::<Option<Seq<char>>, Seq<char>>(Some(hash@)) && rate_limit::locked_for(
            old(state)@.rate_limit,
            client,
            now,
        ) is None,
        final(state)@.sessions == old(state)@.sessions,
        final(state)@.events == old(state)@.events,
        settled is Ok <==> verdict == Ok::<bool, String>(true),
        settled is Ok ==> final(middle)@ == (StateView {
            rate_limit: rate_limit::after_clearing(old(middle)@.rate_limit, client),
            ..old(middle)@
        }),
        verdict == Ok::<bool, String>(false) ==> laws_of_passwords::is_counted_failure(
            old(middle)@,
            client,
            now,
            final(middle)@,
            settled->Err_0@,
        ),
        finished is Ok <==> drawn is Ok,
        drawn is Ok ==> finished->Ok_0@ == session::token_text(drawn->Ok_0@)
            && laws_of_access::is_one_session_more(
            old(end)@,
            final(end)@.sessions,
            finished->Ok_0@,
            now,
        ),
{
    laws_of_passwords::law_a_login_begins_unless_locked(
        old(state)@,
        credential::read_view(*stored),
        client,
        now,
    );
    laws_of_passwords::law_a_verdict_settles_the_login(
        old(middle)@,
        client,
        password::verdict_result(verdict),
        now,
    );
    laws_of_passwords::law_a_login_ends_in_a_session(
        old(end)@,
        client,
        session::draw_view(drawn),
        now,
    );
}

// ---------------------------------------------------------------------------
// Setting, changing and resetting the password
// ---------------------------------------------------------------------------

/// The first setup prepares a hash of the whole password, for its own client, and only where no
/// password is known and this one is permitted.
pub proof fn law_setting_up(
    state: &mut AppState,
    stored: &CredentialRead,
    client: ClientAddr,
    chosen: &str,
    write: PasswordWrite,
)
    requires
        call_ensures(web_auth::setup_password, (state, stored, client, chosen), Ok(write)),
    ensures
        laws_of_passwords::is_permitted(chosen@),
        laws_of_access::known_hash(old(state)@, credential::read_view(*stored)) == Ok::<
            Option<Seq<char>>,
            Seq<char>,
        >(None),
        laws_of_passwords::is_hash_of(write.password_hash@, chosen@),
        write.origin == PasswordOrigin::WebSetup,
        write.client == Some(client),
        final(state)@ == laws_of_changes::looked_at(old(state)@, credential::read_view(*stored)),
{
    laws_of_changes::law_the_first_setup_writes_the_whole_password(
        old(state)@,
        credential::read_view(*stored),
        chosen@,
        PasswordOrigin::WebSetup,
        Some(client),
        final(state)@,
        Ok(write@),
    );
}

/// A setup that was inserted is remembered and logs its client in.
pub proof fn law_finishing_a_setup(
    state: &mut AppState,
    write: PasswordWrite,
    created: &Result<Option<u64>, String>,
    reread: &CredentialRead,
    now: u64,
    token: String,
)
    requires
        call_ensures(web_auth::finish_setup, (state, write, created, reread, now), Ok(token)),
    ensures
        created is Ok,
        created->Ok_0 is Some,
        laws_of_changes::is_written(old(state)@, write@, created->Ok_0->0, final(state)@),
        token@.len() == 64,
        final(state)@.sessions.len() > 0,
        final(state)@.sessions.last().key == laws_of_access::digest(token@),
{
    let row = credential::read_view(*reread);
    let at = web_auth::created_view(*created);
    laws_of_changes::law_the_first_setup_is_remembered(old(state)@, write@, at, row);
    laws_of_changes::law_a_setup_logs_in(
        old(state)@,
        write@,
        at,
        row,
        now,
        final(state)@,
        Ok(token@),
    );
}

/// A change prepares a hash of the whole new password, only where that is permitted and Argon2
/// confirms the whole of the current one.
pub proof fn law_changing_the_password(
    state: &mut AppState,
    stored: &CredentialRead,
    client: ClientAddr,
    current: &str,
    chosen: &str,
    write: PasswordWrite,
)
    requires
        call_ensures(
            web_auth::change_password,
            (state, stored, client, current, chosen),
            Ok(write),
        ),
    ensures
        laws_of_passwords::is_permitted(chosen@),
        laws_of_access::known_hash(old(state)@, credential::read_view(*stored)) matches Ok(
            Some(hash),
        ) && laws_of_passwords::confirms(hash, current@),
        laws_of_passwords::is_hash_of(write.password_hash@, chosen@),
        write.origin == PasswordOrigin::WebChange,
        write.client == Some(client),
        final(state)@ == laws_of_changes::looked_at(old(state)@, credential::read_view(*stored)),
{
    laws_of_changes::law_a_change_writes_the_whole_password(
        old(state)@,
        credential::read_view(*stored),
        client,
        current@,
        chosen@,
        final(state)@,
        Ok(write@),
    );
}

/// A wrong current password changes nothing but the events, and a password that is not permitted
/// changes nothing at all.
pub proof fn law_failing_to_change_the_password(
    state: &mut AppState,
    stored: &CredentialRead,
    client: ClientAddr,
    current: &str,
    chosen: &str,
    failure: AuthFailure,
)
    requires
        call_ensures(
            web_auth::change_password,
            (state, stored, client, current, chosen),
            Err(failure),
        ),
    ensures
        !laws_of_passwords::is_permitted(chosen@) <==> failure@ is Invalid,
        failure@ is Invalid ==> final(state)@ == old(state)@,
        failure@ is InvalidPassword ==> final(state)@.events == old(state)@.events.push(
            laws_of_changes::wrong_change_event(client),
        ) && !laws_of_passwords::confirms(
            laws_of_access::known_hash(old(state)@, credential::read_view(*stored))->Ok_0->0,
            current@,
        ),
        final(state)@.sessions == old(state)@.sessions,
        final(state)@.rate_limit == old(state)@.rate_limit,
{
    laws_of_changes::law_a_change_writes_the_whole_password(
        old(state)@,
        credential::read_view(*stored),
        client,
        current@,
        chosen@,
        final(state)@,
        Err(failure@),
    );
}

/// A change that was saved is remembered, and leaves the sessions of the token that made it and no
/// others.
pub proof fn law_finishing_a_change(
    state: &mut AppState,
    write: PasswordWrite,
    saved: &Result<u64, String>,
    header: Option<&str>,
)
    requires
        call_ensures(web_auth::finish_change_password, (state, write, saved, header), Ok(())),
    ensures
        saved is Ok,
        laws_of_changes::is_written(old(state)@, write@, saved->Ok_0, final(state)@),
        forall|i: int|
            0 <= i < final(state)@.sessions.len() ==> header is Some && cookie::session_token(
                header->0@,
            ) is Some && (#[trigger] final(state)@.sessions[i]).key == laws_of_access::digest(
                cookie::session_token(header->0@)->0,
            ),
        header is Some && cookie::session_token(header->0@) is Some ==> forall|i: int|
            0 <= i < old(state)@.sessions.len() && (#[trigger] old(state)@.sessions[i]).key
                == laws_of_access::digest(cookie::session_token(header->0@)->0)
                ==> final(state)@.sessions.contains(old(state)@.sessions[i]),
{
    let token = cookie::header_token(header);
    laws_of_changes::law_a_written_change_keeps_its_own_session(
        old(state)@,
        write@,
        web_auth::saved_view(*saved),
        token,
    );
    if let Some(value) = token {
        let own = |x: session::SessionView| x.key == laws_of_access::digest(value);
        crate::sequences::lemma_filtered(old(state)@.sessions, own);
        assert forall|i: int| 0 <= i < final(state)@.sessions.len() implies (
        #[trigger] final(state)@.sessions[i]).key == laws_of_access::digest(value) by {
            assert(own(final(state)@.sessions[i]));
        }
        assert forall|i: int|
            0 <= i < old(state)@.sessions.len() && (#[trigger] old(state)@.sessions[i]).key
                == laws_of_access::digest(value) implies final(state)@.sessions.contains(
            old(state)@.sessions[i],
        ) by {
            assert(own(old(state)@.sessions[i]));
        }
    }
}

/// A password that is set on this machine is a hash of the whole of it, put down to this machine.
pub proof fn law_setting_the_password_locally(
    chosen: &str,
    origin: PasswordOrigin,
    result: Result<PasswordWrite, AuthFailure>,
)
    requires
        call_ensures(web_auth::set_password_locally, (chosen, origin), result),
    ensures
        !laws_of_passwords::is_permitted(chosen@) <==> result is Err && result->Err_0@ is Invalid,
        result matches Ok(write) ==> laws_of_passwords::is_hash_of(write.password_hash@, chosen@)
            && write.origin == origin && write.client is None,
{
    laws_of_changes::law_a_stored_password_is_whole(
        chosen@,
        origin,
        None,
        web_auth::write_outcome(result),
    );
}

/// A password that was set on this machine is remembered and ends every session.
pub proof fn law_finishing_it_locally(
    state: &mut AppState,
    write: PasswordWrite,
    saved: &Result<u64, String>,
    result: Result<(), AuthFailure>,
)
    requires
        call_ensures(web_auth::finish_set_password_locally, (state, write, saved), result),
    ensures
        result is Ok <==> saved is Ok,
        saved matches Ok(at) ==> laws_of_changes::is_written(
            old(state)@,
            write@,
            *at,
            final(state)@,
        ) && final(state)@.sessions.len() == 0,
        saved is Err ==> final(state)@ == old(state)@,
{
    laws_of_changes::law_a_stored_password_is_remembered(
        old(state)@,
        write@,
        web_auth::saved_view(*saved),
    );
}

/// A reset forgets the password and ends every session, and tells whether there was one.
pub proof fn law_resetting(
    state: &mut AppState,
    cleared: &Result<bool, String>,
    result: Result<bool, AuthFailure>,
)
    requires
        call_ensures(web_auth::reset_password, (state, cleared), result),
    ensures
        result is Ok <==> cleared is Ok,
        cleared is Ok ==> {
            &&& result->Ok_0 == cleared->Ok_0
            &&& final(state)@.credential.loaded
            &&& final(state)@.credential.password_hash is None
            &&& final(state)@.sessions.len() == 0
            &&& final(state)@.events == if cleared->Ok_0 {
                old(state)@.events.push(
                    laws_of_changes::change_event(PasswordOrigin::LocalReset, None),
                )
            } else {
                old(state)@.events
            }
        },
        cleared is Err ==> final(state)@ == old(state)@,
{
    laws_of_changes::law_a_reset_forgets_the_password(
        old(state)@,
        password::verdict_result(*cleared),
    );
}

// ---------------------------------------------------------------------------
// The password file
// ---------------------------------------------------------------------------

/// The password of a file is its text without the line ends behind it.
pub proof fn law_reading_a_password_file(
    facts: &Result<FileFacts, String>,
    content: &Result<String, String>,
    chosen: String,
)
    requires
        call_ensures(startup::read_password_file, (facts, content), Ok(chosen)),
    ensures
        facts is Ok,
        facts->Ok_0.is_file,
        facts->Ok_0.len <= 4096,
        content is Ok,
        chosen@.len() <= content->Ok_0@.len(),
        chosen@ == content->Ok_0@.take(chosen@.len() as int),
        forall|i: int|
            chosen@.len() <= i < content->Ok_0@.len() ==> laws_of_text::ends_a_line(
                #[trigger] content->Ok_0@[i],
            ),
        chosen@.len() > 0 ==> !laws_of_text::ends_a_line(chosen@.last()),
{
    laws_of_changes::law_the_password_of_a_file_is_its_text(
        startup::facts_view(*facts),
        password::text_result(*content),
    );
    if content is Ok {
        laws_of_text::law_line_ends_are_all_that_goes(content->Ok_0@);
    }
}

/// A password file is read only where no password is known, and what is inserted of it is a hash of
/// the whole password.
pub proof fn law_applying_a_password_file(
    state: &mut AppState,
    stored: &CredentialRead,
    path: &str,
    decision: FileDecision,
    next: &mut AppState,
    chosen: String,
    write: PasswordWrite,
)
    requires
        call_ensures(startup::apply_password_file, (state, stored, path), Ok(decision)),
        call_ensures(
            startup::create_from_file,
            (next, stored, path, Ok(chosen)),
            Ok(FileStep::Insert(write)),
        ),
    ensures
        decision is Read <==> laws_of_access::known_hash(
            old(state)@,
            credential::read_view(*stored),
        ) == Ok::<Option<Seq<char>>, Seq<char>>(None),
        laws_of_access::known_hash(old(next)@, credential::read_view(*stored)) == Ok::<
            Option<Seq<char>>,
            Seq<char>,
        >(None),
        laws_of_passwords::is_permitted(chosen@),
        laws_of_passwords::is_hash_of(write.password_hash@, chosen@),
        write.origin == PasswordOrigin::PasswordFile,
        write.client is None,
{
    let read = credential::read_view(*stored);
    laws_of_changes::law_a_password_file_is_for_the_first_start(old(state)@, read, path@);
    laws_of_changes::law_a_password_file_sets_its_whole_password(
        old(next)@,
        read,
        path@,
        Ok(chosen@),
        final(next)@,
        Ok(FileStep::Insert(write)@),
    );
}

// ---------------------------------------------------------------------------
// Commands
// ---------------------------------------------------------------------------

/// The options of a restore do not depend on their order: it is done offline exactly where
/// `--offline` is among them, keeps the wish to take over exactly where `--keep-desired` is, and has
/// the data directory behind the last `--data-dir`.
pub proof fn law_restoring(
    arguments: &Vec<Argument>,
    from: usize,
    data_dir: Option<usize>,
    keep_desired: bool,
)
    requires
        call_ensures(
            headless::system_dns_restore,
            (arguments, from),
            Ok(Step::RestoreOffline { data_dir, keep_desired }),
        ),
        laws_of_commands::is_good_restore(
            arguments::argument_views(arguments@),
            from as int,
        ),
    ensures
        ({
            let args = arguments::argument_views(arguments@);
            &&& laws_of_commands::restore_has(args, from as int, "--offline"@)
            &&& keep_desired == laws_of_commands::restore_has(
                args,
                from as int,
                "--keep-desired"@,
            )
            &&& laws_of_commands::is_last_data_dir(
                args,
                from as int,
                match data_dir {
                    Some(at) => Some(at as int),
                    None => None,
                },
            )
        }),
{
    laws_of_commands::law_restore_goes_by_its_options(
        arguments::argument_views(arguments@),
        from as int,
    );
}

/// A command line is judged by its arguments alone, each in its place.
pub proof fn law_running(
    arguments: &Vec<Argument>,
    web_admin: bool,
    version: &str,
    result: Result<Step, String>,
)
    requires
        call_ensures(headless::run, (arguments, web_admin, version), result),
    ensures
        match result {
            Ok(step) => headless::started(
                arguments::argument_views(arguments@),
                web_admin,
                version@,
            ) == Ok::<StepView, Seq<char>>(step@),
            Err(error) => headless::started(
                arguments::argument_views(arguments@),
                web_admin,
                version@,
            ) == Err::<StepView, Seq<char>>(error@),
        },
{
}

/// The status is shown of both replies: the resolver as running exactly where the status has
/// `"running": true`, and running by itself as on exactly where the configuration has
/// `"enabled": true`.
pub proof fn law_showing_the_status(status: String, config: &str, shown: String)
    requires
        call_ensures(
            headless::resume,
            (Task::ConfigReply { json_output: false, status }, config),
            Ok(Step::Done(shown)),
        ),
    ensures
        shown@.len() > 22,
        shown@[11] == '运' <==> json::json_bool(status@, "running"@) == Some(true),
        shown@[20] == '启' <==> json::json_bool(config@, "enabled"@) == Some(true),
{
    reveal_strlit("服务：已连接\nDNS：");
    reveal_strlit("运行中");
    reveal_strlit("已停止");
    reveal_strlit("\n自动运行：");
    reveal_strlit("启用");
    reveal_strlit("关闭");
    reveal_strlit("\n");
    laws_of_commands::law_status_shows_both_replies(
        status@,
        config@,
        Ok(StepView::Done(shown@)),
    );
}

/// What a reply comes to is what the task makes of it.
pub proof fn law_resuming(task: Task, reply: &str, result: Result<Step, String>)
    requires
        call_ensures(headless::resume, (task, reply), result),
    ensures
        headless::resume_possible(
            task@,
            reply@,
            match result {
                Ok(step) => Ok(step@),
                Err(error) => Err(error@),
            },
        ),
{
}

/// The password that was read is all of the line but its line end, and all of it goes to the
/// service.
pub proof fn law_reading_and_setting_a_password(
    line: &str,
    entered: String,
    chosen: &str,
    step: Step,
)
    requires
        call_ensures(
            headless::read_password_from_stdin,
            (PasswordPrompt::Piped, line),
            Ok(PromptStep::Password(entered)),
        ),
        chosen@ == entered@,
        call_ensures(headless::set_password_step, (chosen,), step),
    ensures
        entered@ == line@.take(entered@.len() as int),
        forall|i: int|
            entered@.len() <= i < line@.len() ==> laws_of_text::ends_a_line(#[trigger] line@[i]),
        entered@.len() > 0,
        step@ == StepView::Call(
            "web_auth_set_password"@,
            "{\"password\":"@ + json::json_string(entered@) + "}"@,
            TaskView::PasswordSet,
        ),
{
    assert(PasswordPrompt::Piped@ == PromptView::Piped);
    let step_view = PromptStep::Password(entered)@;
    assert(step_view == PromptStepView::Password(entered@));
    laws_of_commands::law_the_entered_password_is_the_line(line@, line@);
}

/// A Unix second is shown by its date in the machine's zone.
pub proof fn law_showing_a_second(seconds: u64, shown: String)
    requires
        call_ensures(local_time::format_unix_second, (seconds,), shown),
    ensures
        seconds <= 8_210_266_876_799 ==> exists|offset: i32|
            -86_400 < offset < 86_400 && shown@ == #[trigger] local_time::moment_text(
                seconds as i64,
                offset,
                "%Y-%m-%d %H:%M:%S"@,
            ),
        seconds > 8_210_266_876_799 ==> shown@ == "Unix "@ + text::decimal(seconds as nat),
{
    laws_of_text::law_a_second_is_shown_by_its_date(seconds, shown@);
}

} // verus!
