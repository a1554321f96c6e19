//! What holds of authentication as a whole: laws that relate several operations, over the functions
//! that their contracts are stated with.

use vstd::prelude::*;

use crate::clock;
use crate::cookie;
use crate::credential::{self, StoredView, WriteView};
use crate::crypto;
use crate::failure::{self, ClientAddr, EventView, FailureView, PasswordOrigin, SecurityEventType};
use crate::headless;
use crate::password;
use crate::rate_limit::{self, ClientAttempts, RateLimitView};
use crate::sequences;
use crate::session::{self, SessionView};
use crate::startup;
use crate::text;
use crate::web_auth::{self, LoginTimes, OutcomeView, StateView};

verus! {

// ---------------------------------------------------------------------------
// Cookies
// ---------------------------------------------------------------------------

/// White space in front is trimmed away.
pub proof fn lemma_trim_start(space: Seq<char>, s: Seq<char>)
    requires
        forall|i: int| 0 <= i < space.len() ==> text::is_white_space_char(#[trigger] space[i]),
        s.len() > 0 ==> !text::is_white_space_char(s[0]),
    ensures
        text::trim_start(space + s) == s,
    decreases space.len(),
{
    if space.len() == 0 {
        assert(space + s =~= s);
    } else {
        let rest = space.drop_first();
        assert((space + s).drop_first() =~= rest + s);
        assert((space + s)[0] == space[0]);
        assert forall|i: int| 0 <= i < rest.len() implies text::is_white_space_char(
            #[trigger] rest[i],
        ) by {
            assert(rest[i] == space[i + 1]);
        }
        lemma_trim_start(rest, s);
    }
}

/// Whether a text can stand in a cookie as it is: it is not empty, has no semicolon, and neither
/// begins nor ends with white space.
pub open spec fn is_cookie_value(value: Seq<char>) -> bool {
    &&& value.len() > 0
    &&& forall|i: int| 0 <= i < value.len() ==> #[trigger] value[i] != ';'
    &&& !text::is_white_space_char(value[0])
    &&& !text::is_white_space_char(value.last())
}

/// The session token that was handed out is found again in the request: whatever cookies follow
/// it, and with or without white space in front.
pub proof fn law_cookie_gives_the_token_back(space: Seq<char>, token: Seq<char>, rest: Seq<char>)
    requires
        forall|i: int| 0 <= i < space.len() ==> text::is_white_space_char(#[trigger] space[i]),
        is_cookie_value(token),
        rest.len() == 0 || rest[0] == ';',
    ensures
        cookie::session_token(space + cookie::SESSION_COOKIE@ + "="@ + token + rest) == Some(token),
{
    reveal_strlit("dnsblackhole_session");
    reveal_strlit("=");
    let name = cookie::SESSION_COOKIE@;
    let header = space + name + "="@ + token + rest;
    let part = space + name + "="@ + token;
    let end = part.len() as int;
    assert forall|j: int| 0 <= j < end implies header[j] != ';' by {
        if j < space.len() {
            assert(header[j] == space[j]);
        } else if j >= space.len() + name.len() + 1 {
            assert(header[j] == token[j - (space.len() + name.len() + 1)]);
        } else {
            assert(header[j] == (name + "="@)[j - space.len()]);
        }
    }
    text::lemma_first_index_is(header, ';', end);
    assert(header.take(end) =~= part);
    let at = (space.len() + name.len()) as int;
    assert forall|j: int| 0 <= j < at implies part[j] != '=' by {
        if j < space.len() {
            assert(part[j] == space[j]);
        } else {
            assert(part[j] == name[j - space.len()]);
        }
    }
    text::lemma_first_index_is(part, '=', at);
    assert(part.take(at) =~= space + name);
    assert(part.skip(at + 1) =~= token);
    lemma_trim_start(space, name);
    lemma_trim_start(Seq::empty(), token);
    assert(Seq::<char>::empty() + token =~= token);
    assert(text::trim(part.take(at)) == name);
    assert(text::trim(part.skip(at + 1)) == token);
}

/// A cookie that is not the session's does not hide the ones that follow it.
pub proof fn law_other_cookies_are_passed_over(part: Seq<char>, rest: Seq<char>)
    requires
        forall|i: int| 0 <= i < part.len() ==> #[trigger] part[i] != ';',
        cookie::session_value(part) is None,
    ensures
        cookie::session_token(part + ";"@ + rest) == cookie::session_token(rest),
{
    reveal_strlit(";");
    let header = part + ";"@ + rest;
    text::lemma_first_index_is(header, ';', part.len() as int);
    assert(header.take(part.len() as int) =~= part);
    assert(header.skip(part.len() as int + 1) =~= rest);
}

/// The `Secure` switch adds its attribute to the cookie, and changes nothing else.
pub proof fn law_secure_switch(token: Seq<char>)
    ensures
        cookie::session_cookie_text(token, true) == cookie::session_cookie_text(token, false)
            + "; Secure"@,
        cookie::cleared_cookie_text(true) == cookie::cleared_cookie_text(false) + "; Secure"@,
{
}

/// A token is a text that can stand in a cookie.
pub proof fn law_tokens_fit_cookies(raw: Seq<u8>)
    requires
        raw.len() == 32,
    ensures
        is_cookie_value(session::token_text(raw)),
        session::token_text(raw).len() == 64,
{
    let token = session::token_text(raw);
    assert forall|i: int| 0 <= i < token.len() implies '0' <= #[trigger] token[i] <= 'f' by {
        assert(raw[i / 2] / 16 < 16 && raw[i / 2] % 16 < 16);
    }
    assert(token[0] >= '0' && token.last() >= '0');
    assert(token[0] <= 'f' && token.last() <= 'f');
    assert forall|i: int| 0 <= i < token.len() implies #[trigger] token[i] != ';' by {
        assert(raw[i / 2] / 16 < 16 && raw[i / 2] % 16 < 16);
    }
}

// ---------------------------------------------------------------------------
// Access
// ---------------------------------------------------------------------------

/// Until there is a password, every request, every login and every change is refused with the
/// demand to set one, whatever is offered.
pub proof fn law_setup_comes_first(
    s: StateView,
    stored: Result<Option<StoredView>, Seq<char>>,
    token: Option<Seq<char>>,
    client: ClientAddr,
    verdict: Result<bool, Seq<char>>,
    drawn: Result<Seq<u8>, Seq<char>>,
    times: LoginTimes,
    now: u64,
)
    requires
        s.load_error(stored) is None,
        s.hash(stored) is None,
    ensures
        web_auth::authorize_run(s, stored, token, now) == (
            s.loaded(stored),
            OutcomeView::Rejected(FailureView::SetupRequired),
        ),
        web_auth::login_run(s, stored, client, verdict, drawn, times) == (
            s.loaded(stored),
            Err::<Seq<char>, FailureView>(FailureView::SetupRequired),
        ),
        web_auth::change_begun(s, stored) == (
            s.loaded(stored),
            Err::<Seq<char>, FailureView>(FailureView::SetupRequired),
        ),
{
}

/// A request is let in exactly where there is a password and its token opens a living session.
pub proof fn law_access_needs_a_living_session(
    s: StateView,
    stored: Result<Option<StoredView>, Seq<char>>,
    token: Option<Seq<char>>,
    now: u64,
)
    ensures
        web_auth::authorize_run(s, stored, token, now).1 == OutcomeView::Authorized <==> {
            &&& s.load_error(stored) is None
            &&& s.hash(stored) is Some
            &&& token matches Some(value) && session::has_key(
                session::alive(s.sessions, s.idle(), now),
                session::key_of(value),
            )
        },
{
}

/// A living session with the key is found among the living.
pub proof fn lemma_alive_is_found(
    sessions: Seq<SessionView>,
    idle: u64,
    now: u64,
    key: Seq<u8>,
    i: int,
)
    requires
        0 <= i < sessions.len(),
        sessions[i].key == key,
        session::is_alive(idle, now)(sessions[i]),
    ensures
        session::has_key(session::alive(sessions, idle, now), key),
{
    sequences::lemma_filtered(sessions, session::is_alive(idle, now));
    let living = session::alive(sessions, idle, now);
    let k = choose|k: int| 0 <= k < living.len() && living[k] == sessions[i];
    assert(living[k].key == key);
}

/// What is found among filtered sessions was there before, and the filter holds of it.
pub proof fn lemma_found_was_there(
    sessions: Seq<SessionView>,
    keep: spec_fn(SessionView) -> bool,
    key: Seq<u8>,
)
    requires
        session::has_key(sessions.filter(keep), key),
    ensures
        exists|i: int|
            0 <= i < sessions.len() && (#[trigger] sessions[i]).key == key && keep(sessions[i]),
{
    sequences::lemma_filtered(sessions, keep);
    let kept = sessions.filter(keep);
    let k = choose|k: int| 0 <= k < kept.len() && (#[trigger] kept[k]).key == key;
    assert(keep(kept[k]) && sessions.contains(kept[k]));
    let i = choose|i: int| 0 <= i < sessions.len() && sessions[i] == kept[k];
    assert(sessions[i].key == key);
}

/// The session that is issued lets its owner in, by the cookie that carries its token, until it
/// has gone unused for the idle time or has lasted for twelve hours.
pub proof fn law_issued_session_is_accepted(
    s: StateView,
    stored: Result<Option<StoredView>, Seq<char>>,
    raw: Seq<u8>,
    issued_at: u64,
    now: u64,
)
    requires
        s.load_error(stored) is None,
        s.hash(stored) is Some,
        raw.len() == 32,
        clock::within_span(now, issued_at, session::SESSION_ABSOLUTE_LIFETIME_SECONDS),
        clock::within_span(now, issued_at, s.idle()),
    ensures
        web_auth::authorize_run(
            web_auth::with_session(s, Ok(raw), issued_at),
            stored,
            cookie::session_token(
                cookie::SESSION_COOKIE@ + "="@ + session::token_text(raw),
            ),
            now,
        ).1 == OutcomeView::Authorized,
{
    let token = session::token_text(raw);
    law_tokens_fit_cookies(raw);
    law_cookie_gives_the_token_back(Seq::empty(), token, Seq::empty());
    let name = cookie::SESSION_COOKIE@;
    assert(Seq::<char>::empty() + name + "="@ + token + Seq::<char>::empty() =~= name + "="@
        + token);
    let after = web_auth::with_session(s, Ok(raw), issued_at);
    let key = session::key_of(token);
    let last = after.sessions.len() - 1;
    assert(after.sessions[last] == SessionView {
        key,
        created_at: issued_at,
        last_seen_at: issued_at,
    });
    lemma_alive_is_found(after.sessions, after.idle(), now, key, last);
}

/// Whether a session is one of those before, last seen then or at `now`.
pub open spec fn continues(session: SessionView, before: Seq<SessionView>, now: u64) -> bool {
    exists|j: int|
        {
            &&& 0 <= j < before.len()
            &&& (#[trigger] before[j]).key == session.key
            &&& before[j].created_at == session.created_at
            &&& session.last_seen_at == before[j].last_seen_at || session.last_seen_at == now
        }
}

/// A request opens no session, and activity renews the idle time alone: every session after it was
/// there before, opened at the same moment.
pub proof fn law_activity_renews_only_the_idle_time(
    s: StateView,
    stored: Result<Option<StoredView>, Seq<char>>,
    token: Option<Seq<char>>,
    now: u64,
    i: int,
)
    requires
        0 <= i < web_auth::authorize_run(s, stored, token, now).0.sessions.len(),
    ensures
        continues(
            web_auth::authorize_run(s, stored, token, now).0.sessions[i],
            s.sessions,
            now,
        ),
{
    let after = web_auth::authorize_run(s, stored, token, now).0;
    if s.load_error(stored) is None && s.hash(stored) is Some && token is Some {
        let living = session::alive(s.sessions, s.idle(), now);
        sequences::lemma_filtered(s.sessions, session::is_alive(s.idle(), now));
        session::lemma_touched_shape(living, session::key_of(token->0), now);
        assert(s.sessions.contains(living[i]));
        let j = choose|j: int| 0 <= j < s.sessions.len() && s.sessions[j] == living[i];
        assert(s.sessions[j].key == after.sessions[i].key);
    } else {
        assert(s.sessions[i].key == after.sessions[i].key);
    }
}

/// No session outlives its limits: where every session under the token has gone unused for longer
/// than the idle time, or is older than twelve hours, the request is refused.
pub proof fn law_expired_sessions_are_refused(
    s: StateView,
    stored: Result<Option<StoredView>, Seq<char>>,
    token: Seq<char>,
    now: u64,
)
    requires
        forall|i: int|
            0 <= i < s.sessions.len() && (#[trigger] s.sessions[i]).key == session::key_of(token)
                ==> {
                ||| !clock::within_span(now, s.sessions[i].last_seen_at, s.idle())
                ||| !clock::within_span(
                    now,
                    s.sessions[i].created_at,
                    session::SESSION_ABSOLUTE_LIFETIME_SECONDS,
                )
            },
    ensures
        web_auth::authorize_run(s, stored, Some(token), now).1 != OutcomeView::Authorized,
{
    let key = session::key_of(token);
    if session::has_key(session::alive(s.sessions, s.idle(), now), key) {
        lemma_found_was_there(s.sessions, session::is_alive(s.idle(), now), key);
    }
}

/// After logging out, the token lets nobody in.
pub proof fn law_logout_ends_the_session(
    s: StateView,
    stored: Result<Option<StoredView>, Seq<char>>,
    token: Seq<char>,
    now: u64,
)
    requires
        s.load_error(stored) is None,
        s.hash(stored) is Some,
    ensures
        web_auth::authorize_run(
            web_auth::after_logout(s, Some(token)),
            stored,
            Some(token),
            now,
        ).1 == OutcomeView::Rejected(FailureView::Unauthenticated),
{
    let after = web_auth::after_logout(s, Some(token));
    let key = session::key_of(token);
    if session::has_key(session::alive(after.sessions, after.idle(), now), key) {
        lemma_found_was_there(after.sessions, session::is_alive(after.idle(), now), key);
        assert(session::has_key(s.sessions.filter(session::not_keyed(key)), key));
        lemma_found_was_there(s.sessions, session::not_keyed(key), key);
    }
}

/// Logging out ends no session but its own: whoever else was let in still is.
pub proof fn law_logout_spares_other_sessions(
    s: StateView,
    stored: Result<Option<StoredView>, Seq<char>>,
    token: Seq<char>,
    other: Seq<char>,
    now: u64,
)
    requires
        session::key_of(other) != session::key_of(token),
    ensures
        web_auth::authorize_run(
            web_auth::after_logout(s, Some(token)),
            stored,
            Some(other),
            now,
        ).1 == web_auth::authorize_run(s, stored, Some(other), now).1,
{
    let after = web_auth::after_logout(s, Some(token));
    let gone = session::key_of(token);
    let key = session::key_of(other);
    let alive = session::is_alive(s.idle(), now);
    sequences::lemma_filtered(s.sessions, session::not_keyed(gone));
    if session::has_key(s.sessions.filter(alive), key) {
        lemma_found_was_there(s.sessions, alive, key);
        let i = choose|i: int|
            0 <= i < s.sessions.len() && (#[trigger] s.sessions[i]).key == key && alive(
                s.sessions[i],
            );
        assert(session::not_keyed(gone)(s.sessions[i]));
        let k = choose|k: int|
            0 <= k < after.sessions.len() && after.sessions[k] == s.sessions[i];
        lemma_alive_is_found(after.sessions, s.idle(), now, key, k);
    }
    if session::has_key(after.sessions.filter(alive), key) {
        lemma_found_was_there(after.sessions, alive, key);
        let k = choose|k: int|
            0 <= k < after.sessions.len() && (#[trigger] after.sessions[k]).key == key && alive(
                after.sessions[k],
            );
        assert(s.sessions.contains(after.sessions[k]));
        let i = choose|i: int| 0 <= i < s.sessions.len() && s.sessions[i] == after.sessions[k];
        lemma_alive_is_found(s.sessions, s.idle(), now, key, i);
    }
}

/// There are never more than sixteen sessions: one more ends the first, and no other that is alive.
/// That the first is the oldest is a law of its own.
pub proof fn law_one_more_session_ends_the_oldest(
    s: StateView,
    raw: Seq<u8>,
    now: u64,
)
    requires
        s.wf(),
    ensures
        ({
            let living = session::alive(s.sessions, s.idle(), now);
            let after = web_auth::with_session(s, Ok(raw), now).sessions;
            let opened = SessionView {
                key: session::key_of(session::token_text(raw)),
                created_at: now,
                last_seen_at: now,
            };
            &&& after.len() <= session::MAX_SESSIONS
            &&& after == if living.len() == session::MAX_SESSIONS {
                living.skip(1).push(opened)
            } else {
                living.push(opened)
            }
        }),
{
    let living = session::alive(s.sessions, s.idle(), now);
    sequences::lemma_filtered(s.sessions, session::is_alive(s.idle(), now));
    if living.len() == session::MAX_SESSIONS {
        assert(living.remove(0) =~= living.skip(1));
    }
}

/// Whether the sessions stand in the order in which they were opened, the oldest first.
pub open spec fn in_order(sessions: Seq<SessionView>) -> bool {
    forall|i: int, j: int|
        0 <= i <= j < sessions.len() ==> (#[trigger] sessions[i]).created_at <= (
        #[trigger] sessions[j]).created_at
}

/// Whether no session was opened after `now`.
pub open spec fn opened_by(sessions: Seq<SessionView>, now: u64) -> bool {
    forall|i: int| 0 <= i < sessions.len() ==> (#[trigger] sessions[i]).created_at <= now
}

/// Filtering keeps the order, and opens none.
pub proof fn lemma_filter_keeps_order(
    sessions: Seq<SessionView>,
    keep: spec_fn(SessionView) -> bool,
    now: u64,
)
    ensures
        in_order(sessions) ==> in_order(sessions.filter(keep)),
        opened_by(sessions, now) ==> opened_by(sessions.filter(keep), now),
    decreases sessions.len(),
{
    reveal(Seq::filter);
    if sessions.len() > 0 {
        let rest = sessions.drop_last();
        let kept = sessions.filter(keep);
        lemma_filter_keeps_order(rest, keep, now);
        sequences::lemma_filtered(sessions, keep);
        if in_order(sessions) {
            assert(in_order(rest));
            assert forall|i: int, j: int| 0 <= i <= j < kept.len() implies (
            #[trigger] kept[i]).created_at <= (#[trigger] kept[j]).created_at by {
                if j < rest.filter(keep).len() {
                    assert(kept[i] == rest.filter(keep)[i] && kept[j] == rest.filter(keep)[j]);
                } else {
                    assert(kept[j] == sessions[sessions.len() - 1]);
                    assert(sessions.contains(kept[i]));
                    let k = choose|k: int| 0 <= k < sessions.len() && sessions[k] == kept[i];
                    assert(sessions[k].created_at <= sessions[sessions.len() - 1].created_at);
                }
            }
        }
        if opened_by(sessions, now) {
            assert forall|i: int| 0 <= i < kept.len() implies (#[trigger] kept[i]).created_at
                <= now by {
                assert(sessions.contains(kept[i]));
                let k = choose|k: int| 0 <= k < sessions.len() && sessions[k] == kept[i];
                assert(sessions[k].created_at <= now);
            }
        }
    }
}

/// On a clock that does not run backwards the first session is always the oldest: a new session
/// takes its place behind the others, and the one that makes room for it was opened no later than
/// any other that is alive.
pub proof fn law_the_first_session_is_the_oldest(
    s: StateView,
    drawn: Result<Seq<u8>, Seq<char>>,
    now: u64,
)
    requires
        in_order(s.sessions),
        opened_by(s.sessions, now),
    ensures
        ({
            let living = session::alive(s.sessions, s.idle(), now);
            let after = web_auth::with_session(s, drawn, now).sessions;
            &&& forall|i: int|
                0 <= i < living.len() ==> living[0].created_at <= (
                #[trigger] living[i]).created_at
            &&& in_order(after)
            &&& opened_by(after, now)
        }),
{
    let living = session::alive(s.sessions, s.idle(), now);
    lemma_filter_keeps_order(s.sessions, session::is_alive(s.idle(), now), now);
    let roomy = if living.len() >= session::MAX_SESSIONS {
        living.remove(0)
    } else {
        living
    };
    if living.len() >= session::MAX_SESSIONS {
        assert forall|i: int, j: int| 0 <= i <= j < roomy.len() implies (
        #[trigger] roomy[i]).created_at <= (#[trigger] roomy[j]).created_at by {
            assert(roomy[i] == living[i + 1] && roomy[j] == living[j + 1]);
        }
        assert forall|i: int| 0 <= i < roomy.len() implies (#[trigger] roomy[i]).created_at
            <= now by {
            assert(roomy[i] == living[i + 1]);
        }
    }
}

/// No other operation disturbs the order of the sessions, or makes one younger.
pub proof fn law_the_order_of_sessions_stays(
    s: StateView,
    stored: Result<Option<StoredView>, Seq<char>>,
    token: Option<Seq<char>>,
    write: WriteView,
    saved: Result<u64, Seq<char>>,
    cleared: Result<bool, Seq<char>>,
    now: u64,
    latest: u64,
)
    requires
        in_order(s.sessions),
        opened_by(s.sessions, latest),
    ensures
        ({
            let after = web_auth::authorize_run(s, stored, token, now).0.sessions;
            in_order(after) && opened_by(after, latest)
        }),
        ({
            let after = web_auth::status_run(s, stored, now).0.sessions;
            in_order(after) && opened_by(after, latest)
        }),
        ({
            let after = web_auth::after_logout(s, token).sessions;
            in_order(after) && opened_by(after, latest)
        }),
        ({
            let after = web_auth::change_finished(s, write, saved, token).0.sessions;
            in_order(after) && opened_by(after, latest)
        }),
        ({
            let after = web_auth::local_finished(s, write, saved).0.sessions;
            in_order(after) && opened_by(after, latest)
        }),
        ({
            let after = web_auth::reset_run(s, cleared).0.sessions;
            in_order(after) && opened_by(after, latest)
        }),
{
    let living = session::alive(s.sessions, s.idle(), now);
    lemma_filter_keeps_order(s.sessions, session::is_alive(s.idle(), now), latest);
    if let Some(value) = token {
        let key = session::key_of(value);
        lemma_filter_keeps_order(s.sessions, session::not_keyed(key), latest);
        lemma_filter_keeps_order(s.sessions, session::keyed(key), latest);
        session::lemma_touched_shape(living, key, now);
        let touched = session::touched(living, key, now);
        assert forall|i: int, j: int| 0 <= i <= j < touched.len() implies (
        #[trigger] touched[i]).created_at <= (#[trigger] touched[j]).created_at by {
            assert(touched[i].created_at == living[i].created_at);
            assert(touched[j].created_at == living[j].created_at);
        }
        assert(in_order(touched));
        assert forall|i: int| 0 <= i < touched.len() implies (#[trigger] touched[i]).created_at
            <= latest by {
            assert(touched[i].created_at == living[i].created_at);
        }
        assert(opened_by(touched, latest));
    }
}

// ---------------------------------------------------------------------------
// Passwords
// ---------------------------------------------------------------------------

/// A password that may be set is never one that a login refuses unseen.
pub proof fn law_permitted_passwords_are_checked(password: Seq<char>)
    requires
        password::password_problem(password) is None,
    ensures
        !password::cannot_be_stored(password),
{
}

/// Checking a password against a hash made of it never says that it is wrong, and fails only for
/// want of memory.
pub proof fn law_a_hash_accepts_its_password(
    password: Seq<char>,
    hash: Seq<char>,
    verdict: Result<bool, Seq<char>>,
)
    requires
        password::hash_possible(password, Ok(hash)),
        password::verdict_possible(hash, password, verdict),
    ensures
        verdict == Ok::<bool, Seq<char>>(true) || verdict == Err::<bool, Seq<char>>(
            "校验管理密码失败："@ + "out of memory"@,
        ),
{
    let salt = choose|salt: Seq<u8>|
        salt.len() == 16 && #[trigger] password::hash_with_salt_possible(password, salt, Ok(hash));
    assert(password::accepts(hash, password));
}

/// The hash of a password is a PHC string of Argon2id with the costs of this library.
pub proof fn law_hashes_are_argon2id(password: Seq<char>, hash: Seq<char>)
    requires
        password::hash_possible(password, Ok(hash)),
    ensures
        "$argon2id$v=19$m=19456,t=2,p=1$"@.is_prefix_of(hash),
{
    let salt = choose|salt: Seq<u8>|
        salt.len() == 16 && #[trigger] password::hash_with_salt_possible(password, salt, Ok(hash));
    reveal_strlit("$argon2id$v=19$m=19456,t=2,p=1$");
    reveal_strlit("$argon2id$v=19$m=");
    reveal_strlit(",t=");
    reveal_strlit(",p=");
    reveal_strlit("$");
    reveal_with_fuel(text::decimal, 5);
    assert(text::decimal(19456) =~= seq!['1', '9', '4', '5', '6']);
    assert("$argon2id$v=19$m=19456,t=2,p=1$"@ =~= crypto::phc_prefix(19456, 2, 1));
}

/// Whoever knows the password logs in, unless locked out: the answer is the token of a new session,
/// save where the machine lacks the memory to check or the random bytes for the token. It is never
/// that the password is wrong.
pub proof fn law_the_right_password_logs_in(
    s: StateView,
    stored: Result<Option<StoredView>, Seq<char>>,
    client: ClientAddr,
    password: Seq<char>,
    hash: Seq<char>,
    verdict: Result<bool, Seq<char>>,
    drawn: Result<Seq<u8>, Seq<char>>,
    times: LoginTimes,
)
    requires
        s.load_error(stored) is None,
        s.hash(stored) == Some(hash),
        password::password_problem(password) is None,
        password::hash_possible(password, Ok(hash)),
        password::offer_possible(hash, password, verdict),
        rate_limit::locked_for(s.rate_limit, client, times.checked) is None,
    ensures
        ({
            let (after, result) = web_auth::login_run(
                s,
                stored,
                client,
                verdict,
                drawn,
                times,
            );
            &&& verdict is Ok && drawn is Ok ==> result == Ok::<Seq<char>, FailureView>(
                session::token_text(drawn->Ok_0),
            )
            &&& result is Err ==> result->Err_0 is Internal
            &&& after.credential == s.loaded(stored).credential
        }),
{
    law_permitted_passwords_are_checked(password);
    law_a_hash_accepts_its_password(password, hash, verdict);
}

/// Nobody logs in but with a password that the check has confirmed, while there is one to check
/// against and no lockout; and a login that fails opens no session.
pub proof fn law_only_a_confirmed_password_logs_in(
    s: StateView,
    stored: Result<Option<StoredView>, Seq<char>>,
    client: ClientAddr,
    password: Seq<char>,
    verdict: Result<bool, Seq<char>>,
    drawn: Result<Seq<u8>, Seq<char>>,
    times: LoginTimes,
)
    requires
        s.hash(stored) matches Some(hash) ==> password::offer_possible(hash, password, verdict),
    ensures
        ({
            let (after, result) = web_auth::login_run(
                s,
                stored,
                client,
                verdict,
                drawn,
                times,
            );
            &&& result is Ok ==> {
                &&& verdict == Ok::<bool, Seq<char>>(true)
                &&& s.hash(stored) is Some
                &&& rate_limit::locked_for(s.rate_limit, client, times.checked) is None
                &&& !password::cannot_be_stored(password)
            }
            &&& result is Err ==> after.sessions == s.sessions
        }),
{
}

/// While a client is locked out, it is told so whatever it offers, the right password included, and
/// nothing is checked or counted.
pub proof fn law_a_locked_client_stays_out(
    s: StateView,
    stored: Result<Option<StoredView>, Seq<char>>,
    client: ClientAddr,
    verdict: Result<bool, Seq<char>>,
    drawn: Result<Seq<u8>, Seq<char>>,
    times: LoginTimes,
)
    requires
        s.load_error(stored) is None,
        s.hash(stored) is Some,
        rate_limit::locked_for(s.rate_limit, client, times.checked) is Some,
    ensures
        ({
            let (after, result) = web_auth::login_run(
                s,
                stored,
                client,
                verdict,
                drawn,
                times,
            );
            &&& result == Err::<Seq<char>, FailureView>(
                FailureView::Locked(rate_limit::locked_for(s.rate_limit, client, times.checked)->0),
            )
            &&& after.sessions == s.sessions
            &&& after.events == s.events
            &&& after.rate_limit.clients == s.rate_limit.clients
        }),
{
}

/// A wrong password opens no session and changes no password; it is recorded, as is a lockout that
/// it brings, and the client is answered accordingly.
pub proof fn law_a_wrong_password_is_counted_and_recorded(
    s: StateView,
    client: ClientAddr,
    now: u64,
)
    ensures
        ({
            let (after, result) = web_auth::login_settled(s, client, Ok(false), now);
            let failed = failure::event(
                SecurityEventType::WebAuthFailed,
                Some(client),
                "Web 管理登录密码错误"@,
            );
            &&& after.sessions == s.sessions
            &&& after.credential == s.credential
            &&& after.rate_limit == rate_limit::after_failure(s.rate_limit, client, now)
            &&& match rate_limit::failure_lockout(s.rate_limit, client, now) {
                None => {
                    &&& result == Err::<(), FailureView>(FailureView::InvalidPassword)
                    &&& after.events == s.events.push(failed)
                },
                Some(seconds) => {
                    &&& result == Err::<(), FailureView>(FailureView::Locked(seconds))
                    &&& after.events.len() == s.events.len() + 2
                    &&& after.events.drop_last() == s.events.push(failed)
                    &&& after.events.last().event_type == SecurityEventType::WebAuthLocked
                    &&& after.events.last().client == client
                },
            }
        }),
{
    let (after, result) = web_auth::login_settled(s, client, Ok(false), now);
    let failed = failure::event(
        SecurityEventType::WebAuthFailed,
        Some(client),
        "Web 管理登录密码错误"@,
    );
    if rate_limit::failure_lockout(s.rate_limit, client, now) is Some {
        assert(after.events.drop_last() =~= s.events.push(failed));
    }
}

/// A login with a password that is too long or has control characters is refused like one with a
/// wrong password, without being checked: what the check would say makes no difference.
pub proof fn law_impossible_passwords_count_as_wrong(
    s: StateView,
    stored: Result<Option<StoredView>, Seq<char>>,
    client: ClientAddr,
    password: Seq<char>,
    verdict: Result<bool, Seq<char>>,
    drawn: Result<Seq<u8>, Seq<char>>,
    times: LoginTimes,
)
    requires
        s.load_error(stored) is None,
        s.hash(stored) is Some,
        rate_limit::locked_for(s.rate_limit, client, times.checked) is None,
        password::cannot_be_stored(password),
        password::offer_possible(s.hash(stored)->0, password, verdict),
    ensures
        web_auth::login_run(s, stored, client, verdict, drawn, times) == {
            let checked = StateView {
                rate_limit: rate_limit::after_check(s.rate_limit, times.checked),
                ..s.loaded(stored)
            };
            let (after, failure) = web_auth::rejected_login(checked, client, times.settled);
            (after, Err::<Seq<char>, FailureView>(failure))
        },
{
}

// ---------------------------------------------------------------------------
// Setting, changing and resetting the password
// ---------------------------------------------------------------------------

/// The first setup has one winner. Once a password is in place, every other attempt to create the
/// first one is told that there is one: those that come after, and one that was under way and finds
/// the table's row taken. None of them changes the password.
pub proof fn law_first_setup_has_one_winner(
    s: StateView,
    write: WriteView,
    at: u64,
    stored: Result<Option<StoredView>, Seq<char>>,
    hashed: Seq<char>,
    origin: PasswordOrigin,
    client: Option<ClientAddr>,
    late: WriteView,
)
    ensures
        ({
            let (after, result) = web_auth::initial_finished(s, write, Ok(Some(at)), stored);
            let row = StoredView { password_hash: write.password_hash, updated_at: at };
            &&& result is Ok
            &&& after.load_error(stored) is None
            &&& after.hash(stored) == Some(write.password_hash)
            &&& web_auth::initial_hashed(after, stored, Ok(hashed), origin, client) == (
                after,
                Err::<WriteView, FailureView>(FailureView::AlreadyConfigured),
            )
            &&& web_auth::initial_finished(after, late, Ok(None), Ok(Some(row))) == (
                after,
                Err::<(), FailureView>(FailureView::AlreadyConfigured),
            )
        }),
{
    let (after, result) = web_auth::initial_finished(s, write, Ok(Some(at)), stored);
    let row = StoredView { password_hash: write.password_hash, updated_at: at };
    assert(credential::cached(Some(row)) == after.credential);
    assert(StateView { credential: credential::cached(Some(row)), ..after } == after);
}

/// What the first setup sets is what logs in afterwards: for every client that is not locked out,
/// whatever the table is said to hold.
pub proof fn law_setup_then_login(
    s: StateView,
    stored: Result<Option<StoredView>, Seq<char>>,
    password: Seq<char>,
    hashed: Result<Seq<char>, Seq<char>>,
    origin: PasswordOrigin,
    owner: Option<ClientAddr>,
    at: u64,
    client: ClientAddr,
    verdict: Result<bool, Seq<char>>,
    raw: Seq<u8>,
    times: LoginTimes,
)
    requires
        password::hash_possible(password, hashed),
        web_auth::initial_prepared(s, stored, password, hashed, origin, owner).1 is Ok,
        password::offer_possible(hashed->Ok_0, password, verdict),
        verdict is Ok,
        rate_limit::locked_for(s.rate_limit, client, times.checked) is None,
    ensures
        ({
            let (ready, write) = web_auth::initial_prepared(
                s,
                stored,
                password,
                hashed,
                origin,
                owner,
            );
            let after = web_auth::initial_finished(ready, write->Ok_0, Ok(Some(at)), stored).0;
            web_auth::login_run(after, stored, client, verdict, Ok(raw), times).1 == Ok::<
                Seq<char>,
                FailureView,
            >(session::token_text(raw))
        }),
{
    let (ready, write) = web_auth::initial_prepared(s, stored, password, hashed, origin, owner);
    let after = web_auth::initial_finished(ready, write->Ok_0, Ok(Some(at)), stored).0;
    law_the_right_password_logs_in(
        after,
        stored,
        client,
        password,
        hashed->Ok_0,
        verdict,
        Ok(raw),
        times,
    );
}

/// Two first setups at once have one winner, however their steps interleave. Both may have been
/// found fit before either is inserted; the table takes one of them, and answers the other that it
/// has that one. Whichever finishes first, the one gets its session, the other is told that there
/// is a password, and what counts and logs in is the password of the one.
pub proof fn law_setups_at_once_have_one_winner(
    s: StateView,
    stored: Result<Option<StoredView>, Seq<char>>,
    passwords: (Seq<char>, Seq<char>),
    hashes: (Seq<char>, Seq<char>),
    clients: (ClientAddr, ClientAddr),
    first_is_taken: bool,
    taken_finishes_first: bool,
    at: u64,
    raw: Seq<u8>,
    drawn: Result<Seq<u8>, Seq<char>>,
    now: u64,
    client: ClientAddr,
    verdict: Result<bool, Seq<char>>,
    later: Seq<u8>,
    times: LoginTimes,
)
    requires
        s.load_error(stored) is None,
        s.hash(stored) is None,
        password::password_problem(passwords.0) is None,
        password::password_problem(passwords.1) is None,
        password::hash_possible(passwords.0, Ok(hashes.0)),
        password::hash_possible(passwords.1, Ok(hashes.1)),
    ensures
        ({
            let (one, first) = web_auth::initial_prepared(
                s,
                stored,
                passwords.0,
                Ok(hashes.0),
                PasswordOrigin::WebSetup,
                Some(clients.0),
            );
            let (both, second) = web_auth::initial_prepared(
                one,
                stored,
                passwords.1,
                Ok(hashes.1),
                PasswordOrigin::WebSetup,
                Some(clients.1),
            );
            let (taken, refused) = if first_is_taken {
                (first->Ok_0, second->Ok_0)
            } else {
                (second->Ok_0, first->Ok_0)
            };
            let (password, hash) = if first_is_taken {
                (passwords.0, hashes.0)
            } else {
                (passwords.1, hashes.1)
            };
            let row = StoredView { password_hash: hash, updated_at: at };
            let (after, winner, loser) = if taken_finishes_first {
                let (half, winner) = web_auth::setup_finished(
                    both,
                    taken,
                    Ok(Some(at)),
                    stored,
                    Ok(raw),
                    now,
                );
                let (whole, loser) = web_auth::setup_finished(
                    half,
                    refused,
                    Ok(None),
                    Ok(Some(row)),
                    drawn,
                    now,
                );
                (whole, winner, loser)
            } else {
                let (half, loser) = web_auth::setup_finished(
                    both,
                    refused,
                    Ok(None),
                    Ok(Some(row)),
                    drawn,
                    now,
                );
                let (whole, winner) = web_auth::setup_finished(
                    half,
                    taken,
                    Ok(Some(at)),
                    stored,
                    Ok(raw),
                    now,
                );
                (whole, winner, loser)
            };
            &&& first is Ok && second is Ok
            &&& winner == Ok::<Seq<char>, FailureView>(session::token_text(raw))
            &&& loser == Err::<Seq<char>, FailureView>(FailureView::AlreadyConfigured)
            &&& after.hash(stored) == Some(hash)
            &&& password::offer_possible(hash, password, verdict) && verdict is Ok
                && rate_limit::locked_for(s.rate_limit, client, times.checked) is None
                ==> web_auth::login_run(after, stored, client, verdict, Ok(later), times).1 == Ok::<
                Seq<char>,
                FailureView,
            >(session::token_text(later))
        }),
{
    law_permitted_passwords_are_checked(passwords.0);
    law_permitted_passwords_are_checked(passwords.1);
    let (password, hash) = if first_is_taken {
        (passwords.0, hashes.0)
    } else {
        (passwords.1, hashes.1)
    };
    if password::verdict_possible(hash, password, verdict) {
        law_a_hash_accepts_its_password(password, hash, verdict);
    }
}

/// A change with a wrong current password changes neither the password nor any session, and does
/// not count towards the rate limit; it is recorded.
pub proof fn law_a_change_needs_the_current_password(
    s: StateView,
    client: ClientAddr,
    new_hash: Seq<char>,
)
    ensures
        ({
            let (after, result) = web_auth::change_settled(s, client, new_hash, Ok(false));
            &&& result == Err::<WriteView, FailureView>(FailureView::InvalidPassword)
            &&& after.credential == s.credential
            &&& after.sessions == s.sessions
            &&& after.rate_limit == s.rate_limit
            &&& after.events.len() == s.events.len() + 1
            &&& after.events.last().event_type == SecurityEventType::WebAuthFailed
        }),
{
}

/// A session of the sessions with a key has that key.
pub proof fn lemma_only_key(sessions: Seq<SessionView>, kept: Seq<u8>, other: Seq<u8>)
    requires
        session::has_key(session::only_key(sessions, Some(kept)), other),
    ensures
        other == kept,
{
    lemma_found_was_there(sessions, session::keyed(kept), other);
}

/// A change of the password ends every session but the one that it came from, which goes on as it
/// was; and from then on the new hash counts.
pub proof fn law_a_change_keeps_only_its_session(
    s: StateView,
    write: WriteView,
    at: u64,
    token: Seq<char>,
    other: Seq<char>,
    stored: Result<Option<StoredView>, Seq<char>>,
    now: u64,
)
    requires
        s.credential.loaded,
        s.credential.password_hash is Some,
        session::key_of(other) != session::key_of(token),
    ensures
        ({
            let (after, result) = web_auth::change_finished(s, write, Ok(at), Some(token));
            &&& result is Ok
            &&& after.hash(stored) == Some(write.password_hash)
            &&& web_auth::authorize_run(after, stored, Some(token), now).1
                == web_auth::authorize_run(s, stored, Some(token), now).1
            &&& web_auth::authorize_run(after, stored, Some(other), now).1
                == OutcomeView::Rejected(FailureView::Unauthenticated)
        }),
{
    let after = web_auth::change_finished(s, write, Ok(at), Some(token)).0;
    let kept = session::key_of(token);
    let alive = session::is_alive(s.idle(), now);
    if session::has_key(after.sessions.filter(alive), session::key_of(other)) {
        lemma_found_was_there(after.sessions, alive, session::key_of(other));
        lemma_only_key(s.sessions, kept, session::key_of(other));
    }
    sequences::lemma_filtered(s.sessions, session::keyed(kept));
    if session::has_key(s.sessions.filter(alive), kept) {
        lemma_found_was_there(s.sessions, alive, kept);
        let i = choose|i: int|
            0 <= i < s.sessions.len() && (#[trigger] s.sessions[i]).key == kept && alive(
                s.sessions[i],
            );
        assert(session::keyed(kept)(s.sessions[i]));
        let k = choose|k: int|
            0 <= k < after.sessions.len() && after.sessions[k] == s.sessions[i];
        lemma_alive_is_found(after.sessions, s.idle(), now, kept, k);
    }
    if session::has_key(after.sessions.filter(alive), kept) {
        lemma_found_was_there(after.sessions, alive, kept);
        let k = choose|k: int|
            0 <= k < after.sessions.len() && (#[trigger] after.sessions[k]).key == kept && alive(
                after.sessions[k],
            );
        assert(s.sessions.contains(after.sessions[k]));
        let i = choose|i: int| 0 <= i < s.sessions.len() && s.sessions[i] == after.sessions[k];
        lemma_alive_is_found(s.sessions, s.idle(), now, kept, i);
    }
}

/// A change that passes its check was made by someone who knew the password of the moment.
pub proof fn law_a_change_knows_the_password(
    s: StateView,
    stored: Result<Option<StoredView>, Seq<char>>,
    client: ClientAddr,
    current_password: Seq<char>,
    new_password: Seq<char>,
    after: StateView,
    write: WriteView,
)
    requires
        web_auth::change_possible(
            s,
            stored,
            client,
            current_password,
            new_password,
            after,
            Ok(write),
        ),
    ensures
        s.load_error(stored) is None,
        s.hash(stored) matches Some(hash) && password::accepts(hash, current_password),
        after == s.loaded(stored),
        password::password_problem(new_password) is None,
        password::hash_possible(new_password, Ok(write.password_hash)),
{
    let (hashed, verdict) = choose|
        hashed: Result<Seq<char>, Seq<char>>,
        verdict: Result<bool, Seq<char>>,
    |
        {
            &&& password::hash_possible(new_password, hashed)
            &&& web_auth::change_begun(s, stored).1 matches Ok(hash)
                ==> password::verdict_possible(hash, current_password, verdict)
            &&& (after, Ok::<WriteView, FailureView>(write)) == #[trigger] web_auth::change_prepared(
                s,
                stored,
                client,
                new_password,
                hashed,
                verdict,
            )
        };
}

/// Two changes cannot both pass on the old password. Once a change is finished, the next one, and
/// every login, is checked against the new password: one that passes was made by someone who knew
/// that one.
pub proof fn law_changes_pass_one_after_another(
    s: StateView,
    write: WriteView,
    at: u64,
    token: Option<Seq<char>>,
    stored: Result<Option<StoredView>, Seq<char>>,
    client: ClientAddr,
    current_password: Seq<char>,
    new_password: Seq<char>,
    later: StateView,
    second: WriteView,
)
    requires
        s.credential.loaded,
    ensures
        ({
            let after = web_auth::change_finished(s, write, Ok(at), token).0;
            &&& web_auth::change_begun(after, stored) == (
                after,
                Ok::<Seq<char>, FailureView>(write.password_hash),
            )
            &&& after.hash(stored) == Some(write.password_hash)
            &&& web_auth::change_possible(
                after,
                stored,
                client,
                current_password,
                new_password,
                later,
                Ok(second),
            ) ==> password::accepts(write.password_hash, current_password)
        }),
{
    let after = web_auth::change_finished(s, write, Ok(at), token).0;
    if web_auth::change_possible(
        after,
        stored,
        client,
        current_password,
        new_password,
        later,
        Ok(second),
    ) {
        law_a_change_knows_the_password(
            after,
            stored,
            client,
            current_password,
            new_password,
            later,
            second,
        );
    }
}

/// Whoever changed the password logs in with the new one.
pub proof fn law_change_then_login(
    s: StateView,
    write: WriteView,
    at: u64,
    token: Option<Seq<char>>,
    stored: Result<Option<StoredView>, Seq<char>>,
    client: ClientAddr,
    password: Seq<char>,
    verdict: Result<bool, Seq<char>>,
    raw: Seq<u8>,
    times: LoginTimes,
)
    requires
        s.credential.loaded,
        password::password_problem(password) is None,
        password::hash_possible(password, Ok(write.password_hash)),
        password::offer_possible(write.password_hash, password, verdict),
        verdict is Ok,
        rate_limit::locked_for(s.rate_limit, client, times.checked) is None,
    ensures
        web_auth::login_run(
            web_auth::change_finished(s, write, Ok(at), token).0,
            stored,
            client,
            verdict,
            Ok(raw),
            times,
        ).1 == Ok::<Seq<char>, FailureView>(session::token_text(raw)),
{
    law_the_right_password_logs_in(
        web_auth::change_finished(s, write, Ok(at), token).0,
        stored,
        client,
        password,
        write.password_hash,
        verdict,
        Ok(raw),
        times,
    );
}

/// Setting the password on this machine puts the new hash in place and ends every session.
pub proof fn law_a_local_password_ends_every_session(
    s: StateView,
    write: WriteView,
    at: u64,
    stored: Result<Option<StoredView>, Seq<char>>,
    token: Seq<char>,
    now: u64,
)
    ensures
        ({
            let (after, result) = web_auth::local_finished(s, write, Ok(at));
            &&& result is Ok
            &&& after.hash(stored) == Some(write.password_hash)
            &&& after.sessions.len() == 0
            &&& web_auth::authorize_run(after, stored, Some(token), now).1
                == OutcomeView::Rejected(FailureView::Unauthenticated)
        }),
{
    let after = web_auth::local_finished(s, write, Ok(at)).0;
    sequences::lemma_filtered(after.sessions, session::is_alive(after.idle(), now));
}

/// After a reset there is no password and no session: whatever is offered, one has to be set again,
/// and that is possible. A second reset changes nothing.
pub proof fn law_reset_leads_back_to_setup(
    s: StateView,
    removed: bool,
    stored: Result<Option<StoredView>, Seq<char>>,
    token: Option<Seq<char>>,
    hash: Seq<char>,
    origin: PasswordOrigin,
    client: Option<ClientAddr>,
    now: u64,
)
    ensures
        ({
            let (after, result) = web_auth::reset_run(s, Ok(removed));
            &&& result == Ok::<bool, FailureView>(removed)
            &&& after.sessions.len() == 0
            &&& after.load_error(stored) is None
            &&& after.hash(stored) is None
            &&& web_auth::authorize_run(after, stored, token, now).1 == OutcomeView::Rejected(
                FailureView::SetupRequired,
            )
            &&& web_auth::initial_hashed(after, stored, Ok(hash), origin, client) == (
                after,
                Ok::<WriteView, FailureView>(WriteView { password_hash: hash, origin, client }),
            )
            &&& web_auth::reset_run(after, Ok(false)) == (after, Ok::<bool, FailureView>(false))
        }),
{
    let after = web_auth::reset_run(s, Ok(removed)).0;
    assert(web_auth::reset_run(after, Ok(false)).0 =~= after);
}

/// A password stays in place until it is reset: no request, login, setup, change or status takes it
/// away, and only a setting or a change replaces it.
pub proof fn law_a_password_stays_until_it_is_reset(
    s: StateView,
    stored: Result<Option<StoredView>, Seq<char>>,
    token: Option<Seq<char>>,
    client: ClientAddr,
    password: Seq<char>,
    verdict: Result<bool, Seq<char>>,
    drawn: Result<Seq<u8>, Seq<char>>,
    hashed: Result<Seq<char>, Seq<char>>,
    origin: PasswordOrigin,
    times: LoginTimes,
    now: u64,
)
    requires
        s.credential.loaded,
        s.credential.password_hash is Some,
    ensures
        web_auth::authorize_run(s, stored, token, now).0.credential == s.credential,
        web_auth::login_run(s, stored, client, verdict, drawn, times).0.credential
            == s.credential,
        web_auth::initial_prepared(
            s,
            stored,
            password,
            hashed,
            origin,
            Some(client),
        ).0.credential == s.credential,
        web_auth::change_prepared(s, stored, client, password, hashed, verdict).0.credential
            == s.credential,
        web_auth::status_run(s, stored, now).0.credential == s.credential,
        web_auth::after_logout(s, token).credential == s.credential,
        web_auth::session_issued(s, drawn, now).0.credential == s.credential,
{
}

/// A write to the credential table that fails leaves everything as it was.
pub proof fn law_a_failed_write_changes_nothing(
    s: StateView,
    write: WriteView,
    error: Seq<char>,
    reread: Result<Option<StoredView>, Seq<char>>,
    token: Option<Seq<char>>,
)
    ensures
        web_auth::initial_finished(s, write, Err(error), reread).0 == s,
        web_auth::change_finished(s, write, Err(error), token).0 == s,
        web_auth::local_finished(s, write, Err(error)).0 == s,
        web_auth::reset_run(s, Err(error)).0 == s,
{
}

// ---------------------------------------------------------------------------
// The rate limit
// ---------------------------------------------------------------------------

/// The lockout doubles with every failure past the fifth, from fifteen seconds up to fifteen
/// minutes.
pub proof fn law_lockouts_double(failures: u32)
    requires
        rate_limit::LOCKOUT_AFTER_FAILURES <= failures < u32::MAX,
    ensures
        rate_limit::backoff_seconds(5) == 15,
        15 <= rate_limit::backoff_seconds(failures) <= 900,
        rate_limit::backoff_seconds((failures + 1) as u32) == if 2 * rate_limit::backoff_seconds(
            failures,
        ) < 900 {
            2 * rate_limit::backoff_seconds(failures)
        } else {
            900
        },
{
    vstd::arithmetic::power2::lemma2_to64();
    rate_limit::lemma_backoff_bounds(failures);
    let steps = (failures - 5) as nat;
    if steps < 16 {
        vstd::arithmetic::power2::lemma_pow2_unfold(steps + 1);
    }
    if steps >= 6 {
        if steps < 16 {
            if steps > 6 {
                vstd::arithmetic::power2::lemma_pow2_strictly_increases(6, steps);
            }
        }
    }
}

/// The record of a client, where it has one.
pub open spec fn record_of(
    clients: Seq<(ClientAddr, ClientAttempts)>,
    client: ClientAddr,
) -> Option<ClientAttempts> {
    match rate_limit::entry_of(clients, client) {
        Some(i) => Some(clients[i].1),
        None => None,
    }
}

/// An entry, where there is one, has the address.
pub proof fn lemma_entry_has_address(clients: Seq<(ClientAddr, ClientAttempts)>, client: ClientAddr)
    ensures
        match rate_limit::entry_of(clients, client) {
            Some(i) => 0 <= i < clients.len() && clients[i].0 == client,
            None => forall|j: int| 0 <= j < clients.len() ==> (#[trigger] clients[j]).0 != client,
        },
{
    match rate_limit::entry_of(clients, client) {
        Some(i) => {
            assert(rate_limit::is_first_entry(clients, client, i));
        },
        None => {
            assert forall|j: int| 0 <= j < clients.len() implies (#[trigger] clients[j]).0
                != client by {
                if clients[j].0 == client {
                    rate_limit::lemma_first_entry_exists(clients, client, j);
                }
            }
        },
    }
}

/// The entry of a client that has one entry is where its address is.
pub proof fn lemma_record_at(
    clients: Seq<(ClientAddr, ClientAttempts)>,
    client: ClientAddr,
    i: int,
)
    requires
        rate_limit::one_entry_each(clients),
        0 <= i < clients.len(),
        clients[i].0 == client,
    ensures
        rate_limit::entry_of(clients, client) == Some(i),
{
    rate_limit::lemma_first_entry_exists(clients, client, i);
    lemma_entry_has_address(clients, client);
    let k = rate_limit::entry_of(clients, client)->0;
    if k < i {
        assert(clients[k].0 != clients[i].0);
    } else if i < k {
        assert(clients[i].0 != clients[k].0);
    }
}

/// Filtering keeps the record of a client that the filter holds of, and brings none back.
pub proof fn lemma_filter_keeps_record(
    clients: Seq<(ClientAddr, ClientAttempts)>,
    keep: spec_fn((ClientAddr, ClientAttempts)) -> bool,
    client: ClientAddr,
)
    requires
        rate_limit::one_entry_each(clients),
        record_of(clients, client) matches Some(attempts) ==> keep((client, attempts)),
    ensures
        record_of(clients.filter(keep), client) == record_of(clients, client),
{
    let kept = clients.filter(keep);
    sequences::lemma_filtered(clients, keep);
    rate_limit::lemma_filter_entries(clients, keep);
    lemma_entry_has_address(clients, client);
    lemma_entry_has_address(kept, client);
    match rate_limit::entry_of(clients, client) {
        Some(i) => {
            assert(clients[i] == (client, clients[i].1));
            assert(keep(clients[i]));
            let k = choose|k: int| 0 <= k < kept.len() && kept[k] == clients[i];
            lemma_record_at(kept, client, k);
        },
        None => {
            if let Some(k) = rate_limit::entry_of(kept, client) {
                assert(clients.contains(kept[k]));
                let i = choose|i: int| 0 <= i < clients.len() && clients[i] == kept[k];
                assert(clients[i].0 == client);
            }
        },
    }
}

/// Whether the record of a client, or that it has none, outlasts the eviction that goes with a
/// failure at `now`.
pub open spec fn record_survives(
    clients: Seq<(ClientAddr, ClientAttempts)>,
    client: ClientAddr,
    now: u64,
) -> bool {
    record_of(rate_limit::after_eviction(clients, now), client) == record_of(clients, client)
}

/// A record is kept for an hour after its last failure, and as long as its lockout runs, while the
/// table is not full.
pub proof fn law_fresh_records_survive(
    clients: Seq<(ClientAddr, ClientAttempts)>,
    client: ClientAddr,
    now: u64,
)
    requires
        rate_limit::one_entry_each(clients),
        clients.len() < rate_limit::MAX_TRACKED_CLIENTS,
        record_of(clients, client) matches Some(attempts) ==> {
            ||| clock::within_span(
                now,
                attempts.last_failure_at,
                rate_limit::ATTEMPT_RETENTION_SECONDS,
            )
            ||| attempts.locked_until matches Some(until) && now < until
        },
    ensures
        record_survives(clients, client, now),
{
    let fresh = rate_limit::is_fresh(now);
    sequences::lemma_filtered(clients, fresh);
    rate_limit::lemma_with_room(clients.filter(fresh));
    lemma_filter_keeps_record(clients, fresh, client);
}

/// A failure adds one to the client's record, and starts one where there is none; the lockout that
/// it brings goes by the record, or by the limit over all clients.
pub proof fn law_failures_add_up(limit: RateLimitView, client: ClientAddr, now: u64)
    requires
        limit.wf(),
        record_survives(limit.clients, client, now),
    ensures
        ({
            let after = rate_limit::after_failure(limit, client, now);
            let before = match record_of(limit.clients, client) {
                Some(attempts) => attempts,
                None => rate_limit::no_failures(now),
            };
            &&& after.wf()
            &&& record_of(after.clients, client) == Some(rate_limit::failed_again(before, now))
            &&& rate_limit::failure_lockout(limit, client, now) == {
                let failures = rate_limit::counted_up(before.failures);
                if failures >= rate_limit::LOCKOUT_AFTER_FAILURES {
                    Some(rate_limit::backoff_seconds(failures) as u64)
                } else if rate_limit::trips_global_limit(limit, now) {
                    Some(rate_limit::GLOBAL_LOCKOUT_SECONDS)
                } else {
                    None
                }
            }
        }),
{
    let after = rate_limit::after_failure(limit, client, now);
    let kept = rate_limit::after_eviction(limit.clients, now);
    rate_limit::lemma_failure_keeps_wf(limit, client, now);
    lemma_entry_has_address(kept, client);
    let at = match rate_limit::entry_of(kept, client) {
        Some(i) => i,
        None => kept.len() as int,
    };
    assert(after.clients[at].0 == client);
    lemma_record_at(after.clients, client, at);
}

/// From the fifth failure on the client is locked out, until its lockout has run out.
pub proof fn law_failures_lock_the_client(
    limit: RateLimitView,
    client: ClientAddr,
    now: u64,
    later: u64,
)
    requires
        limit.wf(),
        record_survives(limit.clients, client, now),
        record_of(limit.clients, client) matches Some(attempts) && attempts.failures >= 4,
        now <= rate_limit::LAST_MOMENT,
        later < now + rate_limit::backoff_seconds(
            rate_limit::counted_up(record_of(limit.clients, client)->0.failures),
        ) * clock::NANOS_PER_SECOND,
    ensures
        rate_limit::failure_lockout(limit, client, now) == Some(
            rate_limit::backoff_seconds(
                rate_limit::counted_up(record_of(limit.clients, client)->0.failures),
            ) as u64,
        ),
        rate_limit::locked_for(rate_limit::after_failure(limit, client, now), client, later) is Some,
{
    law_failures_add_up(limit, client, now);
    let failures = rate_limit::counted_up(record_of(limit.clients, client)->0.failures);
    rate_limit::lemma_backoff_bounds(failures);
    let wait = rate_limit::backoff_seconds(failures);
    assert(0 <= wait * clock::NANOS_PER_SECOND <= 900_000_000_000) by (nonlinear_arith)
        requires
            0 <= wait <= 900,
            clock::NANOS_PER_SECOND == 1_000_000_000,
    ;
}

/// The rate limit after failures of these clients at these moments, one after another.
pub open spec fn after_all_failures(
    limit: RateLimitView,
    failures: Seq<(ClientAddr, u64)>,
) -> RateLimitView
    decreases failures.len(),
{
    if failures.len() == 0 {
        limit
    } else {
        rate_limit::after_failure(
            after_all_failures(limit, failures.drop_last()),
            failures.last().0,
            failures.last().1,
        )
    }
}

/// How many of the failures are the client's.
pub open spec fn failures_of(failures: Seq<(ClientAddr, u64)>, client: ClientAddr) -> nat
    decreases failures.len(),
{
    if failures.len() == 0 {
        0
    } else {
        failures_of(failures.drop_last(), client) + if failures.last().0 == client {
            1nat
        } else {
            0nat
        }
    }
}

/// When the client's last failure was, where it has one.
pub open spec fn last_failure_of(failures: Seq<(ClientAddr, u64)>, client: ClientAddr) -> Option<u64>
    decreases failures.len(),
{
    if failures.len() == 0 {
        None
    } else if failures.last().0 == client {
        Some(failures.last().1)
    } else {
        last_failure_of(failures.drop_last(), client)
    }
}

/// Whether the record of a client outlasts each of these failures, its own and those of others.
pub open spec fn always_survives(
    limit: RateLimitView,
    client: ClientAddr,
    failures: Seq<(ClientAddr, u64)>,
) -> bool
    decreases failures.len(),
{
    failures.len() > 0 ==> {
        let before = failures.drop_last();
        &&& always_survives(limit, client, before)
        &&& record_survives(
            after_all_failures(limit, before).clients,
            client,
            failures.last().1,
        )
    }
}

/// A failure of another client leaves the record of a client as it is.
pub proof fn law_failures_of_others_do_not_count(
    limit: RateLimitView,
    client: ClientAddr,
    other: ClientAddr,
    now: u64,
)
    requires
        limit.wf(),
        other != client,
        record_survives(limit.clients, client, now),
    ensures
        record_of(rate_limit::after_failure(limit, other, now).clients, client) == record_of(
            limit.clients,
            client,
        ),
{
    let kept = rate_limit::after_eviction(limit.clients, now);
    let after = rate_limit::after_failure(limit, other, now).clients;
    rate_limit::lemma_failure_keeps_wf(limit, other, now);
    lemma_entry_has_address(kept, client);
    lemma_entry_has_address(kept, other);
    lemma_entry_has_address(after, client);
    match rate_limit::entry_of(kept, client) {
        Some(i) => {
            assert(after[i] == kept[i]);
            lemma_record_at(after, client, i);
        },
        None => {
            if let Some(k) = rate_limit::entry_of(after, client) {
                assert(after[k].0 == client);
                if k < kept.len() {
                    assert(kept[k].0 == client || kept[k].0 == other);
                }
            }
        },
    }
}

/// The failures of a client are all counted, whoever else fails in between: from when it has no
/// record on, its record says how many failures it had and when the last one was.
pub proof fn law_failures_in_a_row_are_counted(
    limit: RateLimitView,
    client: ClientAddr,
    failures: Seq<(ClientAddr, u64)>,
)
    requires
        limit.wf(),
        record_of(limit.clients, client) is None,
        always_survives(limit, client, failures),
        failures_of(failures, client) <= u32::MAX,
    ensures
        after_all_failures(limit, failures).wf(),
        match record_of(after_all_failures(limit, failures).clients, client) {
            Some(attempts) => {
                &&& 0 < attempts.failures == failures_of(failures, client)
                &&& last_failure_of(failures, client) == Some(attempts.last_failure_at)
            },
            None => failures_of(failures, client) == 0 && last_failure_of(failures, client) is None,
        },
    decreases failures.len(),
{
    if failures.len() > 0 {
        let before = failures.drop_last();
        let (who, when) = failures.last();
        let earlier = after_all_failures(limit, before);
        law_failures_in_a_row_are_counted(limit, client, before);
        rate_limit::lemma_failure_keeps_wf(earlier, who, when);
        if who == client {
            law_failures_add_up(earlier, client, when);
        } else {
            law_failures_of_others_do_not_count(earlier, client, who, when);
        }
    }
}

/// Whether every one of these failures comes within an hour of the client's last one before it.
pub open spec fn within_the_hour(failures: Seq<(ClientAddr, u64)>, client: ClientAddr) -> bool
    decreases failures.len(),
{
    failures.len() > 0 ==> {
        let before = failures.drop_last();
        &&& within_the_hour(before, client)
        &&& last_failure_of(before, client) matches Some(last) ==> clock::within_span(
            failures.last().1,
            last,
            rate_limit::ATTEMPT_RETENTION_SECONDS,
        )
    }
}

/// In a table that these failures do not fill, failures within an hour of the client's last one all
/// find its record.
pub proof fn law_failures_within_the_hour_survive(
    limit: RateLimitView,
    client: ClientAddr,
    failures: Seq<(ClientAddr, u64)>,
)
    requires
        limit.wf(),
        limit.clients.len() + failures.len() <= rate_limit::MAX_TRACKED_CLIENTS,
        record_of(limit.clients, client) is None,
        within_the_hour(failures, client),
    ensures
        always_survives(limit, client, failures),
        after_all_failures(limit, failures).clients.len() <= limit.clients.len() + failures.len(),
        failures_of(failures, client) <= failures.len(),
    decreases failures.len(),
{
    if failures.len() > 0 {
        let before = failures.drop_last();
        let (who, when) = failures.last();
        let earlier = after_all_failures(limit, before);
        law_failures_within_the_hour_survive(limit, client, before);
        law_failures_in_a_row_are_counted(limit, client, before);
        law_fresh_records_survive(earlier.clients, client, when);
        let fresh = rate_limit::is_fresh(when);
        sequences::lemma_filtered(earlier.clients, fresh);
        rate_limit::lemma_with_room(earlier.clients.filter(fresh));
        lemma_entry_has_address(rate_limit::after_eviction(earlier.clients, when), who);
    }
}

/// Four failures of a client lock nobody out by themselves; the fifth does, for fifteen seconds,
/// whoever else fails in between.
pub proof fn law_the_fifth_failure_locks(
    limit: RateLimitView,
    client: ClientAddr,
    failures: Seq<(ClientAddr, u64)>,
    now: u64,
)
    requires
        limit.wf(),
        record_of(limit.clients, client) is None,
        failures_of(failures, client) <= 4,
        always_survives(limit, client, failures.push((client, now))),
    ensures
        ({
            let before = after_all_failures(limit, failures);
            &&& failures_of(failures, client) == 4 ==> rate_limit::failure_lockout(
                before,
                client,
                now,
            ) == Some(15u64)
            &&& failures_of(failures, client) < 4 && !rate_limit::trips_global_limit(before, now)
                ==> rate_limit::failure_lockout(before, client, now) is None
        }),
{
    let all = failures.push((client, now));
    assert(all.drop_last() =~= failures);
    assert(all.last() == (client, now));
    law_failures_in_a_row_are_counted(limit, client, failures);
    law_failures_add_up(after_all_failures(limit, failures), client, now);
    law_lockouts_double(5);
}

/// A login that succeeds forgets the failures of its client, and of no other.
pub proof fn law_success_clears_the_failures(
    limit: RateLimitView,
    client: ClientAddr,
    other: ClientAddr,
)
    requires
        limit.wf(),
        other != client,
    ensures
        record_of(rate_limit::after_clearing(limit, client).clients, client) is None,
        record_of(rate_limit::after_clearing(limit, client).clients, other) == record_of(
            limit.clients,
            other,
        ),
{
    let kept = limit.clients.filter(rate_limit::is_other(client));
    sequences::lemma_filtered(limit.clients, rate_limit::is_other(client));
    lemma_entry_has_address(kept, client);
    if let Some(k) = rate_limit::entry_of(kept, client) {
        assert(rate_limit::is_other(client)(kept[k]));
    }
    lemma_filter_keeps_record(limit.clients, rate_limit::is_other(client), other);
}

/// The failure that reaches the limit over all clients locks everyone out for a minute.
pub proof fn law_the_limit_over_all_locks_everyone(
    limit: RateLimitView,
    client: ClientAddr,
    anyone: ClientAddr,
    now: u64,
    later: u64,
)
    requires
        rate_limit::trips_global_limit(limit, now),
        now <= rate_limit::LAST_MOMENT,
        later < now + rate_limit::GLOBAL_LOCKOUT_SECONDS * clock::NANOS_PER_SECOND,
    ensures
        rate_limit::locked_for(rate_limit::after_failure(limit, client, now), anyone, later) is Some,
        rate_limit::failure_lockout(limit, client, now) is Some,
{
}

/// Failures of any clients within five minutes of the first are all counted together, up to the
/// limit; the hundredth reaches it.
pub proof fn law_failures_of_all_are_counted_together(
    limit: RateLimitView,
    failures: Seq<(ClientAddr, u64)>,
    now: u64,
)
    requires
        0 < failures.len() < rate_limit::GLOBAL_FAILURE_LIMIT,
        !rate_limit::window_open(limit, failures[0].1),
        forall|i: int|
            0 <= i < failures.len() ==> clock::within_span(
                (#[trigger] failures[i]).1,
                failures[0].1,
                rate_limit::GLOBAL_FAILURE_WINDOW_SECONDS,
            ),
        clock::within_span(now, failures[0].1, rate_limit::GLOBAL_FAILURE_WINDOW_SECONDS),
    ensures
        after_all_failures(limit, failures).global_failures == failures.len(),
        after_all_failures(limit, failures).global_window_started_at == Some(failures[0].1),
        rate_limit::trips_global_limit(after_all_failures(limit, failures), now) <==> failures.len()
            == rate_limit::GLOBAL_FAILURE_LIMIT - 1,
    decreases failures.len(),
{
    let before = failures.drop_last();
    if before.len() > 0 {
        assert forall|i: int| 0 <= i < before.len() implies clock::within_span(
            (#[trigger] before[i]).1,
            before[0].1,
            rate_limit::GLOBAL_FAILURE_WINDOW_SECONDS,
        ) by {
            assert(before[i] == failures[i]);
        }
        assert(clock::within_span(
            failures[failures.len() - 1].1,
            failures[0].1,
            rate_limit::GLOBAL_FAILURE_WINDOW_SECONDS,
        ));
        law_failures_of_all_are_counted_together(limit, before, failures.last().1);
    } else {
        assert(after_all_failures(limit, before) == limit);
    }
}

// ---------------------------------------------------------------------------
// The password file
// ---------------------------------------------------------------------------

/// Of the content of a password file only the line ends at its close are cut off: spaces and
/// everything else stay.
pub proof fn law_only_line_ends_are_cut_off(password: Seq<char>, ends: Seq<char>)
    requires
        password.len() > 0 ==> !text::is_line_end_char(password.last()),
        forall|i: int| 0 <= i < ends.len() ==> text::is_line_end_char(#[trigger] ends[i]),
    ensures
        text::trim_line_ends(password + ends) == password,
    decreases ends.len(),
{
    if ends.len() == 0 {
        assert(password + ends =~= password);
    } else {
        let whole = password + ends;
        assert(whole.last() == ends[ends.len() - 1]);
        assert(whole.drop_last() =~= password + ends.drop_last());
        law_only_line_ends_are_cut_off(password, ends.drop_last());
    }
}

/// A password file never replaces a password: where there is one, the file is ignored, and the log
/// says so.
pub proof fn law_a_password_file_replaces_nothing(
    s: StateView,
    stored: Result<Option<StoredView>, Seq<char>>,
    path: Seq<char>,
    password: Seq<char>,
    hash: Seq<char>,
)
    requires
        s.load_error(stored) is None,
        s.hash(stored) is Some,
        password::password_problem(password) is None,
    ensures
        startup::file_decided(s, stored, path) == (
            s.loaded(stored),
            Ok::<startup::DecisionView, Seq<char>>(
                startup::DecisionView::Ignore(startup::ignored_line(path)),
            ),
        ),
        startup::file_prepared(s, stored, path, Ok(password), Ok(hash)) == (
            s.loaded(stored),
            Ok::<startup::FileStepView, Seq<char>>(
                startup::FileStepView::Ignore(startup::ignored_line(path)),
            ),
        ),
        s.loaded(stored).hash(stored) == s.hash(stored),
{
}

/// A password file that cannot be used is an error and sets no password: it cannot be read, its
/// content is not permitted, or it could not be hashed or stored.
pub proof fn law_a_failed_password_file_sets_nothing(
    s: StateView,
    stored: Result<Option<StoredView>, Seq<char>>,
    path: Seq<char>,
    read: Result<Seq<char>, Seq<char>>,
    hashed: Result<Seq<char>, Seq<char>>,
    write: WriteView,
    created: Result<Option<u64>, Seq<char>>,
    reread: Result<Option<StoredView>, Seq<char>>,
)
    requires
        s.load_error(stored) is None,
        s.hash(stored) is None,
    ensures
        read is Err ==> startup::file_prepared(s, stored, path, read, hashed).1 is Err,
        read matches Ok(password) && password::password_problem(password) is Some
            ==> startup::file_prepared(s, stored, path, read, hashed).1 is Err,
        ({
            let (after, result) = startup::file_prepared(s, stored, path, read, hashed);
            &&& after.hash(stored) is None
            &&& result is Err ==> after.sessions == s.sessions && after.events == s.events
        }),
        ({
            let (after, result) = startup::file_finished(s, path, write, created, reread);
            result is Err ==> after == s
        }),
{
}

/// An empty password file is an error.
pub proof fn law_an_empty_password_file_fails(
    s: StateView,
    stored: Result<Option<StoredView>, Seq<char>>,
    path: Seq<char>,
    facts: startup::FileFacts,
    hashed: Result<Seq<char>, Seq<char>>,
)
    requires
        facts.is_file,
        facts.len <= startup::MAX_PASSWORD_FILE_BYTES,
    ensures
        ({
            let read = startup::file_password(Ok(facts), Ok(Seq::empty()));
            &&& read == Ok::<Seq<char>, Seq<char>>(Seq::empty())
            &&& startup::file_prepared(s, stored, path, read, hashed).1 is Err
        }),
{
}

/// What the password file sets is what logs in.
pub proof fn law_password_file_then_login(
    s: StateView,
    stored: Result<Option<StoredView>, Seq<char>>,
    path: Seq<char>,
    password: Seq<char>,
    hashed: Result<Seq<char>, Seq<char>>,
    at: u64,
    client: ClientAddr,
    verdict: Result<bool, Seq<char>>,
    raw: Seq<u8>,
    times: LoginTimes,
)
    requires
        password::hash_possible(password, hashed),
        startup::file_prepared(s, stored, path, Ok(password), hashed).1 matches Ok(
            startup::FileStepView::Insert(_),
        ),
        password::offer_possible(hashed->Ok_0, password, verdict),
        verdict is Ok,
        rate_limit::locked_for(s.rate_limit, client, times.checked) is None,
    ensures
        ({
            let (ready, step) = startup::file_prepared(s, stored, path, Ok(password), hashed);
            let (after, line) = startup::file_finished(
                ready,
                path,
                step->Ok_0->Insert_0,
                Ok(Some(at)),
                stored,
            );
            &&& line is Ok
            &&& web_auth::login_run(after, stored, client, verdict, Ok(raw), times).1
                == Ok::<Seq<char>, FailureView>(session::token_text(raw))
        }),
{
    law_setup_then_login(
        s,
        stored,
        password,
        hashed,
        PasswordOrigin::PasswordFile,
        None,
        at,
        client,
        verdict,
        raw,
        times,
    );
}

// ---------------------------------------------------------------------------
// What the front end and the security log are told
// ---------------------------------------------------------------------------

/// Failures of different kinds have different codes, so that the front end can go by the code alone.
pub proof fn law_codes_tell_failures_apart(a: FailureView, b: FailureView)
    requires
        failure::failure_code(a) == failure::failure_code(b),
    ensures
        a is SetupRequired <==> b is SetupRequired,
        a is AlreadyConfigured <==> b is AlreadyConfigured,
        a is Unauthenticated <==> b is Unauthenticated,
        a is InvalidPassword <==> b is InvalidPassword,
        a is Locked <==> b is Locked,
        a is Invalid <==> b is Invalid,
        a is Internal <==> b is Internal,
{
    reveal_strlit("setup_required");
    reveal_strlit("already_configured");
    reveal_strlit("unauthenticated");
    reveal_strlit("invalid_password");
    reveal_strlit("locked");
    reveal_strlit("invalid_request");
    reveal_strlit("internal_error");
    let x = failure::failure_code(a);
    let y = failure::failure_code(b);
    assert(x.len() == y.len());
    assert(x[0] == y[0]);
    assert(x[2] == y[2]);
}

/// Every change of the password that succeeds is recorded once, with its origin, and put down to
/// the client it came from or to this machine.
pub proof fn law_password_changes_are_recorded(
    s: StateView,
    write: WriteView,
    at: u64,
    reread: Result<Option<StoredView>, Seq<char>>,
    token: Option<Seq<char>>,
)
    ensures
        ({
            let recorded = EventView {
                event_type: SecurityEventType::WebAuthPasswordChanged,
                client: match write.client {
                    Some(client) => client,
                    None => failure::localhost(),
                },
                reason: failure::origin_reason(write.origin),
            };
            &&& web_auth::initial_finished(s, write, Ok(Some(at)), reread).0.events
                == s.events.push(recorded)
            &&& web_auth::change_finished(s, write, Ok(at), token).0.events == s.events.push(
                recorded,
            )
            &&& web_auth::local_finished(s, write, Ok(at)).0.events == s.events.push(recorded)
        }),
{
}

// ---------------------------------------------------------------------------
// The command line
// ---------------------------------------------------------------------------

/// A restore keeps the wish to take over, or names a data directory, only where it is done offline;
/// asking for either without `--offline` is an error.
pub proof fn law_rescue_options_need_offline(args: Seq<Option<Seq<char>>>, from: int)
    ensures
        headless::restore_step(args, from) matches Ok(step) ==> {
            ||| step is RestoreOffline
            ||| step == headless::plain_call(
                "restore_linux_system_dns"@,
                headless::TaskView::Print,
            )
        },
        headless::restore_options(
            (headless::RestoreView { offline: false, keep_desired: false, data_dir: None }),
            args,
            from,
        ) matches Ok(options) && !options.offline && (options.keep_desired
            || options.data_dir is Some) ==> headless::restore_step(args, from) is Err,
{
}

/// A password is never taken from the command line: `set-password` with anything behind it is
/// refused.
pub proof fn law_no_password_on_the_command_line(args: Seq<Option<Seq<char>>>, version: Seq<char>)
    requires
        args.len() > 3,
        args[1] == Some("web-auth"@),
    ensures
        headless::started(args, true, version) == Err::<headless::StepView, Seq<char>>(
            headless::WEB_AUTH_USAGE@,
        ),
{
    reveal_strlit("web-auth");
    reveal_strlit("serve");
    reveal_strlit("status");
    reveal_strlit("healthcheck");
    reveal_strlit("start");
    reveal_strlit("stop");
    reveal_strlit("filters");
    reveal_strlit("config");
    reveal_strlit("system-dns");
    assert("web-auth"@[0] == 'w');
    assert("web-auth"@.len() == 8);
}

/// At a terminal a password counts only when it is entered twice alike; from a pipe its line is
/// taken as it is. An empty one never counts.
pub proof fn law_passwords_are_confirmed(first: Seq<char>, second: Seq<char>)
    ensures
        headless::answered(headless::PromptView::First, first) matches Ok(step)
            ==> first.len() > 0 && step == headless::PromptStepView::Ask(
            headless::PromptView::Confirm(first),
        ),
        headless::answered(headless::PromptView::Confirm(first), second) is Ok <==> first == second,
        headless::answered(headless::PromptView::Confirm(first), second) matches Ok(step)
            ==> step == headless::PromptStepView::Password(first),
        headless::answered(headless::PromptView::Piped, first) is Ok <==> first.len() > 0,
        headless::answered(headless::PromptView::Piped, first) matches Ok(step) ==> step
            == headless::PromptStepView::Password(first),
{
}

/// Without the web interface neither of its `serve` options is accepted.
pub proof fn law_no_web_options_without_the_web(
    so_far: headless::ServeView,
    args: Seq<Option<Seq<char>>>,
    index: int,
)
    requires
        0 <= index < args.len(),
        args[index] == Some("--web-listen"@) || args[index] == Some("--admin-password-file"@),
    ensures
        headless::serve_option(so_far, args, index, false) is Err,
{
    reveal_strlit("--web-listen");
    reveal_strlit("--admin-password-file");
    reveal_strlit("--data-dir");
    reveal_strlit("--bootstrap-config");
    assert("--web-listen"@[2] == 'w');
    assert("--admin-password-file"@[2] == 'a');
    assert("--data-dir"@[2] == 'd');
    assert("--bootstrap-config"@[2] == 'b');
}

/// Without the web interface the options of `serve` never come to listen for it or to read a
/// password file for it.
pub proof fn lemma_no_web_serving(
    so_far: headless::ServeView,
    args: Seq<Option<Seq<char>>>,
    index: int,
)
    requires
        0 <= index,
    ensures
        headless::serve_options(so_far, args, index, false) matches Ok(options) ==> {
            &&& options.web_listen == so_far.web_listen
            &&& options.admin_password_file == so_far.admin_password_file
        },
    decreases args.len() - index,
{
    if index < args.len() {
        if let Ok(next) = headless::serve_option(so_far, args, index, false) {
            lemma_no_web_serving(next, args, index + 2);
        }
    }
}

/// Without the web interface the service never listens for it, and reads no password file for it.
pub proof fn law_no_web_serving_without_the_web(args: Seq<Option<Seq<char>>>, version: Seq<char>)
    ensures
        headless::started(args, false, version) matches Ok(headless::StepView::Serve(options)) ==> {
            &&& options.web_listen is None
            &&& options.admin_password_file is None
        },
{
    lemma_no_web_serving(headless::serve_defaults(false), args, 2);
}

/// Without the web interface `web-auth` is an unknown command, whatever follows it.
pub proof fn law_no_web_auth_without_the_web(args: Seq<Option<Seq<char>>>, version: Seq<char>)
    requires
        args.len() > 1,
        args[1] == Some("web-auth"@),
    ensures
        headless::started(args, false, version) == Err::<headless::StepView, Seq<char>>(
            "未知命令："@ + "web-auth"@ + "\n\n"@ + headless::HELP_TEXT@,
        ),
{
    reveal_strlit("web-auth");
    reveal_strlit("serve");
    reveal_strlit("status");
    reveal_strlit("healthcheck");
    reveal_strlit("start");
    reveal_strlit("stop");
    reveal_strlit("filters");
    reveal_strlit("config");
    reveal_strlit("system-dns");
    reveal_strlit("--help");
    reveal_strlit("-h");
    reveal_strlit("help");
    reveal_strlit("--version");
    reveal_strlit("-V");
    assert("web-auth"@[0] == 'w');
}

} // verus!
