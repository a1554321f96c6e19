//! Laws of access: whom a session lets in, how long it lives, and what each operation leaves of the
//! sessions, in terms of the state, the tokens and moments alone.

use vstd::prelude::*;

use crate::credential::{CredentialView, StoredView};
use crate::crypto;
use crate::failure::FailureView;
use crate::laws_of_text;
use crate::sequences;
use crate::session::{self, SessionView};
use crate::web_auth::{self, AppConfig, OutcomeView, StateView};

verus! {

/// Whether a session is alive at `now`: it began no more than twelve hours ago, and was last seen
/// no longer ago than the configured minutes, or an hour where the configuration is not known.
pub open spec fn lives(s: SessionView, config: Option<AppConfig>, now: u64) -> bool {
    &&& now - s.created_at <= 43_200_000_000_000
    &&& now - s.last_seen_at <= match config {
        Some(known) => known.web_admin_session_idle_minutes * 60_000_000_000,
        None => 3_600_000_000_000,
    }
}

/// The sessions that are alive at `now`, in their order.
pub open spec fn living(
    sessions: Seq<SessionView>,
    config: Option<AppConfig>,
    now: u64,
) -> Seq<SessionView> {
    sessions.filter(|s: SessionView| lives(s, config, now))
}

/// The digest under which the session of a token is kept.
pub open spec fn digest(token: Seq<char>) -> Seq<u8> {
    crypto::sha256(vstd::utf8::encode_utf8(token))
}

/// The hash of the password, as far as it is known: what was read before counts, or else what is
/// stored.
pub open spec fn known_hash(
    s: StateView,
    stored: Result<Option<StoredView>, Seq<char>>,
) -> Result<Option<Seq<char>>, Seq<char>> {
    if s.credential.loaded {
        Ok(s.credential.password_hash)
    } else {
        match stored {
            Ok(Some(row)) => Ok(Some(row.password_hash)),
            Ok(None) => Ok(None),
            Err(error) => Err(error),
        }
    }
}

/// What is remembered of the stored password once it has been looked at.
pub open spec fn remembered(
    s: StateView,
    stored: Result<Option<StoredView>, Seq<char>>,
) -> CredentialView {
    if s.credential.loaded {
        s.credential
    } else {
        match stored {
            Ok(Some(row)) => CredentialView {
                loaded: true,
                password_hash: Some(row.password_hash),
                updated_at: Some(row.updated_at),
            },
            Ok(None) => CredentialView { loaded: true, password_hash: None, updated_at: None },
            Err(_) => s.credential,
        }
    }
}

/// Whether one of the sessions is alive and is that of the token.
pub open spec fn holds_a_session(s: StateView, token: Seq<char>, now: u64) -> bool {
    exists|i: int|
        0 <= i < s.sessions.len() && (#[trigger] s.sessions[i]).key == digest(token) && lives(
            s.sessions[i],
            s.config,
            now,
        )
}

/// Whether the last of the sessions with this key stands at `i`.
pub open spec fn is_the_last(sessions: Seq<SessionView>, key: Seq<u8>, i: int) -> bool {
    &&& 0 <= i < sessions.len()
    &&& sessions[i].key == key
    &&& forall|j: int| i < j < sessions.len() ==> (#[trigger] sessions[j]).key != key
}

/// The sessions that are kept alive are the living ones.
pub proof fn law_sessions_live_their_time(s: StateView, now: u64)
    ensures
        session::alive(s.sessions, s.idle(), now) == living(s.sessions, s.config, now),
        living(s.sessions, s.config, now).len() <= s.sessions.len(),
        forall|i: int|
            0 <= i < s.sessions.len() && lives(#[trigger] s.sessions[i], s.config, now) ==> living(
                s.sessions,
                s.config,
                now,
            ).contains(s.sessions[i]),
        forall|i: int|
            0 <= i < living(s.sessions, s.config, now).len() ==> lives(
                #[trigger] living(s.sessions, s.config, now)[i],
                s.config,
                now,
            ) && s.sessions.contains(living(s.sessions, s.config, now)[i]),
{
    let raw = |x: SessionView| lives(x, s.config, now);
    let idle = s.idle();
    assert forall|x: SessionView| #[trigger] raw(x) == session::is_alive(idle, now)(x) by {
        if let Some(known) = s.config {
            assert(idle == known.web_admin_session_idle_minutes * 60);
        }
    }
    assert(raw =~= session::is_alive(idle, now));
    sequences::lemma_filtered(s.sessions, raw);
    let kept = s.sessions.filter(raw);
    assert forall|i: int| 0 <= i < kept.len() implies lives(#[trigger] kept[i], s.config, now)
        && s.sessions.contains(kept[i]) by {
        assert(raw(kept[i]));
    }
    assert forall|i: int|
        0 <= i < s.sessions.len() && lives(#[trigger] s.sessions[i], s.config, now) implies
        kept.contains(s.sessions[i]) by {
        assert(raw(s.sessions[i]));
    }
}

/// What is known of the password is read once: what was read before counts, whatever is stored.
pub proof fn law_the_password_is_read_once(
    s: StateView,
    stored: Result<Option<StoredView>, Seq<char>>,
)
    ensures
        s.loaded(stored) == (StateView { credential: remembered(s, stored), ..s }),
        s.load_error(stored) == match known_hash(s, stored) {
            Ok(_) => None,
            Err(error) => Some(error),
        },
        known_hash(s, stored) matches Ok(hash) ==> s.hash(stored) == hash,
{
}

/// A request is let in exactly where there is a password and one of the sessions is alive and is
/// that of its token; every other is told why not. It leaves the living sessions, of which that of
/// the token, if any, was seen now, and changes nothing else.
pub proof fn law_access_goes_by_the_session(
    s: StateView,
    stored: Result<Option<StoredView>, Seq<char>>,
    token: Option<Seq<char>>,
    now: u64,
)
    ensures
        ({
            let (after, outcome) = web_auth::authorize_run(s, stored, token, now);
            let hash = known_hash(s, stored);
            &&& outcome == OutcomeView::Authorized <==> {
                &&& hash matches Ok(Some(_))
                &&& token is Some
                &&& holds_a_session(s, token->0, now)
            }
            &&& hash matches Err(error) ==> outcome == OutcomeView::Rejected(
                FailureView::Internal(error),
            )
            &&& hash == Ok::<Option<Seq<char>>, Seq<char>>(None) ==> outcome
                == OutcomeView::Rejected(FailureView::SetupRequired)
            &&& hash matches Ok(Some(_)) ==> outcome == OutcomeView::Authorized || outcome
                == OutcomeView::Rejected(FailureView::Unauthenticated)
            &&& !(hash matches Ok(Some(_))) || token is None ==> after.sessions == s.sessions
            &&& after.config == s.config
            &&& after.rate_limit == s.rate_limit
            &&& after.events == s.events
            &&& after.credential == remembered(s, stored)
        }),
{
    law_the_password_is_read_once(s, stored);
    if let Some(value) = token {
        let alive = session::alive(s.sessions, s.idle(), now);
        law_sessions_live_their_time(s, now);
        let key = digest(value);
        if session::has_key(alive, key) {
            let i = choose|i: int| 0 <= i < alive.len() && (#[trigger] alive[i]).key == key;
            let k = choose|k: int| 0 <= k < s.sessions.len() && s.sessions[k] == alive[i];
            assert(s.sessions[k].key == key);
            assert(lives(alive[i], s.config, now));
            assert(holds_a_session(s, value, now));
        }
        if holds_a_session(s, value, now) {
            let k = choose|k: int|
                0 <= k < s.sessions.len() && (#[trigger] s.sessions[k]).key == key && lives(
                    s.sessions[k],
                    s.config,
                    now,
                );
            assert(alive.contains(s.sessions[k]));
            let i = choose|i: int| 0 <= i < alive.len() && alive[i] == s.sessions[k];
            assert(alive[i].key == key);
        }
    }
}

/// A request with a token leaves exactly the living sessions, in their order, and of them it
/// touches the last one of its token alone, by the moment at which it was last seen.
pub proof fn law_a_request_touches_its_session(
    s: StateView,
    stored: Result<Option<StoredView>, Seq<char>>,
    token: Seq<char>,
    now: u64,
)
    requires
        known_hash(s, stored) matches Ok(Some(_)),
    ensures
        ({
            let before = living(s.sessions, s.config, now);
            let after = web_auth::authorize_run(s, stored, Some(token), now).0.sessions;
            &&& after.len() == before.len()
            &&& forall|i: int|
                0 <= i < before.len() ==> (#[trigger] after[i]) == if is_the_last(
                    before,
                    digest(token),
                    i,
                ) {
                    SessionView {
                        key: before[i].key,
                        created_at: before[i].created_at,
                        last_seen_at: now,
                    }
                } else {
                    before[i]
                }
        }),
{
    law_the_password_is_read_once(s, stored);
    law_sessions_live_their_time(s, now);
    let before = living(s.sessions, s.config, now);
    let key = digest(token);
    let after = web_auth::authorize_run(s, stored, Some(token), now).0.sessions;
    if session::has_key(before, key) {
        session::lemma_last_exists(before, key);
        let at = choose|i: int| session::is_last_with_key(before, key, i);
        session::lemma_touched(before, key, now, at);
        assert forall|i: int| 0 <= i < before.len() implies (is_the_last(before, key, i) <==> i
            == at) by {
            if i < at {
                assert(before[at].key == key);
            } else if i > at {
                assert(before[i].key != key);
            }
        }
    } else {
        assert forall|i: int| 0 <= i < before.len() implies !is_the_last(before, key, i) by {
            if is_the_last(before, key, i) {
                assert(before[i].key == key);
            }
        }
    }
}

/// Logging out ends the sessions of the token and no other; without a token it changes nothing.
pub proof fn law_logout_is_of_one_token(s: StateView, token: Option<Seq<char>>)
    ensures
        ({
            let after = web_auth::after_logout(s, token);
            &&& token is None ==> after == s
            &&& token matches Some(value) ==> {
                &&& after.sessions == s.sessions.filter(|x: SessionView| x.key != digest(value))
                &&& forall|i: int|
                    0 <= i < after.sessions.len() ==> (#[trigger] after.sessions[i]).key != digest(
                        value,
                    )
                &&& forall|i: int|
                    0 <= i < s.sessions.len() && (#[trigger] s.sessions[i]).key != digest(value)
                        ==> after.sessions.contains(s.sessions[i])
            }
            &&& after.config == s.config
            &&& after.credential == s.credential
            &&& after.rate_limit == s.rate_limit
            &&& after.events == s.events
        }),
{
    if let Some(value) = token {
        let raw = |x: SessionView| x.key != digest(value);
        assert(raw =~= session::not_keyed(session::key_of(value)));
        sequences::lemma_filtered(s.sessions, raw);
        let after = web_auth::after_logout(s, token);
        assert forall|i: int| 0 <= i < after.sessions.len() implies (
        #[trigger] after.sessions[i]).key != digest(value) by {
            assert(raw(after.sessions[i]));
        }
        assert forall|i: int|
            0 <= i < s.sessions.len() && (#[trigger] s.sessions[i]).key != digest(value) implies
            after.sessions.contains(s.sessions[i]) by {
            assert(raw(s.sessions[i]));
        }
    }
}

/// Ending every session leaves none, and everything else as it is; from then on no token is let in.
pub proof fn law_ended_sessions_let_nobody_in(
    s: StateView,
    stored: Result<Option<StoredView>, Seq<char>>,
    token: Option<Seq<char>>,
    now: u64,
)
    ensures
        ({
            let after = web_auth::without_sessions(s);
            &&& after.sessions.len() == 0
            &&& after == (StateView { sessions: after.sessions, ..s })
            &&& web_auth::authorize_run(after, stored, token, now).1 is Rejected
        }),
{
    let after = web_auth::without_sessions(s);
    law_access_goes_by_the_session(after, stored, token, now);
    if let Some(value) = token {
        assert(!holds_a_session(after, value, now));
    }
}

/// The cookie is marked `Secure` exactly where the configuration is known and says so.
pub proof fn law_the_cookie_is_secure_where_configured(s: StateView)
    ensures
        s.secure() <==> s.config is Some && s.config->0.web_admin_secure_cookie,
        s.idle() == match s.config {
            Some(config) => config.web_admin_session_idle_minutes * 60,
            None => 3600,
        },
{
}

/// What holds of every state: no more than sixteen sessions, a rate limit in order, and a moment of
/// writing exactly where there is a password.
pub proof fn law_a_state_is_bounded(s: StateView)
    ensures
        s.wf() <==> {
            &&& s.sessions.len() <= 16
            &&& s.rate_limit.wf()
            &&& (s.credential.password_hash is Some <==> s.credential.updated_at is Some)
        },
{
}

/// For any idle time in seconds, a session is alive exactly where it began no more than twelve hours
/// ago and was seen no longer ago than that.
pub proof fn law_idle_time_is_in_seconds(x: SessionView, idle: u64, now: u64)
    ensures
        session::is_alive(idle, now)(x) <==> now - x.created_at <= 43_200_000_000_000 && now
            - x.last_seen_at <= idle * 1_000_000_000,
{
}

/// Whether `after` is `before` with one more session, that of `token`, which begins now and stands
/// last: the living sessions stay, but for the first of them where there are sixteen already.
pub open spec fn is_one_session_more(
    before: StateView,
    after: Seq<SessionView>,
    token: Seq<char>,
    now: u64,
) -> bool {
    let alive = living(before.sessions, before.config, now);
    let added = SessionView { key: digest(token), created_at: now, last_seen_at: now };
    if alive.len() < 16 {
        after == alive.push(added)
    } else {
        after == alive.remove(0).push(added)
    }
}

/// A session is opened with the token of the bytes drawn, beside the living ones, and nothing else
/// changes; where no bytes can be drawn nothing changes at all.
pub proof fn law_a_session_is_opened(
    s: StateView,
    drawn: Result<Seq<u8>, Seq<char>>,
    now: u64,
)
    ensures
        ({
            let (after, result) = web_auth::session_issued(s, drawn, now);
            &&& drawn matches Ok(raw) ==> {
                &&& result == Ok::<Seq<char>, FailureView>(session::token_text(raw))
                &&& is_one_session_more(s, after.sessions, session::token_text(raw), now)
                &&& after == (StateView { sessions: after.sessions, ..s })
            }
            &&& drawn matches Err(error) ==> after == s && result == Err::<
                Seq<char>,
                FailureView,
            >(FailureView::Internal("生成会话 token 失败："@ + error))
        }),
{
    law_sessions_live_their_time(s, now);
}

/// Whoever opens a session is told a token of sixty-four hexadecimal digits, or that none could be
/// drawn.
pub proof fn law_an_issued_token_opens_a_session(
    s: StateView,
    now: u64,
    after: StateView,
    result: Result<Seq<char>, FailureView>,
)
    requires
        web_auth::issue_possible(s, now, after, result),
    ensures
        result matches Ok(token) ==> {
            &&& token.len() == 64
            &&& forall|i: int|
                0 <= i < 64 ==> laws_of_text::is_hex_digit(#[trigger] token[i])
            &&& is_one_session_more(s, after.sessions, token, now)
            &&& after == (StateView { sessions: after.sessions, ..s })
        },
        result matches Err(failure) ==> after == s && exists|error: Seq<char>|
            failure == FailureView::Internal(#[trigger] ("生成会话 token 失败："@ + error)),
{
    let drawn = choose|drawn: Result<Seq<u8>, Seq<char>>|
        {
            &&& drawn matches Ok(raw) ==> raw.len() == 32
            &&& (after, result) == #[trigger] web_auth::session_issued(s, drawn, now)
        };
    law_a_session_is_opened(s, drawn, now);
    if let Ok(raw) = drawn {
        laws_of_text::law_tokens_read_back(raw, raw);
    }
}

/// The status says whether there is a password and when it was written, as far as that is known,
/// and counts the living sessions; it forgets the others and changes nothing else.
pub proof fn law_the_status_counts_what_lives(
    s: StateView,
    stored: Result<Option<StoredView>, Seq<char>>,
    now: u64,
)
    requires
        s.sessions.len() <= 16,
    ensures
        ({
            let (after, result) = web_auth::status_run(s, stored, now);
            &&& known_hash(s, stored) matches Err(error) ==> after == s && result is Err
                && result->Err_0 == FailureView::Internal(error)
            &&& known_hash(s, stored) matches Ok(hash) ==> {
                &&& result is Ok
                &&& result->Ok_0.configured == (hash is Some)
                &&& result->Ok_0.updated_at == remembered(s, stored).updated_at
                &&& result->Ok_0.active_sessions == living(s.sessions, s.config, now).len()
                &&& after.sessions == living(s.sessions, s.config, now)
            }
            &&& after.config == s.config
            &&& after.credential == remembered(s, stored)
            &&& after.rate_limit == s.rate_limit
            &&& after.events == s.events
        }),
{
    law_the_password_is_read_once(s, stored);
    law_sessions_live_their_time(s, now);
}

} // verus!
