//! Sessions. They live in memory alone, under the digest of their token, so that what a log or a
//! memory dump shows cannot be used again.

use vstd::prelude::*;

use crate::clock::{self, within};
use crate::crypto::{self, random_array, sha256_of};
use crate::failure::{self, AuthFailure};
use crate::sequences;
use crate::text::{self, hex_text, joined};

verus! {

/// The absolute lifetime of a session in seconds: after it one has to log in again, active or not.
pub const SESSION_ABSOLUTE_LIFETIME_SECONDS: u64 = 43200;

/// How many sessions there are at most; one more pushes the oldest out.
pub const MAX_SESSIONS: usize = 16;

/// The idle minutes after which a session ends where the configuration cannot be read.
pub const DEFAULT_IDLE_MINUTES: u32 = 60;

/// One session.
#[derive(Debug, Clone, Copy, PartialEq, Eq)]
pub struct SessionEntry {
    /// The SHA-256 digest of the token.
    pub key: [u8; 32],
    pub created_at: u64,
    pub last_seen_at: u64,
}

/// A [`SessionEntry`] with its key as a sequence of bytes.
#[verifier::ext_equal]
pub struct SessionView {
    pub key: Seq<u8>,
    pub created_at: u64,
    pub last_seen_at: u64,
}

impl View for SessionEntry {
    type V = SessionView;

    open spec fn view(&self) -> SessionView {
        SessionView {
            key: self.key@,
            created_at: self.created_at,
            last_seen_at: self.last_seen_at,
        }
    }
}

/// The views of a list of sessions.
pub open spec fn session_views(sessions: Seq<SessionEntry>) -> Seq<SessionView> {
    sessions.map_values(|s: SessionEntry| s@)
}

// ---------------------------------------------------------------------------
// What happens to the sessions, as functions of their views
// ---------------------------------------------------------------------------

/// The key of the session that `token` opens.
pub open spec fn key_of(token: Seq<char>) -> Seq<u8> {
    crypto::sha256(vstd::utf8::encode_utf8(token))
}

/// Whether a session is alive at `now`: neither its absolute lifetime nor `idle` seconds without
/// activity have passed.
pub open spec fn is_alive(idle: u64, now: u64) -> spec_fn(SessionView) -> bool {
    |s: SessionView|
        {
            &&& clock::within_span(now, s.created_at, SESSION_ABSOLUTE_LIFETIME_SECONDS)
            &&& clock::within_span(now, s.last_seen_at, idle)
        }
}

/// The sessions that are alive at `now`.
pub open spec fn alive(sessions: Seq<SessionView>, idle: u64, now: u64) -> Seq<SessionView> {
    sessions.filter(is_alive(idle, now))
}

/// Whether one of the sessions has the key.
pub open spec fn has_key(sessions: Seq<SessionView>, key: Seq<u8>) -> bool {
    exists|i: int| 0 <= i < sessions.len() && (#[trigger] sessions[i]).key == key
}

/// Whether `i` is the last of the sessions with the key.
pub open spec fn is_last_with_key(sessions: Seq<SessionView>, key: Seq<u8>, i: int) -> bool {
    &&& 0 <= i < sessions.len()
    &&& sessions[i].key == key
    &&& forall|j: int| i < j < sessions.len() ==> (#[trigger] sessions[j]).key != key
}

/// The sessions once the one with the key has been seen at `now`. (Should two have the key, it is
/// the last of them.)
pub open spec fn touched(sessions: Seq<SessionView>, key: Seq<u8>, now: u64) -> Seq<SessionView> {
    if has_key(sessions, key) {
        let i = choose|i: int| is_last_with_key(sessions, key, i);
        sessions.update(i, SessionView { last_seen_at: now, ..sessions[i] })
    } else {
        sessions
    }
}

/// Whether a session has the key.
pub open spec fn keyed(key: Seq<u8>) -> spec_fn(SessionView) -> bool {
    |s: SessionView| s.key == key
}

/// Whether a session has another key.
pub open spec fn not_keyed(key: Seq<u8>) -> spec_fn(SessionView) -> bool {
    |s: SessionView| s.key != key
}

/// The sessions without those with the key.
pub open spec fn without_key(sessions: Seq<SessionView>, key: Seq<u8>) -> Seq<SessionView> {
    sessions.filter(not_keyed(key))
}

/// The sessions with the key, or none where there is no key.
pub open spec fn only_key(sessions: Seq<SessionView>, key: Option<Seq<u8>>) -> Seq<SessionView> {
    match key {
        Some(kept) => sessions.filter(keyed(kept)),
        None => Seq::empty(),
    }
}

/// The token made of 32 random bytes.
pub open spec fn token_text(raw: Seq<u8>) -> Seq<char> {
    text::hex(raw)
}

/// The sessions once one is opened under `key` at `now`: the dead go, the oldest makes room where
/// there is none, and the new one comes last.
pub open spec fn opened(sessions: Seq<SessionView>, key: Seq<u8>, idle: u64, now: u64) -> Seq<
    SessionView,
> {
    let living = alive(sessions, idle, now);
    let roomy = if living.len() >= MAX_SESSIONS {
        living.remove(0)
    } else {
        living
    };
    roomy.push(SessionView { key, created_at: now, last_seen_at: now })
}

/// A draw of 32 random bytes with its text as a sequence of characters.
pub open spec fn draw_view(drawn: Result<[u8; 32], String>) -> Result<Seq<u8>, Seq<char>> {
    match drawn {
        Ok(raw) => Ok(raw@),
        Err(error) => Err(error@),
    }
}

/// What issuing a session comes to: the token made of the bytes drawn, or the report that none
/// could be drawn.
pub open spec fn issue_outcome(drawn: Result<Seq<u8>, Seq<char>>) -> Result<
    Seq<char>,
    failure::FailureView,
> {
    match drawn {
        Ok(raw) => Ok(token_text(raw)),
        Err(error) => Err(
            failure::FailureView::Internal("生成会话 token 失败："@ + error),
        ),
    }
}

/// The sessions after issuing one with the bytes drawn.
pub open spec fn issue_sessions(
    sessions: Seq<SessionView>,
    drawn: Result<Seq<u8>, Seq<char>>,
    idle: u64,
    now: u64,
) -> Seq<SessionView> {
    match drawn {
        Ok(raw) => opened(sessions, key_of(token_text(raw)), idle, now),
        Err(_) => sessions,
    }
}

// ---------------------------------------------------------------------------
// Properties of these functions
// ---------------------------------------------------------------------------

/// Where a key occurs, it has a last session.
pub proof fn lemma_last_exists(sessions: Seq<SessionView>, key: Seq<u8>)
    requires
        has_key(sessions, key),
    ensures
        exists|i: int| is_last_with_key(sessions, key, i),
    decreases sessions.len(),
{
    let last = sessions.len() - 1;
    if sessions[last].key == key {
        assert(is_last_with_key(sessions, key, last));
    } else {
        let rest = sessions.drop_last();
        let k = choose|k: int| 0 <= k < sessions.len() && (#[trigger] sessions[k]).key == key;
        assert(rest[k].key == key);
        lemma_last_exists(rest, key);
        let i = choose|i: int| is_last_with_key(rest, key, i);
        assert forall|j: int| i < j < sessions.len() implies (#[trigger] sessions[j]).key
            != key by {
            if j < last {
                assert(rest[j] == sessions[j]);
            }
        }
        assert(is_last_with_key(sessions, key, i));
    }
}

/// Any last index with the key is the one that is touched.
pub proof fn lemma_touched(sessions: Seq<SessionView>, key: Seq<u8>, now: u64, i: int)
    requires
        is_last_with_key(sessions, key, i),
    ensures
        has_key(sessions, key),
        touched(sessions, key, now) == sessions.update(
            i,
            SessionView { last_seen_at: now, ..sessions[i] },
        ),
{
    let chosen = choose|k: int| is_last_with_key(sessions, key, k);
    assert(is_last_with_key(sessions, key, chosen));
    if chosen < i {
        assert(sessions[i].key != key);
    }
    if i < chosen {
        assert(sessions[chosen].key != key);
    }
}

/// Touching moves no session and changes none but the time one was last seen.
pub proof fn lemma_touched_shape(sessions: Seq<SessionView>, key: Seq<u8>, now: u64)
    ensures
        touched(sessions, key, now).len() == sessions.len(),
        forall|i: int|
            0 <= i < sessions.len() ==> {
                let after = #[trigger] touched(sessions, key, now)[i];
                &&& after.key == sessions[i].key
                &&& after.created_at == sessions[i].created_at
                &&& after.last_seen_at == sessions[i].last_seen_at || after.last_seen_at == now
            },
        has_key(touched(sessions, key, now), key) == has_key(sessions, key),
{
    if has_key(sessions, key) {
        lemma_last_exists(sessions, key);
        let i = choose|i: int| is_last_with_key(sessions, key, i);
        assert(touched(sessions, key, now)[i].key == key);
    }
}

// ---------------------------------------------------------------------------
// The operations
// ---------------------------------------------------------------------------

/// The key of the session that a token opens.
pub fn token_key(token: &str) -> (key: [u8; 32])
    ensures
        key@ == key_of(token@),
{
    sha256_of(token.as_bytes())
}

/// Compares two keys without stopping at the first difference.
pub fn constant_time_eq(left: &[u8; 32], right: &[u8; 32]) -> (equal: bool)
    ensures
        equal == (left@ == right@),
{
    let mut diff: u8 = 0;
    let mut index: usize = 0;
    while index < 32
        invariant
            index <= 32,
            diff == 0 <==> forall|j: int| 0 <= j < index ==> left@[j] == right@[j],
        decreases 32 - index,
    {
        let a: u8 = left[index];
        let b: u8 = right[index];
        let before: u8 = diff;
        diff = before | (a ^ b);
        assert((before | (a ^ b)) == 0 <==> before == 0 && a == b) by (bit_vector);
        index = index + 1;
    }
    proof {
        if diff == 0 {
            assert(left@ =~= right@);
        }
    }
    diff == 0
}

/// The idle time in seconds after which a session ends, from the configured minutes.
pub open spec fn idle_seconds(configured_minutes: Option<u32>) -> u64 {
    match configured_minutes {
        Some(minutes) => (minutes * 60) as u64,
        None => (DEFAULT_IDLE_MINUTES * 60) as u64,
    }
}

/// Whether a session is alive.
fn entry_is_alive(session: &SessionEntry, idle: u64, now: u64) -> (yes: bool)
    ensures
        yes == is_alive(idle, now)(session@),
{
    within(now, session.created_at, SESSION_ABSOLUTE_LIFETIME_SECONDS) && within(
        now,
        session.last_seen_at,
        idle,
    )
}

/// Drops the sessions that have ended by `now`.
pub fn prune_sessions(sessions: &mut Vec<SessionEntry>, idle: u64, now: u64)
    ensures
        session_views(final(sessions)@) == alive(session_views(old(sessions)@), idle, now),
{
    let ghost before = session_views(sessions@);
    let mut kept: Vec<SessionEntry> = Vec::new();
    let mut i: usize = 0;
    assert(session_views(kept@) =~= before.take(0).filter(is_alive(idle, now))) by {
        reveal(Seq::filter);
    }
    while i < sessions.len()
        invariant
            before == session_views(sessions@),
            i <= sessions.len(),
            session_views(kept@) == before.take(i as int).filter(is_alive(idle, now)),
        decreases sessions.len() - i,
    {
        let session: SessionEntry = sessions[i];
        let ghost so_far = kept@;
        proof {
            sequences::lemma_filter_step(before, is_alive(idle, now), i as int);
            assert(before[i as int] == session@);
        }
        if entry_is_alive(&session, idle, now) {
            kept.push(session);
            assert(session_views(kept@) =~= session_views(so_far).push(session@));
        }
        i = i + 1;
    }
    assert(before.take(i as int) =~= before);
    *sessions = kept;
}

/// Issues a session with the random bytes drawn for it.
pub fn issue_session_with(
    sessions: &mut Vec<SessionEntry>,
    drawn: Result<[u8; 32], String>,
    idle: u64,
    now: u64,
) -> (result: Result<String, AuthFailure>)
    ensures
        failure::text_outcome(result) == issue_outcome(draw_view(drawn)),
        session_views(final(sessions)@) == issue_sessions(
            session_views(old(sessions)@),
            draw_view(drawn),
            idle,
            now,
        ),
        old(sessions).len() <= MAX_SESSIONS ==> final(sessions).len() <= MAX_SESSIONS,
{
    let raw: [u8; 32] = match drawn {
        Ok(raw) => raw,
        Err(error) => {
            return Err(
                AuthFailure::Internal(joined("生成会话 token 失败：", error.as_str())),
            );
        },
    };
    let token = hex_text(raw.as_slice());
    let ghost before = session_views(sessions@);
    proof {
        sequences::lemma_filtered(before, is_alive(idle, now));
    }
    prune_sessions(sessions, idle, now);
    let ghost living = sessions@;
    if sessions.len() >= MAX_SESSIONS {
        let _oldest: SessionEntry = sessions.remove(0);
        assert(session_views(sessions@) =~= session_views(living).remove(0));
    }
    let ghost roomy = sessions@;
    let session = SessionEntry {
        key: token_key(token.as_str()),
        created_at: now,
        last_seen_at: now,
    };
    sessions.push(session);
    assert(session_views(sessions@) =~= session_views(roomy).push(session@));
    Ok(token)
}

/// Draws the bytes of a token, of which nothing is known beforehand.
pub(crate) fn draw_token() -> (drawn: Result<[u8; 32], String>) {
    random_array::<32>()
}

/// Finds the living session with the key and marks it as seen; tells whether there is one.
pub fn touch_session(sessions: &mut Vec<SessionEntry>, key: &[u8; 32], idle: u64, now: u64) -> (
found: bool)
    ensures
        found == has_key(alive(session_views(old(sessions)@), idle, now), key@),
        session_views(final(sessions)@) == touched(
            alive(session_views(old(sessions)@), idle, now),
            key@,
            now,
        ),
        final(sessions).len() <= old(sessions).len(),
{
    proof {
        sequences::lemma_filtered(session_views(sessions@), is_alive(idle, now));
    }
    prune_sessions(sessions, idle, now);
    let ghost living = session_views(sessions@);
    let mut matched: Option<usize> = None;
    let mut index: usize = 0;
    // No early exit: the time taken does not depend on where, or whether, the key is found.
    while index < sessions.len()
        invariant
            living == session_views(sessions@),
            index <= sessions.len(),
            match matched {
                Some(m) => {
                    &&& m < index
                    &&& living[m as int].key == key@
                    &&& forall|j: int| m < j < index ==> (#[trigger] living[j]).key != key@
                },
                None => forall|j: int| 0 <= j < index ==> (#[trigger] living[j]).key != key@,
            },
        decreases sessions.len() - index,
    {
        assert(living[index as int] == sessions@[index as int]@);
        if constant_time_eq(&sessions[index].key, key) {
            matched = Some(index);
        }
        index = index + 1;
    }
    match matched {
        Some(m) => {
            proof {
                lemma_touched(living, key@, now, m as int);
            }
            let ghost before = sessions@;
            let mut session: SessionEntry = sessions[m];
            session.last_seen_at = now;
            sessions.set(m, session);
            assert(session_views(sessions@) =~= living.update(
                m as int,
                SessionView { last_seen_at: now, ..living[m as int] },
            ));
            true
        },
        None => false,
    }
}

/// Keeps the sessions whose having the key is `wanted`.
fn retain_by_key(sessions: &mut Vec<SessionEntry>, key: &[u8; 32], wanted: bool)
    ensures
        session_views(final(sessions)@) == if wanted {
            session_views(old(sessions)@).filter(keyed(key@))
        } else {
            session_views(old(sessions)@).filter(not_keyed(key@))
        },
        final(sessions).len() <= old(sessions).len(),
{
    let ghost before = session_views(sessions@);
    let ghost keep = if wanted {
        keyed(key@)
    } else {
        not_keyed(key@)
    };
    let mut kept: Vec<SessionEntry> = Vec::new();
    let mut i: usize = 0;
    assert(session_views(kept@) =~= before.take(0).filter(keep)) by {
        reveal(Seq::filter);
    }
    while i < sessions.len()
        invariant
            before == session_views(sessions@),
            keep == if wanted {
                keyed(key@)
            } else {
                not_keyed(key@)
            },
            i <= sessions.len(),
            kept.len() <= i,
            session_views(kept@) == before.take(i as int).filter(keep),
        decreases sessions.len() - i,
    {
        let session: SessionEntry = sessions[i];
        let ghost so_far = kept@;
        proof {
            sequences::lemma_filter_step(before, keep, i as int);
            assert(before[i as int] == session@);
        }
        if constant_time_eq(&session.key, key) == wanted {
            kept.push(session);
            assert(session_views(kept@) =~= session_views(so_far).push(session@));
        }
        i = i + 1;
    }
    assert(before.take(i as int) =~= before);
    *sessions = kept;
}

/// Drops the session with the key.
pub fn remove_session(sessions: &mut Vec<SessionEntry>, key: &[u8; 32])
    ensures
        session_views(final(sessions)@) == without_key(session_views(old(sessions)@), key@),
        final(sessions).len() <= old(sessions).len(),
{
    retain_by_key(sessions, key, false);
}

/// The bytes of an optional key.
pub open spec fn key_view(key: Option<&[u8; 32]>) -> Option<Seq<u8>> {
    match key {
        Some(bytes) => Some(bytes@),
        None => None,
    }
}

/// Drops every session but the one with the key, or all of them where there is no key.
pub fn retain_only_session(sessions: &mut Vec<SessionEntry>, keep: Option<&[u8; 32]>)
    ensures
        session_views(final(sessions)@) == only_key(session_views(old(sessions)@), key_view(keep)),
        final(sessions).len() <= old(sessions).len(),
{
    match keep {
        Some(key) => retain_by_key(sessions, key, true),
        None => {
            sessions.clear();
            assert(session_views(sessions@) =~= Seq::empty());
        },
    }
}

/// How many sessions are alive; the others are dropped.
pub fn active_session_count(sessions: &mut Vec<SessionEntry>, idle: u64, now: u64) -> (count: usize)
    ensures
        count == alive(session_views(old(sessions)@), idle, now).len(),
        session_views(final(sessions)@) == alive(session_views(old(sessions)@), idle, now),
        final(sessions).len() <= old(sessions).len(),
{
    proof {
        sequences::lemma_filtered(session_views(sessions@), is_alive(idle, now));
    }
    prune_sessions(sessions, idle, now);
    sessions.len()
}

} // verus!
