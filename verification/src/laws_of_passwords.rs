//! Laws of the password: which one is permitted, what is hashed and compared, and who logs in, in
//! terms of the password's own bytes, of the Argon2 results and of the state alone.

use vstd::prelude::*;

use crate::credential::StoredView;
use crate::crypto;
use crate::failure::{ClientAddr, EventView, FailureView, SecurityEventType};
use crate::laws_of_access;
use crate::laws_of_limits;
use crate::laws_of_text;
use crate::password;
use crate::rate_limit;
use crate::session;
use crate::text;
use crate::web_auth::{self, LoginTimes, StateView};

verus! {

// ---------------------------------------------------------------------------
// The password itself
// ---------------------------------------------------------------------------

/// Whether a text holds a control character, of ASCII or of the range after it.
pub open spec fn has_control_character(password: Seq<char>) -> bool {
    exists|i: int|
        0 <= i < password.len() && {
            ||| (#[trigger] password[i]) as u32 <= 31
            ||| 127 <= password[i] as u32 <= 159
        }
}

/// Whether a password is permitted: eight characters at least, a hundred and twenty-eight bytes of
/// UTF-8 at most, and no control character.
pub open spec fn is_permitted(password: Seq<char>) -> bool {
    &&& password.len() >= 8
    &&& vstd::utf8::encode_utf8(password).len() <= 128
    &&& !has_control_character(password)
}

/// Whether a stored hash confirms a password: it can be read, and Argon2 finds that it is that of
/// the UTF-8 bytes of the whole password.
pub open spec fn confirms(stored: Seq<char>, offered: Seq<char>) -> bool {
    &&& crypto::phc_fault(stored) is None
    &&& crypto::argon2_verdict(stored, vstd::utf8::encode_utf8(offered)) == Ok::<bool, Seq<char>>(
        true,
    )
}

/// Whether a text is the Argon2id hash of the UTF-8 bytes of the whole password with some salt of
/// sixteen bytes, and confirms that password.
pub open spec fn is_hash_of(hash: Seq<char>, chosen: Seq<char>) -> bool {
    &&& exists|salt: Seq<u8>|
        salt.len() == 16 && hash == #[trigger] crypto::argon2id_phc(
            vstd::utf8::encode_utf8(chosen),
            salt,
            19456,
            2,
            1,
        )
    &&& confirms(hash, chosen)
}

/// Whether a text says that no hash could be made.
pub open spec fn is_hash_failure(error: Seq<char>) -> bool {
    ||| exists|reason: Seq<char>| error == #[trigger] ("计算密码哈希失败："@ + reason)
    ||| exists|reason: Seq<char>| error == #[trigger] ("生成密码盐失败："@ + reason)
}

/// Which passwords are permitted, and what is said of the others: the length in characters first,
/// then that in bytes, then the control characters.
pub proof fn law_which_passwords_are_permitted(chosen: Seq<char>)
    ensures
        password::password_problem(chosen) is None <==> is_permitted(chosen),
        chosen.len() < 8 ==> password::password_problem(chosen) == Some(
            "管理密码至少需要 8 个字符"@,
        ),
        chosen.len() >= 8 && vstd::utf8::encode_utf8(chosen).len() > 128
            ==> password::password_problem(chosen) == Some("管理密码不能超过 128 字节"@),
        chosen.len() >= 8 && vstd::utf8::encode_utf8(chosen).len() <= 128
            && has_control_character(chosen) ==> password::password_problem(chosen) == Some(
            "管理密码不能包含控制字符"@,
        ),
        password::cannot_be_stored(chosen) <==> vstd::utf8::encode_utf8(chosen).len() > 128
            || has_control_character(chosen),
{
    assert(text::has_control(chosen) <==> has_control_character(chosen)) by {
        if has_control_character(chosen) {
            let i = choose|i: int|
                0 <= i < chosen.len() && {
                    ||| (#[trigger] chosen[i]) as u32 <= 31
                    ||| 127 <= chosen[i] as u32 <= 159
                };
            assert(text::is_control_char(chosen[i]));
        }
        if text::has_control(chosen) {
            let i = choose|i: int|
                0 <= i < chosen.len() && text::is_control_char(#[trigger] chosen[i]);
            assert(chosen[i] as u32 <= 31 || 127 <= chosen[i] as u32 <= 159);
        }
    }
}

/// A hash accepts a password exactly where Argon2 confirms the UTF-8 bytes of the whole of it.
pub proof fn law_the_whole_password_counts(stored: Seq<char>, offered: Seq<char>)
    ensures
        password::accepts(stored, offered) <==> crypto::phc_fault(stored) is None
            && crypto::argon2_verdict(stored, vstd::utf8::encode_utf8(offered)) == Ok::<
            bool,
            Seq<char>,
        >(true),
        forall|salt: Seq<u8>| #[trigger]
            password::salted_hash(offered, salt) == crypto::argon2id_phc(
                vstd::utf8::encode_utf8(offered),
                salt,
                19456,
                2,
                1,
            ),
{
}

/// A hash that is made with a salt is that of the whole password with this salt, and confirms it;
/// where none is made, the error says that computing failed.
pub proof fn law_a_salted_hash_is_of_the_whole_password(
    chosen: Seq<char>,
    salt: Seq<u8>,
    hashed: Result<Seq<char>, Seq<char>>,
)
    requires
        password::hash_with_salt_possible(chosen, salt, hashed),
    ensures
        hashed matches Ok(hash) ==> confirms(hash, chosen) && hash == crypto::argon2id_phc(
            vstd::utf8::encode_utf8(chosen),
            salt,
            19456,
            2,
            1,
        ),
        hashed matches Err(error) ==> exists|reason: Seq<char>|
            error == #[trigger] ("计算密码哈希失败："@ + reason),
        is_permitted(chosen) && hashed is Err ==> hashed->Err_0 == "计算密码哈希失败："@
            + "out of memory"@,
{
}

/// Whatever hash is made of a password is one of the whole of it, with sixteen bytes of salt, and
/// confirms it; where none is made, the error says at which step.
pub proof fn law_a_hash_is_of_the_whole_password(
    chosen: Seq<char>,
    hashed: Result<Seq<char>, Seq<char>>,
)
    requires
        password::hash_possible(chosen, hashed),
    ensures
        hashed matches Ok(hash) ==> is_hash_of(hash, chosen),
        hashed matches Err(error) ==> is_hash_failure(error),
{
    if let Ok(hash) = hashed {
        let salt = choose|salt: Seq<u8>|
            salt.len() == 16 && #[trigger] password::hash_with_salt_possible(chosen, salt, hashed);
        assert(hash == crypto::argon2id_phc(
            vstd::utf8::encode_utf8(chosen),
            salt,
            19456,
            2,
            1,
        ));
    }
}

/// Whether `verdict` can come of comparing a stored hash with a password: that of Argon2 on the
/// whole password, or why there is none.
pub open spec fn is_verdict_on(
    stored: Seq<char>,
    offered: Seq<char>,
    verdict: Result<bool, Seq<char>>,
) -> bool {
    let bytes = vstd::utf8::encode_utf8(offered);
    &&& crypto::phc_fault(stored) matches Some(fault) ==> verdict == Err::<bool, Seq<char>>(
        "解析已存密码哈希失败："@ + fault,
    )
    &&& verdict matches Ok(right) ==> crypto::phc_fault(stored) is None && crypto::argon2_verdict(
        stored,
        bytes,
    ) == Ok::<bool, Seq<char>>(right)
    &&& crypto::phc_fault(stored) is None && verdict is Err ==> {
        ||| verdict->Err_0 == "校验管理密码失败："@ + "out of memory"@
        ||| crypto::argon2_verdict(stored, bytes) is Err && verdict->Err_0 == "校验管理密码失败："@
            + crypto::argon2_verdict(stored, bytes)->Err_0
    }
}

/// Comparing a password is comparing the whole of it, and one that can never have been stored is
/// wrong without being compared.
pub proof fn law_the_whole_password_is_compared(
    stored: Seq<char>,
    offered: Seq<char>,
    verdict: Result<bool, Seq<char>>,
)
    ensures
        password::verdict_possible(stored, offered, verdict) <==> is_verdict_on(
            stored,
            offered,
            verdict,
        ),
        password::offer_possible(stored, offered, verdict) <==> if vstd::utf8::encode_utf8(
            offered,
        ).len() > 128 || has_control_character(offered) {
            verdict == Ok::<bool, Seq<char>>(false)
        } else {
            is_verdict_on(stored, offered, verdict)
        },
{
    law_which_passwords_are_permitted(offered);
}

// ---------------------------------------------------------------------------
// Logging in
// ---------------------------------------------------------------------------

/// The state but for the rate limit, the sessions and the events, once the password was looked at.
pub open spec fn rest_is_kept(
    s: StateView,
    stored: Result<Option<StoredView>, Seq<char>>,
    after: StateView,
) -> bool {
    &&& after.config == s.config
    &&& after.credential == laws_of_access::remembered(s, stored)
}

/// A login begins where a password is known and the client is not kept out, and hands its hash on;
/// otherwise it is told why not. It looks at the lockouts and changes nothing else.
pub proof fn law_a_login_begins_unless_locked(
    s: StateView,
    stored: Result<Option<StoredView>, Seq<char>>,
    client: ClientAddr,
    now: u64,
)
    ensures
        ({
            let (after, result) = web_auth::login_begun(s, stored, client, now);
            let known = laws_of_access::known_hash(s, stored);
            let locked = rate_limit::locked_for(s.rate_limit, client, now);
            &&& known matches Err(error) ==> result == Err::<Seq<char>, FailureView>(
                FailureView::Internal(error),
            )
            &&& known matches Ok(None) ==> result == Err::<Seq<char>, FailureView>(
                FailureView::SetupRequired,
            )
            &&& known matches Ok(Some(hash)) ==> result == match locked {
                Some(seconds) => Err::<Seq<char>, FailureView>(FailureView::Locked(seconds)),
                None => Ok(hash),
            }
            &&& rest_is_kept(s, stored, after)
            &&& after.sessions == s.sessions
            &&& after.events == s.events
            &&& after.rate_limit == if known matches Ok(Some(_)) {
                rate_limit::after_check(s.rate_limit, now)
            } else {
                s.rate_limit
            }
        }),
{
    laws_of_access::law_the_password_is_read_once(s, stored);
}

/// Once every lockout that concerns a client has ended, its password is checked again, however often
/// it failed before.
pub proof fn law_a_login_is_checked_again_after_a_lockout(
    s: StateView,
    stored: Result<Option<StoredView>, Seq<char>>,
    client: ClientAddr,
    hash: Seq<char>,
    now: u64,
)
    requires
        laws_of_access::known_hash(s, stored) == Ok::<Option<Seq<char>>, Seq<char>>(Some(hash)),
        s.rate_limit.global_locked_until matches Some(until) ==> until <= now,
        forall|i: int|
            0 <= i < s.rate_limit.clients.len() && (#[trigger] s.rate_limit.clients[i]).0 == client
                ==> (s.rate_limit.clients[i].1.locked_until matches Some(until) ==> until <= now),
    ensures
        web_auth::login_begun(s, stored, client, now).1 == Ok::<Seq<char>, FailureView>(hash),
{
    law_a_login_begins_unless_locked(s, stored, client, now);
    laws_of_limits::law_a_lockout_runs_out(s.rate_limit, client, now);
}

/// The events that a wrong password of a login leaves, with the lockout that it brought.
pub open spec fn failure_events(client: ClientAddr, lockout: Option<u64>) -> Seq<EventView> {
    let failed = EventView {
        event_type: SecurityEventType::WebAuthFailed,
        client,
        reason: "Web 管理登录密码错误"@,
    };
    match lockout {
        None => seq![failed],
        Some(seconds) => seq![
            failed,
            EventView {
                event_type: SecurityEventType::WebAuthLocked,
                client,
                reason: "Web 管理登录连续失败，已锁定 "@ + text::decimal(seconds as nat)
                    + " 秒"@,
            },
        ],
    }
}

/// Whether this is what a wrong password of a login leaves and answers: one failure more, the
/// events of it, and the lockout that it brought, if any.
pub open spec fn is_counted_failure(
    s: StateView,
    client: ClientAddr,
    now: u64,
    after: StateView,
    failure: FailureView,
) -> bool {
    let lockout = rate_limit::failure_lockout(s.rate_limit, client, now);
    &&& after.rate_limit == rate_limit::after_failure(s.rate_limit, client, now)
    &&& after.events == s.events + failure_events(client, lockout)
    &&& after.config == s.config
    &&& after.credential == s.credential
    &&& after.sessions == s.sessions
    &&& failure == match lockout {
        Some(seconds) => FailureView::Locked(seconds),
        None => FailureView::InvalidPassword,
    }
}

/// A wrong password is counted, recorded and answered.
pub proof fn law_a_wrong_password_is_counted(s: StateView, client: ClientAddr, now: u64)
    ensures
        is_counted_failure(
            s,
            client,
            now,
            web_auth::rejected_login(s, client, now).0,
            web_auth::rejected_login(s, client, now).1,
        ),
{
    let (after, failure) = web_auth::rejected_login(s, client, now);
    let lockout = rate_limit::failure_lockout(s.rate_limit, client, now);
    assert(after.events =~= s.events + failure_events(client, lockout));
}

/// The right password forgets the client's failures, a wrong one is counted, and where nothing can
/// be said of it nothing changes.
pub proof fn law_a_verdict_settles_the_login(
    s: StateView,
    client: ClientAddr,
    verdict: Result<bool, Seq<char>>,
    now: u64,
)
    ensures
        ({
            let (after, result) = web_auth::login_settled(s, client, verdict, now);
            &&& result is Ok <==> verdict == Ok::<bool, Seq<char>>(true)
            &&& verdict == Ok::<bool, Seq<char>>(true) ==> after == (StateView {
                rate_limit: rate_limit::after_clearing(s.rate_limit, client),
                ..s
            })
            &&& verdict == Ok::<bool, Seq<char>>(false) ==> is_counted_failure(
                s,
                client,
                now,
                after,
                result->Err_0,
            )
            &&& verdict matches Err(error) ==> after == s && result->Err_0
                == FailureView::Internal(error)
        }),
{
    law_a_wrong_password_is_counted(s, client, now);
}

/// A login ends with the token of a new session and one event, or says that no token could be
/// drawn and changes nothing.
pub proof fn law_a_login_ends_in_a_session(
    s: StateView,
    client: ClientAddr,
    drawn: Result<Seq<u8>, Seq<char>>,
    now: u64,
)
    ensures
        ({
            let (after, result) = web_auth::login_finished(s, client, drawn, now);
            &&& drawn matches Ok(raw) ==> {
                &&& result == Ok::<Seq<char>, FailureView>(session::token_text(raw))
                &&& laws_of_access::is_one_session_more(
                    s,
                    after.sessions,
                    session::token_text(raw),
                    now,
                )
                &&& after.events == s.events.push(
                    EventView {
                        event_type: SecurityEventType::WebAuthLogin,
                        client,
                        reason: "Web 管理登录成功"@,
                    },
                )
                &&& after.config == s.config
                &&& after.credential == s.credential
                &&& after.rate_limit == s.rate_limit
            }
            &&& drawn matches Err(error) ==> after == s && result == Err::<
                Seq<char>,
                FailureView,
            >(FailureView::Internal("生成会话 token 失败："@ + error))
        }),
{
    laws_of_access::law_sessions_live_their_time(s, now);
}

/// Completing a login opens a session under a token of sixty-four hexadecimal digits, and records
/// it.
pub proof fn law_a_completed_login_has_its_token(
    s: StateView,
    client: ClientAddr,
    now: u64,
    after: StateView,
    result: Result<Seq<char>, FailureView>,
)
    requires
        web_auth::completion_possible(s, client, now, after, result),
    ensures
        result matches Ok(token) ==> {
            &&& token.len() == 64
            &&& laws_of_access::is_one_session_more(s, after.sessions, token, now)
            &&& after.events == s.events.push(
                EventView {
                    event_type: SecurityEventType::WebAuthLogin,
                    client,
                    reason: "Web 管理登录成功"@,
                },
            )
            &&& after.config == s.config
            &&& after.credential == s.credential
            &&& after.rate_limit == s.rate_limit
        },
        result matches Err(failure) ==> after == s && exists|error: Seq<char>|
            failure == FailureView::Internal(#[trigger] ("生成会话 token 失败："@ + error)),
{
    let drawn = choose|drawn: Result<Seq<u8>, Seq<char>>|
        {
            &&& drawn matches Ok(raw) ==> raw.len() == 32
            &&& (after, result) == #[trigger] web_auth::login_finished(s, client, drawn, now)
        };
    law_a_login_ends_in_a_session(s, client, drawn, now);
    if let Ok(raw) = drawn {
        laws_of_text::law_tokens_read_back(raw, raw);
    }
}

/// A login answers with a token only where a password is known, the client is not kept out, and
/// Argon2 confirms the UTF-8 bytes of the whole password offered; it then opens one session, under
/// that token, forgets the client's failures and records the login, and changes nothing else.
pub proof fn law_a_login_needs_the_whole_password(
    s: StateView,
    stored: Result<Option<StoredView>, Seq<char>>,
    client: ClientAddr,
    offered: Seq<char>,
    times: LoginTimes,
    after: StateView,
    token: Seq<char>,
)
    requires
        web_auth::login_possible(s, stored, client, offered, times, after, Ok(token)),
    ensures
        laws_of_access::known_hash(s, stored) matches Ok(Some(hash)) && confirms(hash, offered),
        vstd::utf8::encode_utf8(offered).len() <= 128,
        !has_control_character(offered),
        rate_limit::locked_for(s.rate_limit, client, times.checked) is None,
        token.len() == 64,
        forall|i: int| 0 <= i < 64 ==> laws_of_text::is_hex_digit(#[trigger] token[i]),
        laws_of_access::is_one_session_more(s, after.sessions, token, times.issued),
        after.events == s.events.push(
            EventView {
                event_type: SecurityEventType::WebAuthLogin,
                client,
                reason: "Web 管理登录成功"@,
            },
        ),
        after.rate_limit == rate_limit::after_clearing(
            rate_limit::after_check(s.rate_limit, times.checked),
            client,
        ),
        rest_is_kept(s, stored, after),
{
    let result: Result<Seq<char>, FailureView> = Ok(token);
    let (verdict, drawn) = choose|
        verdict: Result<bool, Seq<char>>,
        drawn: Result<Seq<u8>, Seq<char>>,
    |
        {
            &&& web_auth::login_begun(s, stored, client, times.checked).1 matches Ok(hash)
                ==> password::offer_possible(hash, offered, verdict)
            &&& drawn matches Ok(raw) ==> raw.len() == 32
            &&& (after, result) == #[trigger] web_auth::login_run(
                s,
                stored,
                client,
                verdict,
                drawn,
                times,
            )
        };
    law_a_login_begins_unless_locked(s, stored, client, times.checked);
    let begun = web_auth::login_begun(s, stored, client, times.checked).0;
    law_a_verdict_settles_the_login(begun, client, verdict, times.settled);
    let settled = web_auth::login_settled(begun, client, verdict, times.settled).0;
    law_a_login_ends_in_a_session(settled, client, drawn, times.issued);
    let hash = laws_of_access::known_hash(s, stored)->Ok_0->0;
    law_the_whole_password_is_compared(hash, offered, verdict);
    if let Ok(raw) = drawn {
        laws_of_text::law_tokens_read_back(raw, raw);
    }
}

/// What a login comes to without a token: it is told what is missing, that it is locked out, or
/// that the password is wrong, and only a wrong password is counted.
pub proof fn law_a_login_fails_for_a_reason(
    s: StateView,
    stored: Result<Option<StoredView>, Seq<char>>,
    client: ClientAddr,
    offered: Seq<char>,
    times: LoginTimes,
    after: StateView,
    result: Result<Seq<char>, FailureView>,
)
    requires
        web_auth::login_possible(s, stored, client, offered, times, after, result),
    ensures
        ({
            let known = laws_of_access::known_hash(s, stored);
            let locked = rate_limit::locked_for(s.rate_limit, client, times.checked);
            let begun = StateView {
                credential: laws_of_access::remembered(s, stored),
                rate_limit: rate_limit::after_check(s.rate_limit, times.checked),
                ..s
            };
            &&& known matches Err(error) ==> after == s && result == Err::<
                Seq<char>,
                FailureView,
            >(FailureView::Internal(error))
            &&& known matches Ok(None) ==> result == Err::<Seq<char>, FailureView>(
                FailureView::SetupRequired,
            ) && after == (StateView { credential: laws_of_access::remembered(s, stored), ..s })
            &&& known is Ok && known->Ok_0 is Some && locked is Some ==> after == begun && result == Err::<
                Seq<char>,
                FailureView,
            >(FailureView::Locked(locked->0))
            &&& known is Ok && known->Ok_0 is Some && locked is None && (vstd::utf8::encode_utf8(
                offered,
            ).len() > 128 || has_control_character(offered)) ==> result is Err
                && is_counted_failure(begun, client, times.settled, after, result->Err_0)
        }),
{
    let (verdict, drawn) = choose|
        verdict: Result<bool, Seq<char>>,
        drawn: Result<Seq<u8>, Seq<char>>,
    |
        {
            &&& web_auth::login_begun(s, stored, client, times.checked).1 matches Ok(hash)
                ==> password::offer_possible(hash, offered, verdict)
            &&& drawn matches Ok(raw) ==> raw.len() == 32
            &&& (after, result) == #[trigger] web_auth::login_run(
                s,
                stored,
                client,
                verdict,
                drawn,
                times,
            )
        };
    law_a_login_begins_unless_locked(s, stored, client, times.checked);
    let begun = web_auth::login_begun(s, stored, client, times.checked).0;
    law_a_verdict_settles_the_login(begun, client, verdict, times.settled);
    if let Ok(Some(hash)) = laws_of_access::known_hash(s, stored) {
        law_the_whole_password_is_compared(hash, offered, verdict);
        assert(begun == (StateView {
            credential: laws_of_access::remembered(s, stored),
            rate_limit: rate_limit::after_check(s.rate_limit, times.checked),
            ..s
        }));
    }
}

/// What a login comes to on the verdict of Argon2: the right password is never counted as wrong,
/// and a wrong one never opens a session; where neither could be found out, nothing is counted.
pub proof fn law_a_login_goes_by_the_verdict(
    s: StateView,
    stored: Result<Option<StoredView>, Seq<char>>,
    client: ClientAddr,
    offered: Seq<char>,
    hash: Seq<char>,
    times: LoginTimes,
    after: StateView,
    result: Result<Seq<char>, FailureView>,
)
    requires
        web_auth::login_possible(s, stored, client, offered, times, after, result),
        laws_of_access::known_hash(s, stored) == Ok::<Option<Seq<char>>, Seq<char>>(Some(hash)),
        rate_limit::locked_for(s.rate_limit, client, times.checked) is None,
        vstd::utf8::encode_utf8(offered).len() <= 128,
        !has_control_character(offered),
    ensures
        ({
            let begun = StateView {
                credential: laws_of_access::remembered(s, stored),
                rate_limit: rate_limit::after_check(s.rate_limit, times.checked),
                ..s
            };
            &&& confirms(hash, offered) ==> {
                ||| result is Ok
                ||| result == Err::<Seq<char>, FailureView>(
                    FailureView::Internal("校验管理密码失败："@ + "out of memory"@),
                ) && after == begun
                ||| after == (StateView {
                    rate_limit: rate_limit::after_clearing(begun.rate_limit, client),
                    ..begun
                }) && exists|error: Seq<char>|
                    result == Err::<Seq<char>, FailureView>(
                        FailureView::Internal(#[trigger] ("生成会话 token 失败："@ + error)),
                    )
            }
            &&& !confirms(hash, offered) ==> {
                &&& result is Err
                &&& {
                    ||| after == begun && result->Err_0 is Internal
                    ||| is_counted_failure(begun, client, times.settled, after, result->Err_0)
                }
            }
            &&& result is Err && is_counted_failure(
                begun,
                client,
                times.settled,
                after,
                result->Err_0,
            ) ==> crypto::phc_fault(hash) is None && crypto::argon2_verdict(
                hash,
                vstd::utf8::encode_utf8(offered),
            ) == Ok::<bool, Seq<char>>(false)
            &&& crypto::phc_fault(hash) matches Some(fault) ==> after == begun && result == Err::<
                Seq<char>,
                FailureView,
            >(FailureView::Internal("解析已存密码哈希失败："@ + fault))
        }),
{
    let (verdict, drawn) = choose|
        verdict: Result<bool, Seq<char>>,
        drawn: Result<Seq<u8>, Seq<char>>,
    |
        {
            &&& web_auth::login_begun(s, stored, client, times.checked).1 matches Ok(hash)
                ==> password::offer_possible(hash, offered, verdict)
            &&& drawn matches Ok(raw) ==> raw.len() == 32
            &&& (after, result) == #[trigger] web_auth::login_run(
                s,
                stored,
                client,
                verdict,
                drawn,
                times,
            )
        };
    law_a_login_begins_unless_locked(s, stored, client, times.checked);
    let begun = web_auth::login_begun(s, stored, client, times.checked).0;
    law_a_verdict_settles_the_login(begun, client, verdict, times.settled);
    law_the_whole_password_is_compared(hash, offered, verdict);
    let settled = web_auth::login_settled(begun, client, verdict, times.settled).0;
    law_a_login_ends_in_a_session(settled, client, drawn, times.issued);
    assert(begun == (StateView {
        credential: laws_of_access::remembered(s, stored),
        rate_limit: rate_limit::after_check(s.rate_limit, times.checked),
        ..s
    }));
}

} // verus!
