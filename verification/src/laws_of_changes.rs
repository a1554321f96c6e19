//! Laws of setting, changing and resetting the password: who may, what is written, and what each
//! leaves of the state, in terms of the passwords, of the Argon2 results and of the state alone.

use vstd::prelude::*;

use crate::credential::{CredentialView, StoredView, WriteView};
use crate::failure::{
    self, ClientAddr, EventView, FailureView, PasswordOrigin, SecurityEventType,
};
use crate::laws_of_access;
use crate::laws_of_passwords;
use crate::laws_of_text;
use crate::password;
use crate::session::{self, SessionView};
use crate::startup::{self, DecisionView, FileFacts, FileStepView};
use crate::text;
use crate::web_auth::{self, StateView};

verus! {

/// The event of a change of the password: of its client, or of this machine where there is none,
/// with words for where it came from.
pub open spec fn change_event(origin: PasswordOrigin, client: Option<ClientAddr>) -> EventView {
    EventView {
        event_type: SecurityEventType::WebAuthPasswordChanged,
        client: match client {
            Some(address) => address,
            None => ClientAddr::V4(127, 0, 0, 1),
        },
        reason: match origin {
            PasswordOrigin::WebSetup => "首次设置管理密码"@,
            PasswordOrigin::WebChange => "通过 Web 修改管理密码"@,
            PasswordOrigin::LocalCli => "通过本机 CLI 设置管理密码"@,
            PasswordOrigin::LocalReset => "通过本机 CLI 重置管理密码"@,
            PasswordOrigin::PasswordFile => "通过 --admin-password-file 设置管理密码"@,
        },
    }
}

/// The state once the stored password has been looked at.
pub open spec fn looked_at(
    s: StateView,
    stored: Result<Option<StoredView>, Seq<char>>,
) -> StateView {
    StateView { credential: laws_of_access::remembered(s, stored), ..s }
}

/// The state once a password has been written: it is remembered with its second, and one event
/// says so.
pub open spec fn is_written(
    s: StateView,
    write: WriteView,
    at: u64,
    after: StateView,
) -> bool {
    &&& after.credential.password_hash == Some(write.password_hash)
    &&& after.credential.updated_at == Some(at)
    &&& after.events == s.events.push(change_event(write.origin, write.client))
    &&& after.config == s.config
    &&& after.rate_limit == s.rate_limit
}

/// A change is recorded by one event and changes nothing else.
pub proof fn law_a_change_leaves_one_event(
    s: StateView,
    origin: PasswordOrigin,
    client: Option<ClientAddr>,
)
    ensures
        web_auth::change_recorded(s, origin, client) == (StateView {
            events: s.events.push(change_event(origin, client)),
            ..s
        }),
{
}

// ---------------------------------------------------------------------------
// The first setup
// ---------------------------------------------------------------------------

/// With a hash at hand, the first setup writes it where no password is known; otherwise it is told
/// why not.
pub proof fn law_the_first_setup_needs_an_empty_place(
    s: StateView,
    stored: Result<Option<StoredView>, Seq<char>>,
    hashed: Result<Seq<char>, Seq<char>>,
    origin: PasswordOrigin,
    client: Option<ClientAddr>,
)
    ensures
        ({
            let (after, result) = web_auth::initial_hashed(s, stored, hashed, origin, client);
            let known = laws_of_access::known_hash(s, stored);
            &&& hashed matches Err(error) ==> after == s && result == Err::<
                WriteView,
                FailureView,
            >(FailureView::Internal(error))
            &&& hashed matches Ok(hash) ==> after == looked_at(s, stored) && result
                == match known {
                Err(error) => Err::<WriteView, FailureView>(FailureView::Internal(error)),
                Ok(Some(_)) => Err(FailureView::AlreadyConfigured),
                Ok(None) => Ok(WriteView { password_hash: hash, origin, client }),
            }
        }),
{
    laws_of_access::law_the_password_is_read_once(s, stored);
}

/// The first setup writes a hash of the whole password, and only where the password is permitted
/// and none is known. A password that is not permitted is refused before anything else is looked
/// at.
pub proof fn law_the_first_setup_writes_the_whole_password(
    s: StateView,
    stored: Result<Option<StoredView>, Seq<char>>,
    chosen: Seq<char>,
    origin: PasswordOrigin,
    client: Option<ClientAddr>,
    after: StateView,
    result: Result<WriteView, FailureView>,
)
    requires
        web_auth::initial_possible(s, stored, chosen, origin, client, after, result),
    ensures
        ({
            let known = laws_of_access::known_hash(s, stored);
            let unhashed = result is Err && result->Err_0 is Internal
                && laws_of_passwords::is_hash_failure(result->Err_0->Internal_0) && after == s;
            &&& !laws_of_passwords::is_permitted(chosen) ==> after == s && result is Err
                && result->Err_0 is Invalid && password::password_problem(chosen) == Some(
                result->Err_0->Invalid_0,
            )
            &&& laws_of_passwords::is_permitted(chosen) ==> unhashed || after == looked_at(
                s,
                stored,
            ) && match known {
                Err(error) => result == Err::<WriteView, FailureView>(FailureView::Internal(error)),
                Ok(Some(_)) => result == Err::<WriteView, FailureView>(
                    FailureView::AlreadyConfigured,
                ),
                Ok(None) => result matches Ok(write) && write.origin == origin && write.client
                    == client && laws_of_passwords::is_hash_of(write.password_hash, chosen),
            }
        }),
{
    let hashed = choose|hashed: Result<Seq<char>, Seq<char>>|
        {
            &&& password::hash_possible(chosen, hashed)
            &&& (after, result) == #[trigger] web_auth::initial_prepared(
                s,
                stored,
                chosen,
                hashed,
                origin,
                client,
            )
        };
    laws_of_passwords::law_which_passwords_are_permitted(chosen);
    laws_of_passwords::law_a_hash_is_of_the_whole_password(chosen, hashed);
    law_the_first_setup_needs_an_empty_place(s, stored, hashed, origin, client);
}

/// Finishing the first setup: what was inserted is remembered and recorded; where another was
/// there, that one is remembered and the setup refused; where the table failed, nothing changes.
pub proof fn law_the_first_setup_is_remembered(
    s: StateView,
    write: WriteView,
    created: Result<Option<u64>, Seq<char>>,
    reread: Result<Option<StoredView>, Seq<char>>,
)
    ensures
        ({
            let (after, result) = web_auth::initial_finished(s, write, created, reread);
            &&& created matches Ok(Some(at)) ==> {
                &&& result == Ok::<(), FailureView>(())
                &&& is_written(s, write, at, after)
                &&& after.credential.loaded
                &&& after.sessions == s.sessions
            }
            &&& created matches Err(error) ==> after == s && result == Err::<(), FailureView>(
                FailureView::Internal(error),
            )
            &&& created == Ok::<Option<u64>, Seq<char>>(None) ==> match reread {
                Err(error) => after == s && result == Err::<(), FailureView>(
                    FailureView::Internal(error),
                ),
                Ok(row) => {
                    &&& result == Err::<(), FailureView>(FailureView::AlreadyConfigured)
                    &&& after.credential.loaded
                    &&& after.credential.password_hash == match row {
                        Some(found) => Some(found.password_hash),
                        None => None,
                    }
                    &&& after.credential.updated_at == match row {
                        Some(found) => Some(found.updated_at),
                        None => None,
                    }
                    &&& after == (StateView { credential: after.credential, ..s })
                },
            }
        }),
{
}

/// A setup over the web that was written logs its client in; every other opens no session.
pub proof fn law_a_setup_logs_in(
    s: StateView,
    write: WriteView,
    created: Result<Option<u64>, Seq<char>>,
    reread: Result<Option<StoredView>, Seq<char>>,
    now: u64,
    after: StateView,
    result: Result<Seq<char>, FailureView>,
)
    requires
        web_auth::setup_possible(s, write, created, reread, now, after, result),
    ensures
        ({
            let (set, outcome) = web_auth::initial_finished(s, write, created, reread);
            &&& outcome matches Err(failure) ==> after == set && result == Err::<
                Seq<char>,
                FailureView,
            >(failure)
            &&& outcome is Ok && result is Ok ==> {
                &&& result->Ok_0.len() == 64
                &&& laws_of_access::is_one_session_more(set, after.sessions, result->Ok_0, now)
                &&& after == (StateView { sessions: after.sessions, ..set })
            }
            &&& outcome is Ok && result is Err ==> after == set && exists|error: Seq<char>|
                result->Err_0 == FailureView::Internal(
                    #[trigger] ("生成会话 token 失败："@ + error),
                )
        }),
{
    let drawn = choose|drawn: Result<Seq<u8>, Seq<char>>|
        {
            &&& drawn matches Ok(raw) ==> raw.len() == 32
            &&& (after, result) == #[trigger] web_auth::setup_finished(
                s,
                write,
                created,
                reread,
                drawn,
                now,
            )
        };
    let set = web_auth::initial_finished(s, write, created, reread).0;
    laws_of_access::law_a_session_is_opened(set, drawn, now);
    if let Ok(raw) = drawn {
        laws_of_text::law_tokens_read_back(raw, raw);
    }
}

// ---------------------------------------------------------------------------
// Changing it over the web
// ---------------------------------------------------------------------------

/// The event of a change that was tried with a wrong password.
pub open spec fn wrong_change_event(client: ClientAddr) -> EventView {
    EventView {
        event_type: SecurityEventType::WebAuthFailed,
        client,
        reason: "修改 Web 管理密码时当前密码错误"@,
    }
}

/// A change begins where a password is known, and hands its hash on.
pub proof fn law_a_change_begins_with_a_password(
    s: StateView,
    stored: Result<Option<StoredView>, Seq<char>>,
)
    ensures
        web_auth::change_begun(s, stored).0 == looked_at(s, stored),
        web_auth::change_begun(s, stored).1 == match laws_of_access::known_hash(s, stored) {
            Err(error) => Err::<Seq<char>, FailureView>(FailureView::Internal(error)),
            Ok(None) => Err(FailureView::SetupRequired),
            Ok(Some(hash)) => Ok(hash),
        },
{
    laws_of_access::law_the_password_is_read_once(s, stored);
}

/// A change is settled by the verdict on the current password: a wrong one is recorded, and is no
/// failure of a login.
pub proof fn law_a_verdict_settles_the_change(
    s: StateView,
    client: ClientAddr,
    new_hash: Seq<char>,
    verdict: Result<bool, Seq<char>>,
)
    ensures
        web_auth::change_settled(s, client, new_hash, verdict) == match verdict {
            Ok(true) => (
                s,
                Ok::<WriteView, FailureView>(
                    WriteView {
                        password_hash: new_hash,
                        origin: PasswordOrigin::WebChange,
                        client: Some(client),
                    },
                ),
            ),
            Ok(false) => (
                StateView { events: s.events.push(wrong_change_event(client)), ..s },
                Err(FailureView::InvalidPassword),
            ),
            Err(error) => (s, Err(FailureView::Internal(error))),
        },
{
}

/// Whether this is what a change comes to with the hash of a new password at hand: it is written
/// only where Argon2 confirms the whole of the current password.
pub open spec fn is_change(
    s: StateView,
    stored: Result<Option<StoredView>, Seq<char>>,
    client: ClientAddr,
    current: Seq<char>,
    new_hash: Seq<char>,
    after: StateView,
    result: Result<WriteView, FailureView>,
) -> bool {
    let ready = looked_at(s, stored);
    match laws_of_access::known_hash(s, stored) {
        Err(error) => after == ready && result == Err::<WriteView, FailureView>(
            FailureView::Internal(error),
        ),
        Ok(None) => after == ready && result == Err::<WriteView, FailureView>(
            FailureView::SetupRequired,
        ),
        Ok(Some(hash)) => match result {
            Ok(write) => {
                &&& laws_of_passwords::confirms(hash, current)
                &&& after == ready
                &&& write.password_hash == new_hash
                &&& write.origin == PasswordOrigin::WebChange
                &&& write.client == Some(client)
            },
            Err(FailureView::InvalidPassword) => {
                &&& laws_of_passwords::is_verdict_on(hash, current, Ok(false))
                &&& after == (StateView {
                    events: s.events.push(wrong_change_event(client)),
                    ..ready
                })
            },
            Err(FailureView::Internal(error)) => {
                &&& laws_of_passwords::is_verdict_on(hash, current, Err(error))
                &&& after == ready
            },
            Err(_) => false,
        },
    }
}

/// With the hash of the new password at hand, a change needs the whole of the current one.
pub proof fn law_a_change_needs_the_whole_password(
    s: StateView,
    stored: Result<Option<StoredView>, Seq<char>>,
    client: ClientAddr,
    current: Seq<char>,
    hashed: Result<Seq<char>, Seq<char>>,
    after: StateView,
    result: Result<WriteView, FailureView>,
)
    requires
        web_auth::change_hashed_possible(s, stored, client, current, hashed, after, result),
    ensures
        hashed matches Err(error) ==> after == s && result == Err::<WriteView, FailureView>(
            FailureView::Internal(error),
        ),
        hashed matches Ok(new_hash) ==> is_change(
            s,
            stored,
            client,
            current,
            new_hash,
            after,
            result,
        ),
{
    let verdict = choose|verdict: Result<bool, Seq<char>>|
        {
            &&& web_auth::change_begun(s, stored).1 matches Ok(hash) ==> password::verdict_possible(
                hash,
                current,
                verdict,
            )
            &&& (after, result) == #[trigger] web_auth::change_hashed(
                s,
                stored,
                client,
                hashed,
                verdict,
            )
        };
    law_a_change_begins_with_a_password(s, stored);
    if let Ok(Some(hash)) = laws_of_access::known_hash(s, stored) {
        laws_of_passwords::law_the_whole_password_is_compared(hash, current, verdict);
        law_a_verdict_settles_the_change(
            looked_at(s, stored),
            client,
            hashed->Ok_0,
            verdict,
        );
    }
}

/// A change writes a hash of the whole new password, only where that is permitted and the whole of
/// the current one is confirmed.
pub proof fn law_a_change_writes_the_whole_password(
    s: StateView,
    stored: Result<Option<StoredView>, Seq<char>>,
    client: ClientAddr,
    current: Seq<char>,
    chosen: Seq<char>,
    after: StateView,
    result: Result<WriteView, FailureView>,
)
    requires
        web_auth::change_possible(s, stored, client, current, chosen, after, result),
    ensures
        !laws_of_passwords::is_permitted(chosen) ==> after == s && result is Err
            && result->Err_0 is Invalid && password::password_problem(chosen) == Some(
            result->Err_0->Invalid_0,
        ),
        laws_of_passwords::is_permitted(chosen) ==> {
            ||| after == s && result is Err && result->Err_0 is Internal
                && laws_of_passwords::is_hash_failure(result->Err_0->Internal_0)
            ||| exists|new_hash: Seq<char>| #[trigger]
                laws_of_passwords::is_hash_of(new_hash, chosen) && is_change(
                    s,
                    stored,
                    client,
                    current,
                    new_hash,
                    after,
                    result,
                )
        },
        result matches Ok(write) ==> laws_of_passwords::is_hash_of(write.password_hash, chosen),
{
    let (hashed, verdict) = choose|
        hashed: Result<Seq<char>, Seq<char>>,
        verdict: Result<bool, Seq<char>>,
    |
        {
            &&& password::hash_possible(chosen, hashed)
            &&& web_auth::change_begun(s, stored).1 matches Ok(hash) ==> password::verdict_possible(
                hash,
                current,
                verdict,
            )
            &&& (after, result) == #[trigger] web_auth::change_prepared(
                s,
                stored,
                client,
                chosen,
                hashed,
                verdict,
            )
        };
    laws_of_passwords::law_which_passwords_are_permitted(chosen);
    laws_of_passwords::law_a_hash_is_of_the_whole_password(chosen, hashed);
    if laws_of_passwords::is_permitted(chosen) {
        assert((after, result) == web_auth::change_hashed(s, stored, client, hashed, verdict));
        assert(web_auth::change_hashed_possible(
            s,
            stored,
            client,
            current,
            hashed,
            after,
            result,
        ));
        law_a_change_needs_the_whole_password(s, stored, client, current, hashed, after, result);
        if let Ok(new_hash) = hashed {
            assert(laws_of_passwords::is_hash_of(new_hash, chosen));
        }
    }
}

/// A change that was written keeps the sessions of the token that asked for it and ends all others;
/// one that was not changes nothing.
pub proof fn law_a_written_change_keeps_its_own_session(
    s: StateView,
    write: WriteView,
    saved: Result<u64, Seq<char>>,
    token: Option<Seq<char>>,
)
    ensures
        ({
            let (after, result) = web_auth::change_finished(s, write, saved, token);
            &&& saved matches Err(error) ==> after == s && result == Err::<(), FailureView>(
                FailureView::Internal(error),
            )
            &&& saved matches Ok(at) ==> {
                &&& result == Ok::<(), FailureView>(())
                &&& is_written(s, write, at, after)
                &&& after.credential.loaded == s.credential.loaded
                &&& token is None ==> after.sessions.len() == 0
                &&& token matches Some(value) ==> after.sessions == s.sessions.filter(
                    |x: SessionView| x.key == laws_of_access::digest(value),
                )
            }
        }),
{
    if let Some(value) = token {
        let raw = |x: SessionView| x.key == laws_of_access::digest(value);
        assert(raw =~= session::keyed(session::key_of(value)));
    }
}

// ---------------------------------------------------------------------------
// Setting and resetting it on this machine
// ---------------------------------------------------------------------------

/// Storing a password writes a hash of the whole of it, where it is permitted.
pub proof fn law_a_stored_password_is_whole(
    chosen: Seq<char>,
    origin: PasswordOrigin,
    client: Option<ClientAddr>,
    result: Result<WriteView, FailureView>,
)
    requires
        web_auth::store_possible(chosen, origin, client, result),
    ensures
        !laws_of_passwords::is_permitted(chosen) ==> result is Err && result->Err_0 is Invalid
            && password::password_problem(chosen) == Some(result->Err_0->Invalid_0),
        laws_of_passwords::is_permitted(chosen) ==> match result {
            Ok(write) => {
                &&& laws_of_passwords::is_hash_of(write.password_hash, chosen)
                &&& write.origin == origin
                &&& write.client == client
            },
            Err(FailureView::Internal(error)) => laws_of_passwords::is_hash_failure(error),
            Err(_) => false,
        },
{
    let hashed = choose|hashed: Result<Seq<char>, Seq<char>>|
        {
            &&& password::hash_possible(chosen, hashed)
            &&& result == #[trigger] web_auth::store_prepared(chosen, hashed, origin, client)
        };
    laws_of_passwords::law_which_passwords_are_permitted(chosen);
    laws_of_passwords::law_a_hash_is_of_the_whole_password(chosen, hashed);
}

/// A password that was stored is remembered and recorded, and set on this machine it ends every
/// session; where the table failed nothing changes.
pub proof fn law_a_stored_password_is_remembered(
    s: StateView,
    write: WriteView,
    saved: Result<u64, Seq<char>>,
)
    ensures
        ({
            let (after, result) = web_auth::store_finished(s, write, saved);
            let (local, local_result) = web_auth::local_finished(s, write, saved);
            &&& saved matches Ok(at) ==> {
                &&& result == Ok::<(), FailureView>(())
                &&& is_written(s, write, at, after)
                &&& after.credential.loaded
                &&& after.sessions == s.sessions
                &&& local_result == Ok::<(), FailureView>(())
                &&& is_written(s, write, at, local)
                &&& local.credential.loaded
                &&& local.sessions.len() == 0
            }
            &&& saved matches Err(error) ==> {
                &&& result == Err::<(), FailureView>(FailureView::Internal(error))
                &&& after == s
                &&& local_result == Err::<(), FailureView>(FailureView::Internal(error))
                &&& local == s
            }
        }),
{
}

/// A reset forgets the password and ends every session, and is recorded exactly where there was
/// a password; where the table failed nothing changes.
pub proof fn law_a_reset_forgets_the_password(s: StateView, cleared: Result<bool, Seq<char>>)
    ensures
        ({
            let (after, result) = web_auth::reset_run(s, cleared);
            &&& cleared matches Err(error) ==> after == s && result == Err::<bool, FailureView>(
                FailureView::Internal(error),
            )
            &&& cleared matches Ok(removed) ==> {
                &&& result == Ok::<bool, FailureView>(removed)
                &&& after.credential == (CredentialView {
                    loaded: true,
                    password_hash: None,
                    updated_at: None,
                })
                &&& after.sessions.len() == 0
                &&& after.events == if removed {
                    s.events.push(change_event(PasswordOrigin::LocalReset, None))
                } else {
                    s.events
                }
                &&& after.config == s.config
                &&& after.rate_limit == s.rate_limit
            }
        }),
{
}

// ---------------------------------------------------------------------------
// The password file
// ---------------------------------------------------------------------------

/// What is said when the password file is not needed.
pub open spec fn file_is_ignored(path: Seq<char>) -> Seq<char> {
    "已存在 Web 管理密码，忽略 --admin-password-file："@ + path
}

/// What is said when the content of the password file cannot be used.
pub open spec fn file_is_unusable(path: Seq<char>, why: Seq<char>) -> Seq<char> {
    "--admin-password-file 内容不可用（"@ + path + "）："@ + why
}

/// The password of a file is all of its text but the line ends behind it, where it is a regular
/// file of at most four kilobytes and of UTF-8.
pub proof fn law_the_password_of_a_file_is_its_text(
    facts: Result<FileFacts, Seq<char>>,
    content: Result<Seq<char>, Seq<char>>,
)
    ensures
        ({
            let result = startup::file_password(facts, content);
            &&& facts matches Err(error) ==> result == Err::<Seq<char>, Seq<char>>(
                "无法读取文件信息："@ + error,
            )
            &&& facts matches Ok(known) ==> {
                &&& !known.is_file ==> result == Err::<Seq<char>, Seq<char>>(
                    "密码文件必须指向普通文件"@,
                )
                &&& known.is_file && known.len > 4096 ==> result == Err::<Seq<char>, Seq<char>>(
                    "密码文件超过 4096 字节，已拒绝读取"@,
                )
                &&& known.is_file && known.len <= 4096 ==> match content {
                    Err(error) => result == Err::<Seq<char>, Seq<char>>(
                        "密码文件必须是 UTF-8 文本："@ + error,
                    ),
                    Ok(whole) => {
                        &&& result == Ok::<Seq<char>, Seq<char>>(text::trim_line_ends(whole))
                        &&& result->Ok_0.len() <= whole.len()
                        &&& result->Ok_0 == whole.take(result->Ok_0.len() as int)
                        &&& forall|i: int|
                            result->Ok_0.len() <= i < whole.len() ==> laws_of_text::ends_a_line(
                                #[trigger] whole[i],
                            )
                    },
                }
            }
            &&& startup::file_problem(facts) is None <==> facts is Ok && facts->Ok_0.is_file
                && facts->Ok_0.len <= 4096
        }),
{
    if let Ok(whole) = content {
        laws_of_text::law_line_ends_are_all_that_goes(whole);
    }
}

/// The password file is read only where no password is known; otherwise it is ignored, and a table
/// that cannot be read is an error.
pub proof fn law_a_password_file_is_for_the_first_start(
    s: StateView,
    stored: Result<Option<StoredView>, Seq<char>>,
    path: Seq<char>,
)
    ensures
        startup::file_decided(s, stored, path).0 == looked_at(s, stored),
        startup::file_decided(s, stored, path).1 == match laws_of_access::known_hash(s, stored) {
            Err(error) => Err::<DecisionView, Seq<char>>("读取 Web 管理凭据失败："@ + error),
            Ok(Some(_)) => Ok(DecisionView::Ignore(file_is_ignored(path))),
            Ok(None) => Ok(DecisionView::Read),
        },
{
    laws_of_access::law_the_password_is_read_once(s, stored);
}

/// What follows an attempt to prepare the password of a file.
pub proof fn law_an_attempt_with_a_file_is_judged(
    path: Seq<char>,
    attempt: Result<WriteView, FailureView>,
)
    ensures
        attempt matches Ok(write) ==> startup::file_attempt(path, attempt) == Ok::<
            FileStepView,
            Seq<char>,
        >(FileStepView::Insert(write)),
        attempt == Err::<WriteView, FailureView>(FailureView::AlreadyConfigured)
            ==> startup::file_attempt(path, attempt) == Ok::<FileStepView, Seq<char>>(
            FileStepView::Ignore(file_is_ignored(path)),
        ),
        attempt is Err && attempt->Err_0 != FailureView::AlreadyConfigured ==> startup::file_attempt(
            path,
            attempt,
        ) == Err::<FileStepView, Seq<char>>(
            file_is_unusable(path, failure::failure_message(attempt->Err_0)),
        ),
{
}

/// The password of a file is inserted as a hash of the whole of it, for this machine, where it is
/// permitted and no password is known; a file that cannot be read, or a password that is not
/// permitted, is an error with the reason, and changes nothing.
pub proof fn law_a_password_file_sets_its_whole_password(
    s: StateView,
    stored: Result<Option<StoredView>, Seq<char>>,
    path: Seq<char>,
    read: Result<Seq<char>, Seq<char>>,
    after: StateView,
    result: Result<FileStepView, Seq<char>>,
)
    requires
        startup::file_step_possible(s, stored, path, read, after, result),
    ensures
        read matches Err(error) ==> after == s && result == Err::<FileStepView, Seq<char>>(
            "读取 --admin-password-file 失败（"@ + path + "）："@ + error,
        ),
        read matches Ok(chosen) ==> {
            let known = laws_of_access::known_hash(s, stored);
            &&& !laws_of_passwords::is_permitted(chosen) ==> after == s && result == Err::<
                FileStepView,
                Seq<char>,
            >(file_is_unusable(path, password::password_problem(chosen)->0))
            &&& laws_of_passwords::is_permitted(chosen) ==> {
                ||| after == s && exists|error: Seq<char>| #[trigger]
                    laws_of_passwords::is_hash_failure(error) && result == Err::<
                        FileStepView,
                        Seq<char>,
                    >(file_is_unusable(path, error))
                ||| after == looked_at(s, stored) && match known {
                    Err(error) => result == Err::<FileStepView, Seq<char>>(
                        file_is_unusable(path, error),
                    ),
                    Ok(Some(_)) => result == Ok::<FileStepView, Seq<char>>(
                        FileStepView::Ignore(file_is_ignored(path)),
                    ),
                    Ok(None) => {
                        &&& result is Ok
                        &&& result->Ok_0 is Insert
                        &&& laws_of_passwords::is_hash_of(
                            result->Ok_0->Insert_0.password_hash,
                            chosen,
                        )
                        &&& result->Ok_0->Insert_0.origin == PasswordOrigin::PasswordFile
                        &&& result->Ok_0->Insert_0.client is None
                    },
                }
            }
        },
{
    let hashed = choose|hashed: Result<Seq<char>, Seq<char>>|
        {
            &&& read matches Ok(chosen) ==> password::hash_possible(chosen, hashed)
            &&& (after, result) == #[trigger] startup::file_prepared(
                s,
                stored,
                path,
                read,
                hashed,
            )
        };
    if let Ok(chosen) = read {
        let origin = PasswordOrigin::PasswordFile;
        let attempt = web_auth::initial_prepared(s, stored, chosen, hashed, origin, None);
        assert(web_auth::initial_possible(
            s,
            stored,
            chosen,
            origin,
            None,
            attempt.0,
            attempt.1,
        ));
        law_the_first_setup_writes_the_whole_password(
            s,
            stored,
            chosen,
            origin,
            None,
            attempt.0,
            attempt.1,
        );
        law_an_attempt_with_a_file_is_judged(path, attempt.1);
        laws_of_passwords::law_which_passwords_are_permitted(chosen);
        if attempt.1 is Err && attempt.1->Err_0 is Internal {
            let error = attempt.1->Err_0->Internal_0;
            assert(result == Err::<FileStepView, Seq<char>>(file_is_unusable(path, error)));
        }
    }
}

/// How a password file ends: with a line that names it, where the password was inserted or another
/// was there, and otherwise with the reason.
pub proof fn law_a_password_file_is_reported(
    s: StateView,
    path: Seq<char>,
    write: WriteView,
    created: Result<Option<u64>, Seq<char>>,
    reread: Result<Option<StoredView>, Seq<char>>,
)
    ensures
        ({
            let (after, result) = startup::file_finished(s, path, write, created, reread);
            &&& after == web_auth::initial_finished(s, write, created, reread).0
            &&& created matches Ok(Some(_)) ==> result == Ok::<Seq<char>, Seq<char>>(
                "已从 "@ + path + " 设置 Web 管理密码"@,
            )
            &&& created matches Err(error) ==> result == Err::<Seq<char>, Seq<char>>(
                file_is_unusable(path, error),
            )
            &&& created == Ok::<Option<u64>, Seq<char>>(None) ==> result == match reread {
                Ok(_) => Ok::<Seq<char>, Seq<char>>(file_is_ignored(path)),
                Err(error) => Err(file_is_unusable(path, error)),
            }
        }),
{
}

/// At the start one line says that a password is set, or that the table could not be read; where
/// there is none, the notice names the address at which to set it.
pub proof fn law_the_start_says_whether_a_password_is_set(
    s: StateView,
    stored: Result<Option<StoredView>, Seq<char>>,
    listen: Seq<char>,
)
    ensures
        ({
            let lines = startup::startup_lines(s, stored, listen);
            match laws_of_access::known_hash(s, stored) {
                Err(error) => lines == seq!["[错误] 检查 Web 管理凭据失败："@ + error],
                Ok(Some(_)) => lines == seq!["Web 管理认证：已设置管理密码"@],
                Ok(None) => {
                    &&& lines.len() == 6
                    &&& lines[0] == lines[5]
                    &&& lines[1] == "尚未设置 Web 管理密码。"@
                    &&& lines[2] == "请立即访问 http://"@ + listen
                        + " 完成设置：在此之前除首次设置页外"@
                    &&& lines[3] == "的全部管理接口都会被拒绝，DNS 解析不受影响。"@
                    &&& lines[4]
                        == "也可以在本机执行：dnsblackhole-service web-auth set-password"@
                },
            }
        }),
{
    laws_of_access::law_the_password_is_read_once(s, stored);
}

} // verus!
