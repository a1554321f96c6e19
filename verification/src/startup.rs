//! What the service does about the administration password when it starts: the password file that
//! a deployment may mount, and the notice in the log.
//!
//! Only a file is offered, no environment variable: `docker inspect` shows those. Once there is a
//! password the file is ignored, so that a restart does not undo a change made in the interface.

use vstd::prelude::*;

use crate::credential::{
    self, credential_hash, CredentialRead, PasswordWrite, StoredView, WriteView,
};
use crate::failure::{self, AuthFailure, FailureView, PasswordOrigin};
use crate::password;
use crate::text::{self, joined, joined3, without_line_ends};
use crate::web_auth::{
    self, create_initial_password, finish_initial_password, AppState, StateView,
};

verus! {

/// The largest password file in bytes. Such a file has one line; anything larger is the wrong file.
pub const MAX_PASSWORD_FILE_BYTES: u64 = 4096;

// ---------------------------------------------------------------------------
// Reading the file
// ---------------------------------------------------------------------------

/// What the file system says of the password file.
#[derive(Debug, Clone, Copy, PartialEq, Eq, Structural)]
pub struct FileFacts {
    /// Whether it is a regular file.
    pub is_file: bool,
    /// Its length in bytes.
    pub len: u64,
}

/// What the file system says, with its error as a sequence of characters.
pub open spec fn facts_view(facts: Result<FileFacts, String>) -> Result<FileFacts, Seq<char>> {
    match facts {
        Ok(known) => Ok(known),
        Err(error) => Err(error@),
    }
}

/// Why the password file is not to be read, where it is not.
pub open spec fn file_problem(facts: Result<FileFacts, Seq<char>>) -> Option<Seq<char>> {
    match facts {
        Err(error) => Some("无法读取文件信息："@ + error),
        Ok(known) => if !known.is_file {
            Some("密码文件必须指向普通文件"@)
        } else if known.len > MAX_PASSWORD_FILE_BYTES {
            Some("密码文件超过 4096 字节，已拒绝读取"@)
        } else {
            None
        },
    }
}

/// The password in the file, or why there is none.
pub open spec fn file_password(
    facts: Result<FileFacts, Seq<char>>,
    content: Result<Seq<char>, Seq<char>>,
) -> Result<Seq<char>, Seq<char>> {
    match file_problem(facts) {
        Some(problem) => Err(problem),
        None => match content {
            Ok(text) => Ok(text::trim_line_ends(text)),
            Err(error) => Err("密码文件必须是 UTF-8 文本："@ + error),
        },
    }
}

/// Refuses a password file that is no regular file or too large. Its content is read only after
/// that.
pub fn check_password_file(facts: &Result<FileFacts, String>) -> (result: Result<(), String>)
    ensures
        match file_problem(facts_view(*facts)) {
            Some(problem) => result matches Err(error) && error@ == problem,
            None => result is Ok,
        },
{
    let known: FileFacts = match facts {
        Ok(known) => *known,
        Err(error) => {
            return Err(joined("无法读取文件信息：", error.as_str()));
        },
    };
    if !known.is_file {
        return Err(String::from_str("密码文件必须指向普通文件"));
    }
    if known.len > MAX_PASSWORD_FILE_BYTES {
        return Err(String::from_str("密码文件超过 4096 字节，已拒绝读取"));
    }
    Ok(())
}

/// Takes the password from the file. `content` is looked at only where the file is fit to be read.
/// Only line ends are cut off: a password may begin or end with a space.
pub fn read_password_file(facts: &Result<FileFacts, String>, content: &Result<String, String>) -> (
result: Result<String, String>)
    ensures
        password::text_result(result) == file_password(
            facts_view(*facts),
            password::text_result(*content),
        ),
{
    if let Err(problem) = check_password_file(facts) {
        return Err(problem);
    }
    match content {
        Ok(text) => Ok(without_line_ends(text.as_str())),
        Err(error) => Err(joined("密码文件必须是 UTF-8 文本：", error.as_str())),
    }
}

// ---------------------------------------------------------------------------
// Applying the file
// ---------------------------------------------------------------------------

/// What to do about the password file.
#[derive(Debug, Clone, PartialEq, Eq)]
pub enum FileDecision {
    /// There is a password; the file is ignored, and the log says so.
    Ignore(String),
    /// There is none; the file is to be read.
    Read,
}

/// A [`FileDecision`] with its line as a sequence of characters.
#[verifier::ext_equal]
pub enum DecisionView {
    Ignore(Seq<char>),
    Read,
}

impl View for FileDecision {
    type V = DecisionView;

    open spec fn view(&self) -> DecisionView {
        match self {
            FileDecision::Ignore(line) => DecisionView::Ignore(line@),
            FileDecision::Read => DecisionView::Read,
        }
    }
}

/// A decision, or an error, as views.
pub open spec fn decision_result(result: Result<FileDecision, String>) -> Result<
    DecisionView,
    Seq<char>,
> {
    match result {
        Ok(decision) => Ok(decision@),
        Err(error) => Err(error@),
    }
}

/// What is to be written of the password file.
#[derive(Debug)]
pub enum FileStep {
    /// There is a password after all; the file is ignored, and the log says so.
    Ignore(String),
    /// The password is to be inserted.
    Insert(PasswordWrite),
}

/// A [`FileStep`] as views.
#[verifier::ext_equal]
pub enum FileStepView {
    Ignore(Seq<char>),
    Insert(WriteView),
}

impl View for FileStep {
    type V = FileStepView;

    open spec fn view(&self) -> FileStepView {
        match self {
            FileStep::Ignore(line) => FileStepView::Ignore(line@),
            FileStep::Insert(write) => FileStepView::Insert(write@),
        }
    }
}

/// A step, or an error, as views.
pub open spec fn step_result(result: Result<FileStep, String>) -> Result<FileStepView, Seq<char>> {
    match result {
        Ok(step) => Ok(step@),
        Err(error) => Err(error@),
    }
}

/// The line that says that the file at `path` is ignored.
pub open spec fn ignored_line(path: Seq<char>) -> Seq<char> {
    "已存在 Web 管理密码，忽略 --admin-password-file："@ + path
}

/// What to do about the password file at `path`, as the stored credential has it.
pub open spec fn file_decided(
    s: StateView,
    stored: Result<Option<StoredView>, Seq<char>>,
    path: Seq<char>,
) -> (StateView, Result<DecisionView, Seq<char>>) {
    (
        s.loaded(stored),
        match s.load_error(stored) {
            Some(error) => Err("读取 Web 管理凭据失败："@ + error),
            None => if s.hash(stored) is Some {
                Ok(DecisionView::Ignore(ignored_line(path)))
            } else {
                Ok(DecisionView::Read)
            },
        },
    )
}

/// What an attempt to create the first password from the file at `path` comes to. That there is a
/// password already is no error; anything else is.
pub open spec fn file_attempt(path: Seq<char>, attempt: Result<WriteView, FailureView>) -> Result<
    FileStepView,
    Seq<char>,
> {
    match attempt {
        Ok(write) => Ok(FileStepView::Insert(write)),
        Err(FailureView::AlreadyConfigured) => Ok(FileStepView::Ignore(ignored_line(path))),
        Err(failure) => Err(
            "--admin-password-file 内容不可用（"@ + path + "）："@ + failure::failure_message(
                failure,
            ),
        ),
    }
}

/// The report that the file at `path` could not be read.
pub open spec fn unreadable(path: Seq<char>, error: Seq<char>) -> Seq<char> {
    "读取 --admin-password-file 失败（"@ + path + "）："@ + error
}

/// What creating the first password from the file comes to, given what hashing it came to.
pub open spec fn file_prepared(
    s: StateView,
    stored: Result<Option<StoredView>, Seq<char>>,
    path: Seq<char>,
    read: Result<Seq<char>, Seq<char>>,
    hashed: Result<Seq<char>, Seq<char>>,
) -> (StateView, Result<FileStepView, Seq<char>>) {
    match read {
        Err(error) => (s, Err(unreadable(path, error))),
        Ok(password) => {
            let (after, attempt) = web_auth::initial_prepared(
                s,
                stored,
                password,
                hashed,
                PasswordOrigin::PasswordFile,
                None,
            );
            (after, file_attempt(path, attempt))
        },
    }
}

/// Whether creating the first password from the file can come to `after` and `result`: with
/// something that hashing the password can come to.
pub open spec fn file_step_possible(
    s: StateView,
    stored: Result<Option<StoredView>, Seq<char>>,
    path: Seq<char>,
    read: Result<Seq<char>, Seq<char>>,
    after: StateView,
    result: Result<FileStepView, Seq<char>>,
) -> bool {
    exists|hashed: Result<Seq<char>, Seq<char>>|
        {
            &&& read matches Ok(password) ==> password::hash_possible(password, hashed)
            &&& (after, result) == #[trigger] file_prepared(s, stored, path, read, hashed)
        }
}

/// What the password file comes to after the attempt to insert its password: the line for the log,
/// or an error.
pub open spec fn file_finished(
    s: StateView,
    path: Seq<char>,
    write: WriteView,
    created: Result<Option<u64>, Seq<char>>,
    reread: Result<Option<StoredView>, Seq<char>>,
) -> (StateView, Result<Seq<char>, Seq<char>>) {
    let (after, result) = web_auth::initial_finished(s, write, created, reread);
    (
        after,
        match result {
            Ok(()) => Ok("已从 "@ + path + " 设置 Web 管理密码"@),
            Err(FailureView::AlreadyConfigured) => Ok(ignored_line(path)),
            Err(failure) => Err(
                "--admin-password-file 内容不可用（"@ + path + "）："@
                    + failure::failure_message(failure),
            ),
        },
    )
}

/// Decides what to do about the password file that is shown as `path`.
///
/// An error means that the web interface must not start: a deployment that asked for a password
/// would otherwise be open to whoever sets one first. Answering names needs no interface, so that
/// may go on.
pub fn apply_password_file(state: &mut AppState, stored: &CredentialRead, path: &str) -> (result:
    Result<FileDecision, String>)
    ensures
        (final(state)@, decision_result(result)) == file_decided(
            old(state)@,
            credential::read_view(*stored),
            path@,
        ),
        old(state)@.wf() ==> final(state)@.wf(),
{
    match credential_hash(&mut state.web_auth.credential, stored) {
        Ok(Some(_)) => Ok(
            FileDecision::Ignore(
                joined("已存在 Web 管理密码，忽略 --admin-password-file：", path),
            ),
        ),
        Ok(None) => Ok(FileDecision::Read),
        Err(error) => Err(joined("读取 Web 管理凭据失败：", error.as_str())),
    }
}

/// The report that the content of the file at `path` is not fit to be the password.
fn unusable_message(path: &str, failure: &AuthFailure) -> (message: String)
    ensures
        message@ == "--admin-password-file 内容不可用（"@ + path@ + "）："@
            + failure::failure_message(failure@),
{
    let mut message = joined3("--admin-password-file 内容不可用（", path, "）：");
    let reason = failure.message();
    message.append(reason.as_str());
    message
}

/// Turns the attempt to create the first password from the file into what is to be done.
pub fn step_of_attempt(path: &str, attempt: Result<PasswordWrite, AuthFailure>) -> (result: Result<
    FileStep,
    String,
>)
    ensures
        step_result(result) == file_attempt(path@, web_auth::write_outcome(attempt)),
{
    match attempt {
        Ok(write) => Ok(FileStep::Insert(write)),
        Err(AuthFailure::AlreadyConfigured) => Ok(
            FileStep::Ignore(
                joined("已存在 Web 管理密码，忽略 --admin-password-file：", path),
            ),
        ),
        Err(failure) => Err(unusable_message(path, &failure)),
    }
}

/// Creates the first password from what was read of the password file.
pub fn create_from_file(
    state: &mut AppState,
    stored: &CredentialRead,
    path: &str,
    read: Result<String, String>,
) -> (result: Result<FileStep, String>)
    ensures
        file_step_possible(
            old(state)@,
            credential::read_view(*stored),
            path@,
            password::text_result(read),
            final(state)@,
            step_result(result),
        ),
        old(state)@.wf() ==> final(state)@.wf(),
{
    let ghost s = state@;
    let ghost row = credential::read_view(*stored);
    let ghost given = password::text_result(read);
    let password = match read {
        Ok(password) => password,
        Err(error) => {
            let mut message = joined3("读取 --admin-password-file 失败（", path, "）：");
            message.append(error.as_str());
            assert((state@, Err::<FileStepView, Seq<char>>(message@)) == file_prepared(
                s,
                row,
                path@,
                given,
                Err(Seq::empty()),
            ));
            return Err(message);
        },
    };
    let attempt = create_initial_password(
        state,
        stored,
        password.as_str(),
        PasswordOrigin::PasswordFile,
        None,
    );
    let ghost seen = web_auth::write_outcome(attempt);
    let result = step_of_attempt(path, attempt);
    proof {
        let hashed = choose|hashed: Result<Seq<char>, Seq<char>>|
            {
                &&& password::hash_possible(password@, hashed)
                &&& (state@, seen) == #[trigger] web_auth::initial_prepared(
                    s,
                    row,
                    password@,
                    hashed,
                    PasswordOrigin::PasswordFile,
                    None,
                )
            };
        assert((state@, step_result(result)) == file_prepared(s, row, path@, given, hashed));
    }
    result
}

/// Finishes with the password file after the attempt to insert its password, and answers the line
/// for the log.
pub fn finish_password_file(
    state: &mut AppState,
    path: &str,
    write: PasswordWrite,
    created: &Result<Option<u64>, String>,
    reread: &CredentialRead,
) -> (result: Result<String, String>)
    ensures
        (final(state)@, password::text_result(result)) == file_finished(
            old(state)@,
            path@,
            write@,
            web_auth::created_view(*created),
            credential::read_view(*reread),
        ),
        old(state)@.wf() ==> final(state)@.wf(),
{
    match finish_initial_password(state, write, created, reread) {
        Ok(()) => Ok(joined3("已从 ", path, " 设置 Web 管理密码")),
        Err(AuthFailure::AlreadyConfigured) => Ok(
            joined("已存在 Web 管理密码，忽略 --admin-password-file：", path),
        ),
        Err(failure) => Err(unusable_message(path, &failure)),
    }
}

// ---------------------------------------------------------------------------
// The notice in the log
// ---------------------------------------------------------------------------

/// The rule above and below the notice.
pub const NOTICE_RULE: &'static str = "========================================================";

/// The lines for the log at the start of the service that listens on `listen`.
pub open spec fn startup_lines(
    s: StateView,
    stored: Result<Option<StoredView>, Seq<char>>,
    listen: Seq<char>,
) -> Seq<Seq<char>> {
    match s.load_error(stored) {
        Some(error) => seq!["[错误] 检查 Web 管理凭据失败："@ + error],
        None => if s.hash(stored) is Some {
            seq!["Web 管理认证：已设置管理密码"@]
        } else {
            seq![
                NOTICE_RULE@,
                "尚未设置 Web 管理密码。"@,
                "请立即访问 http://"@ + listen + " 完成设置：在此之前除首次设置页外"@,
                "的全部管理接口都会被拒绝，DNS 解析不受影响。"@,
                "也可以在本机执行：dnsblackhole-service web-auth set-password"@,
                NOTICE_RULE@,
            ]
        },
    }
}

/// Words the notice about the password for the log.
pub fn log_startup_state(state: &mut AppState, stored: &CredentialRead, listen: &str) -> (lines: Vec<
    String,
>)
    ensures
        final(state)@ == old(state)@.loaded(credential::read_view(*stored)),
        text::texts(lines@) == startup_lines(
            old(state)@,
            credential::read_view(*stored),
            listen@,
        ),
        old(state)@.wf() ==> final(state)@.wf(),
{
    let mut lines: Vec<String> = Vec::new();
    match credential_hash(&mut state.web_auth.credential, stored) {
        Ok(Some(_)) => {
            lines.push(String::from_str("Web 管理认证：已设置管理密码"));
        },
        Ok(None) => {
            lines.push(String::from_str(NOTICE_RULE));
            lines.push(String::from_str("尚未设置 Web 管理密码。"));
            lines.push(
                joined3(
                    "请立即访问 http://",
                    listen,
                    " 完成设置：在此之前除首次设置页外",
                ),
            );
            lines.push(String::from_str("的全部管理接口都会被拒绝，DNS 解析不受影响。"));
            lines.push(
                String::from_str(
                    "也可以在本机执行：dnsblackhole-service web-auth set-password",
                ),
            );
            lines.push(String::from_str(NOTICE_RULE));
        },
        Err(error) => {
            lines.push(joined("[错误] 检查 Web 管理凭据失败：", error.as_str()));
        },
    }
    assert(text::texts(lines@) =~= startup_lines(
        old(state)@,
        credential::read_view(*stored),
        listen@,
    ));
    lines
}

} // verus!
