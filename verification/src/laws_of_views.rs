//! Laws of what the contracts see of a value: every field and every text of it, as it is.

use vstd::prelude::*;

use crate::arguments::{self, Argument};
use crate::clock;
use crate::cookie;
use crate::credential::{self, CredentialRead, PasswordWrite, WriteView};
use crate::failure::{self, AuthFailure, FailureView};
use crate::headless::{
    self, PasswordPrompt, PromptStep, PromptStepView, PromptView, ServeOptions, Step, StepView, Task,
    TaskView,
};
use crate::password;
use crate::session;
use crate::startup::{self, DecisionView, FileDecision, FileStep, FileStepView};
use crate::text;
use crate::web_auth::{self, AppState, AuthOutcome, OutcomeView};

verus! {

/// A state is seen with its configuration, what it remembers of the password, every session, the
/// whole rate limit and every event, each in its order.
pub proof fn law_a_state_is_seen_whole(state: AppState)
    ensures
        state@.config == state.config,
        state@.credential.loaded == state.web_auth.credential.loaded,
        state@.credential.updated_at == state.web_auth.credential.updated_at,
        match state.web_auth.credential.password_hash {
            Some(hash) => state@.credential.password_hash == Some(hash@),
            None => state@.credential.password_hash is None,
        },
        state@.sessions.len() == state.web_auth.sessions@.len(),
        forall|i: int|
            0 <= i < state@.sessions.len() ==> {
                &&& (#[trigger] state@.sessions[i]).key == state.web_auth.sessions@[i].key@
                &&& state@.sessions[i].created_at == state.web_auth.sessions@[i].created_at
                &&& state@.sessions[i].last_seen_at == state.web_auth.sessions@[i].last_seen_at
            },
        state@.rate_limit.clients == state.web_auth.rate_limit.clients@,
        state@.rate_limit.global_failures == state.web_auth.rate_limit.global_failures,
        state@.rate_limit.global_window_started_at
            == state.web_auth.rate_limit.global_window_started_at,
        state@.rate_limit.global_locked_until == state.web_auth.rate_limit.global_locked_until,
        state@.events.len() == state.events@.len(),
        forall|i: int|
            0 <= i < state@.events.len() ==> {
                &&& (#[trigger] state@.events[i]).event_type == state.events@[i].event_type
                &&& state@.events[i].client == state.events@[i].client
                &&& state@.events[i].reason == state.events@[i].reason@
            },
{
}

/// A failure is seen as it is, with its seconds or its text.
pub proof fn law_a_failure_is_seen_whole(failure: AuthFailure)
    ensures
        failure@ == match failure {
            AuthFailure::SetupRequired => FailureView::SetupRequired,
            AuthFailure::AlreadyConfigured => FailureView::AlreadyConfigured,
            AuthFailure::Unauthenticated => FailureView::Unauthenticated,
            AuthFailure::InvalidPassword => FailureView::InvalidPassword,
            AuthFailure::Locked { retry_after_seconds } => FailureView::Locked(retry_after_seconds),
            AuthFailure::Invalid(message) => FailureView::Invalid(message@),
            AuthFailure::Internal(message) => FailureView::Internal(message@),
        },
        AuthOutcome::Rejected(failure)@ == OutcomeView::Rejected(failure@),
        AuthOutcome::Authorized@ == OutcomeView::Authorized,
{
}

/// The message of a failure: the seconds of a lockout in decimal, and the text of an invalid input
/// or of an internal error as it is.
pub proof fn law_messages_say_what_happened(seconds: u64, message: Seq<char>)
    ensures
        failure::failure_message(FailureView::Locked(seconds)) == "登录失败次数过多，请在 "@
            + text::decimal(seconds as nat) + " 秒后重试"@,
        failure::failure_message(FailureView::Invalid(message)) == message,
        failure::failure_message(FailureView::Internal(message)) == message,
        failure::failure_code(FailureView::Locked(seconds)) == "locked"@,
        failure::failure_code(FailureView::Invalid(message)) == "invalid_request"@,
        failure::failure_code(FailureView::Internal(message)) == "internal_error"@,
{
}

/// A success is seen as one, with its value, and a failure as one, with its reason.
pub proof fn law_results_are_seen_whole(
    given: Result<String, AuthFailure>,
    texts: Result<String, String>,
    verdict: Result<bool, String>,
    created: Result<Option<u64>, String>,
    saved: Result<u64, String>,
    write: PasswordWrite,
    failure: AuthFailure,
)
    ensures
        match given {
            Ok(value) => failure::text_outcome(given) == Ok::<Seq<char>, FailureView>(value@),
            Err(reason) => failure::text_outcome(given) == Err::<Seq<char>, FailureView>(reason@),
        },
        match texts {
            Ok(value) => password::text_result(texts) == Ok::<Seq<char>, Seq<char>>(value@),
            Err(reason) => password::text_result(texts) == Err::<Seq<char>, Seq<char>>(reason@),
        },
        match verdict {
            Ok(value) => password::verdict_result(verdict) == Ok::<bool, Seq<char>>(value),
            Err(reason) => password::verdict_result(verdict) == Err::<bool, Seq<char>>(reason@),
        },
        match created {
            Ok(value) => web_auth::created_view(created) == Ok::<Option<u64>, Seq<char>>(value),
            Err(reason) => web_auth::created_view(created) == Err::<Option<u64>, Seq<char>>(
                reason@,
            ),
        },
        match saved {
            Ok(value) => web_auth::saved_view(saved) == Ok::<u64, Seq<char>>(value),
            Err(reason) => web_auth::saved_view(saved) == Err::<u64, Seq<char>>(reason@),
        },
        write@ == (WriteView {
            password_hash: write.password_hash@,
            origin: write.origin,
            client: write.client,
        }),
        web_auth::write_outcome(Ok(write)) == Ok::<WriteView, FailureView>(write@),
        web_auth::write_outcome(Err(failure)) == Err::<WriteView, FailureView>(failure@),
        failure::outcome(Ok::<bool, AuthFailure>(true)) == Ok::<bool, FailureView>(true),
        failure::outcome(Ok::<bool, AuthFailure>(false)) == Ok::<bool, FailureView>(false),
        failure::outcome(Ok::<(), AuthFailure>(())) == Ok::<(), FailureView>(()),
        failure::outcome(Err::<(), AuthFailure>(failure)) == Err::<(), FailureView>(failure@),
        failure::outcome(Err::<bool, AuthFailure>(failure)) == Err::<bool, FailureView>(failure@),
{
}

/// What was read of the stored password is seen with its hash and its second, and what was drawn
/// with its bytes.
pub proof fn law_reads_are_seen_whole(read: CredentialRead, drawn: Result<[u8; 32], String>)
    ensures
        match read {
            Ok(Some(row)) => {
                &&& credential::read_view(read) is Ok
                &&& credential::read_view(read)->Ok_0 is Some
                &&& credential::read_view(read)->Ok_0->0.password_hash == row.password_hash@
                &&& credential::read_view(read)->Ok_0->0.updated_at == row.updated_at
            },
            Ok(None) => credential::read_view(read) is Ok && credential::read_view(
                read,
            )->Ok_0 is None,
            Err(error) => credential::read_view(read) is Err && credential::read_view(read)->Err_0
                == error@,
        },
        match drawn {
            Ok(raw) => session::draw_view(drawn) == Ok::<Seq<u8>, Seq<char>>(raw@),
            Err(error) => session::draw_view(drawn) == Err::<Seq<u8>, Seq<char>>(error@),
        },
{
}

/// Lines are seen in their order, each with its text.
pub proof fn law_lines_are_seen_whole(lines: Seq<String>)
    ensures
        text::texts(lines).len() == lines.len(),
        forall|i: int|
            0 <= i < lines.len() ==> #[trigger] text::texts(lines)[i] == lines[i]@,
{
}

/// The token of a request is that of its header, where it has one.
pub proof fn law_a_header_is_seen_whole(header: &str)
    ensures
        cookie::header_token(Some(header)) == cookie::session_token(header@),
        cookie::header_token(None) is None,
{
}

/// Every argument is seen in its place, with its text, or as one that is no text.
pub proof fn law_arguments_are_seen_in_place(given: Seq<Argument>, i: int, from: int)
    requires
        0 <= from,
    ensures
        ({
            let args = arguments::argument_views(given);
            &&& args.len() == given.len()
            &&& 0 <= i < given.len() ==> match given[i] {
                Some(value) => args[i] == Some(value@) && arguments::text_at(args, i) == Some(
                    value@,
                ),
                None => args[i] is None && arguments::text_at(args, i) is None,
            }
            &&& i < 0 || given.len() <= i ==> arguments::text_at(args, i) is None
            &&& from <= given.len() ==> arguments::count_from(args, from) == given.len() - from
            &&& given.len() < from ==> arguments::count_from(args, from) == 0
        }),
{
}

/// Whether a place is seen as itself.
pub open spec fn is_place(given: Option<usize>, seen: Option<int>) -> bool {
    match given {
        Some(at) => seen == Some(at as int),
        None => seen is None,
    }
}

/// The options of `serve` are seen as they are.
pub proof fn law_serve_options_are_seen_whole(options: ServeOptions)
    ensures
        is_place(options.data_dir, options@.data_dir),
        is_place(options.bootstrap_config, options@.bootstrap_config),
        is_place(options.admin_password_file, options@.admin_password_file),
        match options.web_listen {
            Some(address) => options@.web_listen == Some(address@),
            None => options@.web_listen is None,
        },
{
}

/// What is to be done next is seen with all that it needs.
pub proof fn law_steps_are_seen_whole(step: Step, error: String)
    ensures
        headless::step_result(Ok(step)) == Ok::<StepView, Seq<char>>(step@),
        headless::step_result(Err(error)) == Err::<StepView, Seq<char>>(error@),
        match step {
            Step::Serve(options) => step@ == StepView::Serve(options@),
            Step::Call { method, params, task } => step@ == StepView::Call(
                method@,
                params@,
                task@,
            ),
            Step::ReadConfig { path, apply } => step@ == StepView::ReadConfig(path as int, apply),
            Step::RestoreOffline { data_dir, keep_desired } => {
                &&& step@ is RestoreOffline
                &&& is_place(data_dir, step@->RestoreOffline_0)
                &&& step@->RestoreOffline_1 == keep_desired
            },
            Step::ReadPassword => step@ == StepView::ReadPassword,
            Step::WriteFile { path, content } => step@ == StepView::WriteFile(
                path as int,
                content@,
            ),
            Step::Done(output) => step@ == StepView::Done(output@),
        },
{
}

/// What a reply is for is seen as it is.
pub proof fn law_tasks_are_seen_whole(task: Task)
    ensures
        task@ == match task {
            Task::StatusReply { json_output } => TaskView::StatusReply(json_output),
            Task::ConfigReply { json_output, status } => TaskView::ConfigReply(
                json_output,
                status@,
            ),
            Task::Health => TaskView::Health,
            Task::Print => TaskView::Print,
            Task::FilterConfig => TaskView::FilterConfig,
            Task::Export { path, to_stdout } => TaskView::Export(path as int, to_stdout),
            Task::WebAuthStatus => TaskView::WebAuthStatus,
            Task::PasswordSet => TaskView::PasswordSet,
            Task::PasswordReset => TaskView::PasswordReset,
        },
{
}

/// A prompt and what a line comes to are seen as they are, and a terminal is shown which of the two
/// lines it waits for.
pub proof fn law_prompts_are_seen_whole(prompt: PasswordPrompt, step: PromptStep, error: String)
    ensures
        prompt@ == match prompt {
            PasswordPrompt::Piped => PromptView::Piped,
            PasswordPrompt::First => PromptView::First,
            PasswordPrompt::Confirm(first) => PromptView::Confirm(first@),
        },
        step@ == match step {
            PromptStep::Ask(next) => PromptStepView::Ask(next@),
            PromptStep::Password(password) => PromptStepView::Password(password@),
        },
        headless::prompt_result(Ok(step)) == Ok::<PromptStepView, Seq<char>>(step@),
        headless::prompt_result(Err(error)) == Err::<PromptStepView, Seq<char>>(error@),
        headless::prompt_shown(prompt@) == match prompt {
            PasswordPrompt::Piped => None,
            PasswordPrompt::First => Some("请输入新的 Web 管理密码："@),
            PasswordPrompt::Confirm(_) => Some("请再次输入以确认："@),
        },
{
}

/// What is decided of a password file is seen as it is.
pub proof fn law_file_steps_are_seen_whole(
    decision: FileDecision,
    step: FileStep,
    error: String,
)
    ensures
        decision@ == match decision {
            FileDecision::Ignore(line) => DecisionView::Ignore(line@),
            FileDecision::Read => DecisionView::Read,
        },
        startup::decision_result(Ok(decision)) == Ok::<DecisionView, Seq<char>>(decision@),
        startup::decision_result(Err(error)) == Err::<DecisionView, Seq<char>>(error@),
        step@ == match step {
            FileStep::Ignore(line) => FileStepView::Ignore(line@),
            FileStep::Insert(write) => FileStepView::Insert(write@),
        },
        startup::step_result(Ok(step)) == Ok::<FileStepView, Seq<char>>(step@),
        startup::step_result(Err(error)) == Err::<FileStepView, Seq<char>>(error@),
{
}

/// Spans are measured in nanoseconds from the one moment to the other, and what is not yet past has
/// taken no time.
pub proof fn law_spans_are_differences(now: u64, then: u64, seconds: u64)
    ensures
        clock::within_span(now, then, seconds) <==> now - then <= seconds * 1_000_000_000,
        now >= then + 1_000_000_000 ==> clock::seconds_left(now, then) == (now - then)
            / 1_000_000_000,
        now < then + 1_000_000_000 ==> clock::seconds_left(now, then) == 1,
{
}

} // verus!
