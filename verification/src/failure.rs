//! Why a request is refused, who asked, and what is worth telling the security log.

use vstd::prelude::*;

use crate::text::{self, decimal_text, joined3};

verus! {

/// Why authentication failed. The caller maps each reason to an HTTP status.
#[derive(Debug, Clone, PartialEq, Eq)]
pub enum AuthFailure {
    /// There is no administration password yet; only the first setup is open.
    SetupRequired,
    /// There is a password already, so the first setup is closed.
    AlreadyConfigured,
    /// No session, or one that has expired.
    Unauthenticated,
    /// The password is wrong.
    InvalidPassword,
    /// Logging in is locked for this many more seconds.
    Locked { retry_after_seconds: u64 },
    /// The input does not meet the requirements.
    Invalid(String),
    /// Something failed inside: the credential table, or hashing.
    Internal(String),
}

/// An [`AuthFailure`] with its text as a sequence of characters.
#[verifier::ext_equal]
pub enum FailureView {
    SetupRequired,
    AlreadyConfigured,
    Unauthenticated,
    InvalidPassword,
    Locked(u64),
    Invalid(Seq<char>),
    Internal(Seq<char>),
}

impl View for AuthFailure {
    type V = FailureView;

    open spec fn view(&self) -> FailureView {
        match self {
            AuthFailure::SetupRequired => FailureView::SetupRequired,
            AuthFailure::AlreadyConfigured => FailureView::AlreadyConfigured,
            AuthFailure::Unauthenticated => FailureView::Unauthenticated,
            AuthFailure::InvalidPassword => FailureView::InvalidPassword,
            AuthFailure::Locked { retry_after_seconds } => FailureView::Locked(
                *retry_after_seconds,
            ),
            AuthFailure::Invalid(message) => FailureView::Invalid(message@),
            AuthFailure::Internal(message) => FailureView::Internal(message@),
        }
    }
}

/// The machine-readable code of a failure.
pub open spec fn failure_code(failure: FailureView) -> Seq<char> {
    match failure {
        FailureView::SetupRequired => "setup_required"@,
        FailureView::AlreadyConfigured => "already_configured"@,
        FailureView::Unauthenticated => "unauthenticated"@,
        FailureView::InvalidPassword => "invalid_password"@,
        FailureView::Locked(_) => "locked"@,
        FailureView::Invalid(_) => "invalid_request"@,
        FailureView::Internal(_) => "internal_error"@,
    }
}

/// The message of a failure.
pub open spec fn failure_message(failure: FailureView) -> Seq<char> {
    match failure {
        FailureView::SetupRequired =>
            "尚未设置 Web 管理密码，请先访问管理页面完成首次设置"@,
        FailureView::AlreadyConfigured => "已设置过 Web 管理密码，请直接登录"@,
        FailureView::Unauthenticated => "请先登录 Web 管理后台"@,
        FailureView::InvalidPassword => "密码错误"@,
        FailureView::Locked(seconds) => "登录失败次数过多，请在 "@ + text::decimal(
            seconds as nat,
        ) + " 秒后重试"@,
        FailureView::Invalid(message) => message,
        FailureView::Internal(message) => message,
    }
}

impl AuthFailure {
    /// The code by which the front end tells "set a password" from "log in".
    pub fn code(&self) -> (code: &'static str)
        ensures
            code@ == failure_code(self@),
    {
        match self {
            AuthFailure::SetupRequired => "setup_required",
            AuthFailure::AlreadyConfigured => "already_configured",
            AuthFailure::Unauthenticated => "unauthenticated",
            AuthFailure::InvalidPassword => "invalid_password",
            AuthFailure::Locked { .. } => "locked",
            AuthFailure::Invalid(_) => "invalid_request",
            AuthFailure::Internal(_) => "internal_error",
        }
    }

    /// The message for the person in front of the page.
    pub fn message(&self) -> (message: String)
        ensures
            message@ == failure_message(self@),
    {
        match self {
            AuthFailure::SetupRequired => String::from_str(
                "尚未设置 Web 管理密码，请先访问管理页面完成首次设置",
            ),
            AuthFailure::AlreadyConfigured => String::from_str(
                "已设置过 Web 管理密码，请直接登录",
            ),
            AuthFailure::Unauthenticated => String::from_str("请先登录 Web 管理后台"),
            AuthFailure::InvalidPassword => String::from_str("密码错误"),
            AuthFailure::Locked { retry_after_seconds } => {
                let seconds = decimal_text(*retry_after_seconds);
                joined3("登录失败次数过多，请在 ", seconds.as_str(), " 秒后重试")
            },
            AuthFailure::Invalid(message) => message.clone(),
            AuthFailure::Internal(message) => message.clone(),
        }
    }
}

/// A result with its failure as a [`FailureView`].
pub open spec fn outcome<T>(result: Result<T, AuthFailure>) -> Result<T, FailureView> {
    match result {
        Ok(value) => Ok(value),
        Err(failure) => Err(failure@),
    }
}

/// A result of text with its text and failure as views.
pub open spec fn text_outcome(result: Result<String, AuthFailure>) -> Result<Seq<char>, FailureView> {
    match result {
        Ok(value) => Ok(value@),
        Err(failure) => Err(failure@),
    }
}

/// The network address of a client.
#[derive(Debug, Clone, Copy, PartialEq, Eq, Structural)]
pub enum ClientAddr {
    /// An IPv4 address by its four octets.
    V4(u8, u8, u8, u8),
    /// An IPv6 address as one number.
    V6(u128),
}

/// The address of this machine to itself.
pub open spec fn localhost() -> ClientAddr {
    ClientAddr::V4(127, 0, 0, 1)
}

/// Where a password change came from; it only words the security event.
#[derive(Debug, Clone, Copy, PartialEq, Eq, Structural)]
pub enum PasswordOrigin {
    /// The first setup page.
    WebSetup,
    /// The change form of the web interface.
    WebChange,
    /// `web-auth set-password` on this machine.
    LocalCli,
    /// `web-auth reset` on this machine.
    LocalReset,
    /// `--admin-password-file` at the first start of a container.
    PasswordFile,
}

/// The reason that a password change from `origin` is recorded with.
pub open spec fn origin_reason(origin: PasswordOrigin) -> Seq<char> {
    match origin {
        PasswordOrigin::WebSetup => "首次设置管理密码"@,
        PasswordOrigin::WebChange => "通过 Web 修改管理密码"@,
        PasswordOrigin::LocalCli => "通过本机 CLI 设置管理密码"@,
        PasswordOrigin::LocalReset => "通过本机 CLI 重置管理密码"@,
        PasswordOrigin::PasswordFile => "通过 --admin-password-file 设置管理密码"@,
    }
}

/// The client that a password change from `origin` is put down to, where the origin knows it.
pub open spec fn origin_client(origin: PasswordOrigin) -> Option<ClientAddr> {
    match origin {
        PasswordOrigin::WebSetup | PasswordOrigin::WebChange => None,
        _ => Some(localhost()),
    }
}

impl PasswordOrigin {
    /// The reason text of the security event.
    pub fn reason(self) -> (reason: &'static str)
        ensures
            reason@ == origin_reason(self),
    {
        match self {
            PasswordOrigin::WebSetup => "首次设置管理密码",
            PasswordOrigin::WebChange => "通过 Web 修改管理密码",
            PasswordOrigin::LocalCli => "通过本机 CLI 设置管理密码",
            PasswordOrigin::LocalReset => "通过本机 CLI 重置管理密码",
            PasswordOrigin::PasswordFile => "通过 --admin-password-file 设置管理密码",
        }
    }

    /// The command line and the password file both act on the machine that runs the service, so
    /// their events name this machine; the reason tells them apart.
    pub fn client_ip(self) -> (client: Option<ClientAddr>)
        ensures
            client == origin_client(self),
    {
        match self {
            PasswordOrigin::WebSetup => None,
            PasswordOrigin::WebChange => None,
            PasswordOrigin::LocalCli => Some(ClientAddr::V4(127, 0, 0, 1)),
            PasswordOrigin::LocalReset => Some(ClientAddr::V4(127, 0, 0, 1)),
            PasswordOrigin::PasswordFile => Some(ClientAddr::V4(127, 0, 0, 1)),
        }
    }
}

/// The kinds of security events that authentication gives rise to.
#[derive(Debug, Clone, Copy, PartialEq, Eq, Structural)]
pub enum SecurityEventType {
    /// A login succeeded.
    WebAuthLogin,
    /// A password was wrong.
    WebAuthFailed,
    /// A client, or everyone, was locked out.
    WebAuthLocked,
    /// The password was set, changed or reset.
    WebAuthPasswordChanged,
}

/// One entry for the security log.
#[derive(Debug, Clone, PartialEq, Eq)]
pub struct SecurityEvent {
    pub event_type: SecurityEventType,
    pub client: ClientAddr,
    pub reason: String,
}

/// A [`SecurityEvent`] with its reason as a sequence of characters.
#[verifier::ext_equal]
pub struct EventView {
    pub event_type: SecurityEventType,
    pub client: ClientAddr,
    pub reason: Seq<char>,
}

impl View for SecurityEvent {
    type V = EventView;

    open spec fn view(&self) -> EventView {
        EventView { event_type: self.event_type, client: self.client, reason: self.reason@ }
    }
}

/// An event; one without a client is put down to this machine.
pub open spec fn event(
    event_type: SecurityEventType,
    client: Option<ClientAddr>,
    reason: Seq<char>,
) -> EventView {
    EventView {
        event_type,
        client: match client {
            Some(address) => address,
            None => localhost(),
        },
        reason,
    }
}

/// The views of a list of events.
pub open spec fn event_views(events: Seq<SecurityEvent>) -> Seq<EventView> {
    events.map_values(|e: SecurityEvent| e@)
}

/// Puts an event at the end of the list that waits for the security log.
pub fn record_event(
    events: &mut Vec<SecurityEvent>,
    event_type: SecurityEventType,
    client: Option<ClientAddr>,
    reason: &str,
)
    ensures
        event_views(final(events)@) == event_views(old(events)@).push(
            event(event_type, client, reason@),
        ),
{
    let address: ClientAddr = match client {
        Some(address) => address,
        None => ClientAddr::V4(127, 0, 0, 1),
    };
    events.push(SecurityEvent { event_type, client: address, reason: String::from_str(reason) });
    assert(event_views(events@) =~= event_views(old(events)@).push(
        event(event_type, client, reason@),
    ));
}

} // verus!
