use argon2::password_hash::PasswordHasher;
use argon2::{Algorithm, Argon2, Params, Version};
use dnsblackhole::cookie::SESSION_COOKIE;
use dnsblackhole::credential::{CredentialRead, StoredCredential};
use dnsblackhole::failure::{AuthFailure, ClientAddr, PasswordOrigin, SecurityEventType};
use dnsblackhole::password::{
    check_offered, fault_message, hash_of_computation, hash_password, hash_with_drawn, hash_with_salt, validate_password,
    verdict_of_check, verify_password, MAX_PASSWORD_BYTES,
};
use dnsblackhole::rate_limit::LOCKOUT_AFTER_FAILURES;
use dnsblackhole::session::{
    active_session_count, constant_time_eq, prune_sessions, token_key, SessionEntry, MAX_SESSIONS,
    SESSION_ABSOLUTE_LIFETIME_SECONDS,
};
use dnsblackhole::startup::{
    apply_password_file, check_password_file, create_from_file, finish_password_file,
    log_startup_state, read_password_file, FileDecision, FileFacts, FileStep,
    MAX_PASSWORD_FILE_BYTES,
};
use dnsblackhole::web_auth::{
    authorize, begin_initial_password, begin_login, change_password, change_to_hash,
    finish_change_password,
    finish_login, finish_set_password_locally, finish_setup, idle_timeout, invalidate_sessions,
    login, logout, reset_password, secure_cookie_enabled, set_password_locally, settle_change,
    complete_login, settle_login, setup_password, status, AppConfig, AppState, AuthOutcome,
    LoginTimes,
};

const SECOND: u64 = 1_000_000_000;
const START: u64 = 1_000 * SECOND;

/// The service with its credential table in memory.
struct Service {
    state: AppState,
    row: Option<StoredCredential>,
    broken: bool,
    now: u64,
}

impl Service {
    fn new() -> Self {
        let config = AppConfig {
            web_admin_session_idle_minutes: 60,
            web_admin_secure_cookie: false,
        };
        Service {
            state: AppState::new(Some(config)),
            row: None,
            broken: false,
            now: START,
        }
    }

    fn read(&self) -> CredentialRead {
        if self.broken {
            Err("disk".to_string())
        } else {
            Ok(self.row.clone())
        }
    }

    fn create(&mut self, hash: &str) -> Result<Option<u64>, String> {
        if self.broken {
            return Err("disk".to_string());
        }
        if self.row.is_some() {
            return Ok(None);
        }
        self.row = Some(StoredCredential {
            password_hash: hash.to_string(),
            updated_at: 77,
        });
        Ok(Some(77))
    }

    fn save(&mut self, hash: &str) -> Result<u64, String> {
        if self.broken {
            return Err("disk".to_string());
        }
        self.row = Some(StoredCredential {
            password_hash: hash.to_string(),
            updated_at: 78,
        });
        Ok(78)
    }

    fn setup(&mut self, client: ClientAddr, password: &str) -> Result<String, AuthFailure> {
        let stored = self.read();
        let write = setup_password(&mut self.state, &stored, client, password)?;
        let created = self.create(&write.password_hash);
        let reread = self.read();
        finish_setup(&mut self.state, write, &created, &reread, self.now)
    }

    fn login(&mut self, client: ClientAddr, password: &str) -> Result<String, AuthFailure> {
        let stored = self.read();
        let times = LoginTimes {
            checked: self.now,
            settled: self.now,
            issued: self.now,
        };
        login(&mut self.state, &stored, client, password, times)
    }

    fn change(
        &mut self,
        client: ClientAddr,
        cookie: Option<&str>,
        current: &str,
        new: &str,
    ) -> Result<(), AuthFailure> {
        let stored = self.read();
        let write = change_password(&mut self.state, &stored, client, current, new)?;
        let saved = self.save(&write.password_hash);
        finish_change_password(&mut self.state, write, &saved, cookie)
    }

    fn set_locally(&mut self, password: &str) -> Result<(), AuthFailure> {
        let write = set_password_locally(password, PasswordOrigin::LocalCli)?;
        let saved = self.save(&write.password_hash);
        finish_set_password_locally(&mut self.state, write, &saved)
    }

    fn reset(&mut self) -> Result<bool, AuthFailure> {
        let cleared = if self.broken {
            Err("disk".to_string())
        } else {
            Ok(self.row.take().is_some())
        };
        reset_password(&mut self.state, &cleared)
    }

    fn authorize(&mut self, cookie: Option<&str>) -> AuthOutcome {
        let stored = self.read();
        authorize(&mut self.state, &stored, cookie, self.now)
    }

    fn has_event(&self, event_type: SecurityEventType) -> bool {
        self.state
            .events
            .iter()
            .any(|event| event.event_type == event_type)
    }
}

fn client() -> ClientAddr {
    ClientAddr::V4(192, 168, 1, 20)
}

fn cookie_of(token: &str) -> String {
    format!("{SESSION_COOKIE}={token}")
}

#[test]
fn rejects_everything_until_password_is_configured() {
    let mut service = Service::new();
    assert_eq!(
        service.authorize(None),
        AuthOutcome::Rejected(AuthFailure::SetupRequired)
    );
    assert_eq!(
        service.login(client(), "whatever-long"),
        Err(AuthFailure::SetupRequired)
    );
}

#[test]
fn setup_then_login_then_logout_round_trip() {
    let mut service = Service::new();
    let token = service
        .setup(client(), "correct-horse")
        .expect("首次设置应成功");
    let cookie = cookie_of(&token);
    assert_eq!(service.authorize(Some(&cookie)), AuthOutcome::Authorized);

    assert_eq!(
        service.setup(client(), "another-password"),
        Err(AuthFailure::AlreadyConfigured)
    );

    logout(&mut service.state, Some(&cookie));
    assert_eq!(
        service.authorize(Some(&cookie)),
        AuthOutcome::Rejected(AuthFailure::Unauthenticated)
    );

    let second = service.login(client(), "correct-horse").expect("登录应成功");
    assert_eq!(
        service.authorize(Some(&cookie_of(&second))),
        AuthOutcome::Authorized
    );
}

#[test]
fn concurrent_first_setup_has_exactly_one_winner() {
    let mut service = Service::new();
    let stored = service.read();
    let first = setup_password(&mut service.state, &stored, client(), "first-password")
        .expect("第一个请求应能开始");
    let second = setup_password(&mut service.state, &stored, client(), "second-password")
        .expect("第二个请求应能开始");

    let created = service.create(&second.password_hash);
    let reread = service.read();
    let now = service.now;
    assert!(finish_setup(&mut service.state, second, &created, &reread, now).is_ok());

    let created = service.create(&first.password_hash);
    assert_eq!(created, Ok(None));
    let reread = service.read();
    assert_eq!(
        finish_setup(&mut service.state, first, &created, &reread, now),
        Err(AuthFailure::AlreadyConfigured)
    );

    service
        .login(client(), "second-password")
        .expect("最终保存的密码应属于唯一胜者");
    assert_eq!(
        service.login(client(), "first-password"),
        Err(AuthFailure::InvalidPassword)
    );
}

#[test]
fn wrong_password_is_rejected_and_counted() {
    let mut service = Service::new();
    service
        .setup(client(), "correct-horse")
        .expect("首次设置应成功");
    invalidate_sessions(&mut service.state);
    for _ in 0..(LOCKOUT_AFTER_FAILURES - 1) {
        assert_eq!(
            service.login(client(), "wrong-password"),
            Err(AuthFailure::InvalidPassword)
        );
    }
    let failure = service
        .login(client(), "wrong-password")
        .expect_err("第 5 次应触发锁定");
    assert_eq!(
        failure,
        AuthFailure::Locked {
            retry_after_seconds: 15
        }
    );
    assert!(matches!(
        service.login(client(), "correct-horse"),
        Err(AuthFailure::Locked { .. })
    ));
    assert!(service.has_event(SecurityEventType::WebAuthFailed));
    assert!(service.has_event(SecurityEventType::WebAuthLocked));
}

#[test]
fn oversized_login_input_is_rejected_and_counted() {
    let mut service = Service::new();
    service
        .setup(client(), "correct-horse")
        .expect("首次设置应成功");
    assert_eq!(
        service.login(client(), &"x".repeat(MAX_PASSWORD_BYTES + 1)),
        Err(AuthFailure::InvalidPassword)
    );
    assert!(service.has_event(SecurityEventType::WebAuthFailed));
    assert_eq!(service.state.web_auth.rate_limit.clients.len(), 1);
}

#[test]
fn successful_login_clears_failure_counter() {
    let mut service = Service::new();
    service
        .setup(client(), "correct-horse")
        .expect("首次设置应成功");
    for _ in 0..(LOCKOUT_AFTER_FAILURES - 1) {
        let _ = service.login(client(), "wrong-password");
    }
    service.login(client(), "correct-horse").expect("登录应成功");
    for _ in 0..(LOCKOUT_AFTER_FAILURES - 1) {
        assert_eq!(
            service.login(client(), "wrong-password"),
            Err(AuthFailure::InvalidPassword)
        );
    }
}

#[test]
fn idle_and_absolute_timeouts_expire_sessions() {
    let mut service = Service::new();
    let token = service
        .setup(client(), "correct-horse")
        .expect("首次设置应成功");
    let key = token_key(&token);
    let idle = 600;
    let now = 100_000 * SECOND;

    let mut sessions = vec![SessionEntry {
        key,
        created_at: now,
        last_seen_at: now - idle * SECOND - SECOND,
    }];
    prune_sessions(&mut sessions, idle, now);
    assert!(sessions.is_empty(), "空闲超时应清掉会话");

    let mut sessions = vec![SessionEntry {
        key,
        created_at: now - SESSION_ABSOLUTE_LIFETIME_SECONDS * SECOND - SECOND,
        last_seen_at: now,
    }];
    prune_sessions(&mut sessions, idle, now);
    assert!(sessions.is_empty(), "绝对上限应清掉会话");

    let mut sessions = vec![SessionEntry {
        key,
        created_at: now - SESSION_ABSOLUTE_LIFETIME_SECONDS * SECOND,
        last_seen_at: now - idle * SECOND,
    }];
    prune_sessions(&mut sessions, idle, now);
    assert_eq!(sessions.len(), 1);
}

#[test]
fn concurrent_sessions_are_capped() {
    let mut service = Service::new();
    service
        .setup(client(), "correct-horse")
        .expect("首次设置应成功");
    let mut tokens = Vec::new();
    for _ in 0..(MAX_SESSIONS + 4) {
        tokens.push(service.login(client(), "correct-horse").expect("登录应成功"));
    }
    let idle = idle_timeout(&service.state);
    let now = service.now;
    assert_eq!(
        active_session_count(&mut service.state.web_auth.sessions, idle, now),
        MAX_SESSIONS
    );
    assert_eq!(
        service.authorize(Some(&cookie_of(&tokens[0]))),
        AuthOutcome::Rejected(AuthFailure::Unauthenticated),
        "最旧的会话应已被淘汰"
    );
    let newest = tokens.last().expect("应有会话");
    assert_eq!(
        service.authorize(Some(&cookie_of(newest))),
        AuthOutcome::Authorized
    );
}

#[test]
fn changing_password_keeps_only_the_current_session() {
    let mut service = Service::new();
    let first = service
        .setup(client(), "correct-horse")
        .expect("首次设置应成功");
    let second = service
        .login(client(), "correct-horse")
        .expect("第二个会话应能登录");
    let second_cookie = cookie_of(&second);
    service
        .change(
            client(),
            Some(&second_cookie),
            "correct-horse",
            "battery-staple",
        )
        .expect("修改密码应成功");
    assert_eq!(
        service.authorize(Some(&second_cookie)),
        AuthOutcome::Authorized
    );
    assert_eq!(
        service.authorize(Some(&cookie_of(&first))),
        AuthOutcome::Rejected(AuthFailure::Unauthenticated)
    );
    assert_eq!(
        service.login(client(), "correct-horse"),
        Err(AuthFailure::InvalidPassword)
    );
    service
        .login(client(), "battery-staple")
        .expect("新密码应能登录");
}

#[test]
fn change_password_requires_the_current_one() {
    let mut service = Service::new();
    let token = service
        .setup(client(), "correct-horse")
        .expect("首次设置应成功");
    let cookie = cookie_of(&token);
    assert_eq!(
        service.change(client(), Some(&cookie), "wrong", "battery-staple"),
        Err(AuthFailure::InvalidPassword)
    );
    service
        .login(client(), "correct-horse")
        .expect("旧密码仍然有效");
}

#[test]
fn reset_clears_password_and_sessions() {
    let mut service = Service::new();
    let token = service
        .setup(client(), "correct-horse")
        .expect("首次设置应成功");
    assert!(service.reset().expect("重置应成功"));
    assert_eq!(
        service.authorize(Some(&cookie_of(&token))),
        AuthOutcome::Rejected(AuthFailure::SetupRequired)
    );
    assert!(!service.reset().expect("重复重置应成功但无变化"));
    service
        .setup(client(), "battery-staple")
        .expect("重置后应能再次设置");
}

#[test]
fn short_or_control_character_passwords_are_rejected() {
    let mut service = Service::new();
    assert!(matches!(
        service.setup(client(), "short"),
        Err(AuthFailure::Invalid(_))
    ));
    assert!(matches!(
        service.setup(client(), "with\nnewline"),
        Err(AuthFailure::Invalid(_))
    ));
    assert!(matches!(
        service.setup(client(), &"x".repeat(MAX_PASSWORD_BYTES + 1)),
        Err(AuthFailure::Invalid(_))
    ));
    service
        .setup(client(), "密码密码密码密码")
        .expect("多字节密码应通过");
}

#[test]
fn stored_hash_is_argon2id_and_never_the_plaintext() {
    let phc = hash_password("correct-horse").expect("应能计算哈希");
    assert!(phc.starts_with("$argon2id$v=19$"));
    assert!(!phc.contains("correct-horse"));
    assert!(verify_password(&phc, "correct-horse").expect("校验应成功"));
    assert!(!verify_password(&phc, "correct-horsf").expect("校验应成功"));
    let other = hash_password("correct-horse").expect("应能计算哈希");
    assert_ne!(phc, other);
}

#[test]
fn password_file_trims_only_trailing_newlines() {
    let facts = Ok(FileFacts {
        is_file: true,
        len: 17,
    });
    assert_eq!(
        read_password_file(&facts, &Ok(" correct horse \r\n".to_string())).expect("应能读取"),
        " correct horse "
    );
}

#[test]
fn password_file_errors_are_returned_without_configuring_a_password() {
    let mut service = Service::new();
    let stored = service.read();
    let path = "/run/secrets/missing";
    assert_eq!(
        apply_password_file(&mut service.state, &stored, path),
        Ok(FileDecision::Read)
    );
    let facts = Err("No such file".to_string());
    let read = read_password_file(&facts, &Err("unread".to_string()));
    let error = create_from_file(&mut service.state, &stored, path, read)
        .expect_err("不存在的密码文件应返回错误");
    assert!(error.contains("读取 --admin-password-file 失败"));
    assert_eq!(
        error,
        "读取 --admin-password-file 失败（/run/secrets/missing）：无法读取文件信息：No such file"
    );
    let now = service.now;
    assert!(
        !status(&mut service.state, &stored, now)
            .expect("应能读取认证状态")
            .configured
    );
}

// ---------------------------------------------------------------------------
// Failures and their words
// ---------------------------------------------------------------------------

#[test]
fn failures_have_codes_and_messages() {
    let cases = [
        (
            AuthFailure::SetupRequired,
            "setup_required",
            "尚未设置 Web 管理密码，请先访问管理页面完成首次设置",
        ),
        (
            AuthFailure::AlreadyConfigured,
            "already_configured",
            "已设置过 Web 管理密码，请直接登录",
        ),
        (
            AuthFailure::Unauthenticated,
            "unauthenticated",
            "请先登录 Web 管理后台",
        ),
        (AuthFailure::InvalidPassword, "invalid_password", "密码错误"),
        (
            AuthFailure::Locked {
                retry_after_seconds: 120,
            },
            "locked",
            "登录失败次数过多，请在 120 秒后重试",
        ),
        (
            AuthFailure::Invalid("太短".to_string()),
            "invalid_request",
            "太短",
        ),
        (
            AuthFailure::Internal("磁盘".to_string()),
            "internal_error",
            "磁盘",
        ),
    ];
    for (failure, code, message) in cases {
        assert_eq!(failure.code(), code);
        assert_eq!(failure.message(), message);
    }
}

#[test]
fn password_problems_are_worded() {
    assert_eq!(
        validate_password("1234567"),
        Err(AuthFailure::Invalid("管理密码至少需要 8 个字符".to_string()))
    );
    assert_eq!(validate_password("12345678"), Ok(()));
    assert_eq!(validate_password(&"x".repeat(128)), Ok(()));
    assert_eq!(
        validate_password(&"x".repeat(129)),
        Err(AuthFailure::Invalid("管理密码不能超过 128 字节".to_string()))
    );
    assert_eq!(
        validate_password("tab\tinside"),
        Err(AuthFailure::Invalid("管理密码不能包含控制字符".to_string()))
    );
    assert_eq!(
        validate_password(&"密".repeat(43)),
        Err(AuthFailure::Invalid("管理密码不能超过 128 字节".to_string()))
    );
}

#[test]
fn origins_have_reasons_and_clients() {
    let here = Some(ClientAddr::V4(127, 0, 0, 1));
    assert_eq!(PasswordOrigin::WebSetup.reason(), "首次设置管理密码");
    assert_eq!(PasswordOrigin::WebChange.reason(), "通过 Web 修改管理密码");
    assert_eq!(
        PasswordOrigin::LocalCli.reason(),
        "通过本机 CLI 设置管理密码"
    );
    assert_eq!(
        PasswordOrigin::LocalReset.reason(),
        "通过本机 CLI 重置管理密码"
    );
    assert_eq!(
        PasswordOrigin::PasswordFile.reason(),
        "通过 --admin-password-file 设置管理密码"
    );
    assert_eq!(PasswordOrigin::WebSetup.client_ip(), None);
    assert_eq!(PasswordOrigin::WebChange.client_ip(), None);
    assert_eq!(PasswordOrigin::LocalCli.client_ip(), here);
    assert_eq!(PasswordOrigin::LocalReset.client_ip(), here);
    assert_eq!(PasswordOrigin::PasswordFile.client_ip(), here);
}

// ---------------------------------------------------------------------------
// Hashing
// ---------------------------------------------------------------------------

#[test]
fn a_salted_hash_is_a_function_of_its_arguments() {
    let first = hash_with_salt("correct-horse", [7; 16]).expect("应能计算哈希");
    let again = hash_with_salt("correct-horse", [7; 16]).expect("应能计算哈希");
    let other_salt = hash_with_salt("correct-horse", [8; 16]).expect("应能计算哈希");
    let other_password = hash_with_salt("correct-horsf", [7; 16]).expect("应能计算哈希");
    assert_eq!(first, again);
    assert_ne!(first, other_salt);
    assert_ne!(first, other_password);
    assert!(first.starts_with("$argon2id$v=19$m=19456,t=2,p=1$"));
}

#[test]
fn hashes_with_other_costs_are_still_checked() {
    let params = Params::new(64, 1, 1, None).expect("参数应合法");
    let cheap = Argon2::new(Algorithm::Argon2id, Version::V0x13, params)
        .hash_password_with_salt(b"correct-horse", &[7; 16])
        .expect("应能计算哈希")
        .to_string();
    assert!(cheap.starts_with("$argon2id$v=19$m=64,t=1,p=1$"));
    assert_eq!(verify_password(&cheap, "correct-horse"), Ok(true));
    assert_eq!(verify_password(&cheap, "correct-horsf"), Ok(false));
}

#[test]
fn a_damaged_hash_is_an_error() {
    let error = verify_password("not a hash", "correct-horse").expect_err("应报错");
    assert!(error.starts_with("解析已存密码哈希失败："));
    let error = verify_password("$unknown$v=19$m=8,t=1,p=1$AAAAAAAAAAAAAAAAAAAAAA$AAAAAAAAAAAAAAAAAAAAAA", "x")
        .expect_err("应报错");
    assert!(error.starts_with("校验管理密码失败："), "{error}");
}

#[test]
fn failures_of_the_outside_calls_are_worded() {
    assert_eq!(
        hash_with_drawn("correct-horse", Err("no entropy".to_string())),
        Err("生成密码盐失败：no entropy".to_string())
    );
    assert_eq!(
        hash_of_computation(Err("out of memory".to_string())),
        Err("计算密码哈希失败：out of memory".to_string())
    );
    assert_eq!(hash_of_computation(Ok("$x".to_string())), Ok("$x".to_string()));
    assert_eq!(
        verdict_of_check(Err("out of memory".to_string())),
        Err("校验管理密码失败：out of memory".to_string())
    );
    assert_eq!(fault_message("x"), "解析已存密码哈希失败：x");
    assert_eq!(verdict_of_check(Ok(true)), Ok(true));
    assert_eq!(verdict_of_check(Ok(false)), Ok(false));
}

// ---------------------------------------------------------------------------
// Sessions
// ---------------------------------------------------------------------------

#[test]
fn token_keys_are_sha256() {
    let expected: [u8; 32] = [
        0xba, 0x78, 0x16, 0xbf, 0x8f, 0x01, 0xcf, 0xea, 0x41, 0x41, 0x40, 0xde, 0x5d, 0xae, 0x22,
        0x23, 0xb0, 0x03, 0x61, 0xa3, 0x96, 0x17, 0x7a, 0x9c, 0xb4, 0x10, 0xff, 0x61, 0xf2, 0x00,
        0x15, 0xad,
    ];
    assert_eq!(token_key("abc"), expected);
    assert!(constant_time_eq(&token_key("abc"), &expected));
    assert!(!constant_time_eq(&token_key("abd"), &expected));
}

#[test]
fn tokens_are_64_lower_case_hexadecimal_digits() {
    let mut service = Service::new();
    let first = service
        .setup(client(), "correct-horse")
        .expect("首次设置应成功");
    let second = service.login(client(), "correct-horse").expect("登录应成功");
    assert_eq!(first.len(), 64);
    assert!(first
        .chars()
        .all(|c| c.is_ascii_digit() || ('a'..='f').contains(&c)));
    assert_ne!(first, second);
    assert_eq!(service.state.web_auth.sessions[0].key, token_key(&first));
}

#[test]
fn a_given_draw_gives_its_token() {
    let mut service = Service::new();
    service
        .setup(client(), "correct-horse")
        .expect("首次设置应成功");
    let mut raw = [0u8; 32];
    raw[0] = 0x0f;
    raw[31] = 0xa0;
    let now = service.now;
    let token = finish_login(&mut service.state, client(), Ok(raw), now).expect("应发出会话");
    assert_eq!(token, format!("0f{}a0", "00".repeat(30)));
    assert_eq!(
        finish_login(&mut service.state, client(), Err("no entropy".to_string()), now),
        Err(AuthFailure::Internal(
            "生成会话 token 失败：no entropy".to_string()
        ))
    );
}

#[test]
fn activity_renews_the_idle_time_but_not_the_lifetime() {
    let mut service = Service::new();
    let token = service
        .setup(client(), "correct-horse")
        .expect("首次设置应成功");
    let cookie = cookie_of(&token);
    // Every 50 minutes, for less than twelve hours.
    for step in 1..=14u64 {
        service.now = START + step * 3_000 * SECOND;
        assert_eq!(service.authorize(Some(&cookie)), AuthOutcome::Authorized);
    }
    service.now = START + 43_201 * SECOND;
    assert_eq!(
        service.authorize(Some(&cookie)),
        AuthOutcome::Rejected(AuthFailure::Unauthenticated)
    );
}

#[test]
fn an_idle_session_ends() {
    let mut service = Service::new();
    let token = service
        .setup(client(), "correct-horse")
        .expect("首次设置应成功");
    let cookie = cookie_of(&token);
    service.now = START + 3_600 * SECOND;
    assert_eq!(service.authorize(Some(&cookie)), AuthOutcome::Authorized);
    service.now = START + 7_200 * SECOND + 1;
    assert_eq!(
        service.authorize(Some(&cookie)),
        AuthOutcome::Rejected(AuthFailure::Unauthenticated)
    );
}

#[test]
fn logging_out_spares_other_sessions() {
    let mut service = Service::new();
    let first = service
        .setup(client(), "correct-horse")
        .expect("首次设置应成功");
    let second = service.login(client(), "correct-horse").expect("登录应成功");
    logout(&mut service.state, Some(&cookie_of(&first)));
    assert_eq!(
        service.authorize(Some(&cookie_of(&second))),
        AuthOutcome::Authorized
    );
    logout(&mut service.state, None);
    assert_eq!(service.state.web_auth.sessions.len(), 1);
}

#[test]
fn the_configuration_sets_idle_time_and_secure_switch() {
    let state = AppState::new(None);
    assert_eq!(idle_timeout(&state), 3_600);
    assert!(!secure_cookie_enabled(&state));
    let state = AppState::new(Some(AppConfig {
        web_admin_session_idle_minutes: 5,
        web_admin_secure_cookie: true,
    }));
    assert_eq!(idle_timeout(&state), 300);
    assert!(secure_cookie_enabled(&state));
}

// ---------------------------------------------------------------------------
// Steps with given outside results
// ---------------------------------------------------------------------------

#[test]
fn a_login_in_steps() {
    let mut service = Service::new();
    service
        .setup(client(), "correct-horse")
        .expect("首次设置应成功");
    let stored = service.read();
    let now = service.now;
    let hash = begin_login(&mut service.state, &stored, client(), now).expect("应取得哈希");
    assert_eq!(check_offered(&hash, "correct-horse"), Ok(true));
    assert_eq!(check_offered(&hash, "wrong-password"), Ok(false));
    assert_eq!(check_offered("not a hash", "bell\u{7}"), Ok(false));
    assert!(check_offered("not a hash", "correct-horse").is_err());
    assert_eq!(Some(hash), service.row.as_ref().map(|row| row.password_hash.clone()));
    assert_eq!(
        settle_login(&mut service.state, client(), Ok(false), now),
        Err(AuthFailure::InvalidPassword)
    );
    assert_eq!(
        settle_login(&mut service.state, client(), Err("坏".to_string()), now),
        Err(AuthFailure::Internal("坏".to_string()))
    );
    assert_eq!(
        settle_login(&mut service.state, client(), Ok(true), now),
        Ok(())
    );
    assert!(service.state.web_auth.rate_limit.clients.is_empty());
}

#[test]
fn each_step_of_a_login_has_its_moment() {
    let mut service = Service::new();
    service
        .setup(client(), "correct-horse")
        .expect("首次设置应成功");
    let stored = service.read();
    let times = LoginTimes {
        checked: START,
        settled: START + SECOND,
        issued: START + 2 * SECOND,
    };
    login(&mut service.state, &stored, client(), "correct-horse", times).expect("登录应成功");
    let newest = service.state.web_auth.sessions.last().expect("应有会话");
    assert_eq!(newest.created_at, START + 2 * SECOND);
    for _ in 0..5 {
        let _ = login(&mut service.state, &stored, client(), "wrong-password", times);
    }
    let record = service.state.web_auth.rate_limit.clients[0].1;
    assert_eq!(record.last_failure_at, START + SECOND);
    assert_eq!(record.locked_until, Some(START + 16 * SECOND));
    // The lockout is judged by the first moment.
    let late = LoginTimes {
        checked: START + 16 * SECOND,
        settled: START + 16 * SECOND,
        issued: START + 16 * SECOND,
    };
    login(&mut service.state, &stored, client(), "correct-horse", late).expect("登录应成功");
}

#[test]
fn completing_a_login_opens_a_session_and_records_it() {
    let mut service = Service::new();
    service
        .setup(client(), "correct-horse")
        .expect("首次设置应成功");
    let now = service.now;
    let token = complete_login(&mut service.state, client(), now).expect("应发出会话");
    assert_eq!(
        service.authorize(Some(&cookie_of(&token))),
        AuthOutcome::Authorized
    );
    assert!(service.has_event(SecurityEventType::WebAuthLogin));
}

#[test]
fn a_login_event_follows_success() {
    let mut service = Service::new();
    service
        .setup(client(), "correct-horse")
        .expect("首次设置应成功");
    service.login(client(), "correct-horse").expect("登录应成功");
    let reasons: Vec<&str> = service
        .state
        .events
        .iter()
        .map(|event| event.reason.as_str())
        .collect();
    assert_eq!(reasons, ["首次设置管理密码", "Web 管理登录成功"]);
    assert!(service.state.events.iter().all(|event| event.client == client()));
}

#[test]
fn a_lockout_is_recorded_with_its_length() {
    let mut service = Service::new();
    service
        .setup(client(), "correct-horse")
        .expect("首次设置应成功");
    let now = service.now;
    for _ in 0..5 {
        let _ = settle_login(&mut service.state, client(), Ok(false), now);
    }
    let last = service.state.events.last().expect("应有事件");
    assert_eq!(last.event_type, SecurityEventType::WebAuthLocked);
    assert_eq!(last.reason, "Web 管理登录连续失败，已锁定 15 秒");
    let failed = service
        .state
        .events
        .iter()
        .filter(|event| event.reason == "Web 管理登录密码错误")
        .count();
    assert_eq!(failed, 5);
}

#[test]
fn a_change_with_given_verdicts() {
    let mut service = Service::new();
    service
        .setup(client(), "correct-horse")
        .expect("首次设置应成功");
    assert_eq!(
        settle_change(&mut service.state, client(), "$new".to_string(), Err("坏".to_string())).err(),
        Some(AuthFailure::Internal("坏".to_string()))
    );
    assert_eq!(
        settle_change(&mut service.state, client(), "$new".to_string(), Ok(false)).err(),
        Some(AuthFailure::InvalidPassword)
    );
    assert_eq!(
        service.state.events.last().map(|event| event.reason.clone()),
        Some("修改 Web 管理密码时当前密码错误".to_string())
    );
    assert!(service.state.web_auth.rate_limit.clients.is_empty());
    let write = settle_change(&mut service.state, client(), "$new".to_string(), Ok(true))
        .expect("应得到写入");
    assert_eq!(write.password_hash, "$new");
    assert_eq!(write.client, Some(client()));
}

#[test]
fn a_change_with_a_given_hash() {
    let mut service = Service::new();
    service
        .setup(client(), "correct-horse")
        .expect("首次设置应成功");
    let stored = service.read();
    let failed = change_to_hash(
        &mut service.state,
        &stored,
        client(),
        "correct-horse",
        Err("坏".to_string()),
    );
    assert_eq!(failed.err(), Some(AuthFailure::Internal("坏".to_string())));
    let wrong = change_to_hash(
        &mut service.state,
        &stored,
        client(),
        "wrong-password",
        Ok("$new".to_string()),
    );
    assert_eq!(wrong.err(), Some(AuthFailure::InvalidPassword));
    let write = change_to_hash(
        &mut service.state,
        &stored,
        client(),
        "correct-horse",
        Ok("$new".to_string()),
    )
    .expect("应得到写入");
    assert_eq!(write.password_hash, "$new");
}

#[test]
fn two_changes_do_not_both_pass_on_the_old_password() {
    let mut service = Service::new();
    service
        .setup(client(), "correct-horse")
        .expect("首次设置应成功");
    service
        .change(client(), None, "correct-horse", "battery-staple")
        .expect("修改密码应成功");
    assert_eq!(
        service.change(client(), None, "correct-horse", "another-password"),
        Err(AuthFailure::InvalidPassword)
    );
    service
        .login(client(), "battery-staple")
        .expect("第一次修改的密码应有效");
}

#[test]
fn sessions_stand_in_the_order_of_their_opening() {
    let mut service = Service::new();
    service
        .setup(client(), "correct-horse")
        .expect("首次设置应成功");
    for step in 1..=20u64 {
        service.now = START + step * SECOND;
        service.login(client(), "correct-horse").expect("登录应成功");
    }
    let opened: Vec<u64> = service
        .state
        .web_auth
        .sessions
        .iter()
        .map(|session| session.created_at)
        .collect();
    let expected: Vec<u64> = (5..=20u64).map(|step| START + step * SECOND).collect();
    assert_eq!(opened, expected);
}

#[test]
fn a_change_without_a_cookie_ends_every_session() {
    let mut service = Service::new();
    let token = service
        .setup(client(), "correct-horse")
        .expect("首次设置应成功");
    service
        .change(client(), None, "correct-horse", "battery-staple")
        .expect("修改密码应成功");
    assert_eq!(
        service.authorize(Some(&cookie_of(&token))),
        AuthOutcome::Rejected(AuthFailure::Unauthenticated)
    );
}

#[test]
fn a_change_needs_a_password_to_change() {
    let mut service = Service::new();
    assert_eq!(
        service.change(client(), None, "correct-horse", "battery-staple"),
        Err(AuthFailure::SetupRequired)
    );
    assert_eq!(
        service.change(client(), None, "correct-horse", "short"),
        Err(AuthFailure::Invalid("管理密码至少需要 8 个字符".to_string()))
    );
}

#[test]
fn a_table_that_cannot_be_read_is_an_internal_error() {
    let mut service = Service::new();
    service.broken = true;
    let internal = AuthFailure::Internal("disk".to_string());
    assert_eq!(
        service.authorize(None),
        AuthOutcome::Rejected(internal.clone())
    );
    assert_eq!(
        service.login(client(), "correct-horse"),
        Err(internal.clone())
    );
    assert_eq!(
        service.setup(client(), "correct-horse"),
        Err(internal.clone())
    );
    assert_eq!(
        service.change(client(), None, "correct-horse", "battery-staple"),
        Err(internal.clone())
    );
    assert_eq!(service.set_locally("correct-horse"), Err(internal.clone()));
    assert_eq!(service.reset(), Err(internal.clone()));
    let stored = service.read();
    let now = service.now;
    assert_eq!(
        status(&mut service.state, &stored, now).err(),
        Some(internal)
    );
    // Once the table can be read again, all is as if nothing had happened.
    service.broken = false;
    assert!(service.setup(client(), "correct-horse").is_ok());
}

#[test]
fn a_failed_write_changes_nothing() {
    let mut service = Service::new();
    let token = service
        .setup(client(), "correct-horse")
        .expect("首次设置应成功");
    service.broken = true;
    assert_eq!(
        service.change(client(), None, "correct-horse", "battery-staple"),
        Err(AuthFailure::Internal("disk".to_string()))
    );
    assert_eq!(
        service.set_locally("battery-staple"),
        Err(AuthFailure::Internal("disk".to_string()))
    );
    assert_eq!(
        service.authorize(Some(&cookie_of(&token))),
        AuthOutcome::Authorized
    );
    service.login(client(), "correct-horse").expect("旧密码仍然有效");
}

#[test]
fn a_hash_that_failed_is_an_internal_error() {
    let mut service = Service::new();
    let stored = service.read();
    assert_eq!(
        begin_initial_password(
            &mut service.state,
            &stored,
            Err("计算密码哈希失败：out of memory".to_string()),
            PasswordOrigin::WebSetup,
            Some(client()),
        )
        .err(),
        Some(AuthFailure::Internal(
            "计算密码哈希失败：out of memory".to_string()
        ))
    );
}

#[test]
fn a_local_password_ends_every_session() {
    let mut service = Service::new();
    let token = service
        .setup(client(), "correct-horse")
        .expect("首次设置应成功");
    service.set_locally("battery-staple").expect("应能设置");
    assert_eq!(
        service.authorize(Some(&cookie_of(&token))),
        AuthOutcome::Rejected(AuthFailure::Unauthenticated)
    );
    let event = service.state.events.last().expect("应有事件");
    assert_eq!(event.client, ClientAddr::V4(127, 0, 0, 1));
    assert_eq!(event.reason, "通过本机 CLI 设置管理密码");
    service
        .login(client(), "battery-staple")
        .expect("新密码应能登录");
}

#[test]
fn a_reset_is_recorded_only_where_there_was_a_password() {
    let mut service = Service::new();
    assert_eq!(service.reset(), Ok(false));
    assert!(service.state.events.is_empty());
    service
        .setup(client(), "correct-horse")
        .expect("首次设置应成功");
    assert_eq!(service.reset(), Ok(true));
    assert_eq!(
        service.state.events.last().map(|event| event.reason.clone()),
        Some("通过本机 CLI 重置管理密码".to_string())
    );
}

#[test]
fn the_status_tells_password_moment_and_sessions() {
    let mut service = Service::new();
    let stored = service.read();
    let now = service.now;
    let before = status(&mut service.state, &stored, now).expect("应能读取");
    assert!(!before.configured);
    assert_eq!(before.updated_at, None);
    assert_eq!(before.active_sessions, 0);
    service
        .setup(client(), "correct-horse")
        .expect("首次设置应成功");
    service.login(client(), "correct-horse").expect("登录应成功");
    let stored = service.read();
    let after = status(&mut service.state, &stored, now).expect("应能读取");
    assert!(after.configured);
    assert_eq!(after.updated_at, Some(77));
    assert_eq!(after.active_sessions, 2);
    let idle = status(&mut service.state, &stored, now + 3_601 * SECOND).expect("应能读取");
    assert_eq!(idle.active_sessions, 0);
}

#[test]
fn the_stored_password_survives_a_restart_and_sessions_do_not() {
    let mut service = Service::new();
    let token = service
        .setup(client(), "correct-horse")
        .expect("首次设置应成功");
    service.state = AppState::new(service.state.config);
    assert_eq!(
        service.authorize(Some(&cookie_of(&token))),
        AuthOutcome::Rejected(AuthFailure::Unauthenticated)
    );
    service.login(client(), "correct-horse").expect("登录应成功");
}

// ---------------------------------------------------------------------------
// The password file and the start
// ---------------------------------------------------------------------------

#[test]
fn a_password_file_sets_the_first_password() {
    let mut service = Service::new();
    let path = "/run/secrets/admin";
    let stored = service.read();
    assert_eq!(
        apply_password_file(&mut service.state, &stored, path),
        Ok(FileDecision::Read)
    );
    let facts = Ok(FileFacts {
        is_file: true,
        len: 14,
    });
    let read = read_password_file(&facts, &Ok("correct-horse\n".to_string()));
    let step = create_from_file(&mut service.state, &stored, path, read).expect("应可用");
    let write = match step {
        FileStep::Insert(write) => write,
        FileStep::Ignore(line) => panic!("{line}"),
    };
    let created = service.create(&write.password_hash);
    let reread = service.read();
    assert_eq!(
        finish_password_file(&mut service.state, path, write, &created, &reread),
        Ok("已从 /run/secrets/admin 设置 Web 管理密码".to_string())
    );
    let event = service.state.events.last().expect("应有事件");
    assert_eq!(event.reason, "通过 --admin-password-file 设置管理密码");
    assert_eq!(event.client, ClientAddr::V4(127, 0, 0, 1));
    service.login(client(), "correct-horse").expect("登录应成功");

    let stored = service.read();
    assert_eq!(
        apply_password_file(&mut service.state, &stored, path),
        Ok(FileDecision::Ignore(
            "已存在 Web 管理密码，忽略 --admin-password-file：/run/secrets/admin".to_string()
        ))
    );
    let late = create_from_file(
        &mut service.state,
        &stored,
        path,
        Ok("another-password".to_string()),
    )
    .expect("已有密码时应忽略");
    assert!(matches!(late, FileStep::Ignore(_)));
}

#[test]
fn a_password_file_that_loses_the_race_is_ignored() {
    let mut service = Service::new();
    let stored = service.read();
    let step = create_from_file(
        &mut service.state,
        &stored,
        "/f",
        Ok("correct-horse".to_string()),
    )
    .expect("应可用");
    let write = match step {
        FileStep::Insert(write) => write,
        FileStep::Ignore(line) => panic!("{line}"),
    };
    let other = hash_with_salt("other-password", [1; 16]).expect("应能计算哈希");
    service.row = Some(StoredCredential {
        password_hash: other,
        updated_at: 5,
    });
    let reread = service.read();
    assert_eq!(
        finish_password_file(&mut service.state, "/f", write, &Ok(None), &reread),
        Ok("已存在 Web 管理密码，忽略 --admin-password-file：/f".to_string())
    );
    service.login(client(), "other-password").expect("登录应成功");
}

#[test]
fn an_unfit_password_file_is_an_error() {
    let mut service = Service::new();
    let stored = service.read();
    assert_eq!(
        create_from_file(&mut service.state, &stored, "/f", Ok(String::new())).err(),
        Some("--admin-password-file 内容不可用（/f）：管理密码至少需要 8 个字符".to_string())
    );
    service.broken = true;
    let stored = service.read();
    assert_eq!(
        apply_password_file(&mut service.state, &stored, "/f"),
        Err("读取 Web 管理凭据失败：disk".to_string())
    );
}

#[test]
fn password_files_are_checked_before_they_are_read() {
    let unread = Err("stream did not contain valid UTF-8".to_string());
    assert_eq!(
        read_password_file(&Err("denied".to_string()), &unread),
        Err("无法读取文件信息：denied".to_string())
    );
    let directory = Ok(FileFacts {
        is_file: false,
        len: 1,
    });
    assert_eq!(
        check_password_file(&directory),
        Err("密码文件必须指向普通文件".to_string())
    );
    let large = Ok(FileFacts {
        is_file: true,
        len: MAX_PASSWORD_FILE_BYTES + 1,
    });
    assert_eq!(
        check_password_file(&large),
        Err("密码文件超过 4096 字节，已拒绝读取".to_string())
    );
    let fit = Ok(FileFacts {
        is_file: true,
        len: MAX_PASSWORD_FILE_BYTES,
    });
    assert_eq!(check_password_file(&fit), Ok(()));
    assert_eq!(
        read_password_file(&fit, &unread),
        Err("密码文件必须是 UTF-8 文本：stream did not contain valid UTF-8".to_string())
    );
    assert_eq!(
        read_password_file(&fit, &Ok("a\nb\r\n\n".to_string())),
        Ok("a\nb".to_string())
    );
}

#[test]
fn the_start_is_announced() {
    let mut service = Service::new();
    let stored = service.read();
    let lines = log_startup_state(&mut service.state, &stored, "0.0.0.0:3000");
    assert_eq!(lines.len(), 6);
    assert_eq!(lines[0], "=".repeat(56));
    assert_eq!(lines[1], "尚未设置 Web 管理密码。");
    assert_eq!(
        lines[2],
        "请立即访问 http://0.0.0.0:3000 完成设置：在此之前除首次设置页外"
    );
    assert_eq!(lines[5], lines[0]);
    service
        .setup(client(), "correct-horse")
        .expect("首次设置应成功");
    let stored = service.read();
    assert_eq!(
        log_startup_state(&mut service.state, &stored, "x"),
        ["Web 管理认证：已设置管理密码"]
    );
    let mut fresh = AppState::new(None);
    assert_eq!(
        log_startup_state(&mut fresh, &Err("disk".to_string()), "x"),
        ["[错误] 检查 Web 管理凭据失败：disk"]
    );
}
