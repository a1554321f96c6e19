use dnsblackhole::arguments::Argument;
use dnsblackhole::headless::{
    export_config, first_prompt, health_verdict, help_text, import_config, params_of_quoted,
    print_json, prompt_hidden, read_and_validate_config, read_password_from_stdin, reset_text,
    resume, run, set_password_step, status_text, web_auth_status_text, PasswordPrompt, PromptStep,
    ServeOptions, Step, Task, DEFAULT_DATA_DIR, NO_PARAMS, STATUS_PARAMS, SYSTEM_DNS_USAGE,
    WEB_AUTH_USAGE,
};

/// A command line: the program, then these arguments.
fn line(arguments: &[&str]) -> Vec<Argument> {
    let mut line = vec![Some("dnsblackhole-service".to_string())];
    line.extend(arguments.iter().map(|argument| Some(argument.to_string())));
    line
}

fn begin(arguments: &[&str]) -> Result<Step, String> {
    run(&line(arguments), true, "1.2.3")
}

fn begin_without_web(arguments: &[&str]) -> Result<Step, String> {
    run(&line(arguments), false, "1.2.3")
}

fn plain(method: &'static str, task: Task) -> Step {
    Step::Call {
        method,
        params: NO_PARAMS.to_string(),
        task,
    }
}

#[test]
fn serving_is_the_default() {
    let expected = Step::Serve(ServeOptions {
        data_dir: None,
        bootstrap_config: None,
        web_listen: Some("0.0.0.0:3000".to_string()),
        admin_password_file: None,
    });
    assert_eq!(run(&vec![], true, ""), Ok(expected.clone()));
    assert_eq!(begin(&[]), Ok(expected.clone()));
    assert_eq!(begin(&["serve"]), Ok(expected.clone()));
    assert_eq!(
        run(&vec![Some("program".to_string()), None], true, ""),
        Ok(expected)
    );
    assert_eq!(DEFAULT_DATA_DIR, "/var/lib/dnsblackhole");
}

#[test]
fn serve_takes_its_options() {
    assert_eq!(
        begin(&[
            "serve",
            "--data-dir",
            "/a",
            "--bootstrap-config",
            "/b",
            "--web-listen",
            "127.0.0.1:80",
            "--admin-password-file",
            "/c",
            "--data-dir",
            "/d",
        ]),
        Ok(Step::Serve(ServeOptions {
            data_dir: Some(11),
            bootstrap_config: Some(5),
            web_listen: Some("127.0.0.1:80".to_string()),
            admin_password_file: Some(9),
        }))
    );
    // A path need not be text.
    let mut arguments = line(&["serve", "--data-dir"]);
    arguments.push(None);
    assert!(matches!(
        run(&arguments, true, ""),
        Ok(Step::Serve(ServeOptions {
            data_dir: Some(3),
            ..
        }))
    ));
}

#[test]
fn serve_refuses_what_it_does_not_know() {
    let cases = [
        (vec!["serve", "--data-dir"], "--data-dir 缺少路径参数"),
        (
            vec!["serve", "--bootstrap-config"],
            "--bootstrap-config 缺少路径参数",
        ),
        (vec!["serve", "--web-listen"], "--web-listen 缺少地址参数"),
        (
            vec!["serve", "--admin-password-file"],
            "--admin-password-file 缺少路径参数",
        ),
        (vec!["serve", "--other"], "serve 不支持参数：--other"),
    ];
    for (arguments, error) in cases {
        assert_eq!(begin(&arguments), Err(error.to_string()));
    }
    let mut arguments = line(&["serve"]);
    arguments.push(None);
    assert_eq!(
        run(&arguments, true, ""),
        Err("serve 参数必须是有效文本".to_string())
    );
    let mut arguments = line(&["serve", "--web-listen"]);
    arguments.push(None);
    assert_eq!(
        run(&arguments, true, ""),
        Err("--web-listen 缺少地址参数".to_string())
    );
}

#[test]
fn without_the_web_interface_its_options_are_refused() {
    assert_eq!(
        begin_without_web(&["serve"]),
        Ok(Step::Serve(ServeOptions {
            data_dir: None,
            bootstrap_config: None,
            web_listen: None,
            admin_password_file: None,
        }))
    );
    let error = Err("当前构建未启用 web-admin feature".to_string());
    assert_eq!(
        begin_without_web(&["serve", "--web-listen", "x"]),
        error.clone()
    );
    assert_eq!(
        begin_without_web(&["serve", "--admin-password-file", "x"]),
        error
    );
    assert_eq!(
        begin_without_web(&["serve", "--web-listen"]),
        Err("--web-listen 缺少地址参数".to_string())
    );
    assert_eq!(
        begin_without_web(&["web-auth", "status"]),
        Err(format!("未知命令：web-auth\n\n{}", help_text(false)))
    );
}

#[test]
fn help_version_and_unknown_commands() {
    for name in ["--help", "-h", "help"] {
        assert_eq!(begin(&[name]), Ok(Step::Done(help_text(true).to_string())));
    }
    for name in ["--version", "-V"] {
        assert_eq!(
            begin(&[name]),
            Ok(Step::Done("dnsblackhole-service 1.2.3\n".to_string()))
        );
    }
    assert_eq!(
        begin(&["frobnicate"]),
        Err(format!("未知命令：frobnicate\n\n{}", help_text(true)))
    );
    assert!(help_text(true).starts_with("DnsBlackhole headless 服务与本机管理 CLI\n\n用法：\n  dnsblackhole-service serve "));
    assert!(help_text(true).contains("web-auth <status|set-password|reset>\n\n注意："));
    assert!(help_text(true).ends_with("不接受命令行参数。\n"));
    assert!(!help_text(false).contains("web-auth"));
}

#[test]
fn status_is_asked_for_and_shown() {
    let first = begin(&["status"]).expect("应开始");
    assert_eq!(
        first,
        Step::Call {
            method: "get_status",
            params: "{\"forceLogStats\":false,\"includeLogStats\":false,\"statisticsHours\":null}"
                .to_string(),
            task: Task::StatusReply { json_output: false },
        }
    );
    let status = "{\"running\": true, \"error\": \"端口被占用\"}";
    let second = resume(Task::StatusReply { json_output: false }, status).expect("应继续");
    let task = Task::ConfigReply {
        json_output: false,
        status: status.to_string(),
    };
    assert_eq!(second, plain("get_config", task.clone()));
    assert_eq!(
        resume(task, "{\"enabled\": false}"),
        Ok(Step::Done(
            "服务：已连接\nDNS：运行中\n自动运行：关闭\n最近错误：端口被占用\n".to_string()
        ))
    );
    assert_eq!(
        begin(&["status", "--json"]),
        Ok(Step::Call {
            method: "get_status",
            params: STATUS_PARAMS.to_string(),
            task: Task::StatusReply { json_output: true },
        })
    );
    assert_eq!(
        resume(
            Task::ConfigReply {
                json_output: true,
                status: "{\"b\":1,\"a\":[]}".to_string()
            },
            "{}"
        ),
        Ok(Step::Done("{\n  \"a\": [],\n  \"b\": 1\n}\n".to_string()))
    );
    let usage = Err("用法：dnsblackhole-service status [--json]".to_string());
    assert_eq!(begin(&["status", "--yaml"]), usage.clone());
    assert_eq!(begin(&["status", "--json", "x"]), usage);
}

#[test]
fn the_status_in_words() {
    assert_eq!(
        status_text(false, true, Some(String::new())),
        "服务：已连接\nDNS：已停止\n自动运行：启用\n"
    );
    assert_eq!(
        status_text(false, false, None),
        "服务：已连接\nDNS：已停止\n自动运行：关闭\n"
    );
}

#[test]
fn members_of_other_types_do_not_count() {
    let task = Task::ConfigReply {
        json_output: false,
        status: "{\"running\": \"true\", \"error\": 5}".to_string(),
    };
    assert_eq!(
        resume(task, "[true]"),
        Ok(Step::Done(
            "服务：已连接\nDNS：已停止\n自动运行：关闭\n".to_string()
        ))
    );
}

#[test]
fn health_is_a_running_resolver() {
    assert_eq!(
        begin(&["healthcheck"]),
        Ok(Step::Call {
            method: "get_status",
            params: STATUS_PARAMS.to_string(),
            task: Task::Health,
        })
    );
    assert_eq!(
        begin(&["healthcheck", "x"]),
        Err("healthcheck 不接受额外参数".to_string())
    );
    assert_eq!(
        resume(Task::Health, "{\"running\":true}"),
        Ok(Step::Done(String::new()))
    );
    let error = Err("DNS runtime 未运行".to_string());
    assert_eq!(resume(Task::Health, "{\"running\":false}"), error.clone());
    assert_eq!(health_verdict(None), error);
    assert_eq!(health_verdict(Some(true)), Ok(Step::Done(String::new())));
}

#[test]
fn start_stop_and_filters() {
    assert_eq!(begin(&["start"]), Ok(plain("start_dns", Task::Print)));
    assert_eq!(begin(&["stop"]), Ok(plain("stop_dns", Task::Print)));
    assert_eq!(
        begin(&["stop", "now"]),
        Err("stop_dns 不接受额外参数".to_string())
    );
    assert_eq!(
        resume(Task::Print, "{\"ok\":true}"),
        Ok(Step::Done("{\n  \"ok\": true\n}\n".to_string()))
    );
    assert_eq!(
        begin(&["filters", "update"]),
        Ok(plain("get_config", Task::FilterConfig))
    );
    assert_eq!(
        resume(Task::FilterConfig, "{\"x\":1.5}"),
        Ok(Step::Call {
            method: "update_filters",
            params: "{\"config\":{\"x\":1.5}}".to_string(),
            task: Task::Print,
        })
    );
    for arguments in [vec!["filters"], vec!["filters", "list"], vec!["filters", "update", "x"]] {
        assert_eq!(
            begin(&arguments),
            Err("用法：dnsblackhole-service filters update".to_string())
        );
    }
}

#[test]
fn what_cannot_be_printed_is_an_error() {
    let error = resume(Task::Print, "not json").expect_err("应报错");
    assert!(error.starts_with("序列化结果失败："));
    assert_eq!(
        print_json(Err("x".to_string()), "序列化状态失败："),
        Err("序列化状态失败：x".to_string())
    );
    assert_eq!(
        print_json(Ok("{}".to_string()), ""),
        Ok(Step::Done("{}\n".to_string()))
    );
    assert_eq!(
        export_config(Err("x".to_string()), 3, true),
        Err("序列化配置失败：x".to_string())
    );
}

#[test]
fn configurations_are_imported_and_exported() {
    assert_eq!(
        begin(&["config", "validate", "/c"]),
        Ok(Step::ReadConfig {
            path: 3,
            apply: false
        })
    );
    assert_eq!(
        import_config(false, "{}"),
        Step::Done("配置有效\n".to_string())
    );
    assert_eq!(
        begin(&["config", "apply", "/c"]),
        Ok(Step::ReadConfig {
            path: 3,
            apply: true
        })
    );
    assert_eq!(
        import_config(true, "{\"a\":1}"),
        Step::Call {
            method: "save_config",
            params: "{\"config\":{\"a\":1}}".to_string(),
            task: Task::Print,
        }
    );
    let to_file = Task::Export {
        path: 3,
        to_stdout: false,
    };
    assert_eq!(
        begin(&["config", "export", "/c"]),
        Ok(plain("get_config", to_file.clone()))
    );
    assert_eq!(
        resume(to_file, "{\"a\":1}"),
        Ok(Step::WriteFile {
            path: 3,
            content: "{\n  \"a\": 1\n}".to_string()
        })
    );
    let to_stdout = Task::Export {
        path: 3,
        to_stdout: true,
    };
    assert_eq!(
        begin(&["config", "export", "-"]),
        Ok(plain("get_config", to_stdout.clone()))
    );
    assert_eq!(
        resume(to_stdout, "{\"a\":1}"),
        Ok(Step::Done("{\n  \"a\": 1\n}\n".to_string()))
    );
}

#[test]
fn configurations_are_not_read_from_standard_input() {
    let error = Err("首版暂不从 stdin 导入配置，请传入本地 JSON 文件".to_string());
    assert_eq!(begin(&["config", "validate", "-"]), error.clone());
    assert_eq!(begin(&["config", "apply", "-/"]), error);
    assert_eq!(
        read_and_validate_config(Some("-")),
        Err("首版暂不从 stdin 导入配置，请传入本地 JSON 文件".to_string())
    );
    assert_eq!(read_and_validate_config(Some("-x")), Ok(()));
    assert_eq!(read_and_validate_config(None), Ok(()));
}

#[test]
fn config_is_used_as_it_says() {
    assert_eq!(
        begin(&["config"]),
        Err("用法：dnsblackhole-service config <validate|export|apply> ...".to_string())
    );
    let usage = Err("用法：dnsblackhole-service config <validate|export|apply> <文件|->".to_string());
    assert_eq!(begin(&["config", "validate"]), usage.clone());
    assert_eq!(begin(&["config", "export", "a", "b"]), usage.clone());
    assert_eq!(begin(&["config", "show", "a"]), usage);
}

#[test]
fn system_dns_online() {
    assert_eq!(
        begin(&["system-dns", "status"]),
        Ok(plain("get_linux_system_dns_status", Task::Print))
    );
    assert_eq!(
        begin(&["system-dns", "takeover"]),
        Ok(plain("take_over_linux_system_dns", Task::Print))
    );
    assert_eq!(
        begin(&["system-dns", "restore"]),
        Ok(plain("restore_linux_system_dns", Task::Print))
    );
    for arguments in [
        vec!["system-dns"],
        vec!["system-dns", "status", "x"],
        vec!["system-dns", "takeover", "x"],
        vec!["system-dns", "other"],
    ] {
        assert_eq!(begin(&arguments), Err(SYSTEM_DNS_USAGE.to_string()));
    }
    assert_eq!(
        SYSTEM_DNS_USAGE,
        "用法：dnsblackhole-service system-dns <status|takeover>\ndnsblackhole-service system-dns restore [--offline [--keep-desired] [--data-dir <路径>]]"
    );
}

#[test]
fn system_dns_offline() {
    assert_eq!(
        begin(&["system-dns", "restore", "--offline"]),
        Ok(Step::RestoreOffline {
            data_dir: None,
            keep_desired: false
        })
    );
    assert_eq!(
        begin(&[
            "system-dns",
            "restore",
            "--keep-desired",
            "--data-dir",
            "/d",
            "--offline"
        ]),
        Ok(Step::RestoreOffline {
            data_dir: Some(5),
            keep_desired: true
        })
    );
    let cases = [
        (vec!["--keep-desired"], "--keep-desired 只能与 --offline 一起使用"),
        (
            vec!["--data-dir", "/d"],
            "--data-dir 只能与 --offline 一起使用；在线恢复由运行中的服务决定数据目录",
        ),
        (vec!["--offline", "--data-dir"], "--data-dir 缺少路径参数"),
        (vec!["--force"], "system-dns restore 不支持参数：--force"),
    ];
    for (arguments, error) in cases {
        let mut whole = vec!["system-dns", "restore"];
        whole.extend(arguments);
        assert_eq!(begin(&whole), Err(error.to_string()));
    }
    let mut arguments = line(&["system-dns", "restore"]);
    arguments.push(None);
    assert_eq!(
        run(&arguments, true, ""),
        Err("system-dns restore 参数必须是有效文本".to_string())
    );
}

#[test]
fn web_auth_commands() {
    assert_eq!(
        begin(&["web-auth", "status"]),
        Ok(plain("web_auth_status", Task::WebAuthStatus))
    );
    assert_eq!(begin(&["web-auth", "set-password"]), Ok(Step::ReadPassword));
    assert_eq!(
        begin(&["web-auth", "reset"]),
        Ok(plain("web_auth_reset", Task::PasswordReset))
    );
    for arguments in [
        vec!["web-auth"],
        vec!["web-auth", "set-password", "secret"],
        vec!["web-auth", "other"],
    ] {
        assert_eq!(begin(&arguments), Err(WEB_AUTH_USAGE.to_string()));
    }
    assert_eq!(
        set_password_step("a\"b\\\n密"),
        Step::Call {
            method: "web_auth_set_password",
            params: "{\"password\":\"a\\\"b\\\\\\n密\"}".to_string(),
            task: Task::PasswordSet,
        }
    );
    assert_eq!(
        set_password_step("\u{1}\u{8}\u{c}\r\t\u{1f} \u{7f}/é"),
        Step::Call {
            method: "web_auth_set_password",
            params: "{\"password\":\"\\u0001\\b\\f\\r\\t\\u001f \u{7f}/é\"}".to_string(),
            task: Task::PasswordSet,
        }
    );
    assert_eq!(params_of_quoted("\"x\""), "{\"password\":\"x\"}");
    assert_eq!(
        resume(Task::PasswordSet, "null"),
        Ok(Step::Done(
            "已设置 Web 管理密码；此前登录的会话全部失效\n".to_string()
        ))
    );
}

#[test]
fn the_password_state_is_shown() {
    assert_eq!(
        resume(
            Task::WebAuthStatus,
            "{\"configured\":true,\"updated_at\":9223372036854775807,\"active_sessions\":3}"
        ),
        Ok(Step::Done(
            "Web 管理密码：已设置\n最近更新：Unix 9223372036854775807\n当前有效会话：3\n".to_string()
        ))
    );
    assert_eq!(
        resume(
            Task::WebAuthStatus,
            "{\"configured\":false,\"updated_at\":null,\"active_sessions\":-1}"
        ),
        Ok(Step::Done(
            "Web 管理密码：未设置\n当前有效会话：0\n".to_string()
        ))
    );
    assert_eq!(
        web_auth_status_text(true, Some("现在".to_string()), 12),
        "Web 管理密码：已设置\n最近更新：现在\n当前有效会话：12\n"
    );
}

#[test]
fn a_reset_tells_what_it_did() {
    assert_eq!(
        resume(Task::PasswordReset, "{\"cleared\":true}"),
        Ok(Step::Done(
            "已清除 Web 管理密码与全部会话；管理页面会回到首次设置状态\n".to_string()
        ))
    );
    assert_eq!(
        resume(Task::PasswordReset, "{\"cleared\":false}"),
        Ok(Step::Done(
            "当前没有已设置的 Web 管理密码，无需清除\n".to_string()
        ))
    );
    assert_eq!(reset_text(None), reset_text(Some(false)));
}

#[test]
fn passwords_from_a_pipe() {
    let prompt = first_prompt(false);
    assert_eq!(prompt, PasswordPrompt::Piped);
    assert_eq!(prompt_hidden(&prompt), None);
    assert_eq!(
        read_password_from_stdin(prompt, " secret \r\n"),
        Ok(PromptStep::Password(" secret ".to_string()))
    );
    assert_eq!(
        read_password_from_stdin(PasswordPrompt::Piped, "\n"),
        Err("未从标准输入读到密码".to_string())
    );
}

#[test]
fn passwords_at_a_terminal() {
    let prompt = first_prompt(true);
    assert_eq!(prompt, PasswordPrompt::First);
    assert_eq!(prompt_hidden(&prompt), Some("请输入新的 Web 管理密码："));
    let confirm = PasswordPrompt::Confirm("secret".to_string());
    assert_eq!(
        read_password_from_stdin(prompt, "secret\n"),
        Ok(PromptStep::Ask(confirm.clone()))
    );
    assert_eq!(prompt_hidden(&confirm), Some("请再次输入以确认："));
    assert_eq!(
        read_password_from_stdin(confirm.clone(), "secret\n"),
        Ok(PromptStep::Password("secret".to_string()))
    );
    assert_eq!(
        read_password_from_stdin(confirm, "other\n"),
        Err("两次输入的密码不一致".to_string())
    );
    assert_eq!(
        read_password_from_stdin(PasswordPrompt::First, "\r\n"),
        Err("密码不能为空".to_string())
    );
}
