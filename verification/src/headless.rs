//! The command line of the service: what each command asks of the outside world, and what it
//! prints.
//!
//! A command is a sequence of steps. The program around this library performs each step, which is
//! all the reading, writing and calling there is, and hands what came of it back.

use vstd::prelude::*;

use crate::arguments::{
    self, argument_text, arguments_from, names_standard_stream, Argument,
};
use crate::credential;
use crate::json::{self, bool_member, pretty, quoted, str_member, u64_member};
use crate::local_time::{self, format_unix_second};
use crate::password;
use crate::text::{self, decimal_text, joined, joined3, same_text, without_line_ends};

verus! {

// ---------------------------------------------------------------------------
// Fixed texts
// ---------------------------------------------------------------------------

/// Where the service keeps its data unless told otherwise.
pub const DEFAULT_DATA_DIR: &'static str = "/var/lib/dnsblackhole";

/// Where the web interface listens unless told otherwise.
pub const DEFAULT_WEB_LISTEN: &'static str = "0.0.0.0:3000";

/// How to use `system-dns`.
pub const SYSTEM_DNS_USAGE: &'static str = "用法：dnsblackhole-service system-dns <status|takeover>\n\
      dnsblackhole-service system-dns restore [--offline [--keep-desired] [--data-dir <路径>]]";

/// How to use `web-auth`.
pub const WEB_AUTH_USAGE: &'static str = "用法：dnsblackhole-service web-auth <status|set-password|reset>";

/// The parameters of a call that takes none.
pub const NO_PARAMS: &'static str = "{}";

/// The parameters with which the status is asked for: without statistics of the log.
pub const STATUS_PARAMS: &'static str = "{\"forceLogStats\":false,\"includeLogStats\":false,\"statisticsHours\":null}";

/// The help of a build with the web interface.
pub const WEB_HELP_TEXT: &'static str = "DnsBlackhole headless 服务与本机管理 CLI\n\n\
用法：\n  dnsblackhole-service serve [--data-dir <路径>] [--bootstrap-config <文件>] [--web-listen <地址:端口>] [--admin-password-file <文件>]\n  dnsblackhole-service status [--json]\n  dnsblackhole-service healthcheck\n  dnsblackhole-service config <validate|export|apply> <文件|->\n  dnsblackhole-service start|stop\n  dnsblackhole-service filters update\n  dnsblackhole-service system-dns <status|takeover>\n  dnsblackhole-service system-dns restore [--offline [--keep-desired] [--data-dir <路径>]]\n  dnsblackhole-service web-auth <status|set-password|reset>\n\n\
注意：system-dns restore --offline 仅在后台服务无法连接时使用，需要 root 且要求 DnsBlackhole 已释放 53 端口。\n\
      web-auth set-password 只从标准输入读密码，不接受命令行参数。\n";

/// The help of a build without the web interface.
pub const HELP_TEXT: &'static str = "DnsBlackhole headless 服务与本机管理 CLI\n\n\
用法：\n  dnsblackhole-service serve [--data-dir <路径>] [--bootstrap-config <文件>]\n  dnsblackhole-service status [--json]\n  dnsblackhole-service healthcheck\n  dnsblackhole-service config <validate|export|apply> <文件|->\n  dnsblackhole-service start|stop\n  dnsblackhole-service filters update\n  dnsblackhole-service system-dns <status|takeover>\n  dnsblackhole-service system-dns restore [--offline [--keep-desired] [--data-dir <路径>]]\n\n\
注意：system-dns restore --offline 仅在后台服务无法连接时使用，需要 root 且要求 DnsBlackhole 已释放 53 端口。\n";

/// The help of a build with or without the web interface.
pub fn help_text(web_admin: bool) -> (help: &'static str)
    ensures
        help@ == if web_admin {
            WEB_HELP_TEXT@
        } else {
            HELP_TEXT@
        },
{
    if web_admin {
        WEB_HELP_TEXT
    } else {
        HELP_TEXT
    }
}

// ---------------------------------------------------------------------------
// Steps
// ---------------------------------------------------------------------------

/// How the service is to run. Paths are places on the command line.
#[derive(Debug, Clone, PartialEq, Eq)]
pub struct ServeOptions {
    /// The data directory, where it is not the default.
    pub data_dir: Option<usize>,
    /// The configuration to start from.
    pub bootstrap_config: Option<usize>,
    /// Where the web interface listens; nowhere in a build without it.
    pub web_listen: Option<String>,
    /// The file with the first administration password.
    pub admin_password_file: Option<usize>,
}

/// [`ServeOptions`] with the address as a sequence of characters.
#[verifier::ext_equal]
pub struct ServeView {
    pub data_dir: Option<int>,
    pub bootstrap_config: Option<int>,
    pub web_listen: Option<Seq<char>>,
    pub admin_password_file: Option<int>,
}

/// A place on the command line as an integer.
pub open spec fn place(index: Option<usize>) -> Option<int> {
    match index {
        Some(i) => Some(i as int),
        None => None,
    }
}

impl View for ServeOptions {
    type V = ServeView;

    open spec fn view(&self) -> ServeView {
        ServeView {
            data_dir: place(self.data_dir),
            bootstrap_config: place(self.bootstrap_config),
            web_listen: credential::opt_text(self.web_listen),
            admin_password_file: place(self.admin_password_file),
        }
    }
}

/// What a command does with the reply to a call. Replies are JSON texts.
#[derive(Debug, Clone, PartialEq, Eq)]
pub enum Task {
    /// Ask for the configuration next, then show the status, as JSON or in words.
    StatusReply { json_output: bool },
    /// Show the status that came before this configuration.
    ConfigReply { json_output: bool, status: String },
    /// Judge whether the service is healthy.
    Health,
    /// Print the reply.
    Print,
    /// Update the filters of this configuration.
    FilterConfig,
    /// Write this configuration to a file, or to standard output.
    Export { path: usize, to_stdout: bool },
    /// Show the state of the administration password.
    WebAuthStatus,
    /// Confirm that the password is set.
    PasswordSet,
    /// Tell whether there was a password to forget.
    PasswordReset,
}

/// A [`Task`] with its text as a sequence of characters.
#[verifier::ext_equal]
pub enum TaskView {
    StatusReply(bool),
    ConfigReply(bool, Seq<char>),
    Health,
    Print,
    FilterConfig,
    Export(int, bool),
    WebAuthStatus,
    PasswordSet,
    PasswordReset,
}

impl View for Task {
    type V = TaskView;

    open spec fn view(&self) -> TaskView {
        match self {
            Task::StatusReply { json_output } => TaskView::StatusReply(*json_output),
            Task::ConfigReply { json_output, status } => TaskView::ConfigReply(
                *json_output,
                status@,
            ),
            Task::Health => TaskView::Health,
            Task::Print => TaskView::Print,
            Task::FilterConfig => TaskView::FilterConfig,
            Task::Export { path, to_stdout } => TaskView::Export(*path as int, *to_stdout),
            Task::WebAuthStatus => TaskView::WebAuthStatus,
            Task::PasswordSet => TaskView::PasswordSet,
            Task::PasswordReset => TaskView::PasswordReset,
        }
    }
}

/// What is to be done next. Paths are places on the command line.
#[derive(Debug, Clone, PartialEq, Eq)]
pub enum Step {
    /// Run the service.
    Serve(ServeOptions),
    /// Call a method of the running service with JSON parameters, and go on with the reply.
    Call { method: &'static str, params: String, task: Task },
    /// Import and check the configuration in a file, and go on with it, to apply it or not.
    ReadConfig { path: usize, apply: bool },
    /// Give the system its resolver back without the service, and print the result.
    RestoreOffline { data_dir: Option<usize>, keep_desired: bool },
    /// Read a new password from standard input, and go on with it.
    ReadPassword,
    /// Write a file.
    WriteFile { path: usize, content: String },
    /// Write a text to standard output; this is all.
    Done(String),
}

/// A [`Step`] with its texts as sequences of characters.
#[verifier::ext_equal]
pub enum StepView {
    Serve(ServeView),
    Call(Seq<char>, Seq<char>, TaskView),
    ReadConfig(int, bool),
    RestoreOffline(Option<int>, bool),
    ReadPassword,
    WriteFile(int, Seq<char>),
    Done(Seq<char>),
}

impl View for Step {
    type V = StepView;

    open spec fn view(&self) -> StepView {
        match self {
            Step::Serve(options) => StepView::Serve(options@),
            Step::Call { method, params, task } => StepView::Call(method@, params@, task@),
            Step::ReadConfig { path, apply } => StepView::ReadConfig(*path as int, *apply),
            Step::RestoreOffline { data_dir, keep_desired } => StepView::RestoreOffline(
                place(*data_dir),
                *keep_desired,
            ),
            Step::ReadPassword => StepView::ReadPassword,
            Step::WriteFile { path, content } => StepView::WriteFile(*path as int, content@),
            Step::Done(output) => StepView::Done(output@),
        }
    }
}

/// A step, or an error, as views.
pub open spec fn step_result(result: Result<Step, String>) -> Result<StepView, Seq<char>> {
    match result {
        Ok(step) => Ok(step@),
        Err(error) => Err(error@),
    }
}

/// The call of `method` without parameters, whose reply is for `task`.
pub open spec fn plain_call(method: Seq<char>, task: TaskView) -> StepView {
    StepView::Call(method, NO_PARAMS@, task)
}

/// Calls `method` without parameters.
fn call(method: &'static str, task: Task) -> (step: Step)
    ensures
        step@ == plain_call(method@, task@),
{
    Step::Call { method, params: String::from_str(NO_PARAMS), task }
}

// ---------------------------------------------------------------------------
// serve
// ---------------------------------------------------------------------------

/// How the service runs when nothing is said.
pub open spec fn serve_defaults(web_admin: bool) -> ServeView {
    ServeView {
        data_dir: None,
        bootstrap_config: None,
        web_listen: if web_admin {
            Some(DEFAULT_WEB_LISTEN@)
        } else {
            None
        },
        admin_password_file: None,
    }
}

/// The error of an option that needs the web interface, in a build without it.
pub open spec fn no_web_admin() -> Seq<char> {
    "当前构建未启用 web-admin feature"@
}

/// The options after the one at `index`, whose value follows it, has been taken in.
pub open spec fn serve_option(
    so_far: ServeView,
    args: Seq<Option<Seq<char>>>,
    index: int,
    web_admin: bool,
) -> Result<ServeView, Seq<char>> {
    let value = index + 1;
    let given = value < args.len();
    match args[index] {
        None => Err("serve 参数必须是有效文本"@),
        Some(name) => if name == "--data-dir"@ {
            if given {
                Ok(ServeView { data_dir: Some(value), ..so_far })
            } else {
                Err("--data-dir 缺少路径参数"@)
            }
        } else if name == "--bootstrap-config"@ {
            if given {
                Ok(ServeView { bootstrap_config: Some(value), ..so_far })
            } else {
                Err("--bootstrap-config 缺少路径参数"@)
            }
        } else if name == "--web-listen"@ {
            if !given || args[value] is None {
                Err("--web-listen 缺少地址参数"@)
            } else if web_admin {
                Ok(ServeView { web_listen: args[value], ..so_far })
            } else {
                Err(no_web_admin())
            }
        } else if name == "--admin-password-file"@ {
            if !given {
                Err("--admin-password-file 缺少路径参数"@)
            } else if web_admin {
                Ok(ServeView { admin_password_file: Some(value), ..so_far })
            } else {
                Err(no_web_admin())
            }
        } else {
            Err("serve 不支持参数："@ + name)
        },
    }
}

/// The options once all arguments from `index` on have been taken in, two by two. Of an option
/// given twice the last value counts; the first thing wrong is the error.
pub open spec fn serve_options(
    so_far: ServeView,
    args: Seq<Option<Seq<char>>>,
    index: int,
    web_admin: bool,
) -> Result<ServeView, Seq<char>>
    decreases args.len() - index,
{
    if index >= args.len() {
        Ok(so_far)
    } else {
        match serve_option(so_far, args, index, web_admin) {
            Ok(next) => serve_options(next, args, index + 2, web_admin),
            Err(error) => Err(error),
        }
    }
}

/// What `serve` comes to.
pub open spec fn serve_step(args: Seq<Option<Seq<char>>>, from: int, web_admin: bool) -> Result<
    StepView,
    Seq<char>,
> {
    match serve_options(serve_defaults(web_admin), args, from, web_admin) {
        Ok(options) => Ok(StepView::Serve(options)),
        Err(error) => Err(error),
    }
}

/// Takes in the option at `index` and its value.
fn take_serve_option(
    options: &mut ServeOptions,
    arguments: &Vec<Argument>,
    index: usize,
    web_admin: bool,
) -> (result: Result<(), String>)
    requires
        index < arguments.len(),
    ensures
        match serve_option(
            old(options)@,
            arguments::argument_views(arguments@),
            index as int,
            web_admin,
        ) {
            Ok(next) => result is Ok && final(options)@ == next,
            Err(error) => result matches Err(message) && message@ == error,
        },
{
    let value: usize = index + 1;
    let given: bool = value < arguments.len();
    let name: &str = match argument_text(arguments, index) {
        Some(name) => name,
        None => {
            return Err(String::from_str("serve 参数必须是有效文本"));
        },
    };
    if same_text(name, "--data-dir") {
        if !given {
            return Err(String::from_str("--data-dir 缺少路径参数"));
        }
        options.data_dir = Some(value);
    } else if same_text(name, "--bootstrap-config") {
        if !given {
            return Err(String::from_str("--bootstrap-config 缺少路径参数"));
        }
        options.bootstrap_config = Some(value);
    } else if same_text(name, "--web-listen") {
        match argument_text(arguments, value) {
            Some(address) => {
                if !web_admin {
                    return Err(String::from_str("当前构建未启用 web-admin feature"));
                }
                options.web_listen = Some(String::from_str(address));
            },
            None => {
                return Err(String::from_str("--web-listen 缺少地址参数"));
            },
        }
    } else if same_text(name, "--admin-password-file") {
        if !given {
            return Err(String::from_str("--admin-password-file 缺少路径参数"));
        }
        if !web_admin {
            return Err(String::from_str("当前构建未启用 web-admin feature"));
        }
        options.admin_password_file = Some(value);
    } else {
        return Err(joined("serve 不支持参数：", name));
    }
    Ok(())
}

/// Reads the options of `serve`, which stand on the command line from `from` on.
pub fn serve(arguments: &Vec<Argument>, from: usize, web_admin: bool) -> (result: Result<
    Step,
    String,
>)
    ensures
        step_result(result) == serve_step(
            arguments::argument_views(arguments@),
            from as int,
            web_admin,
        ),
{
    let mut options = ServeOptions {
        data_dir: None,
        bootstrap_config: None,
        web_listen: if web_admin {
            Some(String::from_str(DEFAULT_WEB_LISTEN))
        } else {
            None
        },
        admin_password_file: None,
    };
    let ghost args = arguments::argument_views(arguments@);
    let mut index: usize = from;
    while index < arguments.len()
        invariant
            args == arguments::argument_views(arguments@),
            serve_step(args, from as int, web_admin) == match serve_options(
                options@,
                args,
                index as int,
                web_admin,
            ) {
                Ok(view) => Ok(StepView::Serve(view)),
                Err(error) => Err(error),
            },
        decreases arguments.len() - index,
    {
        if let Err(error) = take_serve_option(&mut options, arguments, index, web_admin) {
            return Err(error);
        }
        assert(index + 1 < arguments.len());
        index = index + 2;
    }
    Ok(Step::Serve(options))
}

// ---------------------------------------------------------------------------
// status, healthcheck, start, stop, filters
// ---------------------------------------------------------------------------

/// Whether a command without arguments has none; the error otherwise.
pub open spec fn extra_arguments(
    command: Seq<char>,
    args: Seq<Option<Seq<char>>>,
    from: int,
) -> Option<Seq<char>> {
    if arguments::count_from(args, from) == 0 {
        None
    } else {
        Some(command + " 不接受额外参数"@)
    }
}

/// What `status` comes to: it takes `--json` and nothing else.
pub open spec fn status_step(args: Seq<Option<Seq<char>>>, from: int) -> Result<
    StepView,
    Seq<char>,
> {
    let count = arguments::count_from(args, from);
    let json_output = arguments::text_at(args, from) == Some("--json"@);
    if count == 0 || count == 1 && json_output {
        Ok(
            StepView::Call(
                "get_status"@,
                STATUS_PARAMS@,
                TaskView::StatusReply(count == 1),
            ),
        )
    } else {
        Err("用法：dnsblackhole-service status [--json]"@)
    }
}

/// What `healthcheck` comes to.
pub open spec fn healthcheck_step(args: Seq<Option<Seq<char>>>, from: int) -> Result<
    StepView,
    Seq<char>,
> {
    match extra_arguments("healthcheck"@, args, from) {
        Some(error) => Err(error),
        None => Ok(StepView::Call("get_status"@, STATUS_PARAMS@, TaskView::Health)),
    }
}

/// What a command that is one call without parameters comes to.
pub open spec fn plain_step(method: Seq<char>, args: Seq<Option<Seq<char>>>, from: int) -> Result<
    StepView,
    Seq<char>,
> {
    match extra_arguments(method, args, from) {
        Some(error) => Err(error),
        None => Ok(plain_call(method, TaskView::Print)),
    }
}

/// What `filters` comes to: it takes `update` and nothing else.
pub open spec fn filters_step(args: Seq<Option<Seq<char>>>, from: int) -> Result<
    StepView,
    Seq<char>,
> {
    if arguments::count_from(args, from) == 1 && arguments::text_at(args, from) == Some("update"@) {
        Ok(plain_call("get_config"@, TaskView::FilterConfig))
    } else {
        Err("用法：dnsblackhole-service filters update"@)
    }
}

/// Whether the argument at `index` is `wanted`.
fn argument_is(arguments: &Vec<Argument>, index: usize, wanted: &str) -> (yes: bool)
    ensures
        yes == (arguments::text_at(arguments::argument_views(arguments@), index as int) == Some(
            wanted@,
        )),
{
    match argument_text(arguments, index) {
        Some(found) => same_text(found, wanted),
        None => false,
    }
}

/// Refuses arguments of a command that takes none.
pub fn ensure_no_arguments(command: &str, arguments: &Vec<Argument>, from: usize) -> (result: Result<
    (),
    String,
>)
    ensures
        match extra_arguments(command@, arguments::argument_views(arguments@), from as int) {
            Some(error) => result matches Err(message) && message@ == error,
            None => result is Ok,
        },
{
    if arguments_from(arguments, from) == 0 {
        Ok(())
    } else {
        Err(joined(command, " 不接受额外参数"))
    }
}

/// Begins `status`.
pub fn status(arguments: &Vec<Argument>, from: usize) -> (result: Result<Step, String>)
    ensures
        step_result(result) == status_step(arguments::argument_views(arguments@), from as int),
{
    let count: usize = arguments_from(arguments, from);
    let json_output: bool = count == 1 && argument_is(arguments, from, "--json");
    if count > 0 && !json_output {
        return Err(String::from_str("用法：dnsblackhole-service status [--json]"));
    }
    Ok(
        Step::Call {
            method: "get_status",
            params: String::from_str(STATUS_PARAMS),
            task: Task::StatusReply { json_output },
        },
    )
}

/// Begins `healthcheck`.
pub fn healthcheck(arguments: &Vec<Argument>, from: usize) -> (result: Result<Step, String>)
    ensures
        step_result(result) == healthcheck_step(arguments::argument_views(arguments@), from as int),
{
    if let Err(error) = ensure_no_arguments("healthcheck", arguments, from) {
        return Err(error);
    }
    Ok(
        Step::Call {
            method: "get_status",
            params: String::from_str(STATUS_PARAMS),
            task: Task::Health,
        },
    )
}

/// Begins a command that is one call without parameters.
pub fn call_without_params(method: &'static str, arguments: &Vec<Argument>, from: usize) -> (result:
    Result<Step, String>)
    ensures
        step_result(result) == plain_step(
            method@,
            arguments::argument_views(arguments@),
            from as int,
        ),
{
    if let Err(error) = ensure_no_arguments(method, arguments, from) {
        return Err(error);
    }
    Ok(call(method, Task::Print))
}

/// Begins `filters`.
pub fn filters(arguments: &Vec<Argument>, from: usize) -> (result: Result<Step, String>)
    ensures
        step_result(result) == filters_step(arguments::argument_views(arguments@), from as int),
{
    if arguments_from(arguments, from) != 1 || !argument_is(arguments, from, "update") {
        return Err(String::from_str("用法：dnsblackhole-service filters update"));
    }
    Ok(call("get_config", Task::FilterConfig))
}

// ---------------------------------------------------------------------------
// config
// ---------------------------------------------------------------------------

/// Why a configuration is not imported from a path, where it is not: standard input is no source.
pub open spec fn import_problem(path: Option<Seq<char>>) -> Option<Seq<char>> {
    if arguments::is_dash(path) {
        Some("首版暂不从 stdin 导入配置，请传入本地 JSON 文件"@)
    } else {
        None
    }
}

/// What `config` comes to.
pub open spec fn config_step(args: Seq<Option<Seq<char>>>, from: int) -> Result<
    StepView,
    Seq<char>,
> {
    let path = from + 1;
    let shown = arguments::text_at(args, path);
    match arguments::text_at(args, from) {
        None => Err("用法：dnsblackhole-service config <validate|export|apply> ..."@),
        Some(command) => if arguments::count_from(args, from) == 2 && (command == "validate"@
            || command == "apply"@) {
            match import_problem(shown) {
                Some(error) => Err(error),
                None => Ok(StepView::ReadConfig(path, command == "apply"@)),
            }
        } else if arguments::count_from(args, from) == 2 && command == "export"@ {
            Ok(
                plain_call("get_config"@, TaskView::Export(path, arguments::is_dash(shown))),
            )
        } else {
            Err("用法：dnsblackhole-service config <validate|export|apply> <文件|->"@)
        },
    }
}

/// Refuses to import a configuration from standard input. What else is to be said of a
/// configuration, its import says.
pub fn read_and_validate_config(path: Option<&str>) -> (result: Result<(), String>)
    ensures
        match import_problem(
            match path {
                Some(shown) => Some(shown@),
                None => None,
            },
        ) {
            Some(error) => result matches Err(message) && message@ == error,
            None => result is Ok,
        },
{
    if names_standard_stream(path) {
        return Err(String::from_str("首版暂不从 stdin 导入配置，请传入本地 JSON 文件"));
    }
    Ok(())
}

/// Begins `config`.
pub fn config(arguments: &Vec<Argument>, from: usize) -> (result: Result<Step, String>)
    ensures
        step_result(result) == config_step(arguments::argument_views(arguments@), from as int),
{
    let command: &str = match argument_text(arguments, from) {
        Some(command) => command,
        None => {
            return Err(
                String::from_str("用法：dnsblackhole-service config <validate|export|apply> ..."),
            );
        },
    };
    let validates: bool = same_text(command, "validate");
    let applies: bool = same_text(command, "apply");
    let exports: bool = same_text(command, "export");
    if arguments_from(arguments, from) == 2 && (validates || applies) {
        assert(from + 2 == arguments.len());
        let path: usize = from + 1;
        if let Err(error) = read_and_validate_config(argument_text(arguments, path)) {
            return Err(error);
        }
        Ok(Step::ReadConfig { path, apply: applies })
    } else if arguments_from(arguments, from) == 2 && exports {
        assert(from + 2 == arguments.len());
        let path: usize = from + 1;
        let to_stdout: bool = names_standard_stream(argument_text(arguments, path));
        Ok(call("get_config", Task::Export { path, to_stdout }))
    } else {
        Err(
            String::from_str("用法：dnsblackhole-service config <validate|export|apply> <文件|->"),
        )
    }
}

/// What follows the import of a configuration: it is applied, or reported to be valid.
pub open spec fn config_imported(apply: bool, config: Seq<char>) -> StepView {
    if apply {
        StepView::Call("save_config"@, config_params(config), TaskView::Print)
    } else {
        StepView::Done("配置有效\n"@)
    }
}

/// The parameters of a call that takes a configuration.
pub open spec fn config_params(config: Seq<char>) -> Seq<char> {
    "{\"config\":"@ + config + "}"@
}

/// Goes on with an imported configuration, a JSON text.
pub fn import_config(apply: bool, config: &str) -> (step: Step)
    ensures
        step@ == config_imported(apply, config@),
{
    if apply {
        Step::Call {
            method: "save_config",
            params: joined3("{\"config\":", config, "}"),
            task: Task::Print,
        }
    } else {
        Step::Done(String::from_str("配置有效\n"))
    }
}

// ---------------------------------------------------------------------------
// system-dns
// ---------------------------------------------------------------------------

/// What is asked of a restore.
#[verifier::ext_equal]
pub struct RestoreView {
    pub offline: bool,
    pub keep_desired: bool,
    pub data_dir: Option<int>,
}

/// The options of a restore once all arguments from `index` on have been taken in.
pub open spec fn restore_options(
    so_far: RestoreView,
    args: Seq<Option<Seq<char>>>,
    index: int,
) -> Result<RestoreView, Seq<char>>
    decreases args.len() - index,
{
    if index >= args.len() {
        Ok(so_far)
    } else {
        match args[index] {
            None => Err("system-dns restore 参数必须是有效文本"@),
            Some(name) => if name == "--offline"@ {
                restore_options(RestoreView { offline: true, ..so_far }, args, index + 1)
            } else if name == "--keep-desired"@ {
                restore_options(RestoreView { keep_desired: true, ..so_far }, args, index + 1)
            } else if name == "--data-dir"@ {
                if index + 1 < args.len() {
                    restore_options(
                        RestoreView { data_dir: Some(index + 1), ..so_far },
                        args,
                        index + 2,
                    )
                } else {
                    Err("--data-dir 缺少路径参数"@)
                }
            } else {
                Err("system-dns restore 不支持参数："@ + name)
            },
        }
    }
}

/// What a restore with these options comes to: the running service does it, or, where that is
/// asked for, this program itself. Only then may the wish to take over be kept, or a data directory
/// be named.
pub open spec fn restore_asked(options: RestoreView) -> Result<StepView, Seq<char>> {
    if options.offline {
        Ok(StepView::RestoreOffline(options.data_dir, options.keep_desired))
    } else if options.keep_desired {
        Err("--keep-desired 只能与 --offline 一起使用"@)
    } else if options.data_dir is Some {
        Err("--data-dir 只能与 --offline 一起使用；在线恢复由运行中的服务决定数据目录"@)
    } else {
        Ok(plain_call("restore_linux_system_dns"@, TaskView::Print))
    }
}

/// What `system-dns restore` comes to.
pub open spec fn restore_step(args: Seq<Option<Seq<char>>>, from: int) -> Result<
    StepView,
    Seq<char>,
> {
    match restore_options(
        RestoreView { offline: false, keep_desired: false, data_dir: None },
        args,
        from,
    ) {
        Ok(options) => restore_asked(options),
        Err(error) => Err(error),
    }
}

/// What `system-dns` comes to.
pub open spec fn system_dns_step(args: Seq<Option<Seq<char>>>, from: int) -> Result<
    StepView,
    Seq<char>,
> {
    let alone = arguments::count_from(args, from) == 1;
    match arguments::text_at(args, from) {
        None => Err(SYSTEM_DNS_USAGE@),
        Some(operation) => if operation == "status"@ && alone {
            Ok(plain_call("get_linux_system_dns_status"@, TaskView::Print))
        } else if operation == "takeover"@ && alone {
            Ok(plain_call("take_over_linux_system_dns"@, TaskView::Print))
        } else if operation == "restore"@ {
            restore_step(args, from + 1)
        } else {
            Err(SYSTEM_DNS_USAGE@)
        },
    }
}

/// Begins `system-dns restore`.
///
/// Without `--offline` the running service restores. With it this program does, which is the way
/// out for root when the service cannot be reached, and what the maintenance scripts use: an
/// upgrade keeps the wish to take over, a removal and a restore by hand do not.
pub fn system_dns_restore(arguments: &Vec<Argument>, from: usize) -> (result: Result<Step, String>)
    ensures
        step_result(result) == restore_step(arguments::argument_views(arguments@), from as int),
{
    let mut offline: bool = false;
    let mut keep_desired: bool = false;
    let mut data_dir: Option<usize> = None;
    let ghost args = arguments::argument_views(arguments@);
    let mut index: usize = from;
    while index < arguments.len()
        invariant
            args == arguments::argument_views(arguments@),
            restore_step(args, from as int) == match restore_options(
                RestoreView { offline, keep_desired, data_dir: place(data_dir) },
                args,
                index as int,
            ) {
                Ok(options) => restore_asked(options),
                Err(error) => Err(error),
            },
        decreases arguments.len() - index,
    {
        let name: &str = match argument_text(arguments, index) {
            Some(name) => name,
            None => {
                return Err(String::from_str("system-dns restore 参数必须是有效文本"));
            },
        };
        if same_text(name, "--offline") {
            offline = true;
        } else if same_text(name, "--keep-desired") {
            keep_desired = true;
        } else if same_text(name, "--data-dir") {
            index = index + 1;
            if index >= arguments.len() {
                return Err(String::from_str("--data-dir 缺少路径参数"));
            }
            data_dir = Some(index);
        } else {
            return Err(joined("system-dns restore 不支持参数：", name));
        }
        index = index + 1;
    }
    if offline {
        return Ok(Step::RestoreOffline { data_dir, keep_desired });
    }
    if keep_desired {
        return Err(String::from_str("--keep-desired 只能与 --offline 一起使用"));
    }
    if data_dir.is_some() {
        return Err(
            String::from_str(
                "--data-dir 只能与 --offline 一起使用；在线恢复由运行中的服务决定数据目录",
            ),
        );
    }
    Ok(call("restore_linux_system_dns", Task::Print))
}

/// Begins `system-dns`.
pub fn system_dns(arguments: &Vec<Argument>, from: usize) -> (result: Result<Step, String>)
    ensures
        step_result(result) == system_dns_step(arguments::argument_views(arguments@), from as int),
{
    let operation: &str = match argument_text(arguments, from) {
        Some(operation) => operation,
        None => {
            return Err(String::from_str(SYSTEM_DNS_USAGE));
        },
    };
    let alone: bool = arguments_from(arguments, from) == 1;
    assert(from < arguments.len());
    if same_text(operation, "status") && alone {
        Ok(call("get_linux_system_dns_status", Task::Print))
    } else if same_text(operation, "takeover") && alone {
        Ok(call("take_over_linux_system_dns", Task::Print))
    } else if same_text(operation, "restore") {
        system_dns_restore(arguments, from + 1)
    } else {
        Err(String::from_str(SYSTEM_DNS_USAGE))
    }
}

// ---------------------------------------------------------------------------
// web-auth
// ---------------------------------------------------------------------------

/// What `web-auth` comes to. The password is read from standard input alone: an argument would end
/// up in the shell's history and in the output of `ps`.
pub open spec fn web_auth_step(args: Seq<Option<Seq<char>>>, from: int) -> Result<
    StepView,
    Seq<char>,
> {
    let alone = arguments::count_from(args, from) == 1;
    match arguments::text_at(args, from) {
        None => Err(WEB_AUTH_USAGE@),
        Some(operation) => if operation == "status"@ && alone {
            Ok(plain_call("web_auth_status"@, TaskView::WebAuthStatus))
        } else if operation == "set-password"@ && alone {
            Ok(StepView::ReadPassword)
        } else if operation == "reset"@ && alone {
            Ok(plain_call("web_auth_reset"@, TaskView::PasswordReset))
        } else {
            Err(WEB_AUTH_USAGE@)
        },
    }
}

/// Begins `web-auth`.
pub fn web_auth(arguments: &Vec<Argument>, from: usize) -> (result: Result<Step, String>)
    ensures
        step_result(result) == web_auth_step(arguments::argument_views(arguments@), from as int),
{
    let operation: &str = match argument_text(arguments, from) {
        Some(operation) => operation,
        None => {
            return Err(String::from_str(WEB_AUTH_USAGE));
        },
    };
    let alone: bool = arguments_from(arguments, from) == 1;
    if same_text(operation, "status") && alone {
        Ok(call("web_auth_status", Task::WebAuthStatus))
    } else if same_text(operation, "set-password") && alone {
        Ok(Step::ReadPassword)
    } else if same_text(operation, "reset") && alone {
        Ok(call("web_auth_reset", Task::PasswordReset))
    } else {
        Err(String::from_str(WEB_AUTH_USAGE))
    }
}

/// The parameters of the call that sets the password.
pub open spec fn password_params(password: Seq<char>) -> Seq<char> {
    "{\"password\":"@ + json::json_string(password) + "}"@
}

/// The parameters of the call that sets the password, given the password as a JSON string.
pub fn params_of_quoted(quoted_password: &str) -> (params: String)
    ensures
        params@ == "{\"password\":"@ + quoted_password@ + "}"@,
{
    joined3("{\"password\":", quoted_password, "}")
}

/// Goes on with the password that was read: the running service sets it.
pub fn set_password_step(password: &str) -> (step: Step)
    ensures
        step@ == StepView::Call(
            "web_auth_set_password"@,
            password_params(password@),
            TaskView::PasswordSet,
        ),
{
    let string = quoted(password);
    Step::Call {
        method: "web_auth_set_password",
        params: params_of_quoted(string.as_str()),
        task: Task::PasswordSet,
    }
}

// ---------------------------------------------------------------------------
// Reading a password
// ---------------------------------------------------------------------------

/// Which line of standard input is awaited.
#[derive(Debug, Clone, PartialEq, Eq)]
pub enum PasswordPrompt {
    /// The only line, from a pipe or a file.
    Piped,
    /// The password, at a terminal.
    First,
    /// The password again, at a terminal.
    Confirm(String),
}

/// A [`PasswordPrompt`] with its text as a sequence of characters.
#[verifier::ext_equal]
pub enum PromptView {
    Piped,
    First,
    Confirm(Seq<char>),
}

impl View for PasswordPrompt {
    type V = PromptView;

    open spec fn view(&self) -> PromptView {
        match self {
            PasswordPrompt::Piped => PromptView::Piped,
            PasswordPrompt::First => PromptView::First,
            PasswordPrompt::Confirm(first) => PromptView::Confirm(first@),
        }
    }
}

/// What a line comes to.
#[derive(Debug, Clone, PartialEq, Eq)]
pub enum PromptStep {
    /// Another line is needed.
    Ask(PasswordPrompt),
    /// This is the password.
    Password(String),
}

/// A [`PromptStep`] as views.
#[verifier::ext_equal]
pub enum PromptStepView {
    Ask(PromptView),
    Password(Seq<char>),
}

impl View for PromptStep {
    type V = PromptStepView;

    open spec fn view(&self) -> PromptStepView {
        match self {
            PromptStep::Ask(prompt) => PromptStepView::Ask(prompt@),
            PromptStep::Password(password) => PromptStepView::Password(password@),
        }
    }
}

/// A prompt step, or an error, as views.
pub open spec fn prompt_result(result: Result<PromptStep, String>) -> Result<
    PromptStepView,
    Seq<char>,
> {
    match result {
        Ok(step) => Ok(step@),
        Err(error) => Err(error@),
    }
}

/// What a line, without its line end, comes to.
pub open spec fn answered(prompt: PromptView, line: Seq<char>) -> Result<
    PromptStepView,
    Seq<char>,
> {
    match prompt {
        PromptView::Piped => if line.len() == 0 {
            Err("未从标准输入读到密码"@)
        } else {
            Ok(PromptStepView::Password(line))
        },
        PromptView::First => if line.len() == 0 {
            Err("密码不能为空"@)
        } else {
            Ok(PromptStepView::Ask(PromptView::Confirm(line)))
        },
        PromptView::Confirm(first) => if first != line {
            Err("两次输入的密码不一致"@)
        } else {
            Ok(PromptStepView::Password(first))
        },
    }
}

/// The first line to wait for: a terminal is asked twice, anything else is read once.
pub fn first_prompt(terminal: bool) -> (prompt: PasswordPrompt)
    ensures
        prompt@ == if terminal {
            PromptView::First
        } else {
            PromptView::Piped
        },
{
    if terminal {
        PasswordPrompt::First
    } else {
        PasswordPrompt::Piped
    }
}

/// What a terminal shows while it waits, with echo off.
pub open spec fn prompt_shown(prompt: PromptView) -> Option<Seq<char>> {
    match prompt {
        PromptView::Piped => None,
        PromptView::First => Some("请输入新的 Web 管理密码："@),
        PromptView::Confirm(_) => Some("请再次输入以确认："@),
    }
}

/// What a terminal shows while it waits for a line, with echo off; nothing is shown otherwise.
pub fn prompt_hidden(prompt: &PasswordPrompt) -> (shown: Option<&'static str>)
    ensures
        prompt_shown(prompt@) == match shown {
            Some(text) => Some(text@),
            None => None,
        },
{
    match prompt {
        PasswordPrompt::Piped => None,
        PasswordPrompt::First => Some("请输入新的 Web 管理密码："),
        PasswordPrompt::Confirm(_) => Some("请再次输入以确认："),
    }
}

/// Takes in a line of standard input, whose line end does not count.
pub fn read_password_from_stdin(prompt: PasswordPrompt, line: &str) -> (result: Result<
    PromptStep,
    String,
>)
    ensures
        prompt_result(result) == answered(prompt@, text::trim_line_ends(line@)),
{
    let entered = without_line_ends(line);
    match prompt {
        PasswordPrompt::Piped => {
            if entered.as_str().unicode_len() == 0 {
                return Err(String::from_str("未从标准输入读到密码"));
            }
            Ok(PromptStep::Password(entered))
        },
        PasswordPrompt::First => {
            if entered.as_str().unicode_len() == 0 {
                return Err(String::from_str("密码不能为空"));
            }
            Ok(PromptStep::Ask(PasswordPrompt::Confirm(entered)))
        },
        PasswordPrompt::Confirm(first) => {
            if !same_text(first.as_str(), entered.as_str()) {
                return Err(String::from_str("两次输入的密码不一致"));
            }
            Ok(PromptStep::Password(first))
        },
    }
}

// ---------------------------------------------------------------------------
// Replies
// ---------------------------------------------------------------------------

/// A JSON value written over several lines goes to standard output, with a line end; where it could
/// not be written, `problem` introduces the reason.
pub open spec fn printed(written: Result<Seq<char>, Seq<char>>, problem: Seq<char>) -> Result<
    StepView,
    Seq<char>,
> {
    match written {
        Ok(output) => Ok(StepView::Done(output + "\n"@)),
        Err(error) => Err(problem + error),
    }
}

/// The status in words.
pub open spec fn status_shown(running: bool, enabled: bool, error: Option<Seq<char>>) -> Seq<char> {
    let known = "服务：已连接\nDNS："@ + (if running {
        "运行中"@
    } else {
        "已停止"@
    }) + "\n自动运行："@ + (if enabled {
        "启用"@
    } else {
        "关闭"@
    }) + "\n"@;
    match error {
        Some(message) => if message.len() > 0 {
            known + "最近错误："@ + message + "\n"@
        } else {
            known
        },
        None => known,
    }
}

/// The state of the administration password in words, with the moment of its last change as
/// `updated` shows it.
pub open spec fn web_auth_shown(
    configured: bool,
    updated: Option<Seq<char>>,
    sessions: u64,
) -> Seq<char> {
    let first = "Web 管理密码："@ + (if configured {
        "已设置"@
    } else {
        "未设置"@
    }) + "\n"@;
    let second = match updated {
        Some(moment) => first + "最近更新："@ + moment + "\n"@,
        None => first,
    };
    second + "当前有效会话："@ + text::decimal(sessions as nat) + "\n"@
}

/// What a reset has to tell, given whether it cleared a password.
pub open spec fn reset_shown(cleared: Option<bool>) -> Seq<char> {
    if cleared == Some(true) {
        "已清除 Web 管理密码与全部会话；管理页面会回到首次设置状态\n"@
    } else {
        "当前没有已设置的 Web 管理密码，无需清除\n"@
    }
}

/// What follows the export of a configuration that has been written over several lines.
pub open spec fn exported(
    written: Result<Seq<char>, Seq<char>>,
    path: int,
    to_stdout: bool,
) -> Result<StepView, Seq<char>> {
    match written {
        Ok(content) => Ok(
            if to_stdout {
                StepView::Done(content + "\n"@)
            } else {
                StepView::WriteFile(path, content)
            },
        ),
        Err(error) => Err("序列化配置失败："@ + error),
    }
}

/// Whether the service is healthy: its resolver is known to run.
pub open spec fn health(running: Option<bool>) -> Result<StepView, Seq<char>> {
    if running == Some(true) {
        Ok(StepView::Done(""@))
    } else {
        Err("DNS runtime 未运行"@)
    }
}

/// What a task makes of the reply, with the moment of the password's last change shown as
/// `updated`.
pub open spec fn resumed(task: TaskView, reply: Seq<char>, updated: Option<Seq<char>>) -> Result<
    StepView,
    Seq<char>,
> {
    match task {
        TaskView::StatusReply(json_output) => Ok(
            plain_call("get_config"@, TaskView::ConfigReply(json_output, reply)),
        ),
        TaskView::ConfigReply(json_output, status) => if json_output {
            printed(json::json_pretty(status), "序列化状态失败："@)
        } else {
            Ok(
                StepView::Done(
                    status_shown(
                        json::json_bool(status, "running"@) == Some(true),
                        json::json_bool(reply, "enabled"@) == Some(true),
                        json::json_str(status, "error"@),
                    ),
                ),
            )
        },
        TaskView::Health => health(json::json_bool(reply, "running"@)),
        TaskView::Print => printed(json::json_pretty(reply), "序列化结果失败："@),
        TaskView::FilterConfig => Ok(
            StepView::Call("update_filters"@, config_params(reply), TaskView::Print),
        ),
        TaskView::Export(path, to_stdout) => exported(json::json_pretty(reply), path, to_stdout),
        TaskView::WebAuthStatus => Ok(
            StepView::Done(
                web_auth_shown(
                    json::json_bool(reply, "configured"@) == Some(true),
                    updated,
                    match json::json_u64(reply, "active_sessions"@) {
                        Some(sessions) => sessions,
                        None => 0,
                    },
                ),
            ),
        ),
        TaskView::PasswordSet => Ok(
            StepView::Done("已设置 Web 管理密码；此前登录的会话全部失效\n"@),
        ),
        TaskView::PasswordReset => Ok(
            StepView::Done(reset_shown(json::json_bool(reply, "cleared"@))),
        ),
    }
}

/// Whether a Unix second can be shown as `shown`; where there is none, nothing is shown.
pub open spec fn updated_possible(second: Option<u64>, shown: Option<Seq<char>>) -> bool {
    match second {
        Some(value) => shown matches Some(moment) && local_time::shown_possible(value, moment),
        None => shown is None,
    }
}

/// Whether a task can make `result` of the reply: with some way to show the moment of the
/// password's last change, where it comes to that.
pub open spec fn resume_possible(
    task: TaskView,
    reply: Seq<char>,
    result: Result<StepView, Seq<char>>,
) -> bool {
    exists|updated: Option<Seq<char>>|
        {
            &&& task is WebAuthStatus ==> updated_possible(
                json::json_u64(reply, "updated_at"@),
                updated,
            )
            &&& result == #[trigger] resumed(task, reply, updated)
        }
}

/// Prints a JSON value that has been written over several lines.
pub fn print_json(written: Result<String, String>, problem: &str) -> (result: Result<Step, String>)
    ensures
        step_result(result) == printed(password::text_result(written), problem@),
{
    match written {
        Ok(mut output) => {
            output.append("\n");
            Ok(Step::Done(output))
        },
        Err(error) => Err(joined(problem, error.as_str())),
    }
}

/// Shows the status in words.
pub fn status_text(running: bool, enabled: bool, error: Option<String>) -> (shown: String)
    ensures
        shown@ == status_shown(running, enabled, credential::opt_text(error)),
{
    let mut shown = String::from_str("服务：已连接\nDNS：");
    if running {
        shown.append("运行中");
    } else {
        shown.append("已停止");
    }
    shown.append("\n自动运行：");
    if enabled {
        shown.append("启用");
    } else {
        shown.append("关闭");
    }
    shown.append("\n");
    if let Some(message) = error {
        if message.as_str().unicode_len() > 0 {
            shown.append("最近错误：");
            shown.append(message.as_str());
            shown.append("\n");
        }
    }
    shown
}

/// Shows the state of the administration password in words.
pub fn web_auth_status_text(configured: bool, updated: Option<String>, sessions: u64) -> (shown:
    String)
    ensures
        shown@ == web_auth_shown(configured, credential::opt_text(updated), sessions),
{
    let mut shown = String::from_str("Web 管理密码：");
    if configured {
        shown.append("已设置");
    } else {
        shown.append("未设置");
    }
    shown.append("\n");
    if let Some(moment) = updated {
        shown.append("最近更新：");
        shown.append(moment.as_str());
        shown.append("\n");
    }
    shown.append("当前有效会话：");
    let digits = decimal_text(sessions);
    shown.append(digits.as_str());
    shown.append("\n");
    shown
}

/// Tells what a reset did.
pub fn reset_text(cleared: Option<bool>) -> (shown: &'static str)
    ensures
        shown@ == reset_shown(cleared),
{
    match cleared {
        Some(true) => "已清除 Web 管理密码与全部会话；管理页面会回到首次设置状态\n",
        _ => "当前没有已设置的 Web 管理密码，无需清除\n",
    }
}

/// Exports a configuration that has been written over several lines.
pub fn export_config(written: Result<String, String>, path: usize, to_stdout: bool) -> (result: Result<
    Step,
    String,
>)
    ensures
        step_result(result) == exported(password::text_result(written), path as int, to_stdout),
{
    match written {
        Ok(mut content) => {
            if to_stdout {
                content.append("\n");
                Ok(Step::Done(content))
            } else {
                Ok(Step::WriteFile { path, content })
            }
        },
        Err(error) => Err(joined("序列化配置失败：", error.as_str())),
    }
}

/// Judges whether the service is healthy.
pub fn health_verdict(running: Option<bool>) -> (result: Result<Step, String>)
    ensures
        step_result(result) == health(running),
{
    match running {
        Some(true) => Ok(Step::Done(String::from_str(""))),
        _ => Err(String::from_str("DNS runtime 未运行")),
    }
}

/// Goes on with the reply to a call, a JSON text.
pub fn resume(task: Task, reply: &str) -> (result: Result<Step, String>)
    ensures
        resume_possible(task@, reply@, step_result(result)),
{
    let ghost view = task@;
    let updated: Option<String> = match task {
        Task::WebAuthStatus => match u64_member(reply, "updated_at") {
            Some(second) => Some(format_unix_second(second)),
            None => None,
        },
        _ => None,
    };
    let ghost shown = credential::opt_text(updated);
    let result: Result<Step, String> = match task {
        Task::StatusReply { json_output } => Ok(
            call("get_config", Task::ConfigReply { json_output, status: String::from_str(reply) }),
        ),
        Task::ConfigReply { json_output, status } => if json_output {
            print_json(pretty(status.as_str()), "序列化状态失败：")
        } else {
            let running: bool = bool_member(status.as_str(), "running") == Some(true);
            let enabled: bool = bool_member(reply, "enabled") == Some(true);
            let error = str_member(status.as_str(), "error");
            Ok(Step::Done(status_text(running, enabled, error)))
        },
        Task::Health => health_verdict(bool_member(reply, "running")),
        Task::Print => print_json(pretty(reply), "序列化结果失败："),
        Task::FilterConfig => Ok(
            Step::Call {
                method: "update_filters",
                params: joined3("{\"config\":", reply, "}"),
                task: Task::Print,
            },
        ),
        Task::Export { path, to_stdout } => export_config(pretty(reply), path, to_stdout),
        Task::WebAuthStatus => {
            let configured: bool = bool_member(reply, "configured") == Some(true);
            let sessions: u64 = match u64_member(reply, "active_sessions") {
                Some(sessions) => sessions,
                None => 0,
            };
            Ok(Step::Done(web_auth_status_text(configured, updated, sessions)))
        },
        Task::PasswordSet => Ok(
            Step::Done(
                String::from_str("已设置 Web 管理密码；此前登录的会话全部失效\n"),
            ),
        ),
        Task::PasswordReset => Ok(
            Step::Done(String::from_str(reset_text(bool_member(reply, "cleared")))),
        ),
    };
    assert(step_result(result) == resumed(view, reply@, shown));
    result
}

// ---------------------------------------------------------------------------
// The command line as a whole
// ---------------------------------------------------------------------------

/// What a command line comes to: its first argument is the program, its second the command, which
/// is `serve` where none can be read.
pub open spec fn started(args: Seq<Option<Seq<char>>>, web_admin: bool, version: Seq<char>) -> Result<
    StepView,
    Seq<char>,
> {
    let help = if web_admin {
        WEB_HELP_TEXT@
    } else {
        HELP_TEXT@
    };
    let command = match arguments::text_at(args, 1) {
        Some(name) => name,
        None => "serve"@,
    };
    if command == "serve"@ {
        serve_step(args, 2, web_admin)
    } else if command == "status"@ {
        status_step(args, 2)
    } else if command == "healthcheck"@ {
        healthcheck_step(args, 2)
    } else if command == "start"@ {
        plain_step("start_dns"@, args, 2)
    } else if command == "stop"@ {
        plain_step("stop_dns"@, args, 2)
    } else if command == "filters"@ {
        filters_step(args, 2)
    } else if command == "config"@ {
        config_step(args, 2)
    } else if command == "system-dns"@ {
        system_dns_step(args, 2)
    } else if command == "web-auth"@ && web_admin {
        web_auth_step(args, 2)
    } else if command == "--help"@ || command == "-h"@ || command == "help"@ {
        Ok(StepView::Done(help))
    } else if command == "--version"@ || command == "-V"@ {
        Ok(StepView::Done("dnsblackhole-service "@ + version + "\n"@))
    } else {
        Err("未知命令："@ + command + "\n\n"@ + help)
    }
}

/// Begins what a command line asks for, in a build with or without the web interface.
pub fn run(arguments: &Vec<Argument>, web_admin: bool, version: &str) -> (result: Result<
    Step,
    String,
>)
    ensures
        step_result(result) == started(
            arguments::argument_views(arguments@),
            web_admin,
            version@,
        ),
{
    let command: &str = match argument_text(arguments, 1) {
        Some(command) => command,
        None => "serve",
    };
    if same_text(command, "serve") {
        serve(arguments, 2, web_admin)
    } else if same_text(command, "status") {
        status(arguments, 2)
    } else if same_text(command, "healthcheck") {
        healthcheck(arguments, 2)
    } else if same_text(command, "start") {
        call_without_params("start_dns", arguments, 2)
    } else if same_text(command, "stop") {
        call_without_params("stop_dns", arguments, 2)
    } else if same_text(command, "filters") {
        filters(arguments, 2)
    } else if same_text(command, "config") {
        config(arguments, 2)
    } else if same_text(command, "system-dns") {
        system_dns(arguments, 2)
    } else if web_admin && same_text(command, "web-auth") {
        web_auth(arguments, 2)
    } else if same_text(command, "--help") || same_text(command, "-h") || same_text(
        command,
        "help",
    ) {
        Ok(Step::Done(String::from_str(help_text(web_admin))))
    } else if same_text(command, "--version") || same_text(command, "-V") {
        Ok(Step::Done(joined3("dnsblackhole-service ", version, "\n")))
    } else {
        let mut error = joined3("未知命令：", command, "\n\n");
        error.append(help_text(web_admin));
        Err(error)
    }
}

} // verus!
