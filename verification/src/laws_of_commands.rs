//! Laws of the command line: what each command asks for, which arguments it takes in which order,
//! and what it prints of a reply, in terms of the arguments and replies alone.

use vstd::prelude::*;

use crate::headless::{self, PromptStepView, PromptView, RestoreView, ServeView, StepView, TaskView};
use crate::json;
use crate::laws_of_text;
use crate::local_time;
use crate::text;

verus! {

// ---------------------------------------------------------------------------
// system-dns restore
// ---------------------------------------------------------------------------

/// Whether an option of a restore stands at `i`, reading from `from`: everything is one but the
/// argument behind `--data-dir`.
pub open spec fn is_restore_place(args: Seq<Option<Seq<char>>>, from: int, i: int) -> bool
    decreases args.len() - from + 1,
{
    from < args.len() && (i == from || is_restore_place(
        args,
        from + if args[from] == Some("--data-dir"@) {
            2int
        } else {
            1int
        },
        i,
    ))
}

/// Whether the option at `i` is one that a restore takes, with its value where it needs one.
pub open spec fn is_good_restore_option(args: Seq<Option<Seq<char>>>, i: int) -> bool {
    ||| args[i] == Some("--offline"@)
    ||| args[i] == Some("--keep-desired"@)
    ||| args[i] == Some("--data-dir"@) && i + 1 < args.len()
}

/// Whether every option of a restore is one that it takes.
pub open spec fn is_good_restore(args: Seq<Option<Seq<char>>>, from: int) -> bool {
    forall|i: int| #[trigger] is_restore_place(args, from, i) ==> is_good_restore_option(args, i)
}

/// Whether a restore is given this option, wherever it stands.
pub open spec fn restore_has(args: Seq<Option<Seq<char>>>, from: int, name: Seq<char>) -> bool {
    exists|i: int| #[trigger] is_restore_place(args, from, i) && args[i] == Some(name)
}

/// Whether `dir` is the place behind the last `--data-dir`, or nothing where there is none.
pub open spec fn is_last_data_dir(
    args: Seq<Option<Seq<char>>>,
    from: int,
    dir: Option<int>,
) -> bool {
    match dir {
        Some(at) => {
            &&& is_restore_place(args, from, at - 1)
            &&& args[at - 1] == Some("--data-dir"@)
            &&& forall|j: int|
                #[trigger] is_restore_place(args, from, j) && args[j] == Some("--data-dir"@) ==> j
                    <= at - 1
        },
        None => !restore_has(args, from, "--data-dir"@),
    }
}

/// Places stand within the arguments, from where the reading starts on.
proof fn lemma_restore_places(args: Seq<Option<Seq<char>>>, from: int, i: int)
    requires
        is_restore_place(args, from, i),
    ensures
        from <= i < args.len(),
    decreases args.len() - from + 1,
{
    if i != from {
        lemma_restore_places(
            args,
            from + if args[from] == Some("--data-dir"@) {
                2int
            } else {
                1int
            },
            i,
        );
    }
}

/// What the options come to, with some taken in before.
proof fn lemma_restore_options(so_far: RestoreView, args: Seq<Option<Seq<char>>>, from: int)
    requires
        0 <= from,
        is_good_restore(args, from),
    ensures
        headless::restore_options(so_far, args, from) matches Ok(options) && {
            &&& options.offline == (so_far.offline || restore_has(args, from, "--offline"@))
            &&& options.keep_desired == (so_far.keep_desired || restore_has(
                args,
                from,
                "--keep-desired"@,
            ))
            &&& if restore_has(args, from, "--data-dir"@) {
                is_last_data_dir(args, from, options.data_dir)
            } else {
                options.data_dir == so_far.data_dir
            }
        },
    decreases args.len() - from + 1,
{
    reveal_strlit("--offline");
    reveal_strlit("--keep-desired");
    reveal_strlit("--data-dir");
    assert("--offline"@.len() == 9 && "--keep-desired"@.len() == 14 && "--data-dir"@.len() == 10);
    if from < args.len() {
        assert(is_restore_place(args, from, from));
        assert(is_good_restore_option(args, from));
        let step: int = if args[from] == Some("--data-dir"@) {
            2
        } else {
            1
        };
        let next = from + step;
        assert forall|i: int| #[trigger] is_restore_place(args, next, i) implies {
            &&& is_restore_place(args, from, i)
            &&& i > from
        } by {
            lemma_restore_places(args, next, i);
        }
        assert forall|i: int| #[trigger] is_restore_place(args, from, i) && i != from implies
            is_restore_place(args, next, i) by {}
        assert(is_good_restore(args, next));
        let taken = if args[from] == Some("--offline"@) {
            RestoreView { offline: true, ..so_far }
        } else if args[from] == Some("--keep-desired"@) {
            RestoreView { keep_desired: true, ..so_far }
        } else {
            RestoreView { data_dir: Some(from + 1), ..so_far }
        };
        lemma_restore_options(taken, args, next);
        assert(headless::restore_options(so_far, args, from) == headless::restore_options(
            taken,
            args,
            next,
        ));
        assert forall|name: Seq<char>| #[trigger] restore_has(args, from, name) <==> (args[from]
            == Some(name) || restore_has(args, next, name)) by {
            if restore_has(args, next, name) {
                let i = choose|i: int|
                    #[trigger] is_restore_place(args, next, i) && args[i] == Some(name);
                assert(is_restore_place(args, from, i));
            }
            if restore_has(args, from, name) && args[from] != Some(name) {
                let i = choose|i: int|
                    #[trigger] is_restore_place(args, from, i) && args[i] == Some(name);
                assert(is_restore_place(args, next, i));
            }
        }
        assert(restore_has(args, from, "--offline"@) <==> (args[from] == Some("--offline"@)
            || restore_has(args, next, "--offline"@)));
        assert(restore_has(args, from, "--keep-desired"@) <==> (args[from] == Some(
            "--keep-desired"@,
        ) || restore_has(args, next, "--keep-desired"@)));
        assert(restore_has(args, from, "--data-dir"@) <==> (args[from] == Some("--data-dir"@)
            || restore_has(args, next, "--data-dir"@)));
        let options = headless::restore_options(so_far, args, from)->Ok_0;
        if restore_has(args, from, "--data-dir"@) {
            if restore_has(args, next, "--data-dir"@) {
                assert(is_last_data_dir(args, next, options.data_dir));
                assert(options.data_dir is Some);
                let at = options.data_dir->0;
                assert(is_restore_place(args, from, at - 1));
                assert forall|j: int|
                    #[trigger] is_restore_place(args, from, j) && args[j] == Some(
                        "--data-dir"@,
                    ) implies j <= at - 1 by {
                    if j != from {
                        assert(is_restore_place(args, next, j));
                    }
                }
            } else {
                assert(options.data_dir == Some(from + 1));
                assert forall|j: int|
                    #[trigger] is_restore_place(args, from, j) && args[j] == Some(
                        "--data-dir"@,
                    ) implies j <= from by {
                    if j != from {
                        assert(is_restore_place(args, next, j));
                    }
                }
            }
        }
    } else {
        assert forall|i: int| !#[trigger] is_restore_place(args, from, i) by {}
    }
}

/// The options of a restore do not depend on their order. Where each is one that it takes: it is
/// done offline exactly where `--offline` is among them, keeps the wish to take over exactly where
/// `--keep-desired` is, and has the data directory behind the last `--data-dir`. Without
/// `--offline` the other two are errors, and with none at all the running service does it.
pub proof fn law_restore_goes_by_its_options(args: Seq<Option<Seq<char>>>, from: int)
    requires
        0 <= from,
        is_good_restore(args, from),
    ensures
        restore_has(args, from, "--offline"@) ==> (headless::restore_step(args, from) matches Ok(
            StepView::RestoreOffline(dir, keep),
        ) && is_last_data_dir(args, from, dir) && keep == restore_has(
            args,
            from,
            "--keep-desired"@,
        )),
        !restore_has(args, from, "--offline"@) && restore_has(args, from, "--keep-desired"@)
            ==> headless::restore_step(args, from) == Err::<StepView, Seq<char>>(
            "--keep-desired 只能与 --offline 一起使用"@,
        ),
        !restore_has(args, from, "--offline"@) && !restore_has(args, from, "--keep-desired"@)
            && restore_has(args, from, "--data-dir"@) ==> headless::restore_step(args, from)
            == Err::<StepView, Seq<char>>(
            "--data-dir 只能与 --offline 一起使用；在线恢复由运行中的服务决定数据目录"@,
        ),
        !restore_has(args, from, "--offline"@) && !restore_has(args, from, "--keep-desired"@)
            && !restore_has(args, from, "--data-dir"@) ==> headless::restore_step(args, from)
            == Ok::<StepView, Seq<char>>(
            StepView::Call("restore_linux_system_dns"@, "{}"@, TaskView::Print),
        ),
{
    let none = RestoreView { offline: false, keep_desired: false, data_dir: None };
    lemma_restore_options(none, args, from);
}

/// The first option that a restore does not take is its error.
pub proof fn law_restore_refuses_the_first_bad_option(
    so_far: RestoreView,
    args: Seq<Option<Seq<char>>>,
    from: int,
    i: int,
)
    requires
        0 <= from,
        is_restore_place(args, from, i),
        !is_good_restore_option(args, i),
        forall|j: int|
            #[trigger] is_restore_place(args, from, j) && j < i ==> is_good_restore_option(args, j),
    ensures
        headless::restore_options(so_far, args, from) == Err::<RestoreView, Seq<char>>(
            match args[i] {
                None => "system-dns restore 参数必须是有效文本"@,
                Some(name) => if name == "--data-dir"@ {
                    "--data-dir 缺少路径参数"@
                } else {
                    "system-dns restore 不支持参数："@ + name
                },
            },
        ),
        headless::restore_step(args, from) is Err,
    decreases args.len() - from + 1,
{
    reveal_strlit("--offline");
    reveal_strlit("--keep-desired");
    reveal_strlit("--data-dir");
    assert("--offline"@.len() == 9 && "--keep-desired"@.len() == 14 && "--data-dir"@.len() == 10);
    let none = RestoreView { offline: false, keep_desired: false, data_dir: None };
    if i != from {
        lemma_restore_places(args, from, i);
        assert(is_restore_place(args, from, from));
        assert(is_good_restore_option(args, from));
        let step: int = if args[from] == Some("--data-dir"@) {
            2
        } else {
            1
        };
        let next = from + step;
        assert(is_restore_place(args, next, i));
        assert forall|j: int| #[trigger] is_restore_place(args, next, j) && j < i implies
            is_good_restore_option(args, j) by {
            assert(is_restore_place(args, from, j));
        }
        let taken = |old: RestoreView|
            if args[from] == Some("--offline"@) {
                RestoreView { offline: true, ..old }
            } else if args[from] == Some("--keep-desired"@) {
                RestoreView { keep_desired: true, ..old }
            } else {
                RestoreView { data_dir: Some(from + 1), ..old }
            };
        law_restore_refuses_the_first_bad_option(taken(so_far), args, next, i);
        law_restore_refuses_the_first_bad_option(taken(none), args, next, i);
        assert(headless::restore_options(so_far, args, from) == headless::restore_options(
            taken(so_far),
            args,
            next,
        ));
        assert(headless::restore_options(none, args, from) == headless::restore_options(
            taken(none),
            args,
            next,
        ));
    }
}

// ---------------------------------------------------------------------------
// serve
// ---------------------------------------------------------------------------

/// Whether an option of `serve` stands at `i`: options and their values take turns.
pub open spec fn is_serve_place(args: Seq<Option<Seq<char>>>, from: int, i: int) -> bool {
    from <= i < args.len() && (i - from) % 2 == 0
}

/// Whether the option at `i` is one that `serve` takes, with its value.
pub open spec fn is_good_serve_option(
    args: Seq<Option<Seq<char>>>,
    i: int,
    web_admin: bool,
) -> bool {
    &&& i + 1 < args.len()
    &&& {
        ||| args[i] == Some("--data-dir"@)
        ||| args[i] == Some("--bootstrap-config"@)
        ||| args[i] == Some("--web-listen"@) && args[i + 1] is Some && web_admin
        ||| args[i] == Some("--admin-password-file"@) && web_admin
    }
}

/// Whether every option of `serve` is one that it takes.
pub open spec fn is_good_serve(
    args: Seq<Option<Seq<char>>>,
    from: int,
    web_admin: bool,
) -> bool {
    forall|i: int| #[trigger] is_serve_place(args, from, i) ==> is_good_serve_option(args, i, web_admin)
}

/// Whether `serve` is given this option.
pub open spec fn serve_has(args: Seq<Option<Seq<char>>>, from: int, name: Seq<char>) -> bool {
    exists|i: int| #[trigger] is_serve_place(args, from, i) && args[i] == Some(name)
}

/// Whether the last option by this name stands at `i`.
pub open spec fn is_last_serve(
    args: Seq<Option<Seq<char>>>,
    from: int,
    name: Seq<char>,
    i: int,
) -> bool {
    &&& is_serve_place(args, from, i)
    &&& args[i] == Some(name)
    &&& forall|j: int| #[trigger] is_serve_place(args, from, j) && args[j] == Some(name) ==> j <= i
}

/// Whether `value` is the place behind the last option by this name, or what it was where there is
/// none.
pub open spec fn is_last_value(
    args: Seq<Option<Seq<char>>>,
    from: int,
    name: Seq<char>,
    value: Option<int>,
    otherwise: Option<int>,
) -> bool {
    if serve_has(args, from, name) {
        value matches Some(at) && is_last_serve(args, from, name, at - 1)
    } else {
        value == otherwise
    }
}

/// Whether `address` is what stands behind the last `--web-listen`, or what it was where there is
/// none.
pub open spec fn is_last_address(
    args: Seq<Option<Seq<char>>>,
    from: int,
    address: Option<Seq<char>>,
    otherwise: Option<Seq<char>>,
) -> bool {
    if serve_has(args, from, "--web-listen"@) {
        exists|i: int|
            #[trigger] is_last_serve(args, from, "--web-listen"@, i) && address == args[i + 1]
    } else {
        address == otherwise
    }
}

/// The places from two further on are the others.
proof fn lemma_serve_places(args: Seq<Option<Seq<char>>>, from: int, name: Seq<char>)
    requires
        from < args.len(),
    ensures
        forall|i: int| #[trigger]
            is_serve_place(args, from, i) <==> i == from || is_serve_place(args, from + 2, i),
        serve_has(args, from, name) <==> (args[from] == Some(name) || serve_has(
            args,
            from + 2,
            name,
        )),
        forall|i: int| #[trigger]
            is_last_serve(args, from + 2, name, i) ==> is_last_serve(args, from, name, i),
        args[from] == Some(name) && !serve_has(args, from + 2, name) ==> is_last_serve(
            args,
            from,
            name,
            from,
        ),
{
    assert forall|i: int| #[trigger] is_serve_place(args, from, i) <==> i == from
        || is_serve_place(args, from + 2, i) by {
        assert((i - from) % 2 == (i - (from + 2)) % 2);
    }
    assert(is_serve_place(args, from, from));
    if serve_has(args, from, name) && args[from] != Some(name) {
        let i = choose|i: int| #[trigger] is_serve_place(args, from, i) && args[i] == Some(name);
        assert(is_serve_place(args, from + 2, i));
    }
    if serve_has(args, from + 2, name) {
        let i = choose|i: int|
            #[trigger] is_serve_place(args, from + 2, i) && args[i] == Some(name);
        assert(is_serve_place(args, from, i));
    }
    assert forall|i: int| #[trigger] is_last_serve(args, from + 2, name, i) implies is_last_serve(
        args,
        from,
        name,
        i,
    ) by {
        assert(is_serve_place(args, from, i));
    }
}

/// What the options come to, with some taken in before.
proof fn lemma_serve_options(
    so_far: ServeView,
    args: Seq<Option<Seq<char>>>,
    from: int,
    web_admin: bool,
)
    requires
        0 <= from,
        is_good_serve(args, from, web_admin),
    ensures
        headless::serve_options(so_far, args, from, web_admin) matches Ok(options) && {
            &&& is_last_value(args, from, "--data-dir"@, options.data_dir, so_far.data_dir)
            &&& is_last_value(
                args,
                from,
                "--bootstrap-config"@,
                options.bootstrap_config,
                so_far.bootstrap_config,
            )
            &&& is_last_value(
                args,
                from,
                "--admin-password-file"@,
                options.admin_password_file,
                so_far.admin_password_file,
            )
            &&& is_last_address(args, from, options.web_listen, so_far.web_listen)
        },
    decreases args.len() - from + 1,
{
    reveal_strlit("--data-dir");
    reveal_strlit("--bootstrap-config");
    reveal_strlit("--web-listen");
    reveal_strlit("--admin-password-file");
    assert("--data-dir"@.len() == 10 && "--bootstrap-config"@.len() == 18 && "--web-listen"@.len()
        == 12 && "--admin-password-file"@.len() == 21);
    if from < args.len() {
        lemma_serve_places(args, from, "--data-dir"@);
        lemma_serve_places(args, from, "--bootstrap-config"@);
        lemma_serve_places(args, from, "--admin-password-file"@);
        lemma_serve_places(args, from, "--web-listen"@);
        assert(is_serve_place(args, from, from));
        assert(is_good_serve_option(args, from, web_admin));
        assert forall|i: int| #[trigger] is_serve_place(args, from + 2, i) implies
            is_good_serve_option(args, i, web_admin) by {
            assert(is_serve_place(args, from, i));
        }
        let next = headless::serve_option(so_far, args, from, web_admin)->Ok_0;
        lemma_serve_options(next, args, from + 2, web_admin);
        let options = headless::serve_options(so_far, args, from, web_admin)->Ok_0;
        if serve_has(args, from + 2, "--web-listen"@) {
            let i = choose|i: int|
                #[trigger] is_last_serve(args, from + 2, "--web-listen"@, i) && options.web_listen
                    == args[i + 1];
            assert(is_last_serve(args, from, "--web-listen"@, i));
        } else if args[from] == Some("--web-listen"@) {
            assert(is_last_serve(args, from, "--web-listen"@, from));
        }
    } else {
        assert forall|i: int| !#[trigger] is_serve_place(args, from, i) by {}
    }
}

/// `serve` takes its options in any order, and of one given twice the last: the data directory, the
/// configuration to start from, the address of the web interface and the password file are what
/// stands behind them, and the defaults where they are not given.
pub proof fn law_serve_goes_by_its_options(
    args: Seq<Option<Seq<char>>>,
    from: int,
    web_admin: bool,
)
    requires
        0 <= from,
        is_good_serve(args, from, web_admin),
    ensures
        headless::serve_step(args, from, web_admin) matches Ok(StepView::Serve(options)) && {
            &&& is_last_value(args, from, "--data-dir"@, options.data_dir, None)
            &&& is_last_value(args, from, "--bootstrap-config"@, options.bootstrap_config, None)
            &&& is_last_value(
                args,
                from,
                "--admin-password-file"@,
                options.admin_password_file,
                None,
            )
            &&& is_last_address(
                args,
                from,
                options.web_listen,
                if web_admin {
                    Some("0.0.0.0:3000"@)
                } else {
                    None
                },
            )
        },
{
    lemma_serve_options(headless::serve_defaults(web_admin), args, from, web_admin);
}

/// The first option that `serve` does not take is its error.
pub proof fn law_serve_refuses_the_first_bad_option(
    so_far: ServeView,
    args: Seq<Option<Seq<char>>>,
    from: int,
    web_admin: bool,
    i: int,
)
    requires
        0 <= from,
        is_serve_place(args, from, i),
        !is_good_serve_option(args, i, web_admin),
        forall|j: int|
            #[trigger] is_serve_place(args, from, j) && j < i ==> is_good_serve_option(
                args,
                j,
                web_admin,
            ),
    ensures
        headless::serve_options(so_far, args, from, web_admin) == Err::<ServeView, Seq<char>>(
            match args[i] {
                None => "serve 参数必须是有效文本"@,
                Some(name) => if name == "--data-dir"@ {
                    "--data-dir 缺少路径参数"@
                } else if name == "--bootstrap-config"@ {
                    "--bootstrap-config 缺少路径参数"@
                } else if name == "--web-listen"@ && (i + 1 >= args.len() || args[i + 1] is None) {
                    "--web-listen 缺少地址参数"@
                } else if name == "--admin-password-file"@ && i + 1 >= args.len() {
                    "--admin-password-file 缺少路径参数"@
                } else if name == "--web-listen"@ || name == "--admin-password-file"@ {
                    "当前构建未启用 web-admin feature"@
                } else {
                    "serve 不支持参数："@ + name
                },
            },
        ),
        headless::serve_step(args, from, web_admin) is Err,
    decreases args.len() - from + 1,
{
    reveal_strlit("--data-dir");
    reveal_strlit("--bootstrap-config");
    reveal_strlit("--web-listen");
    reveal_strlit("--admin-password-file");
    assert("--data-dir"@.len() == 10 && "--bootstrap-config"@.len() == 18 && "--web-listen"@.len()
        == 12 && "--admin-password-file"@.len() == 21);
    let defaults = headless::serve_defaults(web_admin);
    if i != from {
        lemma_serve_places(args, from, "--data-dir"@);
        assert(is_serve_place(args, from, from));
        assert(is_good_serve_option(args, from, web_admin));
        assert(is_serve_place(args, from + 2, i));
        assert forall|j: int| #[trigger] is_serve_place(args, from + 2, j) && j < i implies
            is_good_serve_option(args, j, web_admin) by {
            assert(is_serve_place(args, from, j));
        }
        law_serve_refuses_the_first_bad_option(
            headless::serve_option(so_far, args, from, web_admin)->Ok_0,
            args,
            from + 2,
            web_admin,
            i,
        );
        law_serve_refuses_the_first_bad_option(
            headless::serve_option(defaults, args, from, web_admin)->Ok_0,
            args,
            from + 2,
            web_admin,
            i,
        );
    }
}

// ---------------------------------------------------------------------------
// What a command line asks for
// ---------------------------------------------------------------------------

/// The names of the commands are told apart by their lengths and by a character.
pub proof fn lemma_command_names()
    ensures
        "serve"@.len() == 5,
        "status"@.len() == 6,
        "healthcheck"@.len() == 11,
        "start"@.len() == 5,
        "stop"@.len() == 4,
        "filters"@.len() == 7,
        "config"@.len() == 6,
        "system-dns"@.len() == 10,
        "web-auth"@.len() == 8,
        "--help"@.len() == 6,
        "-h"@.len() == 2,
        "help"@.len() == 4,
        "--version"@.len() == 9,
        "-V"@.len() == 2,
        "serve"@[1] == 'e',
        "start"@[1] == 't',
        "status"@[0] == 's',
        "config"@[0] == 'c',
        "--help"@[0] == '-',
        "stop"@[0] == 's',
        "help"@[0] == 'h',
        "-h"@[1] == 'h',
        "-V"@[1] == 'V',
{
    reveal_strlit("serve");
    reveal_strlit("status");
    reveal_strlit("healthcheck");
    reveal_strlit("start");
    reveal_strlit("stop");
    reveal_strlit("filters");
    reveal_strlit("config");
    reveal_strlit("system-dns");
    reveal_strlit("web-auth");
    reveal_strlit("--help");
    reveal_strlit("-h");
    reveal_strlit("help");
    reveal_strlit("--version");
    reveal_strlit("-V");
}

/// The parameters with which the status is asked for.
pub open spec fn status_query() -> Seq<char> {
    "{\"forceLogStats\":false,\"includeLogStats\":false,\"statisticsHours\":null}"@
}

/// Where no command can be read the service is run, as with `serve`.
pub proof fn law_serving_is_the_default(
    args: Seq<Option<Seq<char>>>,
    web_admin: bool,
    version: Seq<char>,
)
    requires
        args.len() < 2 || args[1] is None || args[1] == Some("serve"@),
    ensures
        headless::started(args, web_admin, version) == headless::serve_step(args, 2, web_admin),
        args.len() <= 2 ==> (headless::started(args, web_admin, version) matches Ok(
            StepView::Serve(options),
        ) && options.data_dir is None && options.bootstrap_config is None
            && options.admin_password_file is None),
{
}

/// `status` asks for the status and takes `--json` alone; `healthcheck` asks for the same and takes
/// nothing.
pub proof fn law_status_and_healthcheck(
    args: Seq<Option<Seq<char>>>,
    web_admin: bool,
    version: Seq<char>,
)
    requires
        args.len() >= 2,
    ensures
        args[1] == Some("status"@) && args.len() == 2 ==> headless::started(
            args,
            web_admin,
            version,
        ) == Ok::<StepView, Seq<char>>(
            StepView::Call("get_status"@, status_query(), TaskView::StatusReply(false)),
        ),
        args[1] == Some("status"@) && args.len() == 3 && args[2] == Some("--json"@)
            ==> headless::started(args, web_admin, version) == Ok::<StepView, Seq<char>>(
            StepView::Call("get_status"@, status_query(), TaskView::StatusReply(true)),
        ),
        args[1] == Some("status"@) && (args.len() > 3 || args.len() == 3 && args[2] != Some(
            "--json"@,
        )) ==> headless::started(args, web_admin, version) == Err::<StepView, Seq<char>>(
            "用法：dnsblackhole-service status [--json]"@,
        ),
        args[1] == Some("healthcheck"@) ==> headless::started(args, web_admin, version)
            == if args.len() == 2 {
            Ok::<StepView, Seq<char>>(
                StepView::Call("get_status"@, status_query(), TaskView::Health),
            )
        } else {
            Err("healthcheck"@ + " 不接受额外参数"@)
        },
{
    lemma_command_names();
}

/// `start` and `stop` are one call each and print its reply; they take nothing. `filters update`
/// asks for the configuration first.
pub proof fn law_start_stop_and_filters(
    args: Seq<Option<Seq<char>>>,
    web_admin: bool,
    version: Seq<char>,
)
    requires
        args.len() >= 2,
    ensures
        args[1] == Some("start"@) ==> headless::started(args, web_admin, version) == if args.len()
            == 2 {
            Ok::<StepView, Seq<char>>(StepView::Call("start_dns"@, "{}"@, TaskView::Print))
        } else {
            Err("start_dns"@ + " 不接受额外参数"@)
        },
        args[1] == Some("stop"@) ==> headless::started(args, web_admin, version) == if args.len()
            == 2 {
            Ok::<StepView, Seq<char>>(StepView::Call("stop_dns"@, "{}"@, TaskView::Print))
        } else {
            Err("stop_dns"@ + " 不接受额外参数"@)
        },
        args[1] == Some("filters"@) ==> headless::started(args, web_admin, version) == if args.len()
            == 3 && args[2] == Some("update"@) {
            Ok::<StepView, Seq<char>>(
                StepView::Call("get_config"@, "{}"@, TaskView::FilterConfig),
            )
        } else {
            Err("用法：dnsblackhole-service filters update"@)
        },
{
    lemma_command_names();
}

/// `config` takes an operation and one path. An import is refused from standard input and otherwise
/// read from that path, to be applied only by `apply`; an export asks for the configuration first,
/// and goes to that path, or to standard output where the path is `-`.
pub proof fn law_config_goes_by_its_operation(
    args: Seq<Option<Seq<char>>>,
    web_admin: bool,
    version: Seq<char>,
)
    requires
        args.len() >= 2,
        args[1] == Some("config"@),
    ensures
        args.len() == 4 && (args[2] == Some("validate"@) || args[2] == Some("apply"@))
            ==> headless::started(args, web_admin, version)
            == if crate::arguments::is_dash(args[3]) {
            Err::<StepView, Seq<char>>("首版暂不从 stdin 导入配置，请传入本地 JSON 文件"@)
        } else {
            Ok(StepView::ReadConfig(3, args[2] == Some("apply"@)))
        },
        args.len() == 4 && args[2] == Some("export"@) ==> headless::started(
            args,
            web_admin,
            version,
        ) == Ok::<StepView, Seq<char>>(
            StepView::Call(
                "get_config"@,
                "{}"@,
                TaskView::Export(3, crate::arguments::is_dash(args[3])),
            ),
        ),
        args.len() == 2 || args[2] is None ==> headless::started(args, web_admin, version) == Err::<
            StepView,
            Seq<char>,
        >("用法：dnsblackhole-service config <validate|export|apply> ..."@),
        args.len() > 2 && args[2] is Some && !(args.len() == 4 && (args[2] == Some("validate"@)
            || args[2] == Some("apply"@) || args[2] == Some("export"@))) ==> headless::started(
            args,
            web_admin,
            version,
        ) == Err::<StepView, Seq<char>>(
            "用法：dnsblackhole-service config <validate|export|apply> <文件|->"@,
        ),
{
    lemma_command_names();
    reveal_strlit("export");
    reveal_strlit("validate");
    reveal_strlit("apply");
    assert("export"@.len() == 6 && "validate"@.len() == 8 && "apply"@.len() == 5);
}

/// `system-dns` asks the service for its status or to take over, alone, and otherwise restores with
/// the options behind it.
pub proof fn law_system_dns_goes_by_its_operation(
    args: Seq<Option<Seq<char>>>,
    web_admin: bool,
    version: Seq<char>,
)
    requires
        args.len() >= 2,
        args[1] == Some("system-dns"@),
    ensures
        args.len() == 3 && args[2] == Some("status"@) ==> headless::started(
            args,
            web_admin,
            version,
        ) == Ok::<StepView, Seq<char>>(
            StepView::Call("get_linux_system_dns_status"@, "{}"@, TaskView::Print),
        ),
        args.len() == 3 && args[2] == Some("takeover"@) ==> headless::started(
            args,
            web_admin,
            version,
        ) == Ok::<StepView, Seq<char>>(
            StepView::Call("take_over_linux_system_dns"@, "{}"@, TaskView::Print),
        ),
        args.len() > 2 && args[2] == Some("restore"@) ==> headless::started(
            args,
            web_admin,
            version,
        ) == headless::restore_step(args, 3),
        args.len() == 2 || args[2] is None || (args[2] != Some("restore"@) && !(args.len() == 3 && (
        args[2] == Some("status"@) || args[2] == Some("takeover"@)))) ==> headless::started(
            args,
            web_admin,
            version,
        ) == Err::<StepView, Seq<char>>(
            "用法：dnsblackhole-service system-dns <status|takeover>\n\
      dnsblackhole-service system-dns restore [--offline [--keep-desired] [--data-dir <路径>]]"@,
        ),
{
    lemma_command_names();
    reveal_strlit("takeover");
    reveal_strlit("restore");
    assert("system-dns"@.len() == 10 && "status"@.len() == 6 && "takeover"@.len() == 8
        && "restore"@.len() == 7);
}

/// `web-auth` shows the state of the password, reads a new one from standard input, or resets it,
/// each alone.
pub proof fn law_web_auth_goes_by_its_operation(
    args: Seq<Option<Seq<char>>>,
    version: Seq<char>,
)
    requires
        args.len() >= 2,
        args[1] == Some("web-auth"@),
    ensures
        args.len() == 3 && args[2] == Some("status"@) ==> headless::started(args, true, version)
            == Ok::<StepView, Seq<char>>(
            StepView::Call("web_auth_status"@, "{}"@, TaskView::WebAuthStatus),
        ),
        args.len() == 3 && args[2] == Some("set-password"@) ==> headless::started(
            args,
            true,
            version,
        ) == Ok::<StepView, Seq<char>>(StepView::ReadPassword),
        args.len() == 3 && args[2] == Some("reset"@) ==> headless::started(args, true, version)
            == Ok::<StepView, Seq<char>>(
            StepView::Call("web_auth_reset"@, "{}"@, TaskView::PasswordReset),
        ),
        args.len() != 3 || !(args[2] == Some("status"@) || args[2] == Some("set-password"@)
            || args[2] == Some("reset"@)) ==> headless::started(args, true, version) == Err::<
            StepView,
            Seq<char>,
        >("用法：dnsblackhole-service web-auth <status|set-password|reset>"@),
{
    lemma_command_names();
    reveal_strlit("set-password");
    reveal_strlit("reset");
    assert("web-auth"@.len() == 8 && "status"@.len() == 6 && "set-password"@.len() == 12
        && "reset"@.len() == 5);
}

/// Any other command is refused by its name, with the help of this build.
pub proof fn law_other_commands_are_refused(
    args: Seq<Option<Seq<char>>>,
    web_admin: bool,
    version: Seq<char>,
    command: Seq<char>,
)
    requires
        args.len() >= 2,
        args[1] == Some(command),
        command != "serve"@,
        command != "status"@,
        command != "healthcheck"@,
        command != "start"@,
        command != "stop"@,
        command != "filters"@,
        command != "config"@,
        command != "system-dns"@,
        command != "web-auth"@ || !web_admin,
        command != "--help"@,
        command != "-h"@,
        command != "help"@,
        command != "--version"@,
        command != "-V"@,
    ensures
        headless::started(args, web_admin, version) == Err::<StepView, Seq<char>>(
            "未知命令："@ + command + "\n\n"@ + if web_admin {
                headless::WEB_HELP_TEXT@
            } else {
                headless::HELP_TEXT@
            },
        ),
{
}

/// Asking for help prints the help of this build, and asking for the version prints the version.
pub proof fn law_help_and_version(
    args: Seq<Option<Seq<char>>>,
    web_admin: bool,
    version: Seq<char>,
)
    requires
        args.len() >= 2,
    ensures
        args[1] == Some("--help"@) || args[1] == Some("-h"@) || args[1] == Some("help"@)
            ==> headless::started(args, web_admin, version) == Ok::<StepView, Seq<char>>(
            StepView::Done(
                if web_admin {
                    headless::WEB_HELP_TEXT@
                } else {
                    headless::HELP_TEXT@
                },
            ),
        ),
        args[1] == Some("--version"@) || args[1] == Some("-V"@) ==> headless::started(
            args,
            web_admin,
            version,
        ) == Ok::<StepView, Seq<char>>(
            StepView::Done("dnsblackhole-service "@ + version + "\n"@),
        ),
{
    lemma_command_names();
}

// ---------------------------------------------------------------------------
// What becomes of a reply
// ---------------------------------------------------------------------------

/// In the words of `status` the resolver runs exactly where the status has `"running": true`, and
/// running by itself is on exactly where the configuration has `"enabled": true`, whatever the
/// status says of that; an error that the status names, and only one that is not empty, follows.
pub proof fn law_status_shows_both_replies(
    status: Seq<char>,
    config: Seq<char>,
    result: Result<StepView, Seq<char>>,
)
    requires
        headless::resume_possible(TaskView::ConfigReply(false, status), config, result),
    ensures
        result == Ok::<StepView, Seq<char>>(
            StepView::Done(
                "服务：已连接\nDNS："@ + (if json::json_bool(status, "running"@) == Some(true) {
                    "运行中"@
                } else {
                    "已停止"@
                }) + "\n自动运行："@ + (if json::json_bool(config, "enabled"@) == Some(true) {
                    "启用"@
                } else {
                    "关闭"@
                }) + "\n"@ + (match json::json_str(status, "error"@) {
                    Some(error) => if error.len() > 0 {
                        "最近错误："@ + error + "\n"@
                    } else {
                        Seq::empty()
                    },
                    None => Seq::empty(),
                }),
            ),
        ),
{
    let shown = result->Ok_0->Done_0;
    let known = "服务：已连接\nDNS："@ + (if json::json_bool(status, "running"@) == Some(true) {
        "运行中"@
    } else {
        "已停止"@
    }) + "\n自动运行："@ + (if json::json_bool(config, "enabled"@) == Some(true) {
        "启用"@
    } else {
        "关闭"@
    }) + "\n"@;
    match json::json_str(status, "error"@) {
        Some(error) => {
            if error.len() > 0 {
                assert(shown =~= known + ("最近错误："@ + error + "\n"@));
            } else {
                assert(shown =~= known + Seq::empty());
            }
        },
        None => {
            assert(shown =~= known + Seq::empty());
        },
    }
}

/// The words of `status` say different things of different states: whether the resolver runs and
/// whether it runs by itself can be told from them.
pub proof fn law_status_words_tell_states_apart(
    first: (Seq<char>, Seq<char>),
    second: (Seq<char>, Seq<char>),
    shown: Seq<char>,
)
    requires
        headless::resume_possible(
            TaskView::ConfigReply(false, first.0),
            first.1,
            Ok(StepView::Done(shown)),
        ),
        headless::resume_possible(
            TaskView::ConfigReply(false, second.0),
            second.1,
            Ok(StepView::Done(shown)),
        ),
    ensures
        json::json_bool(first.0, "running"@) == Some(true) <==> json::json_bool(
            second.0,
            "running"@,
        ) == Some(true),
        json::json_bool(first.1, "enabled"@) == Some(true) <==> json::json_bool(
            second.1,
            "enabled"@,
        ) == Some(true),
{
    reveal_strlit("服务：已连接\nDNS：");
    reveal_strlit("运行中");
    reveal_strlit("已停止");
    reveal_strlit("\n自动运行：");
    reveal_strlit("启用");
    reveal_strlit("关闭");
    law_status_shows_both_replies(first.0, first.1, Ok(StepView::Done(shown)));
    law_status_shows_both_replies(second.0, second.1, Ok(StepView::Done(shown)));
    assert(shown[11] == '运' <==> json::json_bool(first.0, "running"@) == Some(true));
    assert(shown[11] == '运' <==> json::json_bool(second.0, "running"@) == Some(true));
    assert(shown[20] == '启' <==> json::json_bool(first.1, "enabled"@) == Some(true));
    assert(shown[20] == '启' <==> json::json_bool(second.1, "enabled"@) == Some(true));
}

/// What becomes of every other reply that does not name a moment.
pub proof fn law_replies_are_passed_on(
    task: TaskView,
    reply: Seq<char>,
    result: Result<StepView, Seq<char>>,
)
    requires
        headless::resume_possible(task, reply, result),
    ensures
        task matches TaskView::StatusReply(json_output) ==> result == Ok::<StepView, Seq<char>>(
            StepView::Call("get_config"@, "{}"@, TaskView::ConfigReply(json_output, reply)),
        ),
        task matches TaskView::ConfigReply(true, status) ==> result
            == match json::json_pretty(status) {
            Ok(written) => Ok::<StepView, Seq<char>>(StepView::Done(written + "\n"@)),
            Err(error) => Err("序列化状态失败："@ + error),
        },
        task is Print ==> result == match json::json_pretty(reply) {
            Ok(written) => Ok::<StepView, Seq<char>>(StepView::Done(written + "\n"@)),
            Err(error) => Err("序列化结果失败："@ + error),
        },
        task is FilterConfig ==> result == Ok::<StepView, Seq<char>>(
            StepView::Call("update_filters"@, "{\"config\":"@ + reply + "}"@, TaskView::Print),
        ),
        task matches TaskView::Export(path, true) ==> result == match json::json_pretty(reply) {
            Ok(written) => Ok::<StepView, Seq<char>>(StepView::Done(written + "\n"@)),
            Err(error) => Err("序列化配置失败："@ + error),
        },
        task matches TaskView::Export(path, false) ==> result == match json::json_pretty(reply) {
            Ok(written) => Ok::<StepView, Seq<char>>(StepView::WriteFile(path, written)),
            Err(error) => Err("序列化配置失败："@ + error),
        },
        task is Health ==> (result is Ok <==> json::json_bool(reply, "running"@) == Some(true)),
        task is Health && result is Ok ==> result->Ok_0 == StepView::Done(Seq::empty()),
        task is Health && result is Err ==> result->Err_0 == "DNS runtime 未运行"@,
        task is PasswordSet ==> result == Ok::<StepView, Seq<char>>(
            StepView::Done("已设置 Web 管理密码；此前登录的会话全部失效\n"@),
        ),
        task is PasswordReset ==> result == Ok::<StepView, Seq<char>>(
            StepView::Done(
                if json::json_bool(reply, "cleared"@) == Some(true) {
                    "已清除 Web 管理密码与全部会话；管理页面会回到首次设置状态\n"@
                } else {
                    "当前没有已设置的 Web 管理密码，无需清除\n"@
                },
            ),
        ),
{
    reveal_strlit("");
    assert(""@ =~= Seq::empty());
}

/// The words of `web-auth status` on a reply, with this line about the last change.
pub open spec fn web_auth_words(reply: Seq<char>, line: Seq<char>) -> Seq<char> {
    "Web 管理密码："@ + (if json::json_bool(reply, "configured"@) == Some(true) {
        "已设置"@
    } else {
        "未设置"@
    }) + "\n"@ + line + "当前有效会话："@ + text::decimal(
        match json::json_u64(reply, "active_sessions"@) {
            Some(sessions) => sessions as nat,
            None => 0,
        },
    ) + "\n"@
}

/// `web-auth status` shows whether there is a password, the moment of its last change as a date of
/// the machine's zone where the reply names its second and no such line otherwise, and how many
/// sessions are alive, in the number that the reply gives.
pub proof fn law_web_auth_status_shows_the_reply(
    reply: Seq<char>,
    result: Result<StepView, Seq<char>>,
)
    requires
        headless::resume_possible(TaskView::WebAuthStatus, reply, result),
    ensures
        match json::json_u64(reply, "updated_at"@) {
            Some(second) => exists|moment: Seq<char>| #[trigger]
                local_time::shown_possible(second, moment) && result == Ok::<StepView, Seq<char>>(
                    StepView::Done(web_auth_words(reply, "最近更新："@ + moment + "\n"@)),
                ),
            None => result == Ok::<StepView, Seq<char>>(
                StepView::Done(web_auth_words(reply, Seq::empty())),
            ),
        },
{
    let updated = choose|updated: Option<Seq<char>>|
        {
            &&& headless::updated_possible(json::json_u64(reply, "updated_at"@), updated)
            &&& result == #[trigger] headless::resumed(TaskView::WebAuthStatus, reply, updated)
        };
    let shown = result->Ok_0->Done_0;
    match json::json_u64(reply, "updated_at"@) {
        Some(second) => {
            let moment = updated->0;
            assert(local_time::shown_possible(second, moment));
            assert(shown =~= web_auth_words(reply, "最近更新："@ + moment + "\n"@));
        },
        None => {
            assert(shown =~= web_auth_words(reply, Seq::empty()));
        },
    }
}

/// What follows an import: a configuration is applied as it was read, or only reported valid.
pub proof fn law_imports_are_applied_or_reported(config: Seq<char>)
    ensures
        headless::config_imported(true, config) == StepView::Call(
            "save_config"@,
            "{\"config\":"@ + config + "}"@,
            TaskView::Print,
        ),
        headless::config_imported(false, config) == StepView::Done("配置有效\n"@),
{
}

/// The whole password goes to the service, as a JSON string.
pub proof fn law_the_whole_password_is_set(password: Seq<char>)
    ensures
        headless::password_params(password) == "{\"password\":"@ + json::json_string(password)
            + "}"@,
{
}

// ---------------------------------------------------------------------------
// Reading a password
// ---------------------------------------------------------------------------

/// The password that comes of the lines read is all of the first line but its line end; at a
/// terminal the second line has to be the same, and an empty one never counts.
pub proof fn law_the_entered_password_is_the_line(first: Seq<char>, second: Seq<char>)
    ensures
        ({
            let entered = text::trim_line_ends(first);
            let again = text::trim_line_ends(second);
            &&& headless::answered(PromptView::Piped, entered) == if entered.len() > 0 {
                Ok::<PromptStepView, Seq<char>>(PromptStepView::Password(entered))
            } else {
                Err("未从标准输入读到密码"@)
            }
            &&& headless::answered(PromptView::First, entered) == if entered.len() > 0 {
                Ok::<PromptStepView, Seq<char>>(PromptStepView::Ask(PromptView::Confirm(entered)))
            } else {
                Err("密码不能为空"@)
            }
            &&& headless::answered(PromptView::Confirm(entered), again) == if entered == again {
                Ok::<PromptStepView, Seq<char>>(PromptStepView::Password(entered))
            } else {
                Err("两次输入的密码不一致"@)
            }
            &&& entered == first.take(entered.len() as int)
            &&& forall|i: int|
                entered.len() <= i < first.len() ==> laws_of_text::ends_a_line(#[trigger] first[i])
        }),
{
    laws_of_text::law_line_ends_are_all_that_goes(first);
}

} // verus!
