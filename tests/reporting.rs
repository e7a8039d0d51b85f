use snapshot_rotator::app_config::{find_vm_config, AppConfig, EmailConfig, VmConfig};
use snapshot_rotator::cli::{text_less_exec, CliRunner};
use snapshot_rotator::bash_shell::CommandResult;
use snapshot_rotator::commands::{clear_cache_command, create_shapshot_command, list_shapshot_command, list_shapshot_lines, snapshot_line, snapshot_name};
use snapshot_rotator::custom_sentry_client::{dsn_from_parts, parse_dsn, CustomDsn, CustomSentryClient};
use snapshot_rotator::do_try::run;
use snapshot_rotator::email::{error_report_subject, send_mail, success_report_subject, EmailClient, EmailMessage};
use snapshot_rotator::errors::{CustomError, CustomErrorKind};
use snapshot_rotator::extensions::{OptionExtensions, ResultExtensions, ResultExtensionsReplaceError};
use snapshot_rotator::snapshot::VmSnapshot;
use snapshot_rotator::snapshot_helper::{ClearCacheAction, ClearCachePhase};
use snapshot_rotator::stacktrace::{get_stacktrace, is_sys_function, parse_crate_name, StackFrame};
use snapshot_rotator::text::{parse_i64, StringExtensions};

fn app_config() -> AppConfig {
    AppConfig {
        hostname: "host1".to_string(),
        sentry_dsn: "https://key@sentry.example.com/2".to_string(),
        email_config: EmailConfig {
            notification_emails: vec!["a@x.org".to_string(), "b@x.org".to_string()],
            smtp_username: "user".to_string(),
            smtp_password: "SECRET-REDACTED".to_string(),
            smtp_host: "smtp.x.org".to_string(),
            smtp_port: 587,
        },
        snapshot_config: Some(vec![
            ("web".to_string(), VmConfig { vm_name: "web-vm".to_string(), min_snapshot_count: 3 }),
            ("db".to_string(), VmConfig { vm_name: "db".to_string(), min_snapshot_count: 1 }),
        ]),
    }
}

#[test]
fn text_helpers() {
    assert_eq!("a/b/c".last_index_of('/'), Some(3));
    assert_eq!("abc".last_index_of('/'), None);
    assert_eq!("".last_index_of('/'), None);
    assert_eq!(String::from("/x").last_index_of('/'), Some(0));
    assert_eq!("7".pad_left(3, '0'), "007");
    assert_eq!("1234".pad_left(3, '0'), "1234");
    assert_eq!("ab".pad_right(4, '.'), "ab..");
    assert_eq!(String::from("ab").pad_right(1, '.'), "ab");
    assert_eq!(String::from("x").pad_left(2, ' '), " x");
}

#[test]
fn integers_read_as_std_reads_them() {
    for s in ["0", "42", "-42", "+42", "007", "9223372036854775807", "-9223372036854775808", "", "-", "+", "1 ", "9223372036854775808", "99999999999999999999", "-9223372036854775809", "1e3", "٣"] {
        assert_eq!(parse_i64(s), s.parse::<i64>().ok(), "{}", s);
    }
}

#[test]
fn vm_lookup() {
    let c = app_config();
    let vm = find_vm_config(&c, "web").unwrap();
    assert_eq!(vm.vm_name, "web-vm");
    assert_eq!(vm.min_snapshot_count, 3);
    let e = find_vm_config(&c, "mail").unwrap_err();
    assert_eq!(e.kind, CustomErrorKind::ErrorMessage("``xdxd-snapshot-rotator` not configured for vm `mail`".to_string()));
    let mut none = app_config();
    none.snapshot_config = None;
    assert!(find_vm_config(&none, "web").is_err());
}

#[test]
fn commands_use_the_configured_machine() {
    let c = app_config();
    let (run, first) = clear_cache_command(&c, "web").unwrap();
    assert_eq!(run.vm_name, "web-vm");
    assert_eq!(run.min_snapshot_count, 3);
    assert_eq!(run.phase, ClearCachePhase::Listing);
    match first {
        ClearCacheAction::RunCommand(q) => assert_eq!(q.command, "virsh snapshot-list --domain web-vm --internal"),
        _ => panic!("no listing"),
    }
    assert!(clear_cache_command(&c, "nope").is_err());
    let q = list_shapshot_command(&c, "db").unwrap();
    assert_eq!(q.command, "virsh snapshot-list --domain db --internal");
    assert!(!q.log_output);
    let (vm, q) = create_shapshot_command(&c, "web", "2019-05-01_10-00-00", 1556704800).unwrap();
    assert_eq!(vm.vm_name, "web-vm");
    assert_eq!(q.command, "virsh snapshot-create-as web-vm --name web-vm.2019-05-01_10-00-00.1556704800");
    assert!(q.log_output);
    assert!(create_shapshot_command(&c, "x", "t", 1).is_err());
    assert_eq!(snapshot_name("a", "t", -5), "a.t.-5");
    assert_eq!(snapshot_name("a", "t", i64::MIN), "a.t.-9223372036854775808");
}

#[test]
fn listed_snapshot_shows_utc_time() {
    let s = VmSnapshot { vm_name: "web".to_string(), date: 1431648000, snapsnot_name: "web.a.1431648000".to_string() };
    assert_eq!(snapshot_line(&s), "web 2015-05-15 00:00:00 UTC");
    let far = VmSnapshot { vm_name: "web".to_string(), date: i64::MAX, snapsnot_name: "w".to_string() };
    assert_eq!(snapshot_line(&far), "web 9223372036854775807");
}

#[test]
fn dsn_parts() {
    let d = dsn_from_parts("https", Some("sentry.io"), None, "/path/to/42", "abc").unwrap();
    assert_eq!(
        d,
        CustomDsn {
            scheme: "https".to_string(),
            domain: "sentry.io".to_string(),
            port: 80,
            path: "/path/to".to_string(),
            project_id: "42".to_string(),
            public_key: "abc".to_string(),
        }
    );
    let d = dsn_from_parts("http", Some("h"), Some(9000), "/7", "k").unwrap();
    assert_eq!((d.path.as_str(), d.project_id.as_str(), d.port), ("", "7", 9000));
    let d = dsn_from_parts("x", Some("h"), None, "abc", "k").unwrap();
    assert_eq!((d.path.as_str(), d.project_id.as_str()), ("", "bc"));
    let d = dsn_from_parts("x", Some("h"), None, "", "k").unwrap();
    assert_eq!((d.path.as_str(), d.project_id.as_str()), ("", ""));
    let e = dsn_from_parts("https", None, None, "/1", "k").unwrap_err();
    assert_eq!(e.kind, CustomErrorKind::ErrorMessage("Invalid dsn domain.".to_string()));
}

#[test]
fn dsn_from_url() {
    let d = parse_dsn("https://pub123@sentry.example.com:8443/sub/77").unwrap();
    assert_eq!(d.scheme, "https");
    assert_eq!(d.domain, "sentry.example.com");
    assert_eq!(d.port, 8443);
    assert_eq!(d.path, "/sub");
    assert_eq!(d.project_id, "77");
    assert_eq!(d.public_key, "pub123");
    assert!(matches!(parse_dsn("not a url").unwrap_err().kind, CustomErrorKind::UrlParseError(_)));
    assert_eq!(parse_dsn("https://k@127.0.0.1/1").unwrap_err().kind, CustomErrorKind::ErrorMessage("Invalid dsn domain.".to_string()));
}

#[test]
fn sentry_endpoint_and_header() {
    let client = CustomSentryClient::new("http://pk@errors.example.org:9000/3").unwrap();
    assert_eq!(client.store_url(), "http://errors.example.org:9000/api/3/store/");
    assert_eq!(
        client.auth_header(1556704800123),
        "Sentry sentry_version=7, sentry_client=Custom Sentry Client/1.0.0, sentry_timestamp=1556704800123, sentry_key=pk"
    );
    let client = CustomSentryClient::new("https://k@s.io/a/b/0").unwrap();
    assert_eq!(client.store_url(), "https://s.io:80/a/b/api/0/store/");
    assert!(CustomSentryClient::new("::").is_err());
}

#[test]
fn crate_names_from_function_names() {
    assert_eq!(parse_crate_name("snapshot_rotator::main"), Some("snapshot_rotator".to_string()));
    assert_eq!(parse_crate_name("_<std..io..Error as core..fmt..Debug>::fmt"), Some("std".to_string()));
    assert_eq!(parse_crate_name("abc..def"), Some("abc".to_string()));
    assert_eq!(parse_crate_name("_<foo"), None);
    assert_eq!(parse_crate_name("<foo as bar>::x"), None);
    assert_eq!(parse_crate_name("nocolons"), None);
    assert_eq!(parse_crate_name("::x"), None);
    assert_eq!(parse_crate_name("a:b::c"), None);
}

#[test]
fn system_functions() {
    assert!(is_sys_function("std::panicking::begin_panic"));
    assert!(is_sys_function("<core::result::Result<T,E>>::unwrap"));
    assert!(is_sys_function("_<alloc..vec..Vec<T>>::push"));
    assert!(is_sys_function("__rust_maybe_catch_panic"));
    assert!(is_sys_function("sentry..Hub..capture"));
    assert!(!is_sys_function("snapshot_rotator::main"));
    assert!(!is_sys_function("std"));
    assert!(!is_sys_function("mystd::x"));
}

fn frame(f: Option<&str>, p: Option<&str>, a: Option<bool>) -> StackFrame {
    StackFrame { function: f.map(|s| s.to_string()), package: p.map(|s| s.to_string()), in_app: a }
}

#[test]
fn stacktrace_annotation() {
    let conv = "<snapshot_rotator::errors::CustomError as core::convert::From";
    let frames = vec![
        frame(Some("std::rt::lang_start"), None, None),
        frame(Some("<snapshot_rotator::errors::CustomError as core::convert::From<std::io::Error>>::from"), None, None),
        frame(Some("snapshot_rotator::main"), None, None),
        frame(None, None, None),
        frame(Some("app::x"), Some("given"), Some(false)),
    ];
    let r = get_stacktrace(&frames, conv);
    assert_eq!(
        r,
        vec![
            frame(Some("std::rt::lang_start"), Some("std"), Some(false)),
            frame(Some("snapshot_rotator::main"), Some("snapshot_rotator"), Some(true)),
            frame(None, None, Some(true)),
            frame(Some("app::x"), Some("given"), Some(false)),
        ]
    );
    let marked = vec![frame(Some("a::b"), None, Some(true)), frame(Some("c::d"), None, None)];
    assert_eq!(
        get_stacktrace(&marked, conv),
        vec![frame(Some("a::b"), Some("a"), Some(true)), frame(Some("c::d"), Some("c"), None)]
    );
}

#[test]
fn commands_register_and_resolve() {
    let mut cli: CliRunner<u32> = CliRunner::new();
    let e = cli.find_command(Some("list")).unwrap_err();
    assert_eq!(e.kind, CustomErrorKind::UserError("Please provide a valid command. Available commands: ".to_string()));
    cli.register_command("list", 1);
    cli.register_command("clear-cache", 2);
    cli.register_command("create", 3);
    cli.register_command("config", 4);
    cli.register_command("list", 5);
    assert_eq!(cli.names, vec!["clear-cache", "config", "create", "list"]);
    assert_eq!(cli.find_command(Some("LIST")).unwrap(), &5);
    assert_eq!(cli.find_command(Some("Create")).unwrap(), &3);
    assert_eq!(cli.find_command_lowered("config").unwrap(), &4);
    let e = cli.find_command(Some("prune")).unwrap_err();
    assert!(e.is_user_error());
    assert_eq!(e.kind.to_string(), "Please provide a valid command. Available commands: clear-cache, config, create, list");
    assert_eq!(cli.find_command(None).unwrap_err().kind.to_string(), "Please provide a valid command. Available commands: clear-cache, config, create, list");
    assert!(text_less_exec("ab", "abc"));
    assert!(!text_less_exec("b", "abc"));
    assert!(!text_less_exec("a", "a"));
}

#[test]
fn email_composition() {
    let c = app_config();
    assert_eq!(error_report_subject("host1"), "[FAILURE] xdxd-snapshot-rotator | An error occurred on `host1`.");
    assert_eq!(
        success_report_subject("web-vm", "host1"),
        "[SUCCESS] xdxd-snapshot-rotator | Snapshot was created for vm `web-vm` on host `host1`."
    );
    let (client, message) = send_mail(&c, "subj", "<p>body</p>");
    assert_eq!(client, EmailClient::new("user", "SECRET-REDACTED", "smtp.x.org", 587));
    assert_eq!(message, EmailMessage::new(vec!["a@x.org".to_string(), "b@x.org".to_string()], "subj", "<p>body</p>"));
}

#[test]
fn finally_runs_and_keeps_the_first_failure() {
    let r = run(|| Ok::<u32, CustomError>(7)).finally(|| Ok(()));
    assert_eq!(r.unwrap(), 7);
    let r = run(|| Ok::<u32, CustomError>(7)).finally(|| Err(CustomError::from_message("cleanup")));
    assert_eq!(r.unwrap_err().kind.to_string(), "cleanup");
    let ran = std::cell::Cell::new(false);
    let r = run(|| Err::<u32, CustomError>(CustomError::from_message("work"))).finally(|| {
        ran.set(true);
        Err(CustomError::from_message("cleanup"))
    });
    assert!(ran.get());
    assert_eq!(r.unwrap_err().kind.to_string(), "work");
}

#[test]
fn option_and_result_helpers() {
    assert_eq!(Some(3).or_error("none").unwrap(), 3);
    assert_eq!(None::<u8>.or_error("none").unwrap_err().kind.to_string(), "none");
    assert_eq!(None::<u8>.unwrap_or_else_result(|| Ok(9)).unwrap(), 9);
    assert_eq!(Some(1u8).unwrap_or_else_result(|| Ok(9)).unwrap(), 1);
    let r: Result<u8, CustomError> = Ok(2);
    assert_eq!(r.map_result(|x| Ok(x + 1)).unwrap(), 3);
    let r: Result<u8, CustomError> = Err(CustomError::from_message("first"));
    assert_eq!(r.map_result(|x| Ok(x + 1)).unwrap_err().kind.to_string(), "first");
    let r: Result<u8, ()> = Err(());
    assert_eq!(r.on_error("replaced").unwrap_err().kind.to_string(), "replaced");
    let r: Result<u8, ()> = Ok(4);
    assert_eq!(r.on_error("replaced").unwrap(), 4);
}

#[test]
fn option_map_helpers() {
    assert_eq!(OptionExtensions::map(&Some(3u8), |x: &u8| *x * 2), Some(6));
    assert_eq!(OptionExtensions::map(&None::<u8>, |x: &u8| *x * 2), None);
    assert_eq!(OptionExtensions::map_result(&Some(3u8), |x: &u8| Ok(*x + 1)).unwrap(), Some(4));
    assert_eq!(OptionExtensions::map_result(&None::<u8>, |x: &u8| Ok(*x + 1)).unwrap(), None);
    let failed = OptionExtensions::map_result(&Some(3u8), |_: &u8| Err::<u8, CustomError>(CustomError::from_message("bad")));
    assert_eq!(failed.unwrap_err().kind.to_string(), "bad");
    let r: Result<u8, ()> = Err(());
    let e = r.replace_error(|| CustomError::user_error("swap")).unwrap_err();
    assert_eq!(e.kind, CustomErrorKind::UserError("swap".to_string()));
    let r: Result<u8, ()> = Ok(1);
    assert_eq!(r.replace_error(|| CustomError::user_error("swap")).unwrap(), 1);
}

#[test]
fn list_command_lines() {
    let listing = " Name  Time\n----\n web.a.1431648000 x\n junk\n db.b.86400 x\n";
    let r = CommandResult::from_exit("virsh snapshot-list --domain web --internal", Some(0), listing.to_string(), String::new());
    assert_eq!(
        list_shapshot_lines(r).unwrap(),
        vec!["web 2015-05-15 00:00:00 UTC".to_string(), "db 1970-01-02 00:00:00 UTC".to_string()]
    );
    let r = CommandResult::from_exit("virsh l", None, String::new(), String::new());
    assert_eq!(
        list_shapshot_lines(r).unwrap_err().kind.to_string(),
        "A command exited with a non 0 exit code or with a signal. 'virsh l'"
    );
}

#[test]
fn configured_names_are_unique() {
    let mut c = app_config();
    assert!(c.has_unique_names());
    c.snapshot_config.as_mut().unwrap().push(("web".to_string(), VmConfig { vm_name: "other".to_string(), min_snapshot_count: 0 }));
    assert!(!c.has_unique_names());
    assert_eq!(find_vm_config(&c, "web").unwrap().vm_name, "web-vm");
    c.snapshot_config = None;
    assert!(c.has_unique_names());
}
