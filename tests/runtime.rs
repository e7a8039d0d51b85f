use snapshot_rotator::bash_shell::{exec, exec_without_log, OutputCapture, OutputStream};
use snapshot_rotator::error_handler::{handle_error, handle_fatal_error};
use snapshot_rotator::errors::{CustomError, CustomErrorKind};
use snapshot_rotator::logging::{format_message, log_outcome, write_step, FileAppender, InMemoryAppender, Logger, LoggingConfiguration};

fn config(max: u64) -> LoggingConfiguration {
    LoggingConfiguration { max_length: max, file_path: "/var/log/rot/log.txt".to_string() }
}

fn err(m: &str) -> Result<(), CustomError> {
    Err(CustomError::from_message(m))
}

fn message(r: Result<(), CustomError>) -> String {
    r.unwrap_err().kind.to_string()
}

#[test]
fn shell_script_wraps_the_command() {
    let q = exec("virsh list");
    assert!(q.log_output);
    assert_eq!(q.script(), "set -exu\nvirsh list\nexit $?;\n");
    let q = exec_without_log("ls -l");
    assert!(!q.log_output);
    assert_eq!(q.command, "ls -l");
    assert_eq!(q.script(), "set -exu\nls -l\nexit $?;\n");
}

#[test]
fn capture_keeps_each_stream_in_order() {
    let mut out = OutputCapture::new(OutputStream::Stdout, true);
    let mut err = OutputCapture::new(OutputStream::Stderr, true);
    assert_eq!(out.push_line("one"), Some("OUT | one".to_string()));
    assert_eq!(err.push_line("warn"), Some("ERR | warn".to_string()));
    assert_eq!(out.push_line("two"), Some("OUT | two".to_string()));
    assert_eq!(out.push_line(""), Some("OUT | ".to_string()));
    assert_eq!(out.text, "one\ntwo\n\n");
    assert_eq!(err.text, "warn\n");
    let lines: Vec<&str> = out.text.split('\n').collect();
    assert_eq!(lines, vec!["one", "two", "", ""]);
}

#[test]
fn capture_without_log_returns_nothing_to_log() {
    let mut out = OutputCapture::new(OutputStream::Stdout, false);
    assert_eq!(out.push_line("a"), None);
    assert_eq!(out.push_line("b"), None);
    assert_eq!(out.text, "a\nb\n");
}

#[test]
fn rotation_once_per_crossing() {
    let mut f = FileAppender::new(config(10), 0);
    assert!(!write_step(&mut f, 6));
    assert_eq!(f.file_length, 6);
    assert!(!write_step(&mut f, 6));
    assert_eq!(f.file_length, 12);
    assert!(write_step(&mut f, 4));
    assert_eq!(f.file_length, 4);
    assert!(!write_step(&mut f, 3));
    assert_eq!(f.file_length, 7);
    assert!(!write_step(&mut f, 3));
    assert!(write_step(&mut f, 1));
    assert_eq!(f.file_length, 1);
}

#[test]
fn rotation_begin_and_record() {
    let mut f = FileAppender::new(config(5), 5);
    assert!(f.must_roll());
    assert_eq!(f.file_length, 5);
    f.rolled();
    assert_eq!(f.file_length, 0);
    assert!(!f.must_roll());
    f.record_write(u64::MAX);
    f.record_write(1);
    assert_eq!(f.file_length, u64::MAX);
}

#[test]
fn logger_keeps_raw_messages_and_timestamps_lines() {
    let mut logger = Logger::new(config(100), 0);
    let w = logger.log("2020-01-02 03:04:05", "hello");
    assert_eq!(w.line, "2020-01-02 03:04:05 | hello");
    assert!(!w.to_stderr);
    let w = logger.elog("2020-01-02 03:04:06", "bad");
    assert!(w.to_stderr);
    assert_eq!(w.line, "2020-01-02 03:04:06 | bad");
    assert_eq!(logger.get_logs(), vec!["hello".to_string(), "bad".to_string()]);
    assert_eq!(format_message("t", ""), "t | ");
    let mut m = InMemoryAppender::new();
    m.add_entry("x");
    assert_eq!(m.get_logs(), vec!["x".to_string()]);
}

#[test]
fn log_outcome_prefers_the_file_failure() {
    assert!(log_outcome(Ok(()), Ok(()), Ok(())).is_ok());
    assert_eq!(message(log_outcome(err("console"), err("memory"), err("file"))), "file");
    assert_eq!(message(log_outcome(err("console"), err("memory"), Ok(()))), "console");
    assert_eq!(message(log_outcome(Ok(()), err("memory"), Ok(()))), "memory");
}

#[test]
fn crash_report_failure_surfaces_after_a_good_log() {
    assert_eq!(message(handle_error(Ok(()), err("sentry down"))), "sentry down");
    assert_eq!(message(handle_error(err("disk full"), err("sentry down"))), "disk full");
    assert!(handle_error(Ok(()), Ok(())).is_ok());
    assert_eq!(message(handle_fatal_error(handle_error(Ok(()), err("sentry down")), Ok(()))), "sentry down");
    assert_eq!(message(handle_fatal_error(Ok(()), err("smtp"))), "smtp");
}

#[test]
fn error_constructors_keep_their_kind() {
    let e = CustomError::user_error("Error: bad");
    assert!(e.is_user_error());
    assert_eq!(e.kind, CustomErrorKind::UserError("Error: bad".to_string()));
    let e = CustomError::from_panic_message("boom", backtrace::Backtrace::new());
    assert!(!e.is_user_error());
    assert_eq!(e.kind.to_string(), "boom");
    let e = CustomError::from_kind(CustomErrorKind::IoError("no such file".to_string()));
    assert_eq!(e.kind.to_string(), "no such file");
    assert_eq!(e.kind.kind_name(), "IoError");
    assert_eq!(CustomErrorKind::UserError("x".to_string()).kind_name(), "UserError");
    assert_eq!(CustomErrorKind::RecvError(String::new()).kind_name(), "RecvError");
}
