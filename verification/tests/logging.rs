use lazynote_core::logging::{check_same_config, logging_config, LoggingConfig};
use lazynote_core::logging::{
    build_mode, check_log_dir, default_log_level, normalize_level, normalize_log_dir,
    sanitize_message,
};

#[test]
fn normalize_level_accepts_known_values() {
    assert_eq!(
        normalize_level("INFO").expect("INFO should normalize"),
        "info"
    );
    assert_eq!(
        normalize_level(" warning ").expect("warning should normalize"),
        "warn"
    );
}

#[test]
fn normalize_log_dir_rejects_relative_path() {
    let error = normalize_log_dir("logs/dev").expect_err("relative paths must be rejected");
    assert!(error.contains("absolute"));
}

#[test]
fn sanitize_message_removes_newlines_and_truncates() {
    let sanitized = sanitize_message("line1\nline2\rline3", 8);
    assert!(!sanitized.contains('\n'));
    assert!(!sanitized.contains('\r'));
    assert!(sanitized.ends_with("..."));
}

#[test]
fn sanitize_message_gives_the_exact_text() {
    assert_eq!(sanitize_message("line1\nline2\rline3", 8), "line1 li...");
    assert_eq!(sanitize_message("a\nb", 3), "a b");
    assert_eq!(sanitize_message("a\nb", 10), "a b");
    assert_eq!(sanitize_message("abc", 0), "...");
    assert_eq!(sanitize_message("", 0), "");
}

#[test]
fn normalize_level_rejects_unknown_level_with_message() {
    let err = normalize_level(" Loud ").expect_err("unknown level");
    assert_eq!(
        err,
        "unsupported log level `loud`; expected trace|debug|info|warn|error"
    );
    assert_eq!(normalize_level("TRACE").unwrap(), "trace");
    assert_eq!(normalize_level("Debug").unwrap(), "debug");
    assert_eq!(normalize_level("warn").unwrap(), "warn");
    assert_eq!(normalize_level("eRRor").unwrap(), "error");
}

#[test]
fn log_dir_rules() {
    assert_eq!(
        normalize_log_dir("   ").expect_err("blank"),
        "log_dir cannot be empty"
    );
    assert_eq!(
        check_log_dir(" logs/dev ", false).expect_err("relative"),
        "log_dir must be an absolute path, got `logs/dev`"
    );
    assert_eq!(check_log_dir(" /var/log ", true).unwrap(), "/var/log");
}

#[test]
fn default_levels_by_build_mode() {
    assert_eq!(default_log_level(true), "debug");
    assert_eq!(default_log_level(false), "info");
    assert_eq!(build_mode(true), "debug");
    assert_eq!(build_mode(false), "release");
}

#[test]
fn init_logging_rejects_empty_log_dir() {
    let error = logging_config("info", "").unwrap_err();
    assert!(!error.is_empty());
    assert_eq!(error, "log_dir cannot be empty");
}

#[test]
fn init_logging_rejects_unsupported_level() {
    let error = logging_config("verbose", "tmp/logs").unwrap_err();
    assert!(!error.is_empty());
    assert_eq!(
        error,
        "unsupported log level `verbose`; expected trace|debug|info|warn|error"
    );
}

#[test]
fn a_second_initialization_must_ask_for_the_same() {
    assert_eq!(check_same_config(true, "/var/log/a", "/var/log/a/", "info", "info"), Ok(()));
    let level_error = check_same_config(true, "/var/log/a", "/var/log/a", "info", "debug").unwrap_err();
    assert!(level_error.contains("refusing to switch"));
    assert_eq!(
        level_error,
        "logging already initialized with level `info`; refusing to switch to `debug`"
    );
    let dir_error = check_same_config(false, "/var/log/a", "/var/log/b", "info", "debug").unwrap_err();
    assert!(dir_error.contains("refusing to switch"));
    assert_eq!(
        dir_error,
        "logging already initialized at `/var/log/a`; refusing to switch to `/var/log/b`"
    );
}

#[test]
fn what_is_asked_of_the_logger_is_read_level_first() {
    assert!(logging_config("loud", "").unwrap_err().starts_with("unsupported log level"));
    let error = logging_config(" WARNING ", "relative/dir").unwrap_err();
    assert_eq!(error, "log_dir must be an absolute path, got `relative/dir`");
    let absolute = std::path::Path::new("/var/log/lazynote").is_absolute();
    let read = logging_config(" WARNING ", " /var/log/lazynote ");
    if absolute {
        assert_eq!(
            read,
            Ok(LoggingConfig {
                level: "warn",
                log_dir: "/var/log/lazynote".to_string(),
            })
        );
    } else {
        assert!(read.unwrap_err().contains("absolute"));
    }
}
