use cdn::colors::{AnsiCode, Colorize, StyledText};
use cdn::error::{DatabaseConnectionError, DatabaseError};
use cdn::get_extension_from_filename;
use cdn::hash::{hash_password, verify_password};
use cdn::log_format::{format_log, LogLevel};
use cdn::Response;

#[test]
fn escape_codes_are_exact() {
    assert_eq!(AnsiCode::Reset.escape_code(), "\x1b[0m");
    assert_eq!(AnsiCode::Red.escape_code(), "\x1b[38;2;255;85;85m");
    assert_eq!(AnsiCode::Green.escape_code(), "\x1b[38;2;80;250;123m");
    assert_eq!(AnsiCode::Yellow.escape_code(), "\x1b[38;2;241;250;140m");
    assert_eq!(AnsiCode::Purple.escape_code(), "\x1b[38;2;189;147;249m");
    assert_eq!(AnsiCode::Cyan.escape_code(), "\x1b[38;2;139;233;253m");
    assert_eq!(AnsiCode::Gray.escape_code(), "\x1b[38;2;136;136;136m");
    assert_eq!(AnsiCode::Bold.escape_code(), "\x1b[1m");
    assert_eq!(AnsiCode::Underline.escape_code(), "\x1b[4m");
}

#[test]
fn styled_text_renders_styles_value_reset() {
    let styled = "Error".red().bold();
    assert_eq!(styled.render(), "\x1b[38;2;255;85;85m\x1b[1mError\x1b[0m");
}

#[test]
fn styled_text_chains_in_insertion_order() {
    let warning = "Warning".yellow().bold().underline();
    assert_eq!(
        warning.render(),
        "\x1b[38;2;241;250;140m\x1b[1m\x1b[4mWarning\x1b[0m"
    );
}

#[test]
fn styled_text_new_applies_one_style() {
    let styled = StyledText::new(String::from("Hello"), AnsiCode::Cyan);
    assert_eq!(styled.render(), "\x1b[38;2;139;233;253mHello\x1b[0m");
}

#[test]
fn format_log_info_line() {
    let line = format_log("10:11:12 2024-05-06", LogLevel::Info, "server started");
    assert_eq!(
        line,
        "[\x1b[38;2;136;136;136m10:11:12 2024-05-06\x1b[0m \x1b[38;2;80;250;123mINFO\x1b[0m] \u{203A} \x1b[38;2;136;136;136mserver started\x1b[0m"
    );
}

#[test]
fn format_log_error_line() {
    let line = format_log("00:00:00 2024-01-01", LogLevel::Error, "boom");
    assert_eq!(
        line,
        "[\x1b[38;2;136;136;136m00:00:00 2024-01-01\x1b[0m \x1b[38;2;255;85;85m\x1b[1mERROR\x1b[0m] \u{203A} \x1b[38;2;136;136;136mboom\x1b[0m"
    );
}

#[test]
fn format_log_levels_have_distinct_tags() {
    let warn = format_log("t", LogLevel::Warn, "m");
    let debug = format_log("t", LogLevel::Debug, "m");
    let trace = format_log("t", LogLevel::Trace, "m");
    assert!(warn.contains("\x1b[38;2;241;250;140m\x1b[1mWARN\x1b[0m"));
    assert!(debug.contains("\x1b[38;2;189;147;249mDEBUG\x1b[0m"));
    assert!(trace.contains("\x1b[38;2;139;233;253mTRACE\x1b[0m"));
}

#[test]
fn extension_of_simple_filenames() {
    assert_eq!(get_extension_from_filename("foo.txt"), Some("txt"));
    assert_eq!(get_extension_from_filename("archive.tar.gz"), Some("gz"));
    assert_eq!(get_extension_from_filename("README"), None);
}

#[test]
fn extension_respects_path_components() {
    assert_eq!(get_extension_from_filename("a/b.c.d"), Some("d"));
    assert_eq!(get_extension_from_filename("dir.x/name"), None);
    assert_eq!(get_extension_from_filename("dir/.hidden"), None);
}

#[test]
fn extension_edge_cases() {
    assert_eq!(get_extension_from_filename(".bashrc"), None);
    assert_eq!(get_extension_from_filename(".."), None);
    assert_eq!(get_extension_from_filename("a."), Some(""));
    assert_eq!(get_extension_from_filename(""), None);
}

#[test]
fn hash_embeds_salt_and_verifies() {
    let stored = hash_password("p", 5);
    assert_eq!(stored.chars().count(), 33);
    assert_ne!(stored, "p");
    assert!(verify_password("p", stored.as_str()));
    assert!(!verify_password("q", stored.as_str()));
}

#[test]
fn hashes_differ_across_salts() {
    let a = hash_password("same", 1);
    let b = hash_password("same", 2);
    assert_ne!(a, b);
}

#[test]
fn verify_rejects_malformed_stored_values() {
    assert!(!verify_password("p", ""));
    assert!(!verify_password("p", "plaintext"));
}

#[test]
fn error_kinds_are_distinct() {
    let nf = DatabaseError::ModelNotFound("user");
    let q = DatabaseError::DatabaseQuery(String::from("io"));
    let c = DatabaseError::DatabaseConnectionError(DatabaseConnectionError::ConnectionError(
        String::from("refused"),
    ));
    let mg = DatabaseError::DatabaseConnectionError(DatabaseConnectionError::MigrateError(
        String::from("conflict"),
    ));
    assert_ne!(nf, q);
    assert_ne!(q, c);
    assert_ne!(c, mg);
}

#[test]
fn response_envelope_holds_payload() {
    let r = Response { status: 200, message: String::from("ok"), data: Some(7) };
    assert_eq!(r.status, 200);
    assert_eq!(r.message, "ok");
    assert_eq!(r.data, Some(7));
}

#[test]
fn error_messages_match_their_kinds() {
    assert_eq!(
        DatabaseError::ModelNotFound("user").message(),
        "No user found with that query."
    );
    assert_eq!(DatabaseError::DatabaseQuery(String::from("broken pipe")).message(), "broken pipe");
    assert_eq!(
        DatabaseError::DatabaseConnectionError(DatabaseConnectionError::ConnectionError(
            String::from("refused")
        ))
        .message(),
        "refused"
    );
    assert_eq!(
        DatabaseConnectionError::MigrateError(String::from("conflict")).message(),
        "conflict"
    );
}
