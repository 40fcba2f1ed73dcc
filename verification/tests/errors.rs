use orksorksorks::errors::Error;
use orksorksorks::format::{green_string, red_string, yellow_string};
use orksorksorks::git::parse_branch_output;
use orksorksorks::output::{output_json, output_result, output_text, CommandResult};

#[test]
fn display_includes_source_and_message() {
    let err = Error::new("test_tag", "something broke");
    let displayed = err.to_string();
    assert!(displayed.contains("Error from test_tag"), "{displayed}");
    assert!(displayed.contains("something broke"), "{displayed}");
}

#[test]
fn display_is_heading_then_message() {
    let err = Error::new("io", "permission denied");
    assert_eq!(err.to_string(), "Error from io:\npermission denied");
}

#[test]
fn partial_eq() {
    let a = Error::new("x", "y");
    let b = Error::new("x", "y");
    let c = Error::new("x", "z");
    assert_eq!(a, b);
    assert_ne!(a, c);
}

#[test]
fn duplicate_keeps_fields() {
    let a = Error::new("x", "y");
    assert_eq!(a.duplicate(), a);
}

#[test]
fn green_string_is_plain() {
    assert_eq!(green_string("✓"), "✓");
}

#[test]
fn red_string_is_plain() {
    assert_eq!(red_string("error"), "error");
}

#[test]
fn yellow_string_is_plain() {
    assert_eq!(yellow_string("io"), "io");
}

#[test]
fn parse_branch_output_trims_trailing_newline() {
    let branch = parse_branch_output(true, "main\n", "").unwrap();
    assert_eq!(branch, "main");
}

#[test]
fn parse_branch_output_detached_head_errors() {
    let err = parse_branch_output(true, "", "").unwrap_err();
    assert_eq!(err.source, "git");
    assert!(err.message.contains("detached HEAD"), "{}", err.message);
}

#[test]
fn parse_branch_output_whitespace_only_is_detached() {
    let err = parse_branch_output(true, " \n\t", "").unwrap_err();
    assert_eq!(err.message, "not on a branch (detached HEAD)");
}

#[test]
fn parse_branch_output_nonzero_exit_uses_stderr() {
    let err = parse_branch_output(false, "", "fatal: not a git repository\n").unwrap_err();
    assert_eq!(err.source, "git");
    assert_eq!(err.message, "fatal: not a git repository");
}

#[test]
fn parse_branch_output_keeps_inner_slashes_and_spaces() {
    let branch = parse_branch_output(true, "  feature/foo bar \r\n", "").unwrap();
    assert_eq!(branch, "feature/foo bar");
}

#[test]
fn output_text_prints_data() {
    let r = output_text(&Ok("two".to_string()));
    assert_eq!(r.text, "two");
    assert!(!r.to_stderr);
}

#[test]
fn output_text_prints_error_to_stderr() {
    let r = output_text(&Err(Error::new("step", "no step named \"x\"")));
    assert!(r.to_stderr);
    assert_eq!(r.text, "\n\nError from step:\nno step named \"x\"");
}

#[test]
fn output_json_wraps_data() {
    let r = output_json(&Ok("line \"one\"\n".to_string()));
    assert_eq!(r.text, "{\"data\":\"line \\\"one\\\"\\n\"}");
    assert!(!r.to_stderr);
    let v: serde_json::Value = serde_json::from_str(&r.text).unwrap();
    assert_eq!(v["data"].as_str(), Some("line \"one\"\n"));
}

#[test]
fn output_json_wraps_error() {
    let r = output_json(&Err(Error::new("config:version", "bad")));
    assert_eq!(r.text, "{\"error\":{\"message\":\"bad\",\"source\":\"config:version\"}}");
    assert!(!r.to_stderr);
}

#[test]
fn output_result_follows_json_flag() {
    let cr = CommandResult { result: Err(Error::new("io", "x")), json: true };
    assert!(cr.failed());
    let r = output_result(&cr);
    assert!(!r.to_stderr);
    assert!(r.text.contains("\"source\":\"io\""));
    let cr = CommandResult { result: Ok("ok".to_string()), json: false };
    assert!(!cr.failed());
    assert_eq!(output_result(&cr).text, "ok");
}

#[test]
fn output_json_escapes_control_characters() {
    let r = output_json(&Err(Error::new("a\\b", "tab\there\u{1}\u{1f}\u{8}\u{c}\r/é")));
    assert_eq!(
        r.text,
        "{\"error\":{\"message\":\"tab\\there\\u0001\\u001f\\b\\f\\r/é\",\"source\":\"a\\\\b\"}}"
    );
    let v: serde_json::Value = serde_json::from_str(&r.text).unwrap();
    assert_eq!(v["error"]["message"].as_str(), Some("tab\there\u{1}\u{1f}\u{8}\u{c}\r/é"));
}

#[test]
fn output_text_error_starts_with_blank_lines() {
    let r = output_text(&Err(Error::new("git", "not on a branch (detached HEAD)")));
    assert!(r.to_stderr);
    assert_eq!(r.text, "\n\nError from git:\nnot on a branch (detached HEAD)");
}
