use smart_shell::cli::{classify_input, InputAction};
use smart_shell::text::{decimal_string, signed_decimal_string, trim_str};
use smart_shell::tool::{Tool, ToolResult};

#[test]
fn exit_status_texts() {
    assert_eq!(ToolResult::from_output(Some(0), b"", b"").status, "0");
    assert_eq!(ToolResult::from_output(Some(127), b"", b"").status, "127");
    assert_eq!(ToolResult::from_output(Some(-1), b"", b"").status, "-1");
    assert_eq!(ToolResult::from_output(Some(i32::MIN), b"", b"").status, "-2147483648");
    assert_eq!(ToolResult::from_output(None, b"", b"").status, "Terminated by signal");
}

#[test]
fn output_is_decoded_lossily() {
    let r = ToolResult::from_output(Some(1), "héllo\n".as_bytes(), &[0x66, 0xff, 0x6f]);
    assert_eq!(r.output, "héllo\n");
    assert_eq!(r.error, "f\u{fffd}o");
}

#[test]
fn launch_failure_report() {
    let r = ToolResult::launch_failed("No such file or directory".to_string());
    assert_eq!(r.status, "Execution failed");
    assert_eq!(r.output, "");
    assert_eq!(r.error, "No such file or directory");
}

#[test]
fn dangerous_commands_are_refused() {
    for c in ["rm -rf /", "  rm -rf /\n", "rm -rf / --no-preserve-root", "rm -rf /*", "rm -fr /", ":(){ :|:& };:"] {
        let r = Tool::screen_command(c).expect(c);
        assert_eq!(r.status, "Blocked");
        assert_eq!(r.output, "");
        assert_eq!(r.error, "Command refused: it is on the blacklist of dangerous commands");
    }
}

#[test]
fn ordinary_commands_pass() {
    for c in ["ls -la", "rm -rf /tmp/build", "rm -rf ./", "echo rm -rf /", ""] {
        assert!(Tool::screen_command(c).is_none(), "{}", c);
    }
}

#[test]
fn prompt_lines() {
    assert!(matches!(classify_input("exit\n"), InputAction::Exit));
    assert!(matches!(classify_input("  QuIt "), InputAction::Exit));
    assert!(matches!(classify_input(" \r\n"), InputAction::Skip));
    match classify_input("  list files\n") {
        InputAction::Request(s) => assert_eq!(s, "list files"),
        _ => panic!("expected a request"),
    }
    match classify_input("exit now") {
        InputAction::Request(s) => assert_eq!(s, "exit now"),
        _ => panic!("expected a request"),
    }
}

#[test]
fn decimal_rendering() {
    assert_eq!(decimal_string(0), "0");
    assert_eq!(decimal_string(1_000_000), "1000000");
    assert_eq!(decimal_string(u64::MAX), u64::MAX.to_string());
    assert_eq!(signed_decimal_string(-45), "-45");
    assert_eq!(signed_decimal_string(i32::MAX), "2147483647");
}

#[test]
fn trimming_matches_std() {
    for s in ["", "  a b  ", "\u{3000}x\u{2028}", "\t\n", "é "] {
        assert_eq!(trim_str(s), s.trim());
    }
}
