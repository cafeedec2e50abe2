use xcopr::subprocess::exit_failure;
use xcopr::subprocess::shell_invocation;
use xcopr::subprocess::subprocess_failure;
use xcopr::subprocess::Stream;
use xcopr::subprocess::EXIT_FAILURE;
use xcopr::text::chars_of;
use xcopr::text::decimal;
use xcopr::XcoprError;

#[test]
fn shell_is_called_in_strict_mode() {
    let invocation = shell_invocation("cat /tmp/a".to_string());
    assert_eq!(invocation.program, "sh");
    assert_eq!(invocation.arguments, vec!["-eu", "-c", "cat /tmp/a"]);
    assert_eq!(invocation.stdin, Stream::Closed);
    assert_eq!(invocation.stdout, Stream::Captured);
    assert_eq!(invocation.stderr, Stream::Captured);
}

#[test]
fn exit_code_zero_is_no_failure() {
    assert_eq!(exit_failure(Some(0), "true"), None);
}

#[test]
fn other_exit_codes_are_failures() {
    assert_eq!(
        exit_failure(Some(3), "exit 3"),
        Some((XcoprError::SubprocessFailed("command exited with code 3: exit 3".to_string()), 3))
    );
    assert_eq!(
        exit_failure(Some(-7), "x"),
        Some((XcoprError::SubprocessFailed("command exited with code -7: x".to_string()), -7))
    );
    assert_eq!(
        exit_failure(Some(255), "cat '/tmp/a b'"),
        Some((
            XcoprError::SubprocessFailed("command exited with code 255: cat '/tmp/a b'".to_string()),
            255
        ))
    );
}

#[test]
fn ending_without_a_code_is_reported_as_minus_one() {
    assert_eq!(
        exit_failure(None, "kill $$"),
        Some((
            XcoprError::SubprocessFailed("command exited with code -1: kill $$".to_string()),
            EXIT_FAILURE
        ))
    );
    assert_eq!(EXIT_FAILURE, 1);
}

#[test]
fn failure_names_the_command() {
    assert_eq!(
        subprocess_failure("No such file or directory (os error 2)".to_string(), "cat /tmp/a"),
        XcoprError::SubprocessFailed("No such file or directory (os error 2): cat /tmp/a".to_string())
    );
}

#[test]
fn numbers_are_written_in_decimal() {
    assert_eq!(decimal(0), "0");
    assert_eq!(decimal(7), "7");
    assert_eq!(decimal(10), "10");
    assert_eq!(decimal(255), "255");
    assert_eq!(decimal(-1), "-1");
    assert_eq!(decimal(-120), "-120");
    assert_eq!(decimal(i32::MAX), "2147483647");
    assert_eq!(decimal(i32::MIN), "-2147483648");
    for n in -1000i32..1000 {
        assert_eq!(decimal(n), n.to_string());
    }
}

#[test]
fn characters_come_in_order() {
    assert_eq!(chars_of("héllo"), vec!['h', 'é', 'l', 'l', 'o']);
    assert_eq!(chars_of(""), Vec::<char>::new());
}
