use xcopr::XcoprError;

#[test]
fn message_of_invalid_batch_mode() {
    assert_eq!(
        XcoprError::InvalidBatchMode.message(),
        "invalid batch mode: both -n and -F are required for batch mode"
    );
}

#[test]
fn message_of_invalid_batch_size() {
    assert_eq!(XcoprError::InvalidBatchSize.message(), "invalid batch size: -n must be at least 1");
}

#[test]
fn message_of_invalid_utf8() {
    assert_eq!(
        XcoprError::InvalidUtf8("stream did not contain valid UTF-8".to_string()).message(),
        "input contains invalid UTF-8: stream did not contain valid UTF-8"
    );
}

#[test]
fn message_of_failed_to_write() {
    assert_eq!(
        XcoprError::FailedToWrite("disk full".to_string()).message(),
        "could not write to output stream: disk full"
    );
}

#[test]
fn message_of_subprocess_failed() {
    assert_eq!(
        XcoprError::SubprocessFailed("command exited with code 2: false".to_string()).message(),
        "subprocess failed: command exited with code 2: false"
    );
}

#[test]
fn message_of_missing_args() {
    assert_eq!(XcoprError::MissingArgs("-c").message(), "missing required argument: -c");
}
