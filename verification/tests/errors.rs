use c2rust_test::error::{Error, FAILURE_EXIT_CODE, SIGNAL_EXIT_CODE};

#[test]
fn exit_code_of_each_failure() {
    assert_eq!(Error::ConfigToolNotFound.exit_code(), 1);
    assert_eq!(Error::CommandExecutionFailed("x".to_string(), Some(3)).exit_code(), 3);
    assert_eq!(Error::CommandExecutionFailed("x".to_string(), Some(-1)).exit_code(), -1);
    assert_eq!(Error::CommandExecutionFailed("x".to_string(), None).exit_code(), 128);
    assert_eq!(Error::ConfigSaveFailed("x".to_string()).exit_code(), 1);
    assert_eq!(Error::ConfigReadFailed("x".to_string()).exit_code(), 1);
    assert_eq!(Error::MissingParameter("x".to_string()).exit_code(), 1);
    assert_eq!(Error::IoError("x".to_string()).exit_code(), 1);
    assert_eq!(FAILURE_EXIT_CODE, 1);
    assert_eq!(SIGNAL_EXIT_CODE, 128);
}

#[test]
fn message_of_each_failure() {
    assert_eq!(
        Error::ConfigToolNotFound.message(),
        "c2rust-config not found. Please install c2rust-config first."
    );
    assert_eq!(
        Error::CommandExecutionFailed("boom".to_string(), Some(2)).message(),
        "Command execution failed: boom"
    );
    assert_eq!(
        Error::ConfigSaveFailed("disk full".to_string()).message(),
        "Failed to save configuration: disk full"
    );
    assert_eq!(
        Error::ConfigReadFailed("no tool".to_string()).message(),
        "Failed to read configuration: no tool"
    );
    assert_eq!(
        Error::MissingParameter("test command".to_string()).message(),
        "Missing required parameter: test command"
    );
    assert_eq!(Error::IoError("denied".to_string()).message(), "IO error: denied");
}
