use c2rust_test::error::Error;
use c2rust_test::workflow::{
    after_stage, banner, command_text, outside_root_warning, resolve_command, resolve_dir,
    resolve_feature, stage_note, test_dir_label, DirChoice, RunProgress, Stage, DEFAULT_FEATURE,
};

fn strings(items: &[&str]) -> Vec<String> {
    items.iter().map(|s| s.to_string()).collect()
}

fn missing() -> Error {
    Error::MissingParameter("test command".to_string())
}

#[test]
fn feature_defaults() {
    assert_eq!(resolve_feature(None), "default");
    assert_eq!(resolve_feature(Some("custom".to_string())), "custom");
    assert_eq!(DEFAULT_FEATURE, "default");
}

#[test]
fn test_dir_is_relative_to_the_root() {
    assert_eq!(test_dir_label(Some("")), ".");
    assert_eq!(test_dir_label(Some("sub/dir")), "sub/dir");
    assert_eq!(test_dir_label(None), ".");
    assert_eq!(outside_root_warning(Some("")), None);
    assert_eq!(outside_root_warning(Some("sub")), None);
    assert_eq!(
        outside_root_warning(None),
        Some(
            "Warning: current directory is not under project root, using '.' as test directory"
                .to_string()
        )
    );
}

#[test]
fn directory_of_the_run() {
    assert_eq!(resolve_dir(Some("a".to_string())), DirChoice::Explicit("a".to_string()));
    assert_eq!(resolve_dir(Some(String::new())), DirChoice::Explicit(String::new()));
    assert_eq!(resolve_dir(None), DirChoice::Current);
}

#[test]
fn explicit_command_takes_precedence() {
    assert_eq!(
        resolve_command(strings(&["make", "check"]), Some("echo saved")),
        Ok(strings(&["make", "check"]))
    );
    assert_eq!(resolve_command(strings(&["ls"]), None), Ok(strings(&["ls"])));
}

#[test]
fn saved_command_is_split_at_whitespace() {
    assert_eq!(
        resolve_command(Vec::new(), Some("  make   -j4\ttest \n")),
        Ok(strings(&["make", "-j4", "test"]))
    );
    assert_eq!(resolve_command(Vec::new(), Some("x")), Ok(strings(&["x"])));
    assert_eq!(
        resolve_command(Vec::new(), Some("a\u{a0}b\u{3000}c")),
        Ok(strings(&["a", "b", "c"]))
    );
}

#[test]
fn no_command_at_all_is_rejected() {
    assert_eq!(resolve_command(Vec::new(), None), Err(missing()));
    assert_eq!(resolve_command(Vec::new(), Some("")), Err(missing()));
    assert_eq!(resolve_command(Vec::new(), Some("  \t \n")), Err(missing()));
    assert!(missing().message().contains("required"));
}

#[test]
fn stored_command_reads_back() {
    let command = strings(&["make", "-j4", "test"]);
    let stored = command_text(&command);
    assert_eq!(stored, "make -j4 test");
    assert_eq!(resolve_command(Vec::new(), Some(stored.as_str())), Ok(command));
    assert_eq!(command_text(&Vec::new()), "");
    assert_eq!(command_text(&strings(&["one"])), "one");
}

#[test]
fn banner_lines() {
    assert_eq!(
        banner("/p", "sub", "default", "make test"),
        "=== c2rust-test ===\nProject root: /p\nTest directory (relative): sub\nFeature: default\nCommand: make test\n"
    );
}

#[test]
fn stages_follow_each_other() {
    assert_eq!(after_stage(Stage::CheckTool, Ok(())), RunProgress::Next(Stage::Resolve));
    assert_eq!(after_stage(Stage::Resolve, Ok(())), RunProgress::Next(Stage::Execute));
    assert_eq!(after_stage(Stage::Execute, Ok(())), RunProgress::Next(Stage::SaveConfig));
    assert_eq!(after_stage(Stage::SaveConfig, Ok(())), RunProgress::Next(Stage::AutoCommit));
    assert_eq!(after_stage(Stage::AutoCommit, Ok(())), RunProgress::Finished(Ok(())));
}

#[test]
fn failure_ends_the_run_at_once() {
    assert_eq!(
        after_stage(Stage::CheckTool, Err(Error::ConfigToolNotFound)),
        RunProgress::Finished(Err(Error::ConfigToolNotFound))
    );
    assert_eq!(after_stage(Stage::Resolve, Err(missing())), RunProgress::Finished(Err(missing())));
    let failed = Error::CommandExecutionFailed("x".to_string(), Some(7));
    assert_eq!(
        after_stage(Stage::Execute, Err(failed.clone())),
        RunProgress::Finished(Err(failed))
    );
    let unsaved = Error::ConfigSaveFailed("x".to_string());
    assert_eq!(
        after_stage(Stage::SaveConfig, Err(unsaved.clone())),
        RunProgress::Finished(Err(unsaved))
    );
}

#[test]
fn failed_commit_does_not_fail_the_run() {
    assert_eq!(
        after_stage(Stage::AutoCommit, Err(Error::IoError("x".to_string()))),
        RunProgress::Finished(Ok(()))
    );
}

#[test]
fn notes_of_the_stages() {
    assert_eq!(
        stage_note(Stage::Execute),
        Some("Test command executed successfully.".to_string())
    );
    assert_eq!(stage_note(Stage::SaveConfig), Some("✓ Configuration saved.".to_string()));
    assert_eq!(stage_note(Stage::CheckTool), None);
    assert_eq!(stage_note(Stage::Resolve), None);
    assert_eq!(stage_note(Stage::AutoCommit), None);
}
