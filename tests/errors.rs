use lorri::error::{decimal_string, BuildError, LogLine};

fn build_exit() -> BuildError {
    BuildError::exit(
        "ebs".to_string(),
        Some(1),
        vec![
            "this is a test of the emergency broadcast system".to_string(),
            "you will hear a tone".to_string(),
            "remember, this is only a test".to_string(),
        ],
    )
}

#[test]
fn actionable_errors_are_the_users_to_fix() {
    assert!(!BuildError::io("disk gone".to_string()).is_actionable());
    assert!(BuildError::spawn("nix-build".to_string(), "not found".to_string()).is_actionable());
    assert!(build_exit().is_actionable());
    assert!(BuildError::output("two outputs".to_string()).is_actionable());
}

#[test]
fn exit_keeps_command_status_and_logs() {
    match build_exit() {
        BuildError::Exit { cmd, status, logs } => {
            assert_eq!(cmd, "ebs");
            assert_eq!(status, Some(1));
            assert_eq!(logs.len(), 3);
            assert_eq!(logs[1].as_str(), "you will hear a tone");
        }
        _ => panic!("not an exit error"),
    }
}

#[test]
fn exit_describes_status_command_and_logs() {
    assert_eq!(
        build_exit().describe(),
        "Nix process returned exit code 1.\n$ ebs\n\
         this is a test of the emergency broadcast system\n\
         you will hear a tone\n\
         remember, this is only a test"
    );
}

#[test]
fn exit_without_code_is_unknown() {
    let e = BuildError::exit("nix-build".to_string(), None, vec![]);
    assert_eq!(e.describe(), "Nix process returned exit code <unknown>.\n$ nix-build\n");
}

#[test]
fn other_errors_describe_themselves() {
    assert_eq!(BuildError::io("disk gone".to_string()).describe(), "I/O error: disk gone");
    assert_eq!(
        BuildError::spawn("nix-build".to_string(), "not found".to_string()).describe(),
        "failed to spawn Nix process. Is Nix installed and on the $PATH?\n$ nix-build\nnot found"
    );
    assert_eq!(BuildError::output("two outputs".to_string()).describe(), "two outputs");
}

#[test]
fn decimal_strings() {
    assert_eq!(decimal_string(0), "0");
    assert_eq!(decimal_string(7), "7");
    assert_eq!(decimal_string(-12), "-12");
    assert_eq!(decimal_string(255), "255");
    assert_eq!(decimal_string(i32::MIN), "-2147483648");
    assert_eq!(decimal_string(i32::MAX), "2147483647");
}

#[test]
fn log_line_holds_its_text() {
    let l = LogLine::from("emergency".to_string());
    assert_eq!(l.as_str(), "emergency");
}
