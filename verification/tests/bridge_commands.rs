//! Control-bridge argument vectors, the interface-name guard, and the
//! classification of helper outcomes.

use suricata_agent::bridge::{
    classify_exec_outcome, interface_stats_command, reload_rules_command, ruleset_stats_command,
    status_command, valid_interface_name, ExecOutcome,
};

fn helper(cmd: &str) -> Vec<String> {
    vec![
        "docker".to_string(),
        "exec".to_string(),
        "suricata".to_string(),
        "suricatasc".to_string(),
        "-c".to_string(),
        cmd.to_string(),
    ]
}

#[test]
fn fixed_command_vectors() {
    assert_eq!(status_command(), helper("uptime"));
    assert_eq!(reload_rules_command(), helper("reload-rules"));
    assert_eq!(ruleset_stats_command(), helper("ruleset-stats"));
}

#[test]
fn interface_stats_command_for_a_safe_name() {
    assert_eq!(interface_stats_command("eth0"), Ok(helper("iface-stat eth0")));
    assert_eq!(interface_stats_command("en-p0_s1"), Ok(helper("iface-stat en-p0_s1")));
}

#[test]
fn injection_attempts_are_refused_without_invocation() {
    for bad in ["eth0; rm -rf /", "eth0 && id", "eth0|cat", "eth0`id`", "eth0 ", "$(id)", ""] {
        assert_eq!(
            interface_stats_command(bad),
            Err("Invalid interface name".to_string()),
            "accepted {:?}",
            bad
        );
    }
}

#[test]
fn interface_name_guard_is_ascii_only() {
    assert!(valid_interface_name("eth0"));
    assert!(valid_interface_name("ETH_0-a"));
    assert!(!valid_interface_name("éth0"));
    assert!(!valid_interface_name("eth０"));
    assert!(!valid_interface_name(""));
}

#[test]
fn successful_run_returns_stdout() {
    let out = classify_exec_outcome(ExecOutcome::Finished {
        success: true,
        status: "exit status: 0".to_string(),
        stdout: Some("uptime 42\n".to_string()),
        stderr: Some(String::new()),
    });
    assert_eq!(out, Ok("uptime 42\n".to_string()));
}

#[test]
fn undecodable_stdout_is_a_decode_error() {
    let out = classify_exec_outcome(ExecOutcome::Finished {
        success: true,
        status: "exit status: 0".to_string(),
        stdout: None,
        stderr: Some(String::new()),
    });
    assert_eq!(out, Err("Failed to decode command output".to_string()));
}

#[test]
fn failed_run_reports_status_and_stderr() {
    let out = classify_exec_outcome(ExecOutcome::Finished {
        success: false,
        status: "exit status: 1".to_string(),
        stdout: Some(String::new()),
        stderr: Some("no such container".to_string()),
    });
    assert_eq!(
        out,
        Err("Command failed with status: exit status: 1 (no such container)".to_string())
    );
}

#[test]
fn failed_run_with_undecodable_stderr() {
    let out = classify_exec_outcome(ExecOutcome::Finished {
        success: false,
        status: "exit status: 1".to_string(),
        stdout: None,
        stderr: None,
    });
    assert_eq!(
        out,
        Err("Command failed with status: exit status: 1 (Failed to decode stderr output)".to_string())
    );
}

#[test]
fn spawn_failure_reports_the_os_message() {
    let out = classify_exec_outcome(ExecOutcome::SpawnFailed {
        message: "No such file or directory (os error 2)".to_string(),
    });
    assert_eq!(
        out,
        Err("Failed to execute command: No such file or directory (os error 2)".to_string())
    );
}
