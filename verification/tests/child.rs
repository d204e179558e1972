//! Child processes: command lines, environments and what is logged.

use mcp_runtime::child::{
    child_environment, command_line, command_not_found_line, pid_text, StaticEnvVar,
    StderrForwarder, StderrRead,
};

fn var(name: &str, value: &str) -> StaticEnvVar {
    StaticEnvVar { name: name.to_string(), value: value.to_string() }
}

#[test]
fn windows_looks_commands_up_through_its_interpreter() {
    let args = vec!["-y".to_string(), "server".to_string()];
    assert_eq!(
        command_line(true, "npx".to_string(), args.clone()),
        (
            "cmd.exe".to_string(),
            vec!["/c".to_string(), "npx".to_string(), "-y".to_string(), "server".to_string()],
        )
    );
    assert_eq!(command_line(false, "npx".to_string(), args.clone()), ("npx".to_string(), args));
}

#[test]
fn empty_variables_are_left_to_be_inherited() {
    let (passed, warnings) =
        child_environment(&vec![var("A", "1"), var("B", ""), var("C", "3"), var("D", "")]);
    assert_eq!(passed, vec![var("A", "1"), var("C", "3")]);
    assert_eq!(
        warnings,
        vec![
            "[warn] MCP: Skipping empty environment variable: B".to_string(),
            "[warn] MCP: Skipping empty environment variable: D".to_string(),
        ]
    );
    let (passed, warnings) = child_environment(&Vec::new());
    assert!(passed.is_empty() && warnings.is_empty());
}

#[test]
fn a_command_that_is_not_found_is_named() {
    assert_eq!(
        command_not_found_line("srv", "npx", Some("/work")),
        "[error] MCP: Failed to spawn 'srv': command 'npx' not found (cwd: /work). If your MCP \
         server depends on a specific working directory, set the `working_directory` field in \
         your config to override the default."
    );
    assert!(command_not_found_line("srv", "npx", None)
        .contains("(cwd: <inherited from Warp's process cwd>)"));
}

#[test]
fn an_unknown_process_is_shown_by_question_marks() {
    assert_eq!(pid_text(Some(4711)), "4711");
    assert_eq!(pid_text(Some(u32::MAX)), "4294967295");
    assert_eq!(pid_text(None), "??");
}

#[test]
fn standard_error_is_forwarded_until_it_ends() {
    let forwarder = StderrForwarder::new("12".to_string());
    assert_eq!(
        forwarder.forward(StderrRead::Data("one\n".to_string())),
        Some("[info] MCP [pid: 12] stderr: one\n".to_string())
    );
    assert_eq!(
        forwarder.forward(StderrRead::Data("two\n".to_string())),
        Some("[info] MCP [pid: 12] stderr: two\n".to_string())
    );
    assert_eq!(forwarder.forward(StderrRead::Eof), None);
    assert_eq!(forwarder.forward(StderrRead::Failed), None);
}
