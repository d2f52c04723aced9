use shelly::executor::{default_bash_description, tool_description, BashTool, Executor, ExecutorConfig, ExecutorError, ToolInvocation};

fn json(text: &str) -> serde_json::Value {
    serde_json::from_str(text).unwrap()
}

fn create_executor() -> Executor {
    Executor::init(ExecutorConfig::default(), None)
}

#[test]
fn test_unknown_tool() {
    let executor = create_executor();
    let result = executor.prepare("nonexistent", &json("{\"command\": \"echo test\"}"));
    assert!(result.is_err());
    assert!(matches!(result.unwrap_err(), ExecutorError::UnknownTool(n) if n == "nonexistent"));
}

#[test]
fn test_invalid_input() {
    let executor = create_executor();
    let result = executor.prepare("bash", &json("{\"wrong_field\": \"value\"}"));
    assert!(result.is_err());
    let err = result.unwrap_err();
    assert!(matches!(&err, ExecutorError::InvalidInput(t, _) if t == "bash"));
    assert_eq!(err.message(), "Invalid input for tool 'bash': missing field `command`");
    assert!(executor.prepare("bash", &json("{\"command\": 5}")).is_err());
}

#[test]
fn test_tool_definitions() {
    let executor = create_executor();
    let defs = executor.tool_definitions();
    assert!(!defs.is_empty());
    let bash_def = defs.iter().find(|d| d.name == "bash").expect("Should have bash tool");
    assert!(!bash_def.description.is_empty());
    assert!(bash_def.input_schema.is_object());
    assert_eq!(bash_def.description, default_bash_description());
}

#[test]
fn prepared_shell_command() {
    let executor = create_executor();
    match executor.prepare("bash", &json("{\"command\": \"echo line1 && echo line2\"}")).unwrap() {
        ToolInvocation::Shell { shell, command } => {
            assert_eq!(shell, "/bin/sh");
            assert_eq!(command, "echo line1 && echo line2");
        }
    }
    let custom = Executor::init(ExecutorConfig::default(), Some("custom".to_string()));
    assert_eq!(custom.tool_definitions()[0].description, "custom");
}

#[test]
fn bash_output_sections() {
    let out = BashTool::output(b"hello\n", b"", Some(0));
    assert_eq!(out.content, "[stdout]\nhello\n\n[exit_code]\n0");
    assert!(!out.is_error);
    let out = BashTool::output(b"", b"oops\n", Some(1));
    assert_eq!(out.content, "[stderr]\noops\n\n[exit_code]\n1");
    assert!(out.is_error);
    let out = BashTool::output(b"a\n", b"b\n", Some(2));
    assert_eq!(out.content, "[stdout]\na\n\n[stderr]\nb\n\n[exit_code]\n2");
    let out = BashTool::output(b"", b"", None);
    assert_eq!(out.content, "\n[exit_code]\n-1");
    assert!(out.is_error);
}

#[test]
fn bash_output_replaces_invalid_utf8() {
    let out = BashTool::output(&[0x66, 0xff, 0x67], b"", Some(0));
    assert_eq!(out.content, "[stdout]\nf\u{FFFD}g\n[exit_code]\n0");
}

#[test]
fn bash_input_needs_a_string_command() {
    assert_eq!(BashTool::parse_input(&json("{\"command\": \"ls -l\", \"extra\": 1}")).unwrap(), "ls -l");
    assert!(matches!(BashTool::parse_input(&json("{\"command\": 5}")), Err(ExecutorError::InvalidInput(t, _)) if t == "bash"));
    assert!(matches!(BashTool::parse_input(&json("\"ls\"")), Err(ExecutorError::InvalidInput(t, _)) if t == "bash"));
    assert!(matches!(BashTool::parse_input(&json("{}")), Err(ExecutorError::InvalidInput(t, d)) if t == "bash" && d == "missing field `command`"));
}

#[test]
fn bash_output_exit_code_layout() {
    let out = BashTool::output(b"x", b"", Some(7));
    assert_eq!(out.content, "[stdout]\nx\n[exit_code]\n7");
    assert!(out.is_error);
    let out = BashTool::output(b"", b"", Some(0));
    assert_eq!(out.content, "\n[exit_code]\n0");
    assert!(!out.is_error);
}

#[test]
fn description_table_lookup() {
    let entries = vec![
        ("other".to_string(), Some("o".to_string())),
        ("bash".to_string(), Some("run things".to_string())),
    ];
    assert_eq!(tool_description(&entries, "bash"), Some("run things".to_string()));
    assert_eq!(tool_description(&entries, "none"), None);
    let no_text = vec![("bash".to_string(), None)];
    assert_eq!(tool_description(&no_text, "bash"), None);
}

#[test]
fn bash_schema_is_an_object_with_required_command() {
    let def = create_executor().tool_definitions().remove(0);
    assert_eq!(def.input_schema, json("{\"type\":\"object\",\"properties\":{\"command\":{\"type\":\"string\",\"description\":\"The bash command to execute\"}},\"required\":[\"command\"]}"));
    assert_eq!(def.input_schema, create_executor().tool_definitions()[0].input_schema);
}
