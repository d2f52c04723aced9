use shelly::agent::{
    compose_system_prompt, extract_text, extract_tool_calls, respond, turn_answer, AgentConfig, AgentError,
    AgentTurn, HandleOutcome, InferenceError, InferenceResult, TurnStep,
};
use shelly::brain::{ContentBlock, MessageResponse, Role, StopReason};
use shelly::executor::{BashTool, ToolOutput};
use shelly::memory::MemoryEntry;

fn json(text: &str) -> serde_json::Value {
    serde_json::from_str(text).unwrap()
}

fn response(content: Vec<ContentBlock>, stop_reason: Option<StopReason>) -> MessageResponse {
    MessageResponse {
        id: "test-id".to_string(),
        content,
        model: "test".to_string(),
        role: Role::Assistant,
        stop_reason,
        stop_sequence: None,
        usage: None,
    }
}

fn text_response(text: &str, stop_reason: Option<StopReason>) -> MessageResponse {
    response(vec![ContentBlock::Text { text: text.to_string() }], stop_reason)
}

fn tool_use_response(tool_name: &str, input: serde_json::Value) -> MessageResponse {
    response(
        vec![ContentBlock::ToolUse { id: "tool-1".to_string(), name: tool_name.to_string(), input }],
        Some(StopReason::ToolUse),
    )
}

struct Run {
    result: Result<InferenceResult, InferenceError>,
    turn: AgentTurn,
    model_calls: usize,
    executions: usize,
    journal: Vec<MemoryEntry>,
}

/// Plays a turn against scripted model responses and tool results.
fn drive(
    responses: Vec<MessageResponse>,
    mut results: Vec<Result<ToolOutput, String>>,
    max_rounds: u32,
    strict: bool,
    user_input: &str,
) -> Run {
    let mut turn = AgentTurn::new("You are helpful.".to_string(), user_input.to_string(), max_rounds, strict);
    let mut responses = responses.into_iter();
    let mut model_calls = 0;
    let mut executions = 0;
    let mut journal = Vec::new();
    results.reverse();
    loop {
        let request = turn.request("test-model", 4096, None, &Vec::new()).unwrap();
        assert_eq!(request.messages[0].role, Role::User);
        model_calls += 1;
        let resp = responses.next().expect("no more responses");
        match turn.on_response(resp) {
            TurnStep::RunTools(calls) => {
                for _call in calls {
                    executions += 1;
                    let r = results.pop().unwrap_or(Err("No more results".to_string()));
                    journal.push(turn.on_tool_result(r));
                }
            }
            TurnStep::Finished(result) => {
                return Run { result, turn, model_calls, executions, journal };
            }
        }
    }
}

#[test]
fn test_inference_loop_end_turn() {
    let run = drive(vec![text_response("Hello!", Some(StopReason::EndTurn))], vec![], 20, true, "Hi");
    assert!(run.result.is_ok());
    let result = run.result.unwrap();
    assert_eq!(result.text, "Hello!");
    assert_eq!(result.tool_rounds, 0);
}

#[test]
fn test_inference_loop_tool_use() {
    let run = drive(
        vec![
            tool_use_response("bash", json("{\"command\": \"echo hello\"}")),
            text_response("Let me check that.", Some(StopReason::EndTurn)),
        ],
        vec![Ok(ToolOutput::success("hello".to_string()))],
        20,
        true,
        "Check something",
    );
    assert!(run.result.is_ok());
    let result = run.result.unwrap();
    assert_eq!(result.text, "Let me check that.");
    assert_eq!(result.tool_rounds, 1);
    assert_eq!(run.turn.messages().len(), 4);
}

#[test]
fn test_inference_loop_max_tool_rounds() {
    let responses: Vec<MessageResponse> = (0..25)
        .map(|i| tool_use_response("bash", json(&format!("{{\"command\": \"cmd{}\"}}", i))))
        .collect();
    let run = drive(responses, vec![], 20, true, "Do many things");
    assert!(run.result.is_err());
    let err = run.result.unwrap_err();
    assert!(matches!(err, InferenceError::MaxToolRounds { max_rounds: 20, .. }));
}

#[test]
fn test_inference_loop_tool_error() {
    let run = drive(
        vec![
            tool_use_response("bash", json("{\"command\": \"ls\"}")),
            text_response("Got result.", Some(StopReason::EndTurn)),
        ],
        vec![Err("Command failed".to_string())],
        20,
        true,
        "List files",
    );
    assert!(run.result.is_ok());
    assert_eq!(run.result.unwrap().text, "Got result.");
    let tool_result_msg = &run.turn.messages()[2];
    if let ContentBlock::ToolResult { content, is_error, .. } = &tool_result_msg.content[0] {
        assert!(content.contains("Error:"));
        assert!(is_error.is_some() && is_error.unwrap());
    } else {
        panic!("Expected ToolResult");
    }
}

#[test]
fn test_inference_loop_with_none_stop_reason() {
    let run = drive(vec![text_response("Response", None)], vec![], 20, true, "Hi");
    assert!(run.result.is_ok());
    assert_eq!(run.result.unwrap().text, "Response");
}

#[test]
fn test_inference_loop_max_tokens() {
    let run = drive(vec![text_response("Truncated...", Some(StopReason::MaxTokens))], vec![], 20, true, "Long request");
    assert!(run.result.is_ok());
    assert_eq!(run.result.unwrap().text, "Truncated...");
}

#[test]
fn test_extract_tool_calls() {
    let content = vec![
        ContentBlock::Text { text: "I'll use a tool".to_string() },
        ContentBlock::ToolUse { id: "call-123".to_string(), name: "bash".to_string(), input: json("{\"command\": \"echo test\"}") },
    ];
    let calls = extract_tool_calls(&content);
    assert_eq!(calls.len(), 1);
    assert_eq!(calls[0].id, "call-123");
    assert_eq!(calls[0].name, "bash");
}

#[test]
fn test_extract_text() {
    let content = vec![
        ContentBlock::Text { text: "Hello ".to_string() },
        ContentBlock::Text { text: "World!".to_string() },
        ContentBlock::ToolUse { id: "call-1".to_string(), name: "tool".to_string(), input: json("{}") },
    ];
    assert_eq!(extract_text(&content), "Hello World!");
}

fn loop_script() -> Vec<MessageResponse> {
    let mut responses: Vec<MessageResponse> = (1..=21)
        .map(|_| tool_use_response("bash", json("{\"command\": \"echo $I\"}")))
        .collect();
    responses.push(text_response("done", Some(StopReason::EndTurn)));
    responses
}

#[test]
fn tool_loop_terminates_with_fixed_answer() {
    let run = drive(loop_script(), vec![], 20, false, "loop");
    assert_eq!(run.executions, 20);
    assert!(run.model_calls <= 21);
    let result = run.result.unwrap();
    assert_eq!(result.text, "Maximum tool call rounds reached. Operation aborted.");
    assert_eq!(result.tool_rounds, 20);
}

#[test]
fn tool_loop_terminates_with_error_when_strict() {
    let run = drive(loop_script(), vec![], 20, true, "loop");
    assert_eq!(run.executions, 20);
    assert_eq!(run.model_calls, 21);
    match run.result {
        Err(InferenceError::MaxToolRounds { max_rounds, actual_rounds }) => {
            assert_eq!(max_rounds, 20);
            assert_eq!(actual_rounds, 21);
        }
        other => panic!("unexpected {:?}", other),
    }
}

#[test]
fn tool_error_is_surfaced_to_the_model() {
    let output = BashTool::output(b"", b"", Some(7));
    assert!(output.is_error);
    let run = drive(
        vec![
            tool_use_response("bash", json("{\"command\": \"exit 7\"}")),
            text_response("ok", Some(StopReason::EndTurn)),
        ],
        vec![Ok(output)],
        20,
        false,
        "run it",
    );
    let messages = run.turn.messages();
    let found = messages.iter().any(|m| {
        m.content.iter().any(|b| match b {
            ContentBlock::ToolResult { tool_use_id, content, is_error } => {
                tool_use_id == "tool-1" && *is_error == Some(true) && content.ends_with("[exit_code]\n7")
            }
            _ => false,
        })
    });
    assert!(found);
    let text = turn_answer(run.result).unwrap();
    let (reply, entry) = respond("run it", HandleOutcome::Done(Ok(text)));
    assert_eq!(reply.content, "ok");
    assert!(!reply.is_error);
    assert!(matches!(entry, MemoryEntry::UserInteraction { .. }));
    assert!(matches!(&run.journal[0], MemoryEntry::ToolResult { tool, result } if tool == "bash" && result.starts_with("Error: ")));
}

#[test]
fn tool_results_follow_their_calls_in_order() {
    let resp = response(
        vec![
            ContentBlock::ToolUse { id: "a".to_string(), name: "bash".to_string(), input: json("{}") },
            ContentBlock::Text { text: "between".to_string() },
            ContentBlock::ToolUse { id: "b".to_string(), name: "other".to_string(), input: json("{}") },
        ],
        Some(StopReason::ToolUse),
    );
    let run = drive(
        vec![resp, text_response("end", Some(StopReason::EndTurn))],
        vec![Ok(ToolOutput::success("one".to_string())), Err("Unknown tool: other".to_string())],
        20,
        true,
        "two tools",
    );
    let m = run.turn.messages();
    assert_eq!(m.len(), 5);
    assert!(matches!(&m[2].content[0], ContentBlock::ToolResult { tool_use_id, content, is_error: Some(false) } if tool_use_id == "a" && content == "one"));
    assert!(matches!(&m[3].content[0], ContentBlock::ToolResult { tool_use_id, content, is_error: Some(true) } if tool_use_id == "b" && content == "Error: Unknown tool: other"));
    assert!(matches!(&run.journal[1], MemoryEntry::Error(s) if s == "other: Unknown tool: other"));
}

#[test]
fn request_outcomes() {
    let (reply, entry) = respond("q", HandleOutcome::TimedOut);
    assert_eq!(reply.content, "Request timeout");
    assert!(reply.is_error);
    assert!(matches!(entry, MemoryEntry::Error(s) if s == "Handle timeout"));
    let (reply, _) = respond("q", HandleOutcome::Done(Err(AgentError::Inference("Exhausted: x".to_string()))));
    assert_eq!(reply.content, "Inference error: Exhausted: x");
    assert!(reply.is_error);
    assert_eq!(AgentError::Timeout(30).message(), "Timeout after 30s");
    assert_eq!(
        InferenceError::MaxToolRounds { max_rounds: 20, actual_rounds: 21 }.message(),
        "Max tool rounds (20) exceeded, reached 21 rounds"
    );
}

#[test]
fn system_prompt_and_defaults() {
    assert_eq!(compose_system_prompt("P", "C"), "P\n\n# Current Context\nC");
    let c = AgentConfig::default();
    assert_eq!(c.max_tool_rounds, 20);
    assert_eq!(c.handle_timeout_secs, 300);
    assert_eq!(c.init_timeout_secs, 120);
    assert_eq!(c.shutdown_timeout_secs, 30);
}

#[test]
fn test_inference_loop_inference_error() {
    let turn = AgentTurn::new("You are helpful.".to_string(), "Hi".to_string(), 20, true);
    let request = turn.request("test-model", 4096, None, &Vec::new()).unwrap();
    assert_eq!(request.messages.len(), 1);
    // The model call fails: the turn is not advanced and the failure is reported.
    let failure = shelly::brain::BrainError::NetworkError("API error".to_string());
    let result: Result<InferenceResult, InferenceError> = Err(InferenceError::InferenceFailed(failure.message()));
    assert!(!turn.is_finished());
    assert!(result.is_err());
    let err = result.unwrap_err();
    assert!(matches!(err, InferenceError::InferenceFailed(_)));
    assert_eq!(shelly::agent::inference_failure(&failure).message(), "Inference error: Network error: API error");
}
