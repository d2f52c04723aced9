use shelly::brain::{
    backoff_delay, bearer, is_success, messages_url, retry_step, status_error, BrainError, ContentBlock,
    Message, RequestBuilder, RetryStep, Role, StopReason, ToolDefinition,
};

fn tool(name: &str) -> ToolDefinition {
    ToolDefinition {
        name: name.to_string(),
        description: "d".to_string(),
        input_schema: serde_json::from_str("{\"type\":\"object\"}").unwrap(),
    }
}

#[test]
fn build_requires_a_user_first_message() {
    let err = RequestBuilder::new("m".to_string()).build().unwrap_err();
    assert_eq!(err, "messages cannot be empty");
    let err = RequestBuilder::new("m".to_string()).assistant_text("hi".to_string()).build().unwrap_err();
    assert_eq!(err, "first message must have user role");
    let req = RequestBuilder::new("m".to_string())
        .system("sys".to_string())
        .user_text("What is 1 + 1?".to_string())
        .assistant_content(vec![ContentBlock::Text { text: "2".to_string() }])
        .user_tool_result("id-1".to_string(), "out".to_string(), Some(false))
        .max_tokens(100)
        .top_k(5)
        .tool(tool("a"))
        .tool(tool("b"))
        .stop_sequences(vec!["END".to_string()])
        .stream(false)
        .build()
        .unwrap();
    assert_eq!(req.model, "m");
    assert_eq!(req.system.as_deref(), Some("sys"));
    assert_eq!(req.messages.len(), 3);
    assert_eq!(req.messages[0].role, Role::User);
    assert_eq!(req.messages[1].role, Role::Assistant);
    assert_eq!(req.max_tokens, 100);
    assert_eq!(req.top_k, Some(5));
    assert_eq!(req.tools.as_ref().unwrap().len(), 2);
    assert_eq!(req.tools.as_ref().unwrap()[1].name, "b");
    assert_eq!(req.stop_sequences, Some(vec!["END".to_string()]));
    assert_eq!(req.stream, Some(false));
}

#[test]
fn builder_defaults() {
    let req = RequestBuilder::new("model-x".to_string()).user_text("hi".to_string()).build().unwrap();
    assert_eq!(req.max_tokens, 4096);
    assert!(req.system.is_none());
    assert!(req.tools.is_none());
    assert!(req.top_k.is_none());
    let m = Message::user_text("x".to_string());
    assert_eq!(m.role, Role::User);
    assert_eq!(Role::default(), Role::User);
}

#[test]
fn status_mapping() {
    assert!(is_success(200));
    assert!(is_success(299));
    assert!(!is_success(300));
    assert!(matches!(status_error(400, "b".to_string()), BrainError::InvalidRequest(s) if s == "b"));
    assert!(matches!(status_error(401, "b".to_string()), BrainError::AuthenticationFailed(s) if s == "b"));
    assert!(matches!(status_error(402, "b".to_string()), BrainError::InsufficientBalance(s) if s == "b"));
    assert!(matches!(status_error(503, "b".to_string()), BrainError::ModelError(s) if s == "b"));
    assert!(matches!(status_error(404, "b".to_string()), BrainError::InvalidRequest(s) if s == "HTTP 404 Not Found: b"));
}

#[test]
fn inference_retry_and_exhaustion() {
    let max_retries = 2u32;
    let base = 10u64;
    let mut retries = 0u32;
    let mut attempts = 0;
    let mut delays = Vec::new();
    let final_error = loop {
        attempts += 1;
        let err = status_error(503, "unavailable".to_string());
        match retry_step(retries, max_retries, base, err) {
            RetryStep::Retry { retries: r, delay_ms } => {
                retries = r;
                delays.push(delay_ms);
            }
            RetryStep::Fail(e) => break e,
        }
    };
    assert_eq!(attempts, 3);
    assert_eq!(delays, vec![10, 20]);
    match &final_error {
        BrainError::Exhausted { retries, last_error } => {
            assert_eq!(*retries, 3);
            assert_eq!(last_error, "Model error: unavailable");
        }
        other => panic!("unexpected {:?}", other),
    }
    assert!(final_error.message().starts_with("Exhausted: max retries (3) exceeded"));
    let agent_error = shelly::agent::inference_failure(&final_error);
    let (reply, _) = shelly::agent::respond("q", shelly::agent::HandleOutcome::Done(Err(agent_error)));
    assert!(reply.is_error);
    assert!(reply.content.contains("Exhausted"));
}

#[test]
fn client_errors_are_not_retried() {
    for status in [400u16, 401, 402] {
        match retry_step(0, 3, 1000, status_error(status, "x".to_string())) {
            RetryStep::Fail(e) => assert!(!matches!(e, BrainError::Exhausted { .. })),
            other => panic!("unexpected {:?}", other),
        }
    }
    assert!(matches!(
        retry_step(0, 3, 1000, BrainError::NetworkError("down".to_string())),
        RetryStep::Retry { retries: 1, delay_ms: 1000 }
    ));
}

#[test]
fn backoff_doubles_up_to_thirty_seconds() {
    assert_eq!(backoff_delay(1, 1000), 1000);
    assert_eq!(backoff_delay(2, 1000), 2000);
    assert_eq!(backoff_delay(5, 1000), 16000);
    assert_eq!(backoff_delay(6, 1000), 30000);
    assert_eq!(backoff_delay(40, 1000), 30000);
    assert_eq!(backoff_delay(1, 90000), 30000);
    assert_eq!(backoff_delay(3, 0), 0);
}

#[test]
fn urls_and_headers() {
    assert_eq!(messages_url("http://h:1/"), "http://h:1/v1/messages");
    assert_eq!(messages_url("http://h:1//"), "http://h:1/v1/messages");
    assert_eq!(messages_url("http://h:1"), "http://h:1/v1/messages");
    assert_eq!(bearer("k"), "Bearer k");
}

#[test]
fn stop_reason_names() {
    assert_eq!(StopReason::EndTurn.as_str(), "end_turn");
    assert_eq!(StopReason::ToolUse.as_str(), "tool_use");
    assert_eq!(StopReason::MaxTokens.as_str(), "max_tokens");
    assert_eq!(StopReason::StopSequence.as_str(), "stop_sequence");
}

#[test]
fn error_texts() {
    assert_eq!(BrainError::Timeout(5).message(), "Timeout after 5 seconds");
    assert_eq!(BrainError::AuthenticationFailed("no".to_string()).message(), "Authentication failed: no");
}
