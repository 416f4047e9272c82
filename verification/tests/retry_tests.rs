use dirscribe::{
    ChatError, Provider, ProviderEvent, UnifiedClient, INITIAL_BACKOFF_MS, MAX_RETRIES,
};

fn ollama_client() -> UnifiedClient {
    UnifiedClient::new(Provider::Ollama, None, None).expect("local provider needs no key")
}

fn ok_response(text: &str) -> ProviderEvent {
    let escaped = text.replace('\\', "\\\\").replace('"', "\\\"").replace('\n', "\\n");
    let body = format!("{{\"response\": \"{}\", \"done\": true}}", escaped);
    ProviderEvent::Response { status: 200, body }
}

#[test]
fn always_invalid_reply_makes_max_retries_plus_one_attempts() {
    // A provider that always returns a contract-violating response causes
    // exactly MAX_RETRIES + 1 attempts before the fatal error.
    let client = ollama_client();
    let attempts = (MAX_RETRIES + 1) as usize;
    let mut events = Vec::new();
    for _ in 0..attempts + 3 {
        events.push(ok_response("not a comment-shaped summary"));
    }
    let (outcome, sleeps) = client.run_chat(&events, "foo.py", false, MAX_RETRIES);
    assert!(matches!(outcome, Some(Err(ChatError::InvalidSummary))));
    // one backoff sleep between each pair of consecutive attempts
    assert_eq!(sleeps.len(), MAX_RETRIES as usize);
    let mut expected = INITIAL_BACKOFF_MS;
    for s in &sleeps {
        assert_eq!(*s, expected);
        expected *= 2;
    }
    assert_eq!(sleeps, vec![1000, 2000, 4000, 8000, 16000, 32000]);
}

#[test]
fn rate_limit_then_valid_succeeds_after_one_backoff() {
    // A 429 followed by a 200 with a contract-matching body: success after
    // exactly one retry and one 1000 ms sleep.
    let client = ollama_client();
    let events = vec![
        ProviderEvent::Response { status: 429, body: String::from("slow down") },
        ok_response("'''\n[DIRSCRIBE]\nok\n[/DIRSCRIBE]\n'''"),
    ];
    let (outcome, sleeps) = client.run_chat(&events, "foo.py", false, MAX_RETRIES);
    match outcome {
        Some(Ok(u)) => assert_eq!(u.content, "'''\n[DIRSCRIBE]\nok\n[/DIRSCRIBE]\n'''"),
        other => panic!("expected success, got {:?}", other.is_some()),
    }
    assert_eq!(sleeps, vec![1000]);
}

#[test]
fn client_error_is_fatal_without_retry() {
    let client = ollama_client();
    let events = vec![
        ProviderEvent::Response { status: 403, body: String::from("forbidden") },
        ok_response("'''\n[DIRSCRIBE]\nok\n[/DIRSCRIBE]\n'''"),
    ];
    let (outcome, sleeps) = client.run_chat(&events, "foo.py", false, MAX_RETRIES);
    match outcome {
        Some(Err(ChatError::NonRetriable { status, body })) => {
            assert_eq!(status, 403);
            assert_eq!(body, "forbidden");
        },
        _ => panic!("expected a non-retriable failure"),
    }
    assert!(sleeps.is_empty());
}

#[test]
fn server_errors_exhaust_the_budget() {
    let client = ollama_client();
    let mut events = Vec::new();
    for _ in 0..8 {
        events.push(ProviderEvent::Response { status: 503, body: String::from("unavailable") });
    }
    let (outcome, sleeps) = client.run_chat(&events, "foo.py", false, MAX_RETRIES);
    match outcome {
        Some(Err(ChatError::Exhausted { status, body })) => {
            assert_eq!(status, Some(503));
            assert_eq!(body.as_deref(), Some("unavailable"));
        },
        _ => panic!("expected exhausted retries"),
    }
    assert_eq!(sleeps.len(), 6);
}

#[test]
fn transport_failures_exhaust_the_budget() {
    let client = ollama_client();
    let mut events = Vec::new();
    for _ in 0..8 {
        events.push(ProviderEvent::Transport);
    }
    let (outcome, _) = client.run_chat(&events, "foo.py", false, MAX_RETRIES);
    match outcome {
        Some(Err(ChatError::Exhausted { status, body })) => {
            assert_eq!(status, None);
            assert_eq!(body, None);
        },
        _ => panic!("expected exhausted retries"),
    }
}

#[test]
fn undecodable_bodies_exhaust_the_budget() {
    let client = ollama_client();
    let mut events = Vec::new();
    for _ in 0..8 {
        events.push(ProviderEvent::Response { status: 200, body: String::from("{not json") });
    }
    let (outcome, _) = client.run_chat(&events, "foo.py", false, MAX_RETRIES);
    assert!(matches!(outcome, Some(Err(ChatError::Decode))));
}

#[test]
fn diff_mode_skips_contract_validation() {
    let client = ollama_client();
    let events = vec![ok_response("any prose at all")];
    let (outcome, sleeps) = client.run_chat(&events, "foo.py", true, MAX_RETRIES);
    match outcome {
        Some(Ok(u)) => assert_eq!(u.content, "any prose at all"),
        _ => panic!("diff mode must not validate the shape"),
    }
    assert!(sleeps.is_empty());
}

#[test]
fn scripted_events_can_run_out() {
    let client = ollama_client();
    let events = vec![ProviderEvent::Response { status: 429, body: String::new() }];
    let (outcome, sleeps) = client.run_chat(&events, "foo.py", false, MAX_RETRIES);
    assert!(outcome.is_none());
    assert_eq!(sleeps, vec![1000]);
}

#[test]
fn error_messages_render() {
    let e = ChatError::NonRetriable { status: 400, body: String::from("bad request") };
    assert_eq!(e.message(), "API request failed with non-retriable error: bad request");
    assert_eq!(
        ChatError::InvalidSummary.message(),
        "Max retries exceeded. Could not generate valid summary format"
    );
    assert_eq!(ChatError::Decode.message(), "Max retries exceeded. Could not parse response");
    let ex = ChatError::Exhausted { status: Some(503), body: Some(String::from("oops")) };
    assert_eq!(ex.message(), "Max retries exceeded. Last error: 503 oops");
    let tr = ChatError::Exhausted { status: None, body: None };
    assert_eq!(tr.message(), "Max retries exceeded. Last error: transport failure");
}
