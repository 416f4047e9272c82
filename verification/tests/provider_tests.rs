use dirscribe::{Message, Provider, ProviderRequest, UnifiedClient, user_messages};

#[test]
fn provider_names_parse_case_insensitively() {
    assert!(matches!(Provider::from_str("deepseek"), Ok(Provider::Deepseek)));
    assert!(matches!(Provider::from_str("DeepSeek"), Ok(Provider::Deepseek)));
    assert!(matches!(Provider::from_str("ANTHROPIC"), Ok(Provider::Anthropic)));
    assert!(matches!(Provider::from_str("Ollama"), Ok(Provider::Ollama)));
    let err = Provider::from_str("gpt").unwrap_err();
    assert_eq!(err, "Invalid provider: gpt. Valid options are: deepseek, anthropic, ollama");
}

#[test]
fn key_based_providers_require_a_key() {
    let err = UnifiedClient::new(Provider::Deepseek, None, None).unwrap_err();
    assert_eq!(err, "PROVIDER_API_KEY not set");
    let err = UnifiedClient::new(Provider::Anthropic, None, None).unwrap_err();
    assert_eq!(err, "PROVIDER_API_KEY not set");
    assert!(UnifiedClient::new(Provider::Ollama, None, None).is_ok());
}

#[test]
fn client_configuration_uses_documented_endpoints_and_defaults() {
    let c = UnifiedClient::new(Provider::Deepseek, Some(String::from("k1")), None).unwrap();
    assert_eq!(c.base_url, "https://api.deepseek.com/v1/chat/completions");
    assert_eq!(c.model, "deepseek-chat");
    assert_eq!(c.api_key, "k1");
    let c = UnifiedClient::new(Provider::Anthropic, Some(String::from("k2")), None).unwrap();
    assert_eq!(c.base_url, "https://api.anthropic.com/v1/messages");
    assert_eq!(c.model, "sonnet-3-20240229");
    let c = UnifiedClient::new(Provider::Ollama, None, Some(String::from("m"))).unwrap();
    assert_eq!(c.base_url, "http://localhost:11434/api/generate");
    assert_eq!(c.model, "m");
    assert_eq!(c.api_key, "");
    let c = UnifiedClient::new(Provider::Ollama, None, None).unwrap();
    assert_eq!(c.model, "deepseek-r1:8b");
}

#[test]
fn headers_follow_the_provider_scheme() {
    let c = UnifiedClient::new(Provider::Deepseek, Some(String::from("secret")), None).unwrap();
    let h = c.build_headers();
    assert_eq!(h.len(), 2);
    assert_eq!(h[0].0, "Authorization");
    assert_eq!(h[0].1, "Bearer secret");
    assert_eq!(h[1].0, "Content-Type");
    assert_eq!(h[1].1, "application/json");

    let c = UnifiedClient::new(Provider::Anthropic, Some(String::from("secret")), None).unwrap();
    let h = c.build_headers();
    assert_eq!(h.len(), 3);
    assert_eq!(h[0], (String::from("x-api-key"), String::from("secret")));
    assert_eq!(h[1], (String::from("anthropic-version"), String::from("2023-06-01")));

    let c = UnifiedClient::new(Provider::Ollama, None, None).unwrap();
    let h = c.build_headers();
    assert_eq!(h.len(), 1);
    assert_eq!(h[0].0, "Content-Type");
}

#[test]
fn ollama_request_concatenates_messages_into_one_prompt() {
    let c = UnifiedClient::new(Provider::Ollama, None, None).unwrap();
    let messages = vec![
        Message { role: String::from("user"), content: String::from("hello") },
        Message { role: String::from("assistant"), content: String::from("hi") },
    ];
    match c.build_request(messages, None, None) {
        ProviderRequest::Prompt { model, prompt, stream } => {
            assert_eq!(model, "deepseek-r1:8b");
            assert_eq!(prompt, "user: hello\nassistant: hi");
            assert!(!stream);
        },
        _ => panic!("local provider takes the single-prompt shape"),
    }
}

#[test]
fn chat_request_shapes_follow_the_provider() {
    let c = UnifiedClient::new(Provider::Deepseek, Some(String::from("k")), None).unwrap();
    let messages = user_messages(String::from("p"));
    match c.build_request(messages, None, None) {
        ProviderRequest::Chat { model, messages, temperature_tenths, max_tokens, stream } => {
            assert_eq!(model, "deepseek-chat");
            assert_eq!(messages.len(), 1);
            assert_eq!(messages[0].role, "user");
            assert_eq!(messages[0].content, "p");
            assert_eq!(temperature_tenths, None);
            assert_eq!(max_tokens, None);
            assert!(!stream);
        },
        _ => panic!("chat-completion shape expected"),
    }
    let c = UnifiedClient::new(Provider::Anthropic, Some(String::from("k")), None).unwrap();
    match c.build_request(user_messages(String::from("p")), None, None) {
        ProviderRequest::AnthropicChat { max_tokens, temperature_tenths, .. } => {
            assert_eq!(max_tokens, 512);
            assert_eq!(temperature_tenths, 1);
        },
        _ => panic!("message shape expected"),
    }
}

#[test]
fn deepseek_response_parses_choices_path() {
    let c = UnifiedClient::new(Provider::Deepseek, Some(String::from("k")), None).unwrap();
    let body = "{\"choices\": [{\"message\": {\"role\": \"assistant\", \"content\": \"the summary\"}}], \"usage\": {\"total_tokens\": 9}}";
    let r = c.parse_response(body).unwrap();
    assert_eq!(r.content, "the summary");
    assert!(c.parse_response("{\"choices\": []}").is_err());
    assert!(c.parse_response("not json").is_err());
}

#[test]
fn anthropic_response_parses_content_path() {
    let c = UnifiedClient::new(Provider::Anthropic, Some(String::from("k")), None).unwrap();
    let body = "{\"content\": [{\"type\": \"text\", \"text\": \"reply text\"}], \"usage\": {\"input_tokens\": 1, \"output_tokens\": 2}}";
    let r = c.parse_response(body).unwrap();
    assert_eq!(r.content, "reply text");
    assert!(c.parse_response("{\"content\": [{}]}").is_err());
}

#[test]
fn ollama_response_parses_and_strips_reasoning() {
    let c = UnifiedClient::new(Provider::Ollama, None, None).unwrap();
    let plain = "{\"response\": \"direct answer\", \"done\": true}";
    assert_eq!(c.parse_response(plain).unwrap().content, "direct answer");

    let reasoned =
        "{\"response\": \"thinking hard...</think>  the real answer  \", \"done\": true}";
    assert_eq!(c.parse_response(reasoned).unwrap().content, "the real answer");

    let missing_done = "{\"response\": \"x\"}";
    assert!(c.parse_response(missing_done).is_err());
}
