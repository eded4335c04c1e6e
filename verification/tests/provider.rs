use wtf::provider::{
    build_request, read_gemini, read_openai, status_is_success, ApiError, Candidate, Choice,
    Config, ConfigError, Envelope, GeminiContent, GeminiError, GeminiResponse, MessageContent,
    OpenAIError, OpenAIResponse, Part, Provider, GEMINI_BASE_URL, GEMINI_MODEL, MAX_TOKENS,
    MISSING_KEY_HELP, OPENAI_MODEL,
};

fn some(text: &str) -> Option<String> {
    Some(text.to_string())
}

fn gemini_config() -> Config {
    Config::resolve(some("secret"), None, None, None).unwrap()
}

fn openai_config() -> Config {
    Config::resolve(some("secret"), None, some("https://openrouter.ai/api/v1"), some("o-model"))
        .unwrap()
}

fn gemini_answer(texts: &[&[&str]]) -> GeminiResponse {
    GeminiResponse {
        candidates: Some(
            texts
                .iter()
                .map(|parts| Candidate {
                    content: GeminiContent {
                        parts: parts.iter().map(|t| Part { text: t.to_string() }).collect(),
                    },
                })
                .collect(),
        ),
        error: None,
    }
}

fn openai_answer(texts: &[&str]) -> OpenAIResponse {
    OpenAIResponse {
        choices: Some(
            texts
                .iter()
                .map(|t| Choice { message: MessageContent { content: t.to_string() } })
                .collect(),
        ),
        error: None,
    }
}

#[test]
fn defaults_are_the_documented_ones() {
    assert_eq!(GEMINI_BASE_URL, "https://generativelanguage.googleapis.com/v1beta");
    assert_eq!(GEMINI_MODEL, "gemini-2.0-flash");
    assert_eq!(OPENAI_MODEL, "gpt-4o-mini");
    assert_eq!(MAX_TOKENS, 500);
}

#[test]
fn resolve_without_base_url_selects_gemini() {
    let config = Config::resolve(some("k"), None, None, None).unwrap();
    assert_eq!(
        config,
        Config {
            api_key: "k".to_string(),
            base_url: "https://generativelanguage.googleapis.com/v1beta".to_string(),
            model: "gemini-2.0-flash".to_string(),
            provider: Provider::Gemini,
        }
    );
}

#[test]
fn resolve_with_base_url_selects_openai() {
    let config = Config::resolve(some("k"), None, some("http://localhost:11434/v1"), None).unwrap();
    assert_eq!(
        config,
        Config {
            api_key: "k".to_string(),
            base_url: "http://localhost:11434/v1".to_string(),
            model: "gpt-4o-mini".to_string(),
            provider: Provider::OpenAI,
        }
    );
}

#[test]
fn resolve_keeps_a_named_model() {
    let config = Config::resolve(some("k"), None, None, some("gemini-pro")).unwrap();
    assert_eq!(config.model, "gemini-pro");
    assert_eq!(config.provider, Provider::Gemini);
    let config = Config::resolve(some("k"), None, some("http://x"), some("llama3")).unwrap();
    assert_eq!(config.model, "llama3");
    assert_eq!(config.provider, Provider::OpenAI);
}

#[test]
fn resolve_treats_empty_settings_as_unset() {
    let config = Config::resolve(some("k"), None, some(""), some("")).unwrap();
    assert_eq!(config.provider, Provider::Gemini);
    assert_eq!(config.base_url, GEMINI_BASE_URL);
    assert_eq!(config.model, GEMINI_MODEL);
}

#[test]
fn resolve_prefers_the_first_key() {
    let config = Config::resolve(some("first"), some("second"), None, None).unwrap();
    assert_eq!(config.api_key, "first");
    let config = Config::resolve(None, some("second"), None, None).unwrap();
    assert_eq!(config.api_key, "second");
}

#[test]
fn resolve_fails_without_a_key() {
    assert_eq!(Config::resolve(None, None, None, None), Err(ConfigError::MissingApiKey));
    assert_eq!(
        Config::resolve(None, None, some("http://x"), some("m")),
        Err(ConfigError::MissingApiKey)
    );
}

#[test]
fn resolve_fails_on_an_empty_key() {
    assert_eq!(Config::resolve(some(""), None, None, None), Err(ConfigError::MissingApiKey));
    assert_eq!(Config::resolve(None, some(""), None, None), Err(ConfigError::MissingApiKey));
    assert_eq!(Config::resolve(some(""), some("second"), None, None), Err(ConfigError::MissingApiKey));
}

#[test]
fn missing_key_message_tells_what_to_set() {
    assert_eq!(ConfigError::MissingApiKey.message(), MISSING_KEY_HELP);
    assert_eq!(
        MISSING_KEY_HELP,
        "API key not set.\n\nSet one of these environment variables:\n\
         export WTF_API_KEY='your-key'      # For any provider\n\
         export GEMINI_API_KEY='your-key'   # For Gemini (legacy)\n\n\
         Get a free Gemini key at: https://aistudio.google.com/app/apikey"
    );
}

#[test]
fn gemini_request_carries_instruction_and_contents() {
    let envelope = build_request(&gemini_config(), "show my ip address", "be a shell expert");
    match envelope {
        Envelope::Gemini { url, body } => {
            assert_eq!(
                url,
                "https://generativelanguage.googleapis.com/v1beta/models/gemini-2.0-flash:generateContent?key=secret"
            );
            assert_eq!(
                body.contents,
                vec![GeminiContent { parts: vec![Part { text: "show my ip address".to_string() }] }]
            );
            assert_eq!(
                body.system_instruction,
                GeminiContent { parts: vec![Part { text: "be a shell expert".to_string() }] }
            );
        }
        other => panic!("unexpected envelope {:?}", other),
    }
}

#[test]
fn openai_request_carries_model_messages_and_bearer_token() {
    let envelope = build_request(&openai_config(), "show my ip address", "be a shell expert");
    match envelope {
        Envelope::OpenAI { url, authorization, body } => {
            assert_eq!(url, "https://openrouter.ai/api/v1/chat/completions");
            assert_eq!(authorization, "Bearer secret");
            assert_eq!(body.model, "o-model");
            assert_eq!(body.max_tokens, 500);
            assert_eq!(body.messages.len(), 2);
            assert_eq!(body.messages[0].role, "system");
            assert_eq!(body.messages[0].content, "be a shell expert");
            assert_eq!(body.messages[1].role, "user");
            assert_eq!(body.messages[1].content, "show my ip address");
        }
        other => panic!("unexpected envelope {:?}", other),
    }
}

#[test]
fn success_is_a_status_from_200_to_299() {
    assert!(!status_is_success(0));
    assert!(!status_is_success(199));
    assert!(status_is_success(200));
    assert!(status_is_success(204));
    assert!(status_is_success(299));
    assert!(!status_is_success(300));
    assert!(!status_is_success(404));
    assert!(!status_is_success(500));
    assert!(!status_is_success(u16::MAX));
}

#[test]
fn gemini_gives_the_first_part_of_the_first_candidate() {
    let answer = gemini_answer(&[&["curl -s ifconfig.me", "second part"], &["other candidate"]]);
    assert_eq!(
        read_gemini(200, "{}".to_string(), Ok(answer)),
        Ok("curl -s ifconfig.me".to_string())
    );
}

#[test]
fn gemini_text_is_returned_raw() {
    let answer = gemini_answer(&[&["  ```bash\nls\n``` ### lists \n"]]);
    assert_eq!(
        read_gemini(200, String::new(), Ok(answer)),
        Ok("  ```bash\nls\n``` ### lists \n".to_string())
    );
}

#[test]
fn gemini_status_error_carries_status_and_body() {
    let answer = gemini_answer(&[&["ls"]]);
    assert_eq!(
        read_gemini(429, "slow down".to_string(), Ok(answer)),
        Err(ApiError::Status { status: 429, body: "slow down".to_string() })
    );
    assert_eq!(
        read_gemini(500, "boom".to_string(), Err("not json".to_string())),
        Err(ApiError::Status { status: 500, body: "boom".to_string() })
    );
}

#[test]
fn gemini_unreadable_body_is_malformed() {
    assert_eq!(
        read_gemini(200, "<html>".to_string(), Err("expected value at line 1".to_string())),
        Err(ApiError::Malformed("expected value at line 1".to_string()))
    );
}

#[test]
fn gemini_embedded_error_takes_precedence() {
    let mut answer = gemini_answer(&[&["ls"]]);
    answer.error = Some(GeminiError { message: "quota exceeded".to_string() });
    assert_eq!(
        read_gemini(200, "{}".to_string(), Ok(answer)),
        Err(ApiError::Provider("quota exceeded".to_string()))
    );
}

#[test]
fn gemini_without_a_candidate_is_empty() {
    let none = GeminiResponse { candidates: None, error: None };
    assert_eq!(read_gemini(200, String::new(), Ok(none)), Err(ApiError::EmptyResult));
    assert_eq!(read_gemini(200, String::new(), Ok(gemini_answer(&[]))), Err(ApiError::EmptyResult));
    assert_eq!(
        read_gemini(200, String::new(), Ok(gemini_answer(&[&[], &["later"]]))),
        Err(ApiError::EmptyResult)
    );
}

#[test]
fn openai_gives_the_message_of_the_first_choice() {
    assert_eq!(
        read_openai(200, "{}".to_string(), Ok(openai_answer(&["df -h", "du -sh"]))),
        Ok("df -h".to_string())
    );
}

#[test]
fn openai_status_error_carries_status_and_body() {
    assert_eq!(
        read_openai(401, "unauthorized".to_string(), Ok(openai_answer(&["ls"]))),
        Err(ApiError::Status { status: 401, body: "unauthorized".to_string() })
    );
    assert_eq!(
        read_openai(199, "early".to_string(), Ok(openai_answer(&["ls"]))),
        Err(ApiError::Status { status: 199, body: "early".to_string() })
    );
    assert_eq!(
        read_openai(300, "moved".to_string(), Ok(openai_answer(&["ls"]))),
        Err(ApiError::Status { status: 300, body: "moved".to_string() })
    );
}

#[test]
fn openai_unreadable_body_is_malformed() {
    assert_eq!(
        read_openai(200, "oops".to_string(), Err("EOF".to_string())),
        Err(ApiError::Malformed("EOF".to_string()))
    );
}

#[test]
fn openai_embedded_error_takes_precedence() {
    let mut answer = openai_answer(&["ls"]);
    answer.error = Some(OpenAIError { message: "model not found".to_string() });
    assert_eq!(
        read_openai(200, "{}".to_string(), Ok(answer)),
        Err(ApiError::Provider("model not found".to_string()))
    );
}

#[test]
fn openai_without_a_choice_is_empty() {
    let none = OpenAIResponse { choices: None, error: None };
    assert_eq!(read_openai(200, String::new(), Ok(none)), Err(ApiError::EmptyResult));
    assert_eq!(read_openai(200, String::new(), Ok(openai_answer(&[]))), Err(ApiError::EmptyResult));
}

#[test]
fn error_messages_for_gemini() {
    let p = Provider::Gemini;
    assert_eq!(
        ApiError::Transport("connection refused".to_string()).message(p),
        "Failed to send request to Gemini API: connection refused"
    );
    assert_eq!(
        ApiError::Status { status: 404, body: "not found".to_string() }.message(p),
        "Gemini API error (404): not found"
    );
    assert_eq!(
        ApiError::Malformed("EOF".to_string()).message(p),
        "Failed to parse Gemini response: EOF"
    );
    assert_eq!(ApiError::Provider("quota".to_string()).message(p), "Gemini API error: quota");
    assert_eq!(ApiError::<String>::EmptyResult.message(p), "No command generated from Gemini");
}

#[test]
fn error_messages_for_openai() {
    let p = Provider::OpenAI;
    assert_eq!(
        ApiError::Transport("timeout".to_string()).message(p),
        "Failed to send request to API: timeout"
    );
    assert_eq!(
        ApiError::Status { status: 503, body: String::new() }.message(p),
        "API error (503): "
    );
    assert_eq!(
        ApiError::Malformed("EOF".to_string()).message(p),
        "Failed to parse API response: EOF"
    );
    assert_eq!(ApiError::Provider("quota".to_string()).message(p), "API error: quota");
    assert_eq!(ApiError::<String>::EmptyResult.message(p), "No command generated from API");
}
