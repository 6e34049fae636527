use gemini_pool::error::AppError;
use gemini_pool::gateway::{
    build_chat_url, build_models_url, finish_list_models, start_chat, start_list_models, status_is_success,
    step, step_with, GatewayAction, GatewayEvent, GatewayState, UpstreamReply, UsageRecord,
};
use gemini_pool::pool::RotationPool;
use gemini_pool::schema::{
    GeminiCandidate, GeminiContent, GeminiModelInfo, GeminiModelList, GeminiPart, GeminiResponse,
    OpenAIChatRequest, OpenAIMessage,
};

fn pool() -> RotationPool {
    RotationPool::new(vec!["key-a".to_string(), "key-b".to_string()]).unwrap()
}

fn request(messages: &[(&str, &str)]) -> OpenAIChatRequest {
    OpenAIChatRequest {
        model: "gemini-pro".to_string(),
        messages: messages
            .iter()
            .map(|(role, content)| OpenAIMessage { role: role.to_string(), content: content.to_string() })
            .collect(),
    }
}

fn reply(status: u16, line: &str, body: &str) -> UpstreamReply {
    UpstreamReply { status, status_line: line.to_string(), body: body.to_string() }
}

fn upstream(text: &str) -> GeminiResponse {
    GeminiResponse {
        candidates: vec![GeminiCandidate {
            content: GeminiContent { role: "model".to_string(), parts: vec![GeminiPart { text: text.to_string() }] },
        }],
    }
}

fn called() -> GatewayState {
    GatewayState::UpstreamCalled { model: "gemini-pro".to_string(), api_key: "key-a".to_string(), input_tokens: 3 }
}

#[test]
fn status_range_of_success() {
    assert!(!status_is_success(199));
    assert!(status_is_success(200));
    assert!(status_is_success(204));
    assert!(status_is_success(299));
    assert!(!status_is_success(300));
    assert!(!status_is_success(404));
    assert!(!status_is_success(500));
}

#[test]
fn chat_address_carries_model_and_credential() {
    assert_eq!(
        build_chat_url("gemini-pro", "SECRET"),
        "https://generativelanguage.googleapis.com/v1beta/models/gemini-pro:generateContent?key=SECRET"
    );
}

#[test]
fn listing_address_carries_the_credential() {
    assert_eq!(
        build_models_url("SECRET"),
        "https://generativelanguage.googleapis.com/v1beta/models?key=SECRET"
    );
}

#[test]
fn a_valid_request_goes_out_under_the_next_credential() {
    let pool = pool();
    let (state, action) = start_chat(&pool, request(&[("system", "abcdefgh"), ("user", "abcde")]));
    assert_eq!(
        state,
        GatewayState::UpstreamCalled { model: "gemini-pro".to_string(), api_key: "key-a".to_string(), input_tokens: 4 }
    );
    match action {
        GatewayAction::CallUpstream { url, request } => {
            assert_eq!(
                url,
                "https://generativelanguage.googleapis.com/v1beta/models/gemini-pro:generateContent?key=key-a"
            );
            assert_eq!(request.contents.len(), 1);
            assert_eq!(request.contents[0].role, "user");
            assert_eq!(request.system_instruction.unwrap().parts[0].text, "abcdefgh");
        }
        other => panic!("unexpected action {:?}", other),
    }
    let (state, _) = start_chat(&pool, request(&[("user", "hi")]));
    assert!(matches!(state, GatewayState::UpstreamCalled { ref api_key, .. } if api_key == "key-b"));
}

#[test]
fn an_invalid_request_is_answered_without_an_upstream_call() {
    let pool = pool();
    let (state, action) = start_chat(&pool, request(&[("tool", "x")]));
    assert_eq!(state, GatewayState::Responded);
    assert_eq!(action, GatewayAction::Fail { error: AppError::BadRequest("Unsupported role: tool".to_string()) });
}

#[test]
fn rotation_goes_on_after_an_invalid_request() {
    let pool = pool();
    let _ = start_chat(&pool, request(&[("assistant", "x")]));
    let (state, _) = start_chat(&pool, request(&[("user", "hi")]));
    assert!(matches!(state, GatewayState::UpstreamCalled { ref api_key, .. } if api_key == "key-b"));
}

#[test]
fn a_successful_reply_is_booked_before_it_is_answered() {
    let event = GatewayEvent::UpstreamReplied { reply: reply(200, "200 OK", "{}"), parsed: Some(upstream("abcdefghi")) };
    let (state, action) = step_with(called(), event, "id", 7);
    let response = match state {
        GatewayState::Success { ref response } => response.clone(),
        ref other => panic!("unexpected state {:?}", other),
    };
    assert_eq!(response.id, "chatcmpl-id");
    assert_eq!(response.created, 7);
    assert_eq!(response.model, "gemini-pro");
    assert_eq!(response.choices[0].message.content, "abcdefghi");
    assert_eq!(
        action,
        GatewayAction::RecordUsage {
            usage: UsageRecord {
                api_key: "key-a".to_string(),
                endpoint: "/v1/chat/completions".to_string(),
                model: "gemini-pro".to_string(),
                input_tokens: 3,
                output_tokens: 3,
                success: true,
            }
        }
    );
    let (state, action) = step_with(state, GatewayEvent::UsageLogged { stored: true }, "other", 9);
    assert_eq!(state, GatewayState::Responded);
    assert_eq!(action, GatewayAction::Respond { response });
}

#[test]
fn a_failed_ledger_write_does_not_fail_the_response() {
    let event = GatewayEvent::UpstreamReplied { reply: reply(200, "200 OK", "{}"), parsed: Some(upstream("hi")) };
    let (state, _) = step_with(called(), event, "id", 7);
    let (state, action) = step(state, GatewayEvent::UsageLogged { stored: false });
    assert_eq!(state, GatewayState::Responded);
    assert!(matches!(action, GatewayAction::Respond { ref response } if response.choices[0].message.content == "hi"));
}

#[test]
fn an_upstream_error_is_an_internal_error_and_books_nothing() {
    let event = GatewayEvent::UpstreamReplied {
        reply: reply(429, "429 Too Many Requests", "quota"),
        parsed: Some(upstream("ignored")),
    };
    let (state, action) = step(called(), event);
    assert_eq!(state, GatewayState::Responded);
    let error = match action {
        GatewayAction::Fail { error } => error,
        other => panic!("unexpected action {:?}", other),
    };
    assert_eq!(
        error,
        AppError::Internal("Upstream Gemini API Error: 429 Too Many Requests - quota".to_string())
    );
    assert_eq!(error.status_code(), 500);
    assert_eq!(error.response_message(), "Internal server error");
}

#[test]
fn an_unreadable_body_is_an_internal_error() {
    let event = GatewayEvent::UpstreamReplied { reply: reply(200, "200 OK", "not json"), parsed: None };
    let (state, action) = step(called(), event);
    assert_eq!(state, GatewayState::Responded);
    assert_eq!(
        action,
        GatewayAction::Fail {
            error: AppError::Internal("Failed to deserialize upstream Gemini response".to_string())
        }
    );
}

#[test]
fn a_reply_without_content_is_a_translation_error() {
    let event = GatewayEvent::UpstreamReplied {
        reply: reply(200, "200 OK", "{\"candidates\":[]}"),
        parsed: Some(GeminiResponse { candidates: vec![] }),
    };
    let (state, action) = step(called(), event);
    assert_eq!(state, GatewayState::Responded);
    assert_eq!(
        action,
        GatewayAction::Fail { error: AppError::Internal("No content found in Gemini response".to_string()) }
    );
}

#[test]
fn a_call_that_came_to_no_answer_is_an_internal_error() {
    let (state, action) = step(called(), GatewayEvent::UpstreamFailed { detail: "connection reset".to_string() });
    assert_eq!(state, GatewayState::Responded);
    assert_eq!(action, GatewayAction::Fail { error: AppError::Internal("connection reset".to_string()) });
}

#[test]
fn an_event_that_does_not_fit_ends_the_call() {
    let (state, action) = step(GatewayState::Responded, GatewayEvent::UsageLogged { stored: true });
    assert_eq!(state, GatewayState::Responded);
    assert_eq!(
        action,
        GatewayAction::Fail { error: AppError::Internal("Event does not fit the state of the call".to_string()) }
    );
    let (state, action) = step(called(), GatewayEvent::UsageLogged { stored: true });
    assert_eq!(state, GatewayState::Responded);
    assert!(matches!(action, GatewayAction::Fail { .. }));
}

#[test]
fn a_step_builds_a_fresh_identifier() {
    let event = GatewayEvent::UpstreamReplied { reply: reply(200, "200 OK", "{}"), parsed: Some(upstream("hi")) };
    let (state, _) = step(called(), event);
    match state {
        GatewayState::Success { response } => {
            assert!(response.id.starts_with("chatcmpl-"));
            assert_eq!(response.id.len(), "chatcmpl-".len() + 36);
        }
        other => panic!("unexpected state {:?}", other),
    }
}

#[test]
fn model_listing_is_fetched_under_the_next_credential() {
    let pool = pool();
    assert_eq!(start_list_models(&pool), "https://generativelanguage.googleapis.com/v1beta/models?key=key-a");
    assert_eq!(start_list_models(&pool), "https://generativelanguage.googleapis.com/v1beta/models?key=key-b");
    assert_eq!(start_list_models(&pool), "https://generativelanguage.googleapis.com/v1beta/models?key=key-a");
}

#[test]
fn model_listing_outcomes() {
    let list = GeminiModelList {
        models: vec![GeminiModelInfo {
            name: "models/gemini-pro".to_string(),
            supported_generation_methods: vec!["generateContent".to_string()],
        }],
    };
    let ok = finish_list_models(reply(200, "200 OK", "{}"), Some(list.clone())).unwrap();
    assert_eq!(ok.data.len(), 1);
    assert_eq!(ok.data[0].id, "gemini-pro");

    let refused = finish_list_models(reply(403, "403 Forbidden", "denied"), Some(list)).unwrap_err();
    assert_eq!(
        refused,
        AppError::Internal("Upstream Gemini API Error on model list: 403 Forbidden - denied".to_string())
    );

    let unreadable = finish_list_models(reply(200, "200 OK", "x"), None).unwrap_err();
    assert_eq!(unreadable, AppError::Internal("Failed to deserialize upstream model list".to_string()));
}
