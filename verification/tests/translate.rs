use gemini_pool::error::AppError;
use gemini_pool::schema::{
    GeminiCandidate, GeminiContent, GeminiModelInfo, GeminiModelList, GeminiPart, GeminiResponse,
    OpenAIChatRequest, OpenAIMessage,
};
use gemini_pool::translate::{
    convert_to_gemini_request, convert_to_model_list, convert_to_openai_response, openai_response_with,
};

fn message(role: &str, content: &str) -> OpenAIMessage {
    OpenAIMessage { role: role.to_string(), content: content.to_string() }
}

fn request(messages: Vec<OpenAIMessage>) -> OpenAIChatRequest {
    OpenAIChatRequest { model: "gemini-pro".to_string(), messages }
}

fn part(text: &str) -> GeminiPart {
    GeminiPart { text: text.to_string() }
}

fn candidate(texts: &[&str]) -> GeminiCandidate {
    GeminiCandidate {
        content: GeminiContent {
            role: "model".to_string(),
            parts: texts.iter().map(|t| part(t)).collect(),
        },
    }
}

fn model(name: &str, methods: &[&str]) -> GeminiModelInfo {
    GeminiModelInfo {
        name: name.to_string(),
        supported_generation_methods: methods.iter().map(|m| m.to_string()).collect(),
    }
}

#[test]
fn system_and_user_become_instruction_and_one_content() {
    let out = convert_to_gemini_request(request(vec![message("system", "S"), message("user", "U")])).unwrap();
    assert_eq!(out.system_instruction.unwrap().parts, vec![part("S")]);
    assert_eq!(out.contents.len(), 1);
    assert_eq!(out.contents[0].role, "user");
    assert_eq!(out.contents[0].parts, vec![part("U")]);
}

#[test]
fn only_the_first_system_message_is_kept() {
    let out = convert_to_gemini_request(request(vec![
        message("system", "S1"),
        message("system", "S2"),
        message("user", "U"),
    ]))
    .unwrap();
    assert_eq!(out.system_instruction.unwrap().parts, vec![part("S1")]);
    assert_eq!(out.contents.len(), 1);
    assert_eq!(out.contents[0].parts, vec![part("U")]);
}

#[test]
fn a_later_system_message_is_still_the_instruction() {
    let out = convert_to_gemini_request(request(vec![message("user", "U"), message("system", "S")])).unwrap();
    assert_eq!(out.system_instruction.unwrap().parts, vec![part("S")]);
    assert_eq!(out.contents.len(), 1);
}

#[test]
fn assistant_first_is_a_validation_error() {
    let err = convert_to_gemini_request(request(vec![message("assistant", "X")])).unwrap_err();
    assert_eq!(
        err,
        AppError::BadRequest(
            "Conversation must start with a user message after the system prompt.".to_string()
        )
    );
    assert_eq!(err.status_code(), 400);
}

#[test]
fn assistant_first_behind_a_system_message_is_a_validation_error() {
    let err =
        convert_to_gemini_request(request(vec![message("system", "S"), message("assistant", "X")])).unwrap_err();
    assert!(matches!(err, AppError::BadRequest(_)));
}

#[test]
fn tool_role_is_a_validation_error_naming_the_role() {
    let err = convert_to_gemini_request(request(vec![message("user", "U"), message("tool", "T")])).unwrap_err();
    assert_eq!(err, AppError::BadRequest("Unsupported role: tool".to_string()));
    assert!(err.response_message().contains("tool"));
}

#[test]
fn the_first_unsupported_role_is_the_one_named() {
    let err = convert_to_gemini_request(request(vec![
        message("assistant", "A"),
        message("tool", "T"),
        message("function", "F"),
    ]))
    .unwrap_err();
    assert_eq!(err, AppError::BadRequest("Unsupported role: tool".to_string()));
}

#[test]
fn roles_are_matched_exactly() {
    let err = convert_to_gemini_request(request(vec![message("User", "U")])).unwrap_err();
    assert_eq!(err, AppError::BadRequest("Unsupported role: User".to_string()));
}

#[test]
fn empty_message_list_gives_empty_contents() {
    let out = convert_to_gemini_request(request(vec![])).unwrap();
    assert!(out.contents.is_empty());
    assert!(out.system_instruction.is_none());
}

#[test]
fn turns_keep_their_order_and_roles_are_mapped() {
    let out = convert_to_gemini_request(request(vec![
        message("user", "one"),
        message("assistant", "two"),
        message("system", "S"),
        message("user", "three"),
    ]))
    .unwrap();
    let seen: Vec<(String, String)> =
        out.contents.iter().map(|c| (c.role.clone(), c.parts[0].text.clone())).collect();
    assert_eq!(
        seen,
        vec![
            ("user".to_string(), "one".to_string()),
            ("model".to_string(), "two".to_string()),
            ("user".to_string(), "three".to_string()),
        ]
    );
}

#[test]
fn response_without_candidates_is_a_translation_error() {
    let err = convert_to_openai_response(GeminiResponse { candidates: vec![] }, "m".to_string()).unwrap_err();
    assert_eq!(err, AppError::Internal("No content found in Gemini response".to_string()));
    assert_eq!(err.status_code(), 500);
}

#[test]
fn candidate_without_parts_is_a_translation_error() {
    let err =
        convert_to_openai_response(GeminiResponse { candidates: vec![candidate(&[])] }, "m".to_string()).unwrap_err();
    assert_eq!(err, AppError::Internal("No content found in Gemini response".to_string()));
}

#[test]
fn one_candidate_with_one_part_gives_a_single_choice() {
    let out = convert_to_openai_response(GeminiResponse { candidates: vec![candidate(&["hi"])] }, "m".to_string())
        .unwrap();
    assert_eq!(out.choices.len(), 1);
    assert_eq!(out.choices[0].index, 0);
    assert_eq!(out.choices[0].message.role, "assistant");
    assert_eq!(out.choices[0].message.content, "hi");
    assert_eq!(out.choices[0].finish_reason, "stop");
    assert_eq!(out.object, "chat.completion");
    assert_eq!(out.model, "m");
}

#[test]
fn only_the_first_part_of_the_first_candidate_is_used() {
    let out = convert_to_openai_response(
        GeminiResponse { candidates: vec![candidate(&["first", "second"]), candidate(&["other"])] },
        "m".to_string(),
    )
    .unwrap();
    assert_eq!(out.choices.len(), 1);
    assert_eq!(out.choices[0].message.content, "first");
}

#[test]
fn response_identifier_is_fresh_and_well_formed() {
    let make = || {
        convert_to_openai_response(GeminiResponse { candidates: vec![candidate(&["hi"])] }, "m".to_string())
            .unwrap()
    };
    let a = make();
    let b = make();
    assert_ne!(a.id, b.id);
    let id = a.id.strip_prefix("chatcmpl-").unwrap();
    assert_eq!(id.len(), 36);
    for (i, c) in id.chars().enumerate() {
        if i == 8 || i == 13 || i == 18 || i == 23 {
            assert_eq!(c, '-');
        } else {
            assert!(c.is_ascii_digit() || ('a'..='f').contains(&c));
        }
    }
    assert!(a.created > 1_600_000_000);
}

#[test]
fn response_with_given_identifier_and_time_is_exact() {
    let out = openai_response_with(
        GeminiResponse { candidates: vec![candidate(&["hi"])] },
        "gemini-pro".to_string(),
        "abc",
        42,
    )
    .unwrap();
    assert_eq!(out.id, "chatcmpl-abc");
    assert_eq!(out.created, 42);
    assert_eq!(out.model, "gemini-pro");
}

#[test]
fn model_listing_keeps_chat_models_and_strips_the_prefix() {
    let out = convert_to_model_list(GeminiModelList {
        models: vec![
            model("models/gemini-pro", &["generateContent", "countTokens"]),
            model("models/embedding-001", &["embedContent"]),
            model("models/text-embedding-004", &["generateContent"]),
            model("models/aqa", &["generateAnswer"]),
            model("tuned/custom", &["generateContent"]),
        ],
    });
    assert_eq!(out.object, "list");
    let ids: Vec<&str> = out.data.iter().map(|m| m.id.as_str()).collect();
    assert_eq!(ids, vec!["gemini-pro", "tuned/custom"]);
    for entry in &out.data {
        assert_eq!(entry.object, "model");
        assert_eq!(entry.created, 1);
        assert_eq!(entry.owned_by, "google");
    }
}

#[test]
fn model_listing_strips_the_prefix_only_at_the_front() {
    let out = convert_to_model_list(GeminiModelList {
        models: vec![model("models/models/x", &["generateContent"]), model("xmodels/y", &["generateContent"])],
    });
    let ids: Vec<&str> = out.data.iter().map(|m| m.id.as_str()).collect();
    assert_eq!(ids, vec!["models/x", "xmodels/y"]);
}

#[test]
fn empty_model_listing_is_an_empty_list() {
    let out = convert_to_model_list(GeminiModelList { models: vec![] });
    assert_eq!(out.object, "list");
    assert!(out.data.is_empty());
}
