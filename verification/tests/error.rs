use gemini_pool::error::AppError;

#[test]
fn bad_request_is_answered_with_400_and_its_message() {
    let err = AppError::bad_request("Unsupported role: tool");
    assert_eq!(err, AppError::BadRequest("Unsupported role: tool".to_string()));
    assert_eq!(err.status_code(), 400);
    assert_eq!(err.response_message(), "Unsupported role: tool");
}

#[test]
fn internal_error_is_answered_with_500_and_a_generic_message() {
    let err = AppError::internal("Upstream Gemini API Error: 503 Service Unavailable - secret detail");
    assert_eq!(err.status_code(), 500);
    assert_eq!(err.response_message(), "Internal server error");
}
