use gemini_pool::error::AppError;
use gemini_pool::records::{
    counter_bounds, dashboard_stats, default_key_name, generate_api_key, require_affected, require_booked,
    require_found, require_known, DashboardStats,
};

fn bad_request(message: &str) -> AppError {
    AppError::BadRequest(message.to_string())
}

#[test]
fn default_display_name_uses_the_head_of_the_credential() {
    assert_eq!(default_key_name("AIzaSyABCDEFGH"), "API Key AIzaSyAB");
    assert_eq!(default_key_name("12345678"), "API Key 12345678");
    assert_eq!(default_key_name("short"), "API Key short");
    assert_eq!(default_key_name(""), "API Key ");
}

#[test]
fn default_display_name_never_splits_a_character() {
    // The eighth byte lies inside the fifth character, which is three bytes long.
    assert_eq!(default_key_name("abc€€€"), "API Key abc€");
    assert_eq!(default_key_name("ab€€€"), "API Key ab€€");
    assert_eq!(default_key_name("éééé"), "API Key éééé");
    assert_eq!(default_key_name("1234567é"), "API Key 1234567");
}

#[test]
fn generated_secret_is_the_prefix_and_the_identifier_without_hyphens() {
    assert_eq!(
        generate_api_key("123e4567-e89b-42d3-a456-426614174000"),
        "gp_123e4567e89b42d3a456426614174000"
    );
    assert_eq!(generate_api_key("a-b"), "gp_ab");
    assert_eq!(generate_api_key("--"), "gp_");
    assert_eq!(generate_api_key(""), "gp_");
}

#[test]
fn dashboard_counts_a_missing_aggregate_as_zero() {
    assert_eq!(
        dashboard_stats(Some(3), Some(10), Some(100), Some(23), Some(2)),
        DashboardStats { total_api_keys: 3, total_requests: 10, total_tokens: 123, active_keys: 2 }
    );
    assert_eq!(
        dashboard_stats(None, None, None, None, None),
        DashboardStats { total_api_keys: 0, total_requests: 0, total_tokens: 0, active_keys: 0 }
    );
    assert_eq!(
        dashboard_stats(Some(1), None, Some(5), None, Some(1)),
        DashboardStats { total_api_keys: 1, total_requests: 0, total_tokens: 5, active_keys: 1 }
    );
}

#[test]
fn a_statement_that_touched_no_row_means_the_credential_is_unknown() {
    assert_eq!(require_affected(0), Err(bad_request("API Key not found")));
    assert_eq!(require_affected(1), Ok(()));
    assert_eq!(require_affected(7), Ok(()));
}

#[test]
fn a_query_without_a_row_means_the_credential_is_unknown() {
    assert_eq!(require_found(Some(5u8)), Ok(5u8));
    assert_eq!(require_found::<u8>(None), Err(bad_request("API Key not found")));
}

#[test]
fn a_call_is_not_booked_on_an_unknown_credential() {
    assert_eq!(require_known(Some(5u8)), Ok(5u8));
    assert_eq!(require_known::<u8>(None), Err(AppError::Internal("API key does not exist".to_string())));
}

#[test]
fn a_booking_that_touched_no_row_found_a_counter_without_room() {
    assert_eq!(require_booked(0), Err(AppError::Internal("Usage counter out of range".to_string())));
    assert_eq!(require_booked(1), Ok(()));
}

#[test]
fn a_counter_has_room_between_its_bounds() {
    assert_eq!(counter_bounds(0), (i64::MIN, i64::MAX));
    assert_eq!(counter_bounds(5), (i64::MIN, i64::MAX - 5));
    assert_eq!(counter_bounds(-5), (i64::MIN + 5, i64::MAX));
    assert_eq!(counter_bounds(i32::MAX), (i64::MIN, i64::MAX - i32::MAX as i64));
    assert_eq!(counter_bounds(i32::MIN), (i64::MIN - i32::MIN as i64, i64::MAX));
    for tokens in [i32::MIN, -1, 0, 1, i32::MAX] {
        let (least, greatest) = counter_bounds(tokens);
        assert!(least.checked_add(tokens as i64).is_some());
        assert!(greatest.checked_add(tokens as i64).is_some());
        assert!(least == i64::MIN || (least - 1).checked_add(tokens as i64).is_none());
        assert!(greatest == i64::MAX || (greatest + 1).checked_add(tokens as i64).is_none());
    }
}
