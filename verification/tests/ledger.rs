use gemini_pool::error::AppError;
use gemini_pool::gateway::UsageRecord;
use gemini_pool::ledger::Ledger;
use gemini_pool::records::{ApiKey, CreatedApiKey, DashboardStats, UsageLog};

fn bad_request(message: &str) -> AppError {
    AppError::BadRequest(message.to_string())
}

fn internal(detail: &str) -> AppError {
    AppError::Internal(detail.to_string())
}

fn ledger_with(keys: &[(&str, &str, i64)]) -> Ledger {
    let mut ledger = Ledger::new();
    for (id, secret, now) in keys {
        ledger.insert_api_key(id.to_string(), format!("name of {}", id), secret.to_string(), *now).unwrap();
    }
    ledger
}

fn key<'a>(ledger: &'a Ledger, id: &str) -> &'a ApiKey {
    ledger.api_keys().iter().find(|k| k.id == id).unwrap()
}

fn usage(api_key: &str, input: i32, output: i32) -> UsageRecord {
    UsageRecord {
        api_key: api_key.to_string(),
        endpoint: "/v1/chat/completions".to_string(),
        model: "gemini-pro".to_string(),
        input_tokens: input,
        output_tokens: output,
        success: true,
    }
}

#[test]
fn a_new_ledger_is_empty() {
    let ledger = Ledger::new();
    assert!(ledger.api_keys().is_empty());
    assert!(ledger.usage_logs().is_empty());
    assert_eq!(
        ledger.dashboard(),
        Some(DashboardStats { total_api_keys: 0, total_requests: 0, total_tokens: 0, active_keys: 0 })
    );
}

#[test]
fn an_inserted_credential_is_active_with_counters_at_zero() {
    let ledger = ledger_with(&[("id-1", "secret-1", 100)]);
    assert_eq!(
        ledger.api_keys().clone(),
        vec![ApiKey {
            id: "id-1".to_string(),
            key_name: "name of id-1".to_string(),
            api_key: "secret-1".to_string(),
            is_active: true,
            created_at: 100,
            total_requests: 0,
            total_input_tokens: 0,
            total_output_tokens: 0,
        }]
    );
}

#[test]
fn identifiers_and_secrets_are_unique() {
    let mut ledger = ledger_with(&[("id-1", "secret-1", 100)]);
    assert_eq!(
        ledger.insert_api_key("id-1".to_string(), "n".to_string(), "secret-2".to_string(), 1),
        Err(internal("API key identifier is taken"))
    );
    assert_eq!(
        ledger.insert_api_key("id-2".to_string(), "n".to_string(), "secret-1".to_string(), 1),
        Err(internal("API key is registered already"))
    );
    assert_eq!(ledger.api_keys().len(), 1);
}

#[test]
fn fetching_a_credential() {
    let ledger = ledger_with(&[("id-1", "secret-1", 100), ("id-2", "secret-2", 200)]);
    assert_eq!(ledger.get_api_key("id-2").unwrap().api_key, "secret-2");
    assert_eq!(ledger.get_api_key("id-3"), Err(bad_request("API Key not found")));
}

#[test]
fn updating_a_credential_changes_name_and_flag_only() {
    let mut ledger = ledger_with(&[("id-1", "secret-1", 100), ("id-2", "secret-2", 200)]);
    ledger.log_usage_with("log-1".to_string(), "id-1", 5, "e", "m", 3, 4, true).unwrap();
    assert_eq!(ledger.update_api_key("id-1", "renamed".to_string(), false), Ok(()));
    let changed = key(&ledger, "id-1");
    assert_eq!(changed.key_name, "renamed");
    assert!(!changed.is_active);
    assert_eq!(changed.api_key, "secret-1");
    assert_eq!(changed.created_at, 100);
    assert_eq!(changed.total_requests, 1);
    assert_eq!(changed.total_input_tokens, 3);
    assert_eq!(changed.total_output_tokens, 4);
    assert_eq!(key(&ledger, "id-2").key_name, "name of id-2");
    assert!(key(&ledger, "id-2").is_active);
}

#[test]
fn updating_an_unknown_credential_is_a_bad_request() {
    let mut ledger = ledger_with(&[("id-1", "secret-1", 100)]);
    let before = ledger.api_keys().clone();
    assert_eq!(ledger.update_api_key("id-9", "x".to_string(), false), Err(bad_request("API Key not found")));
    assert_eq!(ledger.api_keys().clone(), before);
}

#[test]
fn booking_a_call_counts_once_and_appends_one_entry() {
    let mut ledger = ledger_with(&[("id-1", "secret-1", 100), ("id-2", "secret-2", 200)]);
    assert_eq!(
        ledger.log_usage_with("log-1".to_string(), "id-2", 300, "/v1/chat/completions", "gemini-pro", 7, 11, true),
        Ok(())
    );
    assert_eq!(
        ledger.usage_logs().clone(),
        vec![UsageLog {
            id: "log-1".to_string(),
            api_key_id: "id-2".to_string(),
            timestamp: 300,
            endpoint: "/v1/chat/completions".to_string(),
            model: "gemini-pro".to_string(),
            input_tokens: 7,
            output_tokens: 11,
            success: true,
        }]
    );
    let booked = key(&ledger, "id-2");
    assert_eq!((booked.total_requests, booked.total_input_tokens, booked.total_output_tokens), (1, 7, 11));
    let other = key(&ledger, "id-1");
    assert_eq!((other.total_requests, other.total_input_tokens, other.total_output_tokens), (0, 0, 0));

    ledger.log_usage_with("log-2".to_string(), "id-2", 301, "e", "m", 1, 2, false).unwrap();
    let booked = key(&ledger, "id-2");
    assert_eq!((booked.total_requests, booked.total_input_tokens, booked.total_output_tokens), (2, 8, 13));
    assert_eq!(ledger.usage_logs().len(), 2);
}

#[test]
fn booking_is_refused_without_side_effects() {
    let mut ledger = ledger_with(&[("id-1", "secret-1", 100)]);
    ledger.log_usage_with("log-1".to_string(), "id-1", 1, "e", "m", 1, 1, true).unwrap();
    assert_eq!(
        ledger.log_usage_with("log-1".to_string(), "id-1", 2, "e", "m", 1, 1, true),
        Err(internal("Usage log identifier is taken"))
    );
    assert_eq!(
        ledger.log_usage_with("log-2".to_string(), "id-9", 2, "e", "m", 1, 1, true),
        Err(internal("API key does not exist"))
    );
    assert_eq!(ledger.usage_logs().len(), 1);
    assert_eq!(key(&ledger, "id-1").total_requests, 1);
}

#[test]
fn a_fresh_booking_gets_a_fresh_identifier() {
    let mut ledger = ledger_with(&[("id-1", "secret-1", 100)]);
    ledger.log_usage("id-1", "e", "m", 2, 3, true).unwrap();
    ledger.log_usage("id-1", "e", "m", 2, 3, true).unwrap();
    let logs = ledger.usage_logs();
    assert_eq!(logs.len(), 2);
    assert_ne!(logs[0].id, logs[1].id);
    assert_eq!(logs[0].id.len(), 36);
    assert!(logs[0].timestamp > 1_600_000_000);
    assert_eq!(key(&ledger, "id-1").total_requests, 2);
}

#[test]
fn a_credential_registers_itself_on_first_use() {
    let mut ledger = Ledger::new();
    assert_eq!(ledger.get_or_create_api_key_with("AIzaSyABCDEFGH", "id-1".to_string(), 50), Ok("id-1".to_string()));
    assert_eq!(
        ledger.api_keys().clone(),
        vec![ApiKey {
            id: "id-1".to_string(),
            key_name: "API Key AIzaSyAB".to_string(),
            api_key: "AIzaSyABCDEFGH".to_string(),
            is_active: true,
            created_at: 50,
            total_requests: 0,
            total_input_tokens: 0,
            total_output_tokens: 0,
        }]
    );
    // The second use finds it; the identifier offered is not used.
    assert_eq!(ledger.get_or_create_api_key_with("AIzaSyABCDEFGH", "id-2".to_string(), 60), Ok("id-1".to_string()));
    assert_eq!(ledger.api_keys().len(), 1);
    let id = ledger.get_or_create_api_key("another").unwrap();
    assert_eq!(id.len(), 36);
    assert_eq!(ledger.get_or_create_api_key("another"), Ok(id));
    assert_eq!(ledger.api_keys().len(), 2);
}

#[test]
fn a_successful_call_is_recorded_on_its_credential() {
    let mut ledger = ledger_with(&[("id-1", "secret-1", 100)]);
    ledger.record_usage_with(&usage("secret-1", 4, 3), "id-new".to_string(), "log-1".to_string(), 500).unwrap();
    let booked = key(&ledger, "id-1");
    assert_eq!((booked.total_requests, booked.total_input_tokens, booked.total_output_tokens), (1, 4, 3));
    assert_eq!(ledger.api_keys().len(), 1);
    assert_eq!(ledger.usage_logs().len(), 1);
    assert_eq!(ledger.usage_logs()[0].api_key_id, "id-1");
    assert_eq!(ledger.usage_logs()[0].id, "log-1");
    assert_eq!(ledger.usage_logs()[0].timestamp, 500);

    ledger.record_usage_with(&usage("secret-2", 1, 1), "id-new".to_string(), "log-2".to_string(), 501).unwrap();
    assert_eq!(ledger.api_keys().len(), 2);
    assert_eq!(key(&ledger, "id-new").total_requests, 1);
    assert_eq!(key(&ledger, "id-new").key_name, "API Key secret-2");
    assert_eq!(ledger.usage_logs()[1].api_key_id, "id-new");

    ledger.record_usage(&usage("secret-2", 1, 1)).unwrap();
    assert_eq!(key(&ledger, "id-new").total_requests, 2);
    assert_eq!(ledger.usage_logs().len(), 3);
}

#[test]
fn deleting_a_credential_removes_its_log_entries() {
    let mut ledger = ledger_with(&[("id-1", "secret-1", 100), ("id-2", "secret-2", 200)]);
    ledger.log_usage_with("log-1".to_string(), "id-1", 1, "e", "m", 1, 1, true).unwrap();
    ledger.log_usage_with("log-2".to_string(), "id-2", 2, "e", "m", 1, 1, true).unwrap();
    ledger.log_usage_with("log-3".to_string(), "id-1", 3, "e", "m", 1, 1, true).unwrap();
    ledger.log_usage_with("log-4".to_string(), "id-2", 4, "e", "m", 1, 1, true).unwrap();
    assert_eq!(ledger.delete_api_key("id-1"), Ok(()));
    let ids: Vec<&str> = ledger.api_keys().iter().map(|k| k.id.as_str()).collect();
    assert_eq!(ids, vec!["id-2"]);
    let logs: Vec<&str> = ledger.usage_logs().iter().map(|l| l.id.as_str()).collect();
    assert_eq!(logs, vec!["log-2", "log-4"]);
    assert_eq!(key(&ledger, "id-2").total_requests, 2);
    // The secret is free again.
    assert_eq!(ledger.insert_api_key("id-3".to_string(), "n".to_string(), "secret-1".to_string(), 5), Ok(()));
}

#[test]
fn deleting_an_unknown_credential_changes_nothing() {
    let mut ledger = ledger_with(&[("id-1", "secret-1", 100)]);
    ledger.log_usage_with("log-1".to_string(), "id-1", 1, "e", "m", 1, 1, true).unwrap();
    let keys = ledger.api_keys().clone();
    let logs = ledger.usage_logs().clone();
    assert_eq!(ledger.delete_api_key("id-9"), Err(bad_request("API Key not found")));
    assert_eq!(ledger.api_keys().clone(), keys);
    assert_eq!(ledger.usage_logs().clone(), logs);
    assert_eq!(ledger.delete_api_key("id-1"), Ok(()));
    assert_eq!(ledger.delete_api_key("id-1"), Err(bad_request("API Key not found")));
}

#[test]
fn creating_a_credential_with_a_given_secret() {
    let mut ledger = Ledger::new();
    assert_eq!(
        ledger.create_api_key_with(
            "team".to_string(),
            Some("given".to_string()),
            "id-1".to_string(),
            "123e4567-e89b-42d3-a456-426614174000",
            10
        ),
        Ok(CreatedApiKey { id: "id-1".to_string(), api_key: "given".to_string() })
    );
    assert_eq!(key(&ledger, "id-1").key_name, "team");
    assert_eq!(key(&ledger, "id-1").api_key, "given");
}

#[test]
fn creating_a_credential_without_a_secret_makes_one_up() {
    let mut ledger = Ledger::new();
    assert_eq!(
        ledger.create_api_key_with("team".to_string(), None, "id-1".to_string(), "123e4567-e89b-42d3-a456-426614174000", 10),
        Ok(CreatedApiKey { id: "id-1".to_string(), api_key: "gp_123e4567e89b42d3a456426614174000".to_string() })
    );
    let created = ledger.create_api_key("other".to_string(), None).unwrap();
    assert_eq!(created.id.len(), 36);
    assert_eq!(created.api_key.len(), 35);
    assert!(created.api_key.starts_with("gp_"));
    assert!(created.api_key[3..].chars().all(|c| c.is_ascii_digit() || ('a'..='f').contains(&c)));
    assert_eq!(key(&ledger, &created.id).api_key, created.api_key);
}

#[test]
fn creating_a_credential_with_a_secret_in_use_is_an_internal_error() {
    let mut ledger = ledger_with(&[("id-1", "secret-1", 100)]);
    let err = ledger.create_api_key("dup".to_string(), Some("secret-1".to_string())).unwrap_err();
    assert_eq!(err.status_code(), 500);
    assert_eq!(ledger.api_keys().len(), 1);
}

#[test]
fn listing_puts_the_newest_first() {
    let ledger = ledger_with(&[("id-1", "s1", 100), ("id-2", "s2", 300), ("id-3", "s3", 200), ("id-4", "s4", 300)]);
    let listing = ledger.list_api_keys();
    let times: Vec<i64> = listing.iter().map(|k| k.created_at).collect();
    assert_eq!(times, vec![300, 300, 200, 100]);
    let mut ids: Vec<&str> = listing.iter().map(|k| k.id.as_str()).collect();
    ids.sort();
    assert_eq!(ids, vec!["id-1", "id-2", "id-3", "id-4"]);
    assert!(Ledger::new().list_api_keys().is_empty());
}

#[test]
fn dashboard_adds_up_the_directory() {
    let mut ledger = ledger_with(&[("id-1", "s1", 100), ("id-2", "s2", 200), ("id-3", "s3", 300)]);
    ledger.log_usage_with("log-1".to_string(), "id-1", 1, "e", "m", 10, 20, true).unwrap();
    ledger.log_usage_with("log-2".to_string(), "id-2", 2, "e", "m", 1, 2, true).unwrap();
    ledger.log_usage_with("log-3".to_string(), "id-2", 3, "e", "m", 3, 4, true).unwrap();
    ledger.update_api_key("id-3", "off".to_string(), false).unwrap();
    assert_eq!(
        ledger.dashboard(),
        Some(DashboardStats { total_api_keys: 3, total_requests: 3, total_tokens: 40, active_keys: 2 })
    );
}

#[test]
fn a_known_and_active_credential_is_authorized() {
    let ledger = ledger_with(&[("id-1", "secret-1", 100), ("id-2", "secret-2", 200)]);
    assert_eq!(ledger.authorize_caller(Some("Bearer secret-2")), Ok("id-2".to_string()));
    assert_eq!(ledger.find_active_key("secret-1"), Some("id-1".to_string()));
}

#[test]
fn an_unknown_credential_is_answered_with_400_and_nothing_is_written() {
    let ledger = ledger_with(&[("id-1", "secret-1", 100)]);
    let err = ledger.authorize_caller(Some("Bearer nobody")).unwrap_err();
    assert_eq!(err, bad_request("Invalid or inactive API key"));
    assert_eq!(err.status_code(), 400);
    assert!(ledger.usage_logs().is_empty());
    assert_eq!(key(&ledger, "id-1").total_requests, 0);
    assert_eq!(ledger.find_active_key("nobody"), None);
}

#[test]
fn an_inactive_credential_is_refused() {
    let mut ledger = ledger_with(&[("id-1", "secret-1", 100)]);
    ledger.update_api_key("id-1", "off".to_string(), false).unwrap();
    assert_eq!(ledger.authorize_caller(Some("Bearer secret-1")), Err(bad_request("Invalid or inactive API key")));
    ledger.update_api_key("id-1", "on".to_string(), true).unwrap();
    assert_eq!(ledger.authorize_caller(Some("Bearer secret-1")), Ok("id-1".to_string()));
}

#[test]
fn a_request_without_a_bearer_credential_is_refused() {
    let ledger = ledger_with(&[("id-1", "secret-1", 100)]);
    assert_eq!(ledger.authorize_caller(None), Err(bad_request("Missing Authorization header")));
    assert_eq!(
        ledger.authorize_caller(Some("secret-1")),
        Err(bad_request("Invalid Authorization header format. Expected: Bearer <api_key>"))
    );
}

#[test]
fn large_counts_are_added_up_exactly() {
    let mut ledger = ledger_with(&[("id-1", "secret-1", 100)]);
    for i in 0..3 {
        ledger
            .log_usage_with(format!("log-{}", i), "id-1", 1, "e", "m", i32::MAX, i32::MAX, true)
            .unwrap();
    }
    assert_eq!(key(&ledger, "id-1").total_input_tokens, 3 * (i32::MAX as i64));
}


fn stored_key(id: &str, secret: &str, requests: i64, input: i64, output: i64) -> ApiKey {
    ApiKey {
        id: id.to_string(),
        key_name: "stored".to_string(),
        api_key: secret.to_string(),
        is_active: true,
        created_at: 1,
        total_requests: requests,
        total_input_tokens: input,
        total_output_tokens: output,
    }
}

fn stored_log(id: &str, api_key_id: &str) -> UsageLog {
    UsageLog {
        id: id.to_string(),
        api_key_id: api_key_id.to_string(),
        timestamp: 1,
        endpoint: "e".to_string(),
        model: "m".to_string(),
        input_tokens: 1,
        output_tokens: 1,
        success: true,
    }
}

#[test]
fn content_read_back_from_the_store_is_taken_as_it_is() {
    let keys = vec![stored_key("id-1", "s1", 5, 6, 7), stored_key("id-2", "s2", 0, 0, 0)];
    let logs = vec![stored_log("log-1", "id-1"), stored_log("log-2", "id-1")];
    let ledger = Ledger::restore(keys.clone(), logs.clone()).unwrap();
    assert_eq!(ledger.api_keys().clone(), keys);
    assert_eq!(ledger.usage_logs().clone(), logs);
    assert!(Ledger::restore(vec![], vec![]).is_some());
}

#[test]
fn content_that_breaks_the_guarantees_of_the_store_is_refused() {
    // Two credentials under one identifier.
    assert!(Ledger::restore(vec![stored_key("id-1", "s1", 0, 0, 0), stored_key("id-1", "s2", 0, 0, 0)], vec![])
        .is_none());
    // Two credentials with one secret.
    assert!(Ledger::restore(vec![stored_key("id-1", "s1", 0, 0, 0), stored_key("id-2", "s1", 0, 0, 0)], vec![])
        .is_none());
    // Two log entries under one identifier.
    assert!(Ledger::restore(
        vec![stored_key("id-1", "s1", 0, 0, 0)],
        vec![stored_log("log-1", "id-1"), stored_log("log-1", "id-1")]
    )
    .is_none());
    // A log entry booked on nobody.
    assert!(Ledger::restore(vec![stored_key("id-1", "s1", 0, 0, 0)], vec![stored_log("log-1", "id-9")]).is_none());
}

#[test]
fn a_counter_that_would_run_over_refuses_the_booking() {
    for key in [
        stored_key("id-1", "s1", i64::MAX, 0, 0),
        stored_key("id-1", "s1", 0, i64::MAX - 1, 0),
        stored_key("id-1", "s1", 0, 0, i64::MAX - 1),
    ] {
        let mut ledger = Ledger::restore(vec![key.clone()], vec![]).unwrap();
        assert_eq!(
            ledger.log_usage_with("log-1".to_string(), "id-1", 1, "e", "m", 2, 2, true),
            Err(internal("Usage counter out of range"))
        );
        assert_eq!(ledger.api_keys().clone(), vec![key]);
        assert!(ledger.usage_logs().is_empty());
    }
    let mut ledger = Ledger::restore(vec![stored_key("id-1", "s1", i64::MAX - 1, i64::MAX - 2, 0)], vec![]).unwrap();
    assert_eq!(ledger.log_usage_with("log-1".to_string(), "id-1", 1, "e", "m", 2, 2, true), Ok(()));
    assert_eq!(key(&ledger, "id-1").total_requests, i64::MAX);
    assert_eq!(key(&ledger, "id-1").total_input_tokens, i64::MAX);
}

#[test]
fn a_dashboard_figure_that_does_not_fit_gives_no_dashboard() {
    let ledger = Ledger::restore(
        vec![stored_key("id-1", "s1", i64::MAX, 0, 0), stored_key("id-2", "s2", 1, 0, 0)],
        vec![],
    )
    .unwrap();
    assert_eq!(ledger.dashboard(), None);
    let ledger = Ledger::restore(
        vec![stored_key("id-1", "s1", 0, i64::MAX, 0), stored_key("id-2", "s2", 0, 0, 1)],
        vec![],
    )
    .unwrap();
    assert_eq!(ledger.dashboard(), None);
    let ledger = Ledger::restore(
        vec![stored_key("id-1", "s1", 0, i64::MAX, -5), stored_key("id-2", "s2", 0, 3, 0)],
        vec![],
    )
    .unwrap();
    assert_eq!(
        ledger.dashboard(),
        Some(DashboardStats { total_api_keys: 2, total_requests: 0, total_tokens: i64::MAX - 2, active_keys: 2 })
    );
}
