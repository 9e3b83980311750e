use critter::classify::{classify, collect_errors, ApiEnvelope, ApiOutcome};

fn env(detail: Option<&str>, errors: Option<Vec<&str>>, has_data: bool) -> ApiEnvelope {
    ApiEnvelope {
        detail: detail.map(String::from),
        errors: errors.map(|es| es.into_iter().map(String::from).collect()),
        has_data,
    }
}

#[test]
fn rate_limit_message_wins() {
    let out = classify(&env(None, Some(vec!["Too Many Requests"]), false));
    assert!(matches!(out, ApiOutcome::TooManyRequests));
    // independent of other collected messages
    let out = classify(&env(
        Some("slow down"),
        Some(vec!["first", "Too Many Requests"]),
        false,
    ));
    assert!(matches!(out, ApiOutcome::TooManyRequests));
}

#[test]
fn collected_messages_join_in_order() {
    let out = classify(&env(Some("x"), Some(vec!["Invalid field"]), false));
    assert!(matches!(out, ApiOutcome::ApiError(m) if m == "Invalid field x"));
}

#[test]
fn data_is_success() {
    let out = classify(&env(None, None, true));
    assert!(matches!(out, ApiOutcome::Success));
    // data wins even beside error text
    let out = classify(&env(Some("note"), Some(vec!["odd"]), true));
    assert!(matches!(out, ApiOutcome::Success));
}

#[test]
fn empty_envelope_is_unknown() {
    let out = classify(&env(None, None, false));
    assert!(matches!(out, ApiOutcome::Unknown));
    let out = classify(&env(None, Some(vec![]), false));
    assert!(matches!(out, ApiOutcome::Unknown));
}

#[test]
fn collect_errors_keeps_order_and_appends_detail() {
    let msgs = collect_errors(&env(Some("last"), Some(vec!["a", "b"]), false));
    assert_eq!(msgs, vec!["a", "b", "last"]);
    let msgs = collect_errors(&env(Some("only"), None, false));
    assert_eq!(msgs, vec!["only"]);
    let msgs = collect_errors(&env(None, None, false));
    assert!(msgs.is_empty());
}
