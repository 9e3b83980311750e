use critter::auth::{parse_header, TwitterAuth};

const URL: &str = "https://api.twitter.com/2/users/me";

fn auth() -> TwitterAuth {
    TwitterAuth::from_oa1uc("ck", "cs", "tok", "tsec")
}

#[test]
fn header_without_query_matches_known_signature() {
    let a = auth();
    let h = a.header_with("GET", URL, None, "abc123", 1700000000);
    assert_eq!(
        h,
        "OAuth oauth_consumer_key=\"ck\",oauth_nonce=\"abc123\",oauth_signature=\"Sxf8eoFUAa8GJ3VNSCz9k%2FYJdUk%3D\",oauth_signature_method=\"HMAC-SHA1\",oauth_timestamp=\"1700000000\",oauth_token=\"tok\",oauth_version=\"1.0\""
    );
}

#[test]
fn header_with_query_sorts_encoded_entries() {
    let a = auth();
    let query = [("q", "rust lang"), ("a", "b")];
    let h = a.header_with("GET", URL, Some(&query), "abc123", 1700000000);
    assert_eq!(
        h,
        "OAuth oauth_consumer_key=\"ck\",oauth_nonce=\"abc123\",oauth_signature=\"PhbLlqd%2FwjY3yE%2BDIq6aB8O14oU%3D\",oauth_signature_method=\"HMAC-SHA1\",oauth_timestamp=\"1700000000\",oauth_token=\"tok\",oauth_version=\"1.0\""
    );
}

#[test]
fn header_is_deterministic_for_fixed_inputs() {
    let a = auth();
    let query = [("q", "rust lang"), ("a", "b")];
    let h1 = a.header_with("POST", URL, Some(&query), "n0n", 42);
    let h2 = a.header_with("POST", URL, Some(&query), "n0n", 42);
    assert_eq!(h1, h2);
}

#[test]
fn permuting_query_parameters_does_not_change_header() {
    let a = auth();
    let q1 = [("q", "rust lang"), ("a", "b")];
    let q2 = [("a", "b"), ("q", "rust lang")];
    let h1 = a.header_with("GET", URL, Some(&q1), "abc123", 1700000000);
    let h2 = a.header_with("GET", URL, Some(&q2), "abc123", 1700000000);
    assert_eq!(h1, h2);
}

#[test]
fn varying_nonce_or_timestamp_changes_signature() {
    let a = auth();
    let h = a.header_with("GET", URL, None, "abc123", 1700000000);
    let other_nonce = a.header_with("GET", URL, None, "abc124", 1700000000);
    let other_time = a.header_with("GET", URL, None, "abc123", 1700000001);
    assert_ne!(h, other_nonce);
    assert_ne!(h, other_time);
}

#[test]
fn header_round_trip_recovers_quoted_fields() {
    let a = auth();
    let h = a.header_with("GET", URL, None, "abc123", 1700000000);
    let fields = parse_header(&h).expect("a rendered header parses");
    assert_eq!(fields.consumer_key, "ck");
    assert_eq!(fields.nonce, "abc123");
    assert_eq!(fields.timestamp, "1700000000");
    assert_eq!(fields.token, "tok");
    assert_eq!(fields.signature, "Sxf8eoFUAa8GJ3VNSCz9k%2FYJdUk%3D");
}

#[test]
fn parse_rejects_malformed_headers() {
    assert!(parse_header("").is_none());
    assert!(parse_header("Bearer xyz").is_none());
    let a = auth();
    let h = a.header_with("GET", URL, None, "abc123", 1700000000);
    let mut truncated = h.clone();
    truncated.pop();
    assert!(parse_header(&truncated).is_none());
    assert!(parse_header(&h[1..]).is_none());
}

#[test]
fn fresh_headers_carry_fresh_alphanumeric_nonces() {
    let a = auth();
    let h1 = a.header("GET", URL, None);
    let h2 = a.header("GET", URL, None);
    let f1 = parse_header(&h1).expect("fresh header parses");
    let f2 = parse_header(&h2).expect("fresh header parses");
    assert_eq!(f1.nonce.chars().count(), 42);
    assert!(f1.nonce.chars().all(|c| c.is_ascii_alphanumeric()));
    assert_ne!(f1.nonce, f2.nonce);
    assert!(f1.timestamp.chars().all(|c| c.is_ascii_digit()));
    assert_eq!(f1.consumer_key, "ck");
    assert_eq!(f1.token, "tok");
}
