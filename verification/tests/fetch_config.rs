use proxy_reconciler::config::{
    control_plane_url_or_default, default_inbound_tag, grpc_addr_or_default,
    inbound_tag_or_default, require_secret, ConfigError, RetryPolicy, CALL_TIMEOUT_SECS,
    CONNECT_RETRY_SECS, CONNECT_TIMEOUT_SECS, KEEPALIVE_SECS, SYNC_INTERVAL_SECS,
};
use proxy_reconciler::fetch::{authorize, check_fetch_status, desired_from_identities, FetchError};

#[test]
fn success_statuses() {
    assert!(check_fetch_status(200).is_ok());
    assert!(check_fetch_status(204).is_ok());
    assert!(check_fetch_status(299).is_ok());
}

#[test]
fn non_success_statuses_are_fetch_errors() {
    assert!(matches!(check_fetch_status(199), Err(FetchError::Status(199))));
    assert!(matches!(check_fetch_status(300), Err(FetchError::Status(300))));
    assert!(matches!(check_fetch_status(401), Err(FetchError::Status(401))));
    assert!(matches!(check_fetch_status(500), Err(FetchError::Status(500))));
}

#[test]
fn authorize_matching_secret() {
    let expected = "shared-agent-secret".to_string();
    let presented = "shared-agent-secret".to_string();
    assert!(authorize(Some(&presented), &expected));
}

#[test]
fn authorize_wrong_secret() {
    let expected = "right".to_string();
    let presented = "wrong".to_string();
    assert!(!authorize(Some(&presented), &expected));
}

#[test]
fn authorize_missing_header() {
    let expected = "right".to_string();
    assert!(!authorize(None, &expected));
    // an empty expected secret lets a missing header through, as the
    // authority's default configuration does
    let empty = String::new();
    assert!(authorize(None, &empty));
}

#[test]
fn desired_members_carry_identities() {
    let uuids = vec!["u1".to_string(), "u2".to_string()];
    let members = desired_from_identities(&uuids);
    assert_eq!(members.len(), 2);
    assert_eq!(members[0].identity, "u1");
    assert_eq!(members[1].identity, "u2");
    assert!(members[0].tier.is_none());
    assert!(members[0].label.is_none());
}

#[test]
fn desired_members_deduplicate() {
    let uuids = vec![
        "u1".to_string(),
        "u2".to_string(),
        "u1".to_string(),
        "u3".to_string(),
        "u2".to_string(),
    ];
    let members = desired_from_identities(&uuids);
    let got: Vec<&str> = members.iter().map(|m| m.identity.as_str()).collect();
    assert_eq!(got, vec!["u1", "u2", "u3"]);
}

#[test]
fn configured_intervals() {
    assert_eq!(SYNC_INTERVAL_SECS, 30);
    assert_eq!(CONNECT_RETRY_SECS, 10);
    assert_eq!(CONNECT_TIMEOUT_SECS, 5);
    assert_eq!(CALL_TIMEOUT_SECS, 5);
    assert_eq!(KEEPALIVE_SECS, 30);
}

#[test]
fn tag_defaults() {
    assert_eq!(default_inbound_tag(), "inbound-vless");
    assert_eq!(inbound_tag_or_default(None), "inbound-vless");
    assert_eq!(inbound_tag_or_default(Some("custom".to_string())), "custom");
}

#[test]
fn endpoint_defaults() {
    assert_eq!(control_plane_url_or_default(None), "http://127.0.0.1:3000");
    assert_eq!(
        control_plane_url_or_default(Some("http://cp:9".to_string())),
        "http://cp:9"
    );
    assert_eq!(grpc_addr_or_default(None), "http://host.docker.internal:8080");
    assert_eq!(grpc_addr_or_default(Some("http://x:1".to_string())), "http://x:1");
}

#[test]
fn secret_is_required() {
    assert_eq!(require_secret(Some("s".to_string())), Ok("s".to_string()));
    assert_eq!(require_secret(None), Err(ConfigError::MissingSecret));
}

#[test]
fn retry_policy_fixed_unbounded() {
    let policy = RetryPolicy::fixed_unbounded(10);
    assert!(policy.should_retry(0));
    assert!(policy.should_retry(1_000_000));
    assert_eq!(policy.next_delay_secs(0), 10);
    assert_eq!(policy.next_delay_secs(99), 10);
}

#[test]
fn retry_policy_bounded() {
    let policy = RetryPolicy {
        interval_secs: 2,
        max_attempts: Some(3),
    };
    assert!(policy.should_retry(2));
    assert!(!policy.should_retry(3));
}
