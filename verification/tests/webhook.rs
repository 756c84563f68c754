use idcat::config::{GithubAppConfig, KeySource, WebhookTarget};
use idcat::error::AppError;
use idcat::roles::TokenValidator;
use idcat::service::AppState;
use idcat::string_map::StringMap;
use idcat::webhook::{validate_delivery, verify_signature};

// Example from GitHub's "validating webhook deliveries" documentation.
const SECRET: &[u8] = b"It's a Secret to Everybody";
const BODY: &[u8] = b"Hello, World!";
const SIGNATURE: &str = "sha256=757107ea0eb2509fc211221cce984b8a37570b6d7586c22c46f4379c8b043e17";

#[test]
fn accepts_valid_signature() {
    assert!(verify_signature(SECRET, BODY, SIGNATURE));
}

#[test]
fn rejects_signature_computed_with_wrong_secret() {
    assert!(!verify_signature(b"wrong secret", BODY, SIGNATURE));
}

#[test]
fn rejects_signature_for_tampered_body() {
    assert!(!verify_signature(SECRET, b"Goodbye, World!", SIGNATURE));
}

#[test]
fn rejects_signature_without_sha256_prefix() {
    let bare = SIGNATURE.strip_prefix("sha256=").unwrap();
    assert!(!verify_signature(SECRET, BODY, bare));
}

#[test]
fn rejects_non_hex_signature() {
    assert!(!verify_signature(SECRET, BODY, "sha256=not-hex"));
}

#[test]
fn signatures_may_be_in_upper_case_and_must_be_whole() {
    let digits = SIGNATURE.strip_prefix("sha256=").unwrap();
    let upper = format!("sha256={}", digits.to_uppercase());
    assert!(verify_signature(SECRET, BODY, &upper));
    assert!(!verify_signature(SECRET, BODY, &SIGNATURE[..SIGNATURE.len() - 1]));
    assert!(!verify_signature(SECRET, BODY, &SIGNATURE[..SIGNATURE.len() - 2]));
    assert!(!verify_signature(SECRET, BODY, &format!("{SIGNATURE}00")));
    assert!(!verify_signature(SECRET, BODY, "sha256="));
    assert!(!verify_signature(SECRET, BODY, "sha256=\u{e9}\u{e9}"));
}

fn test_state(github_apps: Vec<GithubAppConfig>) -> AppState {
    AppState {
        github_apps,
        installation_policies: Vec::new(),
        human_policies: Vec::new(),
        human_roles: StringMap::new(),
        token_validator: TokenValidator::new(Vec::new(), true).unwrap(),
        key_source: KeySource::Local,
    }
}

fn test_github_app(webhook_validation_secret_file: Option<String>) -> GithubAppConfig {
    GithubAppConfig {
        name: "default".to_string(),
        app_id: 42,
        secret_key: "private-key.pem".to_string(),
        webhook_target: None,
        webhook_validation_secret_file,
        allowed_roles: Vec::new(),
    }
}

/// What becomes of a delivery: whether it is published, or why it is refused.
fn deliver(
    state: &AppState,
    github_app: &str,
    secret: &str,
    signature: Option<&str>,
    body: &[u8],
) -> Result<bool, AppError> {
    let plan = state.plan_delivery(github_app)?;
    if let Some(secret_file) = plan.secret_file {
        validate_delivery(secret_file, Ok(secret), signature.map(str::as_bytes), body)?;
    }
    Ok(plan.publish)
}

#[test]
fn webhook_accepts_github_payload() {
    let state = test_state(vec![test_github_app(None)]);

    let published = deliver(
        &state,
        "default",
        "",
        None,
        br#"{"zen":"Keep it logically awesome."}"#,
    )
    .unwrap();

    assert!(!published);
}

#[test]
fn webhook_rejects_unknown_github_app() {
    let state = test_state(vec![test_github_app(None)]);

    let error = deliver(
        &state,
        "missing",
        "",
        None,
        br#"{"zen":"Keep it logically awesome."}"#,
    )
    .unwrap_err();

    assert!(matches!(error, AppError::NotFound(_)));
}

#[test]
fn webhook_rejects_delivery_with_missing_signature_when_validation_configured() {
    let state = test_state(vec![test_github_app(Some("/secret".to_string()))]);

    let error = deliver(
        &state,
        "default",
        "It's a Secret to Everybody",
        None,
        b"Hello, World!",
    )
    .unwrap_err();

    assert!(matches!(error, AppError::Unauthorized(_)));
}

#[test]
fn webhook_accepts_delivery_with_valid_signature() {
    let state = test_state(vec![test_github_app(Some("/secret".to_string()))]);

    deliver(
        &state,
        "default",
        "It's a Secret to Everybody",
        Some("sha256=757107ea0eb2509fc211221cce984b8a37570b6d7586c22c46f4379c8b043e17"),
        b"Hello, World!",
    )
    .unwrap();
}

#[test]
fn deliveries_are_refused_for_the_right_reason() {
    let validate = |secret: Result<&str, &str>, signature: Option<&[u8]>| {
        validate_delivery("/secret", secret, signature, BODY)
    };
    // White space round the secret does not count.
    assert_eq!(
        validate(Ok("\nIt's a Secret to Everybody \n"), Some(SIGNATURE.as_bytes())),
        Ok(())
    );
    assert_eq!(
        validate(Err("permission denied"), Some(SIGNATURE.as_bytes())),
        Err(AppError::Internal(
            "failed to read webhook validation secret from '/secret': permission denied".to_string()
        ))
    );
    assert_eq!(
        validate(Ok(" \n"), Some(SIGNATURE.as_bytes())),
        Err(AppError::Internal(
            "webhook validation secret file '/secret' is empty".to_string()
        ))
    );
    assert_eq!(
        validate(Ok("x"), None),
        Err(AppError::Unauthorized("missing x-hub-signature-256 header".to_string()))
    );
    assert_eq!(
        validate(Ok("x"), Some(&[0xff])),
        Err(AppError::Unauthorized("missing x-hub-signature-256 header".to_string()))
    );
    assert_eq!(
        validate(Ok("x"), Some(SIGNATURE.as_bytes())),
        Err(AppError::Unauthorized("webhook signature validation failed".to_string()))
    );
}

#[test]
fn deliveries_are_published_where_the_app_says_so() {
    let mut app = test_github_app(None);
    app.webhook_target = Some(WebhookTarget::Nats);
    let state = test_state(vec![app]);
    assert!(deliver(&state, "default", "", None, b"{}").unwrap());
    assert_eq!(
        deliver(&state, "other", "", None, b"{}").unwrap_err().to_text(),
        "unknown github_app 'other'"
    );
}
