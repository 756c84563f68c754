use idcat::audit::{
    abbreviate, permissions_label, record_denial, record_issuance, token_fingerprint,
    IssuanceRecord, FINGERPRINT_LENGTH,
};
use idcat::service::HumanIdentity;
use idcat::string_map::{from_entries, StringMap};

fn permissions(entries: &[(&str, &str)]) -> StringMap<String> {
    from_entries(
        entries
            .iter()
            .map(|(name, level)| (name.to_string(), level.to_string()))
            .collect(),
    )
}

fn identity() -> HumanIdentity {
    HumanIdentity {
        subject: "alex.mason@example.invalid".to_string(),
        request_id: Some("req-1".to_string()),
        human_role: "pilot-repo-reader".to_string(),
    }
}

const SYNTHETIC_TOKEN: &str = "ghs_synthetic_token_value_for_tests";

fn issuance() -> IssuanceRecord {
    record_issuance(
        &identity(),
        "source-reader",
        "myorg/pilot",
        &permissions(&[("contents", "read")]),
        "2099-01-01T00:00:00Z",
        SYNTHETIC_TOKEN,
    )
}

#[test]
fn an_issuance_record_is_emitted_at_info() {
    let record = issuance();
    let logged = format!("{record:?}");

    assert!(!logged.is_empty(), "there must be a record");
    assert_eq!(record.event, "human_installation_token");
    assert_eq!(record.decision, "allow");
}

#[test]
fn an_issuance_record_carries_everything_needed_to_join_it_to_the_approval() {
    let logged = format!("{:?}", issuance());

    for expected in [
        "alex.mason@example.invalid",
        "req-1",
        "pilot-repo-reader",
        "source-reader",
        "myorg/pilot",
        "contents=read",
        "2099-01-01T00:00:00Z",
        &token_fingerprint(SYNTHETIC_TOKEN),
        "allow",
    ] {
        assert!(
            logged.contains(expected),
            "issuance record is missing '{expected}': {logged}"
        );
    }
}

#[test]
fn an_issuance_record_never_contains_the_token() {
    let logged = format!("{:?}", issuance());

    assert!(
        !logged.contains(SYNTHETIC_TOKEN),
        "the bearer token must never reach a log: {logged}"
    );
    assert!(
        !logged.contains("ghs_"),
        "no GitHub token prefix may appear in a log: {logged}"
    );
}

#[test]
fn a_denial_is_emitted_at_info_without_inventing_an_identity() {
    let logged = format!(
        "{:?}",
        record_denial(
            None,
            "source-reader",
            "myorg/other",
            "no human-policy authorizes",
        )
    );

    assert!(logged.contains("deny"), "{logged}");
    assert!(logged.contains("myorg/other"), "{logged}");
    assert!(
        logged.contains("unauthenticated"),
        "an unvalidated token must not be reported as an identity: {logged}"
    );
}

#[test]
fn a_denial_after_validation_names_the_person() {
    let logged = format!(
        "{:?}",
        record_denial(
            Some("alex.mason@example.invalid"),
            "source-reader",
            "myorg/pilot",
            "GitHub rejected the request",
        )
    );

    assert!(logged.contains("alex.mason@example.invalid"), "{logged}");
    assert!(logged.contains("deny"), "{logged}");
}

#[test]
fn fingerprint_is_stable_and_short() {
    assert_eq!(
        token_fingerprint("ghs_example"),
        token_fingerprint("ghs_example")
    );
    assert_eq!(token_fingerprint("ghs_example").len(), FINGERPRINT_LENGTH);
}

#[test]
fn fingerprint_differs_between_tokens() {
    assert_ne!(token_fingerprint("ghs_one"), token_fingerprint("ghs_two"));
}

#[test]
fn fingerprint_does_not_contain_the_token() {
    let token = "ghs_averyrecognisablesecretvalue";

    assert!(
        !token_fingerprint(token).contains("averyrecognisable"),
        "a fingerprint that echoed the token would defeat its purpose"
    );
}

#[test]
fn permissions_label_is_ordered_and_complete() {
    let permissions = permissions(&[("metadata", "read"), ("contents", "read")]);

    assert_eq!(
        permissions_label(&permissions),
        "contents=read,metadata=read"
    );
}

#[test]
fn fingerprints_are_the_first_digits_of_the_digest() {
    // The SHA-256 digests of the empty text and of "abc".
    assert_eq!(token_fingerprint(""), "e3b0c44298fc1c14");
    assert_eq!(token_fingerprint("abc"), "ba7816bf8f01cfea");
    assert_eq!(
        abbreviate(&vec![0x00, 0x0f, 0x10, 0xab, 0xcd, 0xef, 0x99, 0xff, 0x12]),
        "000f10abcdef99ff"
    );
}

#[test]
fn an_issuance_record_is_complete() {
    assert_eq!(
        issuance(),
        IssuanceRecord {
            event: "human_installation_token",
            decision: "allow",
            subject: "alex.mason@example.invalid".to_string(),
            teleport_request: "req-1".to_string(),
            human_role: "pilot-repo-reader".to_string(),
            github_app: "source-reader".to_string(),
            repository: "myorg/pilot".to_string(),
            permissions: "contents=read".to_string(),
            expires_at: "2099-01-01T00:00:00Z".to_string(),
            token_fingerprint: token_fingerprint(SYNTHETIC_TOKEN),
        }
    );
    let unnamed = HumanIdentity {
        request_id: None,
        ..identity()
    };
    let record = record_issuance(&unnamed, "app", "o/r", &permissions(&[]), "t", "x");
    assert_eq!(record.teleport_request, "unknown");
    assert_eq!(record.permissions, "");
}
