//! Synthetic tokens of people, signed with the throwaway keys below. Nothing here is a credential.
use base64::engine::general_purpose::URL_SAFE_NO_PAD;
use base64::Engine;
use idcat::algorithm::Algorithm;
use idcat::claims::ClaimValue;
use idcat::config::{
    GithubAppConfig, HumanJwtAlgorithm, HumanPolicyConfig, HumanRoleConfig, KeySource,
};
use idcat::error::AppError;
use idcat::human::{
    accept_payload, role_members, HumanClaims, HumanTokenError, HumanTokenValidator, JwksStep,
};
use idcat::jwks::{may_be_tried, KeySet, KeyStep, PublicKey, JWKS_CACHE_TTL, JWKS_REFETCH_FLOOR};
use idcat::roles::{ClaimRequirement, RoleConfig, TokenValidator};
use idcat::service::{
    answer_human, build_human_roles, AppState, HumanIdentity, HumanKeyStep, HumanRole, RepoScope, Requester,
    TokenScope,
};
use idcat::string_map::{from_entries, StringMap};
use rsa::pkcs8::{EncodePrivateKey, LineEnding};
use rsa::traits::PublicKeyParts;
use rsa::{BigUint, RsaPrivateKey};
use serde_json::Value;
use std::time::{SystemTime, UNIX_EPOCH};

const TEST_KID: &str = "idcat-test-key";

const TEST_P: &str = "f9b8cd8dae54bb2dd750c942ea3407193c591c90a47c4b7c692454e242fe56d5\
    e3c61560905cc8de7fd725f8a0f0e9988d4a51833a15bd9ee3da19f800b00b20\
    0ddea8394a12bf12229f30b54c24554b294b23cee65307ec7b3b0cde6f0c8394\
    84f57330b20180beef055fb9114911a5aa29e14c6c58fe08899937d52632a64d";
const TEST_Q: &str = "cee3b970a6887f5a107e55091864ae89388b5466126313e4b78529d96fbc8d56\
    50496bf27b58d40d35bf26f20d6e1e0981aa9b7ac88bd02f600dea2e301a63e4\
    d5ca0a93bbbe1b4acf20b6e0c43f5eb57f2fb30898bf1d4e81d3532f8c8d27be\
    9a02dd0b96df21b08a38745dbf72efb83e5859e0f7f0cf86de49a36f83757427";
const OTHER_P: &str = "ce9f520df589580f674a303cf601bbb6357b738a0671c9be3038431e34fd834b\
    be903df5bf9dec4466e21792e4426e79ba3932dc91777514e832724d0a6cd542\
    d0ab4f7a1528d7216cca108a64f5b92c57c444d57a666071668843b746ebac34\
    a7956a44afde5765f383bf1581410877b3e2e9ce54cf7539dae623a4259a30f9";
const OTHER_Q: &str = "cffe29c1ebee84dd1aa780a1679209e263f0f90f80737090b5ca2c844139e77a\
    1a4c0320f570199146c8cf78e49c9d95166e595602de8ad64bcc33a7bbb77c8b\
    9defcd9e87cd2c7ad76831fda416707a785699872103ba49f3ae725199f7cfe8\
    4b89b13413edbe3f23f4f9bca80e6b7a3bed0d14584fed9dbb3945534a5f0079";
const THIRD_P: &str = "ecef6944119ebd72af2e99941301c08fb9b1a762d3b82da74f3e30bdc652b86c\
    703f4c1b0fbad83bc5cda1d5aa264c8595ccf22fc54163505fcbc3aad6c49a66\
    fa3c67e74aec6d92baac05cce45f01e1e10b11aa9791e1f767faa0ec429fb978\
    f200f308871a08821b9b6a9faecd7db5fc50e7632203253927bdb4950e2a5b39";
const THIRD_Q: &str = "e6fc958ef839e3f192aec100a88bb9bd58c41d4545ec57aa8d74161550a0df49\
    0f7f62a84ff4754a6c9076a1cc3b027d3cbe080e521b06921b6d2b03e3f33b02\
    ddc42483752dc062d0ed8d63b157d8243846c5fa19d7c10328ae082976e2da9b\
    b6e0563791121b965098afa0ddcfc5f5bd583b56452c3eec1115ce5089f3a56b";

/// A key pair, together with the key set that a validator would fetch for it.
struct TestKeyPair {
    private_key_pem: String,
    jwks: Vec<u8>,
}

impl TestKeyPair {
    fn from_primes(p: &str, q: &str, kid: &str) -> Self {
        let prime = |digits: &str| BigUint::parse_bytes(digits.as_bytes(), 16).unwrap();
        let private_key =
            RsaPrivateKey::from_p_q(prime(p), prime(q), BigUint::from(65537u32)).unwrap();
        let private_key_pem = private_key.to_pkcs8_pem(LineEnding::LF).unwrap().to_string();
        let mut key = serde_json::Map::new();
        key.insert("kty".to_string(), "RSA".into());
        key.insert("use".to_string(), "sig".into());
        key.insert("alg".to_string(), "RS256".into());
        key.insert("kid".to_string(), kid.into());
        key.insert(
            "n".to_string(),
            URL_SAFE_NO_PAD.encode(private_key.n().to_bytes_be()).into(),
        );
        key.insert(
            "e".to_string(),
            URL_SAFE_NO_PAD.encode(private_key.e().to_bytes_be()).into(),
        );
        let mut set = serde_json::Map::new();
        set.insert("keys".to_string(), Value::Array(vec![Value::Object(key)]));
        Self {
            private_key_pem,
            jwks: serde_json::to_vec(&set).unwrap(),
        }
    }

    fn key_set(&self) -> KeySet {
        KeySet::parse(&self.jwks).unwrap()
    }

    /// Signs claims as an RS256 token that carries the key id of the tests.
    fn sign(&self, claims: &serde_json::Map<String, Value>) -> String {
        let mut header = jsonwebtoken::Header::new(jsonwebtoken::Algorithm::RS256);
        header.kid = Some(TEST_KID.to_string());
        let key = jsonwebtoken::EncodingKey::from_rsa_pem(self.private_key_pem.as_bytes()).unwrap();
        jsonwebtoken::encode(&header, claims, &key).unwrap()
    }
}

fn test_keys() -> TestKeyPair {
    TestKeyPair::from_primes(TEST_P, TEST_Q, TEST_KID)
}

/// A second, unrelated key pair with the same key id.
fn other_keys() -> TestKeyPair {
    TestKeyPair::from_primes(OTHER_P, OTHER_Q, TEST_KID)
}

fn now() -> u64 {
    SystemTime::now().duration_since(UNIX_EPOCH).unwrap().as_secs()
}

const ISSUER: &str = "https://teleport.example.invalid";
// The audience is the Teleport application's uri, which is not the hostname that a person types.
const AUDIENCE: &str = "https://idcat.teleport.example.invalid:443";
const ROLES_CLAIM: &str = "roles";
const ROLE: &str = "github-app-token-pilot-repo";

fn strings(list: &[&str]) -> Value {
    Value::Array(list.iter().map(|text| Value::from(*text)).collect())
}

fn teleport_claims(subject: &str, roles: Value) -> serde_json::Map<String, Value> {
    let mut claims = serde_json::Map::new();
    claims.insert("sub".to_string(), subject.into());
    claims.insert("iss".to_string(), ISSUER.into());
    claims.insert("aud".to_string(), AUDIENCE.into());
    claims.insert("exp".to_string(), (now() + 3600).into());
    claims.insert("nbf".to_string(), (now() - 5).into());
    claims.insert("roles".to_string(), roles);
    claims
}

fn claims(roles: Value) -> serde_json::Map<String, Value> {
    teleport_claims("alex.mason@example.invalid", roles)
}

fn validator() -> HumanTokenValidator {
    HumanTokenValidator::from_static_jwks(
        ISSUER,
        AUDIENCE,
        test_keys().key_set(),
        vec![Algorithm::RS256],
    )
}

fn validate(token: &str) -> Result<HumanClaims, HumanTokenError> {
    validator().validate(token, ROLES_CLAIM, ROLE, &StringMap::new(), 0)
}

#[test]
fn accepts_a_token_whose_roles_array_contains_the_required_role() {
    let token = test_keys().sign(&claims(strings(&["some-other-role", ROLE])));

    let validated = validate(&token).unwrap();

    assert_eq!(validated.subject(), "alex.mason@example.invalid");
}

#[test]
fn returns_the_subject_so_an_issuance_record_can_name_the_person() {
    let mut raw = claims(strings(&[ROLE]));
    raw.insert("sub".to_string(), "someone.else@example.invalid".into());
    let token = test_keys().sign(&raw);

    assert_eq!(
        validate(&token).unwrap().subject(),
        "someone.else@example.invalid",
        "a successful validation must not be reduced to role names"
    );
}

#[test]
fn role_members_reads_a_json_array_of_strings() {
    let claims = from_entries(vec![(
        ROLES_CLAIM.to_string(),
        ClaimValue::List(vec![Some("some-other-role".to_string()), Some(ROLE.to_string())]),
    )]);

    assert_eq!(
        role_members(&claims, ROLES_CLAIM).unwrap(),
        ["some-other-role", ROLE]
    );
}

#[test]
fn rejects_a_scalar_claim_that_merely_looks_like_the_roles_array() {
    let token = test_keys().sign(&claims(ROLE.into()));

    assert_eq!(
        validate(&token).unwrap_err(),
        HumanTokenError::RoleClaimNotAnArray {
            claim: ROLES_CLAIM.to_string()
        }
    );
}

#[test]
fn rejects_a_role_that_is_only_a_substring_of_a_held_role() {
    let held = format!("{ROLE}-readonly");
    let token = test_keys().sign(&claims(strings(&[&held])));

    assert_eq!(
        validate(&token).unwrap_err(),
        HumanTokenError::RoleNotHeld {
            claim: ROLES_CLAIM.to_string(),
            role: ROLE.to_string()
        }
    );
}

#[test]
fn rejects_a_role_the_required_name_merely_contains() {
    let token = test_keys().sign(&claims(strings(&["github-app-token"])));

    assert!(matches!(
        validate(&token).unwrap_err(),
        HumanTokenError::RoleNotHeld { .. }
    ));
}

#[test]
fn rejects_a_roles_array_holding_a_non_string_entry() {
    let token = test_keys().sign(&claims(Value::Array(vec![ROLE.into(), 7.into()])));

    assert!(matches!(
        validate(&token).unwrap_err(),
        HumanTokenError::RoleClaimNotAnArray { .. }
    ));
}

#[test]
fn rejects_a_missing_roles_claim() {
    let mut raw = claims(Value::Null);
    raw.remove("roles");
    raw.remove("nbf");
    let token = test_keys().sign(&raw);

    assert!(matches!(
        validate(&token).unwrap_err(),
        HumanTokenError::RoleClaimNotAnArray { .. }
    ));
}

#[test]
fn rejects_a_wrong_audience() {
    let mut raw = claims(strings(&[ROLE]));
    raw.insert("aud".to_string(), "https://idcat.teleport.example.invalid".into());
    let token = test_keys().sign(&raw);

    assert_eq!(
        validate(&token).unwrap_err(),
        HumanTokenError::TokenRejected,
        "the audience must match the Teleport application uri exactly, not a prefix of it"
    );
}

#[test]
fn rejects_the_human_route_hostname_used_as_an_audience() {
    let mut raw = claims(strings(&[ROLE]));
    raw.insert("aud".to_string(), "https://idcat.example.invalid".into());
    let token = test_keys().sign(&raw);

    assert_eq!(validate(&token).unwrap_err(), HumanTokenError::TokenRejected);
}

#[test]
fn rejects_a_wrong_issuer() {
    let mut raw = claims(strings(&[ROLE]));
    raw.insert("iss".to_string(), "https://teleport.other.invalid".into());
    let token = test_keys().sign(&raw);

    assert_eq!(validate(&token).unwrap_err(), HumanTokenError::TokenRejected);
}

#[test]
fn rejects_a_signature_from_another_key() {
    let token = other_keys().sign(&claims(strings(&[ROLE])));

    assert_eq!(validate(&token).unwrap_err(), HumanTokenError::TokenRejected);
}

#[test]
fn rejects_an_expired_token_without_leeway() {
    let mut raw = claims(strings(&[ROLE]));
    raw.insert("exp".to_string(), (now() - 1).into());
    let token = test_keys().sign(&raw);

    assert_eq!(validate(&token).unwrap_err(), HumanTokenError::TokenRejected);
}

#[test]
fn rejects_a_token_that_is_not_yet_valid() {
    let mut raw = claims(strings(&[ROLE]));
    raw.insert("nbf".to_string(), (now() + 600).into());
    let token = test_keys().sign(&raw);

    assert_eq!(validate(&token).unwrap_err(), HumanTokenError::TokenRejected);
}

#[test]
fn rejects_an_unsigned_token() {
    let mut raw = claims(strings(&[ROLE]));
    raw.insert("exp".to_string(), (now() + 3600).into());
    let unsigned = jsonwebtoken::encode(
        &jsonwebtoken::Header::new(jsonwebtoken::Algorithm::HS256),
        &raw,
        &jsonwebtoken::EncodingKey::from_secret(b"not-the-issuer-key"),
    )
    .unwrap();

    assert_eq!(
        validate(&unsigned).unwrap_err(),
        HumanTokenError::AlgorithmNotAllowed(Algorithm::HS256),
        "an HMAC token must be refused on algorithm, never checked against an RSA public key"
    );
}

#[test]
fn rejects_a_malformed_token() {
    assert_eq!(validate("not-a-jwt").unwrap_err(), HumanTokenError::MalformedHeader);
}

#[test]
fn rejects_a_token_signed_by_a_key_absent_from_the_jwks() {
    let validator = HumanTokenValidator::from_static_jwks(
        ISSUER,
        AUDIENCE,
        other_keys().key_set(),
        vec![Algorithm::RS256],
    );
    let token = test_keys().sign(&claims(strings(&[ROLE])));

    // Both key sets have the same key id, so the signature check is what rejects this.
    assert_eq!(
        validator
            .validate(&token, ROLES_CLAIM, ROLE, &StringMap::new(), 0)
            .unwrap_err(),
        HumanTokenError::TokenRejected
    );
}

#[test]
fn rejects_an_unknown_key_id() {
    let validator = HumanTokenValidator::from_static_jwks(
        ISSUER,
        AUDIENCE,
        TestKeyPair::from_primes(THIRD_P, THIRD_Q, "a-different-kid").key_set(),
        vec![Algorithm::RS256],
    );
    let token = test_keys().sign(&claims(strings(&[ROLE])));

    assert_eq!(
        validator
            .validate(&token, ROLES_CLAIM, ROLE, &StringMap::new(), 0)
            .unwrap_err(),
        HumanTokenError::UnknownKeyId
    );
}

#[test]
fn enforces_additional_scalar_claim_requirements() {
    let mut raw = claims(strings(&[ROLE]));
    raw.insert("traits".to_string(), "contractor".into());
    let token = test_keys().sign(&raw);
    let required = from_entries(vec![(
        "traits".to_string(),
        ClaimRequirement::equals("employee"),
    )]);

    assert_eq!(
        validator()
            .validate(&token, ROLES_CLAIM, ROLE, &required, 0)
            .unwrap_err(),
        HumanTokenError::ClaimMismatch {
            claim: "traits".to_string()
        }
    );
}

#[test]
fn every_refusal_has_its_text() {
    let text = |error: HumanTokenError| error.to_text();
    assert_eq!(text(HumanTokenError::MalformedHeader), "token header could not be decoded");
    assert_eq!(
        text(HumanTokenError::AlgorithmNotAllowed(Algorithm::EdDSA)),
        "token algorithm EdDSA is not allowed for this issuer"
    );
    assert_eq!(
        text(HumanTokenError::UnknownKeyId),
        "no validation key matched the token's key id"
    );
    assert_eq!(
        text(HumanTokenError::TokenRejected),
        "token signature, issuer, audience, expiry or not-before check failed"
    );
    assert_eq!(
        text(HumanTokenError::RoleClaimNotAnArray { claim: "c".to_string() }),
        "claim 'c' is not a JSON array of strings"
    );
    assert_eq!(
        text(HumanTokenError::RoleNotHeld { claim: "c".to_string(), role: "r".to_string() }),
        "required role 'r' is not present in claim 'c'"
    );
    assert_eq!(
        text(HumanTokenError::ClaimMismatch { claim: "c".to_string() }),
        "claim 'c' did not match the configured requirement"
    );
    assert_eq!(
        text(HumanTokenError::KeysUnavailable),
        "validation keys could not be retrieved"
    );
}

fn text_value(value: &str) -> ClaimValue {
    ClaimValue::Text(value.to_string())
}

fn payload(entries: Vec<(&str, ClaimValue)>) -> StringMap<ClaimValue> {
    from_entries(
        entries
            .into_iter()
            .map(|(name, value)| (name.to_string(), value))
            .collect(),
    )
}

#[test]
fn payloads_are_held_against_role_and_claims() {
    let roles = || ClaimValue::List(vec![Some("r".to_string()), Some("s".to_string())]);
    let accept = |entries: Vec<(&str, ClaimValue)>, required: Vec<(&str, &str)>| {
        let required = from_entries(
            required
                .into_iter()
                .map(|(name, value)| (name.to_string(), ClaimRequirement::equals(value)))
                .collect(),
        );
        accept_payload(payload(entries), "roles", "s", &required)
    };
    let accepted = accept(
        vec![("sub", text_value("me")), ("roles", roles()), ("team", text_value("red"))],
        vec![("team", "red")],
    )
    .unwrap();
    assert_eq!(accepted.subject(), "me");
    assert_eq!(accepted.claim_str("team"), Some("red"));
    assert_eq!(accepted.claim_str("roles"), None);
    assert_eq!(accepted.claim_str("absent"), None);
    // The subject is not among the other claims.
    assert_eq!(accepted.claim_str("sub"), None);

    assert_eq!(
        accept(vec![("roles", roles())], vec![]).unwrap_err(),
        HumanTokenError::TokenRejected
    );
    assert_eq!(
        accept(vec![("sub", ClaimValue::Other), ("roles", roles())], vec![]).unwrap_err(),
        HumanTokenError::TokenRejected
    );
    assert_eq!(
        accept(vec![("sub", text_value("me")), ("roles", ClaimValue::List(vec![]))], vec![])
            .unwrap_err(),
        HumanTokenError::RoleNotHeld { claim: "roles".to_string(), role: "s".to_string() }
    );
    assert_eq!(
        accept(vec![("sub", text_value("me")), ("roles", roles())], vec![("sub", "me")])
            .unwrap_err(),
        HumanTokenError::ClaimMismatch { claim: "sub".to_string() }
    );
    assert_eq!(
        accept(
            vec![("sub", text_value("me")), ("roles", roles()), ("b", text_value("1"))],
            vec![("c", "1"), ("b", "1"), ("a", "1")]
        )
        .unwrap_err(),
        HumanTokenError::ClaimMismatch { claim: "a".to_string() }
    );
}

fn public_key(kid: Option<&str>, algorithm: Option<&str>) -> PublicKey {
    PublicKey {
        key_id: kid.map(str::to_string),
        key_algorithm: algorithm.map(str::to_string),
        document: "{}".to_string(),
    }
}

#[test]
fn keys_are_found_by_id_or_by_being_the_only_one() {
    let set = KeySet {
        keys: vec![
            public_key(Some("a"), None),
            public_key(Some("b"), Some("RS256")),
            public_key(Some("b"), Some("ES256")),
            public_key(None, None),
        ],
    };
    let candidate = |kid: Option<&str>, algorithm: Algorithm| {
        set.candidate_key(&kid.map(str::to_string), algorithm).cloned()
    };
    assert_eq!(candidate(Some("a"), Algorithm::ES384), Some(public_key(Some("a"), None)));
    assert_eq!(
        candidate(Some("b"), Algorithm::RS256),
        Some(public_key(Some("b"), Some("RS256")))
    );
    // The first key of an id decides.
    assert_eq!(candidate(Some("b"), Algorithm::ES256), None);
    assert_eq!(candidate(Some("c"), Algorithm::RS256), None);
    assert_eq!(candidate(None, Algorithm::RS256), None);

    let single = KeySet { keys: vec![public_key(Some("a"), Some("RS256"))] };
    assert_eq!(
        single.candidate_key(&None, Algorithm::RS256).cloned(),
        Some(public_key(Some("a"), Some("RS256")))
    );
    assert_eq!(single.candidate_key(&None, Algorithm::PS256), None);
    // A key that holds nothing to check signatures with is not used.
    assert_eq!(single.select_key(&None, Algorithm::RS256), None);
}

#[test]
fn key_sets_are_read_from_json() {
    let set = test_keys().key_set();
    assert_eq!(set.keys.len(), 1);
    assert_eq!(set.keys[0].key_id.as_deref(), Some(TEST_KID));
    assert_eq!(set.keys[0].key_algorithm.as_deref(), Some("RS256"));
    assert!(set.select_key(&Some(TEST_KID.to_string()), Algorithm::RS256).is_some());
    assert!(set.select_key(&None, Algorithm::RS256).is_some());
    assert!(set.select_key(&None, Algorithm::RS384).is_none());
    assert!(KeySet::parse(b"not json").is_none());
    assert!(KeySet::parse(b"{}").is_none());
    assert_eq!(KeySet::parse(br#"{"keys":[]}"#).unwrap().keys.len(), 0);
}

#[test]
fn kept_keys_are_used_for_a_while() {
    let mut validator = HumanTokenValidator::from_http(
        ISSUER,
        AUDIENCE,
        "https://teleport.example.invalid/.well-known/jwks.json",
        vec![Algorithm::RS256],
    );
    let url = "https://teleport.example.invalid/.well-known/jwks.json";
    assert_eq!(validator.jwks(false, 0), JwksStep::Fetch(url));
    assert_eq!(
        validator.validate(
            &test_keys().sign(&claims(strings(&[ROLE]))),
            ROLES_CLAIM,
            ROLE,
            &StringMap::new(),
            0
        )
        .unwrap_err(),
        HumanTokenError::KeysUnavailable
    );

    assert_eq!(JWKS_CACHE_TTL, 15 * 60 * 1_000_000_000);
    assert_eq!(JWKS_REFETCH_FLOOR, 60 * 1_000_000_000);
    let set = test_keys().key_set();
    validator.store_jwks(set.clone(), 100);
    assert_eq!(validator.jwks(false, 100), JwksStep::Use(&set));
    assert_eq!(validator.jwks(false, 0), JwksStep::Use(&set));
    assert_eq!(validator.jwks(false, 100 + JWKS_CACHE_TTL - 1), JwksStep::Use(&set));
    assert_eq!(validator.jwks(false, 100 + JWKS_CACHE_TTL), JwksStep::Fetch(url));
    assert_eq!(validator.jwks(true, 100 + JWKS_REFETCH_FLOOR - 1), JwksStep::Use(&set));
    assert_eq!(validator.jwks(true, 100 + JWKS_REFETCH_FLOOR), JwksStep::Fetch(url));

    let token = test_keys().sign(&claims(strings(&[ROLE])));
    let at = |now: u64| validator.validate(&token, ROLES_CLAIM, ROLE, &StringMap::new(), now);
    assert!(at(100).is_ok());
    assert!(at(100 + JWKS_CACHE_TTL - 1).is_ok());
    assert_eq!(at(100 + JWKS_CACHE_TTL).unwrap_err(), HumanTokenError::KeysUnavailable);
    let static_keys = self::validator();
    assert_eq!(static_keys.jwks(true, u64::MAX), JwksStep::Use(&set));
}

#[test]
fn an_unknown_key_is_asked_for_once_more() {
    let kept = validator();
    let token = test_keys().sign(&claims(strings(&[ROLE])));
    let mut header = kept.read_header(&token).unwrap();
    assert_eq!(header.algorithm, Algorithm::RS256);
    assert_eq!(header.kid.as_deref(), Some(TEST_KID));
    assert!(matches!(kept.decoding_key(&header, 0), KeyStep::Use(_)));
    assert_eq!(kept.awaited_keys(&token, 0), None);

    let url = "https://teleport.example.invalid/jwks";
    let mut fetching =
        HumanTokenValidator::from_http(ISSUER, AUDIENCE, url, vec![Algorithm::RS256]);
    assert_eq!(fetching.decoding_key(&header, 0), KeyStep::Fetch(url.to_string()));
    assert_eq!(fetching.awaited_keys(&token, 0), Some(url.to_string()));
    assert_eq!(fetching.awaited_keys("not a token", 0), None);
    assert_eq!(fetching.receive_jwks(Some(test_keys().key_set()), 100), Ok(()));
    assert!(matches!(fetching.decoding_key(&header, 100), KeyStep::Use(_)));

    header.kid = Some("rotated".to_string());
    assert_eq!(kept.decoding_key(&header, 0), KeyStep::Refuse);
    assert_eq!(fetching.decoding_key(&header, 100 + JWKS_REFETCH_FLOOR - 1), KeyStep::Refuse);
    assert_eq!(
        fetching.decoding_key(&header, 100 + JWKS_REFETCH_FLOOR),
        KeyStep::Fetch(url.to_string())
    );
}

#[test]
fn a_failed_request_for_keys_changes_nothing() {
    let url = "https://teleport.example.invalid/jwks";
    let mut validator =
        HumanTokenValidator::from_http(ISSUER, AUDIENCE, url, vec![Algorithm::RS256]);
    assert_eq!(validator.receive_jwks(None, 1), Err(HumanTokenError::KeysUnavailable));
    assert_eq!(validator.jwks(false, 1), JwksStep::Fetch(url));

    let set = test_keys().key_set();
    assert_eq!(validator.receive_jwks(Some(set.clone()), 100), Ok(()));
    let late = 100 + JWKS_REFETCH_FLOOR;
    assert_eq!(validator.receive_jwks(None, late), Err(HumanTokenError::KeysUnavailable));
    assert_eq!(validator.jwks(false, late), JwksStep::Use(&set));
    assert_eq!(validator.jwks(true, late), JwksStep::Fetch(url));

    let none = KeySet::parse(b"{\"keys\":[]}").unwrap();
    assert_eq!(validator.receive_jwks(Some(none.clone()), late), Ok(()));
    assert_eq!(validator.jwks(true, late), JwksStep::Use(&none));
}

/// A throwaway Ed25519 key.
fn ed_key() -> jsonwebtoken::EncodingKey {
    let mut der = vec![
        0x30, 0x2e, 0x02, 0x01, 0x00, 0x30, 0x05, 0x06, 0x03, 0x2b, 0x65, 0x70, 0x04, 0x22, 0x04,
        0x20,
    ];
    der.extend([7u8; 32]);
    jsonwebtoken::EncodingKey::from_ed_der(&der)
}

/// The public half of the throwaway key, in base64.
fn ed_public_key() -> String {
    let jwk = jsonwebtoken::jwk::Jwk::from_encoding_key(&ed_key(), jsonwebtoken::Algorithm::EdDSA);
    match jwk.unwrap().algorithm {
        jsonwebtoken::jwk::AlgorithmParameters::OctetKeyPair(parameters) => parameters.x,
        other => panic!("unexpected key {other:?}"),
    }
}

#[test]
fn short_eddsa_keys_are_not_tried() {
    let with_key = |x: &str| {
        HumanTokenValidator::from_static_jwks(
            ISSUER,
            AUDIENCE,
            KeySet::parse(
                format!("{{\"keys\":[{{\"kty\":\"OKP\",\"crv\":\"Ed25519\",\"x\":\"{x}\"}}]}}")
                    .as_bytes(),
            )
            .unwrap(),
            vec![Algorithm::EdDSA],
        )
    };
    let header = jsonwebtoken::Header::new(jsonwebtoken::Algorithm::EdDSA);
    let token = jsonwebtoken::encode(&header, &claims(strings(&[ROLE])), &ed_key()).unwrap();
    let validated = |x: &str| with_key(x).validate(&token, ROLES_CLAIM, ROLE, &StringMap::new(), 0);
    assert!(validated(&ed_public_key()).is_ok());
    assert_eq!(validated("AA").unwrap_err(), HumanTokenError::TokenRejected);
    assert_eq!(validated("").unwrap_err(), HumanTokenError::TokenRejected);
    let short = URL_SAFE_NO_PAD.encode([1u8; 31]);
    assert_eq!(validated(&short).unwrap_err(), HumanTokenError::TokenRejected);
    let other = URL_SAFE_NO_PAD.encode([1u8; 32]);
    assert_eq!(validated(&other).unwrap_err(), HumanTokenError::TokenRejected);

    assert!(!may_be_tried("{\"kty\":\"OKP\",\"crv\":\"Ed25519\",\"x\":\"AA\"}", Algorithm::EdDSA));
    assert!(may_be_tried("{\"kty\":\"OKP\",\"crv\":\"Ed25519\",\"x\":\"AA\"}", Algorithm::RS256));
    assert!(!may_be_tried("{\"kty\":\"RSA\",\"n\":\"AQ\",\"e\":\"AQ\"}", Algorithm::EdDSA));
    assert!(!may_be_tried("no key", Algorithm::EdDSA));
}

#[test]
fn headers_are_checked_for_their_algorithm() {
    let validator = validator();
    assert_eq!(
        validator.check_header(None).unwrap_err(),
        HumanTokenError::MalformedHeader
    );
    assert_eq!(
        validator.check_header(Some(("none".to_string(), None))).unwrap_err(),
        HumanTokenError::MalformedHeader
    );
    assert_eq!(
        validator.check_header(Some(("ES256".to_string(), None))).unwrap_err(),
        HumanTokenError::AlgorithmNotAllowed(Algorithm::ES256)
    );
    let header = validator
        .check_header(Some(("RS256".to_string(), Some("k".to_string()))))
        .unwrap();
    assert_eq!(header.algorithm, Algorithm::RS256);
    assert_eq!(header.kid.as_deref(), Some("k"));
}

#[test]
fn algorithms_have_their_names() {
    for (name, algorithm) in [
        ("HS256", Algorithm::HS256),
        ("HS384", Algorithm::HS384),
        ("HS512", Algorithm::HS512),
        ("RS256", Algorithm::RS256),
        ("RS384", Algorithm::RS384),
        ("RS512", Algorithm::RS512),
        ("PS256", Algorithm::PS256),
        ("PS384", Algorithm::PS384),
        ("PS512", Algorithm::PS512),
        ("ES256", Algorithm::ES256),
        ("ES384", Algorithm::ES384),
        ("EdDSA", Algorithm::EdDSA),
    ] {
        assert_eq!(algorithm.name(), name);
        assert_eq!(Algorithm::from_name(name), Some(algorithm));
        let human = HumanJwtAlgorithm::from_name(name);
        if name.starts_with("HS") {
            assert_eq!(human, None);
        } else {
            assert_eq!(human.unwrap().to_algorithm(), algorithm);
        }
    }
    assert_eq!(Algorithm::from_name("rs256"), None);
    assert_eq!(HumanJwtAlgorithm::from_name(""), None);
}

const TELEPORT_ROLE: &str = "github-app-token-pilot-repo";
const HUMAN_ROLE: &str = "pilot-repo-reader";
const APP: &str = "source-reader";
const PILOT_REPO: &str = "myorg/pilot";
const OTHER_REPO: &str = "myorg/other";
const REQUEST_ID_CLAIM: &str = "teleport_request_id";

fn permissions(entries: &[(&str, &str)]) -> StringMap<String> {
    from_entries(
        entries
            .iter()
            .map(|(name, level)| (name.to_string(), level.to_string()))
            .collect(),
    )
}

fn human_role_config() -> HumanRoleConfig {
    HumanRoleConfig {
        name: HUMAN_ROLE.to_string(),
        issuer: ISSUER.to_string(),
        audience: AUDIENCE.to_string(),
        jwks_url: format!("{ISSUER}/.well-known/jwks.json"),
        teleport_role: TELEPORT_ROLE.to_string(),
        roles_claim: "roles".to_string(),
        algorithms: vec![HumanJwtAlgorithm::Rs256],
        request_id_claim: Some(REQUEST_ID_CLAIM.to_string()),
        required_claims: StringMap::new(),
    }
}

fn human_policy(repository: &str, granted: &[(&str, &str)]) -> HumanPolicyConfig {
    HumanPolicyConfig {
        github_app: APP.to_string(),
        repository: repository.to_string(),
        human_role: HUMAN_ROLE.to_string(),
        permissions: permissions(granted),
    }
}

fn github_app(allowed_roles: Vec<String>) -> GithubAppConfig {
    GithubAppConfig {
        name: APP.to_string(),
        app_id: 42,
        secret_key: "private-key.pem".to_string(),
        webhook_target: None,
        webhook_validation_secret_file: None,
        allowed_roles,
    }
}

/// State whose human role validates against keys that are given to it.
fn state(policies: Vec<HumanPolicyConfig>, app: GithubAppConfig) -> AppState {
    let config = human_role_config();
    let validator = HumanTokenValidator::from_static_jwks(
        &config.issuer,
        &config.audience,
        test_keys().key_set(),
        vec![Algorithm::RS256],
    );
    AppState {
        github_apps: vec![app],
        installation_policies: Vec::new(),
        human_policies: policies,
        human_roles: from_entries(vec![(
            HUMAN_ROLE.to_string(),
            HumanRole { config, validator },
        )]),
        token_validator: TokenValidator::new(Vec::new(), true).unwrap(),
        key_source: KeySource::Local,
    }
}

fn default_state() -> AppState {
    state(
        vec![human_policy(PILOT_REPO, &[("contents", "read")])],
        github_app(Vec::new()),
    )
}

fn person_claims(subject: &str) -> serde_json::Map<String, Value> {
    teleport_claims(subject, strings(&[TELEPORT_ROLE]))
}

/// A Teleport token with a request id, as it is issued after an approved access request.
fn approved_token(subject: &str, request_id: &str) -> String {
    let mut claims = person_claims(subject);
    claims.insert(REQUEST_ID_CLAIM.to_string(), request_id.into());
    test_keys().sign(&claims)
}

fn authorize(
    state: &AppState,
    repo: &str,
    token: &str,
) -> Result<(TokenScope, HumanIdentity), AppError> {
    let app = state.github_app(APP).unwrap().clone();
    state.authorize_human(&app, repo, Some(token), 0)
}

#[test]
fn exact_person_role_app_and_repository_is_authorized() {
    let state = default_state();
    let token = approved_token("alex.mason@example.invalid", "req-1");

    let (scope, identity) = authorize(&state, PILOT_REPO, &token).unwrap();

    assert_eq!(scope.repositories, RepoScope::OnlyRequested);
    assert_eq!(scope.permissions, permissions(&[("contents", "read")]));
    assert_eq!(identity.subject, "alex.mason@example.invalid");
    assert_eq!(identity.request_id.as_deref(), Some("req-1"));
    assert_eq!(identity.human_role, HUMAN_ROLE);
}

#[test]
fn right_person_and_role_but_wrong_repository_is_denied() {
    let state = default_state();
    let token = approved_token("alex.mason@example.invalid", "req-1");

    let error = authorize(&state, OTHER_REPO, &token).unwrap_err();

    // The policy lookup fails before the token is validated.
    assert!(
        matches!(&error, AppError::Unauthorized(message)
            if message.contains("no human-policy authorizes")),
        "expected an unauthorized policy-lookup failure, got {error:?}"
    );
}

#[test]
fn approval_for_one_repository_cannot_mint_for_a_renamed_repository() {
    let state = default_state();
    let token = approved_token("alex.mason@example.invalid", "req-1");

    assert!(authorize(&state, "myorg/pilot-renamed", &token).is_err());
    assert!(authorize(&state, "myorg/Pilot", &token).is_err());
    assert!(authorize(&state, "otherorg/pilot", &token).is_err());
}

#[test]
fn the_minted_scope_is_the_policy_permissions_not_the_installation() {
    let state = default_state();
    let token = approved_token("alex.mason@example.invalid", "req-1");

    let (scope, _) = authorize(&state, PILOT_REPO, &token).unwrap();

    assert_eq!(scope.repositories, RepoScope::OnlyRequested);
    assert!(
        !scope.permissions.contains_key("administration"),
        "a human token must carry only the permissions its policy names"
    );
    assert_eq!(scope.permissions.len(), 1);
}

#[test]
fn a_request_through_a_different_github_app_is_denied() {
    let other_app = GithubAppConfig {
        name: "another-app".to_string(),
        ..github_app(Vec::new())
    };
    let state = AppState {
        github_apps: vec![github_app(Vec::new()), other_app],
        ..default_state()
    };
    let token = approved_token("alex.mason@example.invalid", "req-1");
    let app = state.github_app("another-app").unwrap().clone();

    assert!(
        state.authorize_human(&app, PILOT_REPO, Some(&token), 0).is_err(),
        "the policy names one App; another App installation must not satisfy it"
    );
}

#[test]
fn a_token_without_the_exact_teleport_role_is_denied() {
    let state = default_state();
    let mut raw = person_claims("alex.mason@example.invalid");
    raw.insert("roles".to_string(), strings(&["some-other-role"]));
    let token = test_keys().sign(&raw);

    assert!(authorize(&state, PILOT_REPO, &token).is_err());
}

#[test]
fn a_wrong_audience_issuer_signature_or_expiry_is_denied() {
    let state = default_state();
    let changed = |claim: &str, value: Value| {
        let mut raw = person_claims("a@example.invalid");
        raw.insert(claim.to_string(), value);
        test_keys().sign(&raw)
    };
    let cases: Vec<(&str, String)> = vec![
        ("wrong audience", changed("aud", "https://idcat.example.invalid".into())),
        ("wrong issuer", changed("iss", "https://teleport.other.invalid".into())),
        ("wrong signature", other_keys().sign(&person_claims("a@example.invalid"))),
        ("expired", changed("exp", (now() - 1).into())),
    ];

    for (case, token) in cases {
        let error = authorize(&state, PILOT_REPO, &token).unwrap_err();
        assert!(
            matches!(error, AppError::Unauthorized(_)),
            "{case} must be refused outright, not retried against another path"
        );
    }
}

#[test]
fn a_missing_authorization_header_is_denied() {
    let state = default_state();
    let app = state.github_app(APP).unwrap().clone();

    assert!(state.authorize_human(&app, PILOT_REPO, None, 0).is_err());
}

#[test]
fn the_human_path_never_falls_back_to_allowed_roles() {
    // The App grants a workload role a broad token. A human request that fails its policy must
    // not be rescued by that path.
    let state = state(
        vec![human_policy(PILOT_REPO, &[("contents", "read")])],
        github_app(vec!["some-workload-role".to_string()]),
    );
    let mut raw = person_claims("alex.mason@example.invalid");
    raw.insert("roles".to_string(), strings(&["not-the-pilot-role"]));
    let token = test_keys().sign(&raw);

    let error = authorize(&state, PILOT_REPO, &token).unwrap_err();

    assert!(matches!(error, AppError::Unauthorized(_)));
}

#[test]
fn a_wrong_repository_is_denied_even_when_the_app_has_broad_allowed_roles() {
    let state = state(
        vec![human_policy(PILOT_REPO, &[("contents", "read")])],
        github_app(vec!["some-workload-role".to_string()]),
    );
    let token = approved_token("alex.mason@example.invalid", "req-1");

    let error = authorize(&state, OTHER_REPO, &token).unwrap_err();

    assert!(
        matches!(&error, AppError::Unauthorized(message)
            if message.contains("no human-policy authorizes")),
        "expected a fail-closed denial, got {error:?}"
    );
}

#[test]
fn an_unknown_repository_is_denied_when_no_human_policy_exists_at_all() {
    let state = state(
        Vec::new(),
        github_app(vec!["some-workload-role".to_string()]),
    );
    let token = approved_token("alex.mason@example.invalid", "req-1");

    assert!(authorize(&state, PILOT_REPO, &token).is_err());
}

#[test]
fn a_workload_token_cannot_satisfy_a_human_policy() {
    let state = default_state();
    // A GitHub Actions style HS256 token, of the shape that workloads present.
    let mut claims = serde_json::Map::new();
    claims.insert("sub".to_string(), "repo:myorg/pilot:ref:refs/heads/main".into());
    claims.insert("aud".to_string(), "idcat".into());
    claims.insert(
        "iss".to_string(),
        "https://token.actions.githubusercontent.com".into(),
    );
    claims.insert("exp".to_string(), 4_102_444_800u64.into());
    claims.insert("roles".to_string(), strings(&[TELEPORT_ROLE]));
    let workload_token = jsonwebtoken::encode(
        &jsonwebtoken::Header::new(jsonwebtoken::Algorithm::HS256),
        &claims,
        &jsonwebtoken::EncodingKey::from_secret(b"secret"),
    )
    .unwrap();

    assert!(
        authorize(&state, PILOT_REPO, &workload_token).is_err(),
        "a workload token must not reach the human path even when it spells the right role"
    );
}

#[test]
fn a_human_token_cannot_satisfy_a_workload_policy() {
    let mut state = default_state();
    state.token_validator = TokenValidator::new(
        vec![RoleConfig {
            name: "github-workflow".to_string(),
            audience: "idcat".to_string(),
            issuer: "https://token.actions.githubusercontent.com".to_string(),
            validation_key: Some("secret".to_string()),
            algorithms: vec![Algorithm::HS256],
            claims: StringMap::new(),
        }],
        false,
    )
    .unwrap();
    let app = GithubAppConfig {
        allowed_roles: vec!["github-workflow".to_string()],
        ..github_app(Vec::new())
    };
    let token = approved_token("alex.mason@example.invalid", "req-1");

    assert!(
        state.authorize_github_app(&app, PILOT_REPO, Some(&token)).is_err(),
        "a Teleport human token must not satisfy a workload allowed-role"
    );
}

#[test]
fn two_people_are_given_distinct_cache_partitions() {
    let state = default_state();
    let first = approved_token("first@example.invalid", "req-1");
    let second = approved_token("second@example.invalid", "req-2");

    let (_, first_identity) = authorize(&state, PILOT_REPO, &first).unwrap();
    let (_, second_identity) = authorize(&state, PILOT_REPO, &second).unwrap();

    assert_ne!(
        Requester::person(&first_identity),
        Requester::person(&second_identity),
        "two people must never share an installation-token cache entry"
    );
}

#[test]
fn a_second_approval_for_the_same_person_is_a_new_cache_partition() {
    let state = default_state();
    let first = approved_token("alex.mason@example.invalid", "req-1");
    let second = approved_token("alex.mason@example.invalid", "req-2");

    let (_, first_identity) = authorize(&state, PILOT_REPO, &first).unwrap();
    let (_, second_identity) = authorize(&state, PILOT_REPO, &second).unwrap();

    assert_ne!(
        Requester::person(&first_identity),
        Requester::person(&second_identity),
        "a fresh approval must not revive the token issued under the previous one"
    );
}

#[test]
fn a_person_is_never_served_the_shared_workload_partition() {
    let state = default_state();
    let token = approved_token("alex.mason@example.invalid", "req-1");

    let (_, identity) = authorize(&state, PILOT_REPO, &token).unwrap();

    assert_ne!(Requester::person(&identity), Requester::Workload);
}

#[test]
fn refusals_of_people_are_told_apart() {
    let mut state = default_state();
    let app = github_app(Vec::new());
    assert_eq!(
        state.authorize_human(&app, PILOT_REPO, None, 0).unwrap_err(),
        AppError::Unauthorized("missing Authorization header".to_string())
    );
    assert_eq!(
        state.authorize_human(&app, OTHER_REPO, Some("x"), 0).unwrap_err(),
        AppError::Unauthorized(
            "no human-policy authorizes github-app 'source-reader' for repository 'myorg/other'"
                .to_string()
        )
    );
    assert_eq!(
        state.authorize_human(&app, PILOT_REPO, Some("x"), 0).unwrap_err(),
        AppError::Unauthorized(
            "token did not satisfy human-role 'pilot-repo-reader' for repository 'myorg/pilot'"
                .to_string()
        )
    );
    state.human_roles = StringMap::new();
    assert_eq!(
        state.authorize_human(&app, PILOT_REPO, Some("x"), 0).unwrap_err(),
        AppError::Internal(
            "human-policy references unknown human-role 'pilot-repo-reader'".to_string()
        )
    );
    assert_eq!(
        answer_human(
            &human_policy(PILOT_REPO, &[]),
            &human_role_config(),
            PILOT_REPO,
            Err(HumanTokenError::KeysUnavailable)
        )
        .unwrap_err(),
        AppError::Internal("Teleport validation keys could not be retrieved".to_string())
    );
}

#[test]
fn a_request_that_two_policies_match_is_refused() {
    let state = state(
        vec![
            human_policy(PILOT_REPO, &[("contents", "read")]),
            human_policy(OTHER_REPO, &[("contents", "read")]),
            human_policy(PILOT_REPO, &[("contents", "write")]),
        ],
        github_app(Vec::new()),
    );
    let token = approved_token("alex.mason@example.invalid", "req-1");
    let app = github_app(Vec::new());
    assert_eq!(
        authorize(&state, PILOT_REPO, &token).unwrap_err(),
        AppError::Unauthorized(
            "more than one human-policy names github-app 'source-reader' and repository \
             'myorg/pilot'"
                .to_string()
        )
    );
    assert_eq!(state.human_key_step(&app, PILOT_REPO, &token, 0), HumanKeyStep::Decide);
    assert!(authorize(&state, OTHER_REPO, &token).is_ok());
}

#[test]
fn configured_roles_wait_for_their_keys() {
    let mut state = default_state();
    state.human_roles = build_human_roles(vec![human_role_config()]);
    let token = approved_token("alex.mason@example.invalid", "req-1");
    assert_eq!(
        authorize(&state, PILOT_REPO, &token).unwrap_err(),
        AppError::Internal("Teleport validation keys could not be retrieved".to_string())
    );
    {
        let role = state.human_roles.get(HUMAN_ROLE).unwrap();
        assert_eq!(role.validator.issuer, ISSUER);
        assert_eq!(role.validator.audience, AUDIENCE);
        assert_eq!(role.validator.algorithms, vec![Algorithm::RS256]);
        assert_eq!(
            role.validator.jwks(false, 0),
            JwksStep::Fetch("https://teleport.example.invalid/.well-known/jwks.json")
        );
    }
    let app = github_app(Vec::new());
    let step = |state: &AppState, repo: &str, token: &str, now: u64| {
        state.human_key_step(&app, repo, token, now)
    };
    let fetch = || HumanKeyStep::Fetch {
        human_role: HUMAN_ROLE.to_string(),
        url: "https://teleport.example.invalid/.well-known/jwks.json".to_string(),
    };
    assert_eq!(step(&state, PILOT_REPO, &token, 5), fetch());
    assert_eq!(step(&state, "someone/else", &token, 5), HumanKeyStep::Decide);
    assert_eq!(step(&state, PILOT_REPO, "not a token", 5), HumanKeyStep::Decide);

    assert!(state.receive_human_jwks("missing", Some(test_keys().key_set()), 5).is_ok());
    assert!(authorize(&state, PILOT_REPO, &token).is_err());
    assert_eq!(
        state.receive_human_jwks(HUMAN_ROLE, None, 5).unwrap_err(),
        AppError::Internal("Teleport validation keys could not be retrieved".to_string())
    );
    assert_eq!(step(&state, PILOT_REPO, &token, 5), fetch());
    assert!(state.receive_human_jwks(HUMAN_ROLE, Some(test_keys().key_set()), 5).is_ok());
    assert_eq!(step(&state, PILOT_REPO, &token, 5), HumanKeyStep::Decide);
    assert_eq!(step(&state, PILOT_REPO, &token, 5 + JWKS_CACHE_TTL - 1), HumanKeyStep::Decide);
    assert_eq!(step(&state, PILOT_REPO, &token, 5 + JWKS_CACHE_TTL), fetch());
    let (_, identity) = authorize(&state, PILOT_REPO, &token).unwrap();
    assert_eq!(identity.subject, "alex.mason@example.invalid");
    let (policy, role) = state
        .select_human_policy(&app, PILOT_REPO, Some(&token))
        .unwrap();
    assert_eq!(policy.repository, PILOT_REPO);
    assert_eq!(role.config.name, HUMAN_ROLE);
}
