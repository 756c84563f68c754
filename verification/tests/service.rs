use base64::engine::general_purpose::{STANDARD, URL_SAFE_NO_PAD};
use base64::Engine;
use idcat::algorithm::Algorithm;
use idcat::config::{GithubAppConfig, InstallationPolicyConfig, KeySource};
use idcat::error::AppError;
use idcat::roles::{check_roles, ClaimRequirement, RoleConfig, TokenValidator};
use idcat::service::{claims_for_request, AppState, RepoScope, TokenScope};
use idcat::string_map::{from_entries, StringMap};
use jsonwebtoken::{encode, EncodingKey, Header};

fn test_state(github_apps: Vec<GithubAppConfig>) -> AppState {
    test_state_with_installation_policies(github_apps, Vec::new())
}

fn test_state_with_installation_policies(
    github_apps: Vec<GithubAppConfig>,
    installation_policies: Vec<InstallationPolicyConfig>,
) -> AppState {
    AppState {
        github_apps,
        installation_policies,
        human_policies: Vec::new(),
        human_roles: StringMap::new(),
        token_validator: TokenValidator::new(Vec::new(), true).unwrap(),
        key_source: KeySource::Local,
    }
}

fn github_workflow_role() -> RoleConfig {
    RoleConfig {
        name: "github-workflow".to_string(),
        audience: "idcat".to_string(),
        issuer: "https://token.actions.githubusercontent.com".to_string(),
        validation_key: Some("secret".to_string()),
        algorithms: vec![Algorithm::HS256],
        claims: StringMap::new(),
    }
}

fn github_workflow_token(repository: &str) -> String {
    let mut claims = serde_json::Map::new();
    claims.insert("sub".to_string(), "repo:myorg/gamma:ref:refs/heads/main".into());
    claims.insert("aud".to_string(), "idcat".into());
    claims.insert(
        "iss".to_string(),
        "https://token.actions.githubusercontent.com".into(),
    );
    claims.insert("exp".to_string(), 4_102_444_800u64.into());
    claims.insert("repository".to_string(), repository.into());
    encode(
        &Header::new(jsonwebtoken::Algorithm::HS256),
        &claims,
        &EncodingKey::from_secret(b"secret"),
    )
    .unwrap()
}

#[test]
fn github_app_returns_matching_config() {
    let state = test_state(vec![GithubAppConfig {
        name: "default".to_string(),
        app_id: 42,
        secret_key: "private-key.pem".to_string(),
        webhook_target: None,
        webhook_validation_secret_file: None,
        allowed_roles: vec!["buildkite-deploy".to_string()],
    }]);

    let github_app = state.github_app("default").unwrap();
    assert_eq!(
        github_app.allowed_roles,
        vec!["buildkite-deploy".to_string()]
    );
}

#[test]
fn authorize_github_app_passes_when_auth_disabled() {
    let state = test_state(vec![GithubAppConfig {
        name: "default".to_string(),
        app_id: 42,
        secret_key: "private-key.pem".to_string(),
        webhook_target: None,
        webhook_validation_secret_file: None,
        allowed_roles: Vec::new(),
    }]);

    let github_app = state.github_app("default").unwrap().clone();
    state
        .authorize_github_app(&github_app, "myorg/alfa", None)
        .unwrap();
}

#[test]
fn authorize_github_app_requires_bearer_token_when_auth_enabled() {
    let mut state = test_state(vec![GithubAppConfig {
        name: "default".to_string(),
        app_id: 42,
        secret_key: "private-key.pem".to_string(),
        webhook_target: None,
        webhook_validation_secret_file: None,
        allowed_roles: vec!["kubernetes-default".to_string()],
    }]);
    state.token_validator = TokenValidator::new(Vec::new(), false).unwrap();

    let github_app = state.github_app("default").unwrap().clone();
    let error = state
        .authorize_github_app(&github_app, "myorg/alfa", None)
        .unwrap_err();
    assert!(matches!(error, AppError::Unauthorized(_)));
}

#[test]
fn authorize_github_app_accepts_installation_policy_with_required_claims() {
    let required_claims = from_entries(vec![(
        "repository".to_string(),
        ClaimRequirement::equals("myorg/gamma"),
    )]);
    let mut state = test_state_with_installation_policies(
        vec![GithubAppConfig {
            name: "default".to_string(),
            app_id: 42,
            secret_key: "private-key.pem".to_string(),
            webhook_target: None,
            webhook_validation_secret_file: None,
            allowed_roles: Vec::new(),
        }],
        vec![InstallationPolicyConfig {
            github_app: "default".to_string(),
            repositories: vec!["myorg/alfa".to_string()],
            role: "github-workflow".to_string(),
            required_claims,
            allow_self_access: false,
            permissions: StringMap::new(),
        }],
    );
    state.token_validator = TokenValidator::new(vec![github_workflow_role()], false).unwrap();

    let token = github_workflow_token("myorg/gamma");
    let github_app = state.github_app("default").unwrap().clone();
    state
        .authorize_github_app(&github_app, "myorg/alfa", Some(&token))
        .unwrap();
}

#[test]
fn authorize_github_app_rejects_installation_policy_when_required_claims_do_not_match() {
    let required_claims = from_entries(vec![(
        "repository".to_string(),
        ClaimRequirement::equals("myorg/gamma"),
    )]);
    let mut state = test_state_with_installation_policies(
        vec![GithubAppConfig {
            name: "default".to_string(),
            app_id: 42,
            secret_key: "private-key.pem".to_string(),
            webhook_target: None,
            webhook_validation_secret_file: None,
            allowed_roles: Vec::new(),
        }],
        vec![InstallationPolicyConfig {
            github_app: "default".to_string(),
            repositories: vec!["myorg/alfa".to_string()],
            role: "github-workflow".to_string(),
            required_claims,
            allow_self_access: false,
            permissions: StringMap::new(),
        }],
    );
    state.token_validator = TokenValidator::new(vec![github_workflow_role()], false).unwrap();

    let token = github_workflow_token("myorg/epsilon");
    let github_app = state.github_app("default").unwrap().clone();
    let error = state
        .authorize_github_app(&github_app, "myorg/alfa", Some(&token))
        .unwrap_err();
    assert!(matches!(error, AppError::Unauthorized(_)));
}

#[test]
fn authorize_github_app_returns_broad_when_matched_via_allowed_roles() {
    let mut state = test_state(vec![GithubAppConfig {
        name: "default".to_string(),
        app_id: 42,
        secret_key: "private-key.pem".to_string(),
        webhook_target: None,
        webhook_validation_secret_file: None,
        allowed_roles: vec!["github-workflow".to_string()],
    }]);
    state.token_validator = TokenValidator::new(vec![github_workflow_role()], false).unwrap();

    let token = github_workflow_token("myorg/anything");
    let github_app = state.github_app("default").unwrap().clone();
    let scope = state
        .authorize_github_app(&github_app, "myorg/alfa", Some(&token))
        .unwrap();
    assert_eq!(scope.repositories, RepoScope::All);
    assert!(scope.permissions.is_empty());
}

#[test]
fn authorize_github_app_returns_narrow_when_matched_via_installation_policy() {
    let mut state = test_state_with_installation_policies(
        vec![GithubAppConfig {
            name: "default".to_string(),
            app_id: 42,
            secret_key: "private-key.pem".to_string(),
            webhook_target: None,
            webhook_validation_secret_file: None,
            allowed_roles: Vec::new(),
        }],
        vec![workflow_self_scoping_policy()],
    );
    state.token_validator = TokenValidator::new(vec![github_workflow_role()], false).unwrap();

    let token = github_workflow_token("myorg/alfa");
    let github_app = state.github_app("default").unwrap().clone();
    let scope = state
        .authorize_github_app(&github_app, "myorg/alfa", Some(&token))
        .unwrap();
    assert_eq!(scope.repositories, RepoScope::OnlyRequested);
    assert!(scope.permissions.is_empty());
}

#[test]
fn authorize_github_app_matches_any_repository_in_installation_policy() {
    let mut policy = workflow_self_scoping_policy();
    policy.repositories = vec!["myorg/bravo".to_string(), "myorg/alfa".to_string()];
    let mut state = test_state_with_installation_policies(
        vec![GithubAppConfig {
            name: "default".to_string(),
            app_id: 42,
            secret_key: "private-key.pem".to_string(),
            webhook_target: None,
            webhook_validation_secret_file: None,
            allowed_roles: Vec::new(),
        }],
        vec![policy],
    );
    state.token_validator = TokenValidator::new(vec![github_workflow_role()], false).unwrap();

    let token = github_workflow_token("myorg/alfa");
    let github_app = state.github_app("default").unwrap().clone();
    let scope = state
        .authorize_github_app(&github_app, "myorg/alfa", Some(&token))
        .unwrap();
    assert_eq!(scope.repositories, RepoScope::OnlyRequested);
}

#[test]
fn authorize_github_app_threads_permissions_from_installation_policy() {
    let mut policy = workflow_self_scoping_policy();
    policy.permissions = from_entries(vec![("contents".to_string(), "read".to_string())]);
    let mut state = test_state_with_installation_policies(
        vec![GithubAppConfig {
            name: "default".to_string(),
            app_id: 42,
            secret_key: "private-key.pem".to_string(),
            webhook_target: None,
            webhook_validation_secret_file: None,
            allowed_roles: Vec::new(),
        }],
        vec![policy],
    );
    state.token_validator = TokenValidator::new(vec![github_workflow_role()], false).unwrap();

    let token = github_workflow_token("myorg/alfa");
    let github_app = state.github_app("default").unwrap().clone();
    let scope = state
        .authorize_github_app(&github_app, "myorg/alfa", Some(&token))
        .unwrap();
    assert_eq!(scope.repositories, RepoScope::OnlyRequested);
    assert_eq!(
        scope.permissions.get("contents").map(String::as_str),
        Some("read")
    );
}

fn workflow_self_scoping_policy() -> InstallationPolicyConfig {
    InstallationPolicyConfig {
        github_app: "default".to_string(),
        repositories: vec!["myorg/*".to_string()],
        role: "github-workflow".to_string(),
        required_claims: StringMap::new(),
        allow_self_access: true,
        permissions: StringMap::new(),
    }
}

#[test]
fn authorize_github_app_accepts_workflow_self_scoping_when_claim_matches_request_repo() {
    let mut state = test_state_with_installation_policies(
        vec![GithubAppConfig {
            name: "default".to_string(),
            app_id: 42,
            secret_key: "private-key.pem".to_string(),
            webhook_target: None,
            webhook_validation_secret_file: None,
            allowed_roles: Vec::new(),
        }],
        vec![workflow_self_scoping_policy()],
    );
    state.token_validator = TokenValidator::new(vec![github_workflow_role()], false).unwrap();

    let token = github_workflow_token("myorg/alfa");
    let github_app = state.github_app("default").unwrap().clone();
    state
        .authorize_github_app(&github_app, "myorg/alfa", Some(&token))
        .unwrap();
}

#[test]
fn authorize_github_app_rejects_workflow_self_scoping_when_claim_disagrees_with_request_repo() {
    let mut state = test_state_with_installation_policies(
        vec![GithubAppConfig {
            name: "default".to_string(),
            app_id: 42,
            secret_key: "private-key.pem".to_string(),
            webhook_target: None,
            webhook_validation_secret_file: None,
            allowed_roles: Vec::new(),
        }],
        vec![workflow_self_scoping_policy()],
    );
    state.token_validator = TokenValidator::new(vec![github_workflow_role()], false).unwrap();

    let token = github_workflow_token("myorg/beta");
    let github_app = state.github_app("default").unwrap().clone();
    let error = state
        .authorize_github_app(&github_app, "myorg/alfa", Some(&token))
        .unwrap_err();
    assert!(matches!(error, AppError::Unauthorized(_)));
}

#[test]
fn authorize_github_app_rejects_workflow_self_scoping_when_request_repo_does_not_match_pattern()
{
    let mut state = test_state_with_installation_policies(
        vec![GithubAppConfig {
            name: "default".to_string(),
            app_id: 42,
            secret_key: "private-key.pem".to_string(),
            webhook_target: None,
            webhook_validation_secret_file: None,
            allowed_roles: Vec::new(),
        }],
        vec![workflow_self_scoping_policy()],
    );
    state.token_validator = TokenValidator::new(vec![github_workflow_role()], false).unwrap();

    let token = github_workflow_token("evilorg/alfa");
    let github_app = state.github_app("default").unwrap().clone();
    let error = state
        .authorize_github_app(&github_app, "evilorg/alfa", Some(&token))
        .unwrap_err();
    assert!(matches!(error, AppError::Unauthorized(_)));
}

fn role_with_claims(name: &str, claims: Vec<(String, ClaimRequirement)>) -> RoleConfig {
    RoleConfig {
        name: name.to_string(),
        claims: from_entries(claims),
        ..github_workflow_role()
    }
}

#[test]
fn incomplete_roles_are_refused_for_the_right_reason() {
    let refuse = |role: RoleConfig| check_roles(&vec![role]).unwrap_err().to_text();
    let text = String::new;
    assert_eq!(
        refuse(RoleConfig { name: text(), ..github_workflow_role() }),
        "role names must not be empty"
    );
    assert_eq!(
        refuse(RoleConfig { audience: text(), ..github_workflow_role() }),
        "role 'github-workflow' audience must not be empty"
    );
    assert_eq!(
        refuse(RoleConfig { issuer: text(), ..github_workflow_role() }),
        "role 'github-workflow' issuer must not be empty"
    );
    assert_eq!(
        refuse(RoleConfig { validation_key: Some(text()), ..github_workflow_role() }),
        "role 'github-workflow' validation-key must not be empty"
    );
    assert_eq!(
        refuse(RoleConfig { algorithms: Vec::new(), ..github_workflow_role() }),
        "role 'github-workflow' must allow at least one algorithm"
    );
    assert_eq!(
        refuse(role_with_claims("r", vec![(text(), ClaimRequirement::equals("x"))])),
        "role 'r' claim names must not be empty"
    );
    for empty in [
        ClaimRequirement::Equals(text()),
        ClaimRequirement::AnyOf(Vec::new()),
        ClaimRequirement::AnyOf(vec!["x".to_string(), text()]),
        ClaimRequirement::Detailed(Vec::new()),
        ClaimRequirement::Detailed(vec![text()]),
    ] {
        let expected = "role 'r' claim 'c' must define at least one acceptable value";
        assert_eq!(empty.validate("r", "c").unwrap_err().to_text(), expected);
        assert_eq!(refuse(role_with_claims("r", vec![("c".to_string(), empty)])), expected);
    }
    assert_eq!(
        check_roles(&vec![github_workflow_role(), github_workflow_role()])
            .unwrap_err()
            .to_text(),
        "duplicate role 'github-workflow'"
    );
    assert_eq!(check_roles(&vec![github_workflow_role()]), Ok(()));
    let every = ["HS256", "HS384", "HS512", "RS256", "RS384", "RS512", "PS256", "PS384", "PS512", "ES256", "ES384", "EdDSA"];
    let algorithms = every.iter().map(|name| Algorithm::from_name(name).unwrap()).collect();
    assert_eq!(check_roles(&vec![RoleConfig { algorithms, ..github_workflow_role() }]), Ok(()));
    assert_eq!(check_roles(&Vec::new()), Ok(()));
    // The first role that is wrong decides, and within a role the first claim by name.
    assert_eq!(
        check_roles(&vec![
            role_with_claims(
                "first",
                vec![
                    ("b".to_string(), ClaimRequirement::AnyOf(Vec::new())),
                    ("a".to_string(), ClaimRequirement::AnyOf(Vec::new())),
                ]
            ),
            role_with_claims("", Vec::new()),
        ])
        .unwrap_err()
        .to_text(),
        "role 'first' claim 'a' must define at least one acceptable value"
    );
}

#[test]
fn requirements_accept_the_texts_that_they_list() {
    let equals = ClaimRequirement::equals("x");
    assert!(equals.matches(Some("x")));
    assert!(!equals.matches(Some("X")));
    assert!(!equals.matches(None));
    for list in [
        ClaimRequirement::AnyOf(vec!["x".to_string(), "y".to_string()]),
        ClaimRequirement::Detailed(vec!["x".to_string(), "y".to_string()]),
    ] {
        assert!(list.matches(Some("x")));
        assert!(list.matches(Some("y")));
        assert!(!list.matches(Some("xy")));
        assert!(!list.matches(None));
        assert!(list.validate("r", "c").is_ok());
    }
}

#[test]
fn tokens_stand_for_roles_in_the_order_of_their_names() {
    let on = |repository: &str| {
        vec![(
            "repository".to_string(),
            ClaimRequirement::AnyOf(vec![repository.to_string(), "myorg/common".to_string()]),
        )]
    };
    let validator = TokenValidator::new(
        vec![
            role_with_claims("b", on("myorg/alfa")),
            role_with_claims("a", on("myorg/alfa")),
            role_with_claims("c", on("myorg/bravo")),
            RoleConfig {
                name: "d".to_string(),
                audience: "someone-else".to_string(),
                ..github_workflow_role()
            },
            RoleConfig {
                name: "e".to_string(),
                validation_key: Some("other-secret".to_string()),
                ..github_workflow_role()
            },
        ],
        false,
    )
    .unwrap();
    assert!(validator.auth_enabled());
    assert_eq!(validator.validate(&github_workflow_token("myorg/alfa")), ["a", "b"]);
    assert_eq!(validator.validate(&github_workflow_token("myorg/common")), ["a", "b", "c"]);
    assert_eq!(validator.validate("nonsense"), Vec::<String>::new());
    // The token is signed by another algorithm than the role allows.
    let strict = RoleConfig { algorithms: vec![Algorithm::HS512], ..github_workflow_role() };
    let strict = TokenValidator::new(vec![strict], false).unwrap();
    assert_eq!(strict.validate(&github_workflow_token("myorg/alfa")), Vec::<String>::new());

    let token = github_workflow_token("myorg/alfa");
    let none = StringMap::new();
    assert!(validator.validate_role_with_claims("a", &none, &token));
    assert!(!validator.validate_role_with_claims("c", &none, &token));
    assert!(!validator.validate_role_with_claims("missing", &none, &token));
    // A further requirement takes the place of the role's own for its claim.
    let alfa = from_entries(vec![(
        "repository".to_string(),
        ClaimRequirement::equals("myorg/alfa"),
    )]);
    assert!(validator.validate_role_with_claims("c", &alfa, &token));
    let subject = from_entries(vec![(
        "sub".to_string(),
        ClaimRequirement::equals("repo:myorg/gamma:ref:refs/heads/main"),
    )]);
    assert!(validator.validate_role_with_claims("a", &subject, &token));
    // A requirement that accepts nothing is met by no token.
    let nothing = from_entries(vec![("sub".to_string(), ClaimRequirement::AnyOf(Vec::new()))]);
    assert!(!validator.validate_role_with_claims("a", &nothing, &token));

    let off = TokenValidator::new(vec![role_with_claims("", Vec::new())], true).unwrap();
    assert!(!off.auth_enabled());
    assert_eq!(off.validate(&token), Vec::<String>::new());
    assert!(!off.validate_role_with_claims("a", &none, &token));
}

/// A throwaway Ed25519 key.
fn ed_key() -> EncodingKey {
    let mut der = vec![
        0x30, 0x2e, 0x02, 0x01, 0x00, 0x30, 0x05, 0x06, 0x03, 0x2b, 0x65, 0x70, 0x04, 0x22, 0x04,
        0x20,
    ];
    der.extend([7u8; 32]);
    EncodingKey::from_ed_der(&der)
}

/// The public half of the throwaway key, in base64.
fn ed_public_key() -> String {
    let jwk = jsonwebtoken::jwk::Jwk::from_encoding_key(&ed_key(), jsonwebtoken::Algorithm::EdDSA);
    match jwk.unwrap().algorithm {
        jsonwebtoken::jwk::AlgorithmParameters::OctetKeyPair(parameters) => parameters.x,
        other => panic!("unexpected key {other:?}"),
    }
}

fn ed_pem(public_key: &[u8]) -> String {
    let size = public_key.len() as u8;
    let mut der = vec![0x30, size + 10, 0x30, 0x05, 0x06, 0x03, 0x2b, 0x65, 0x70, 0x03, size + 1, 0];
    der.extend(public_key);
    format!("-----BEGIN PUBLIC KEY-----\n{}\n-----END PUBLIC KEY-----\n", STANDARD.encode(der))
}

#[test]
fn eddsa_tokens_are_held_against_keys_of_full_length_only() {
    let role = |name: &str, key: Option<String>, algorithms: Vec<Algorithm>| RoleConfig {
        name: name.to_string(),
        validation_key: key,
        algorithms,
        claims: StringMap::new(),
        ..github_workflow_role()
    };
    let public_key = URL_SAFE_NO_PAD.decode(ed_public_key()).unwrap();
    let full = Some(ed_pem(&public_key));
    let eddsa = || vec![Algorithm::EdDSA];
    let validator = TokenValidator::new(
        vec![
            role("short", Some(ed_pem(&public_key[..31])), eddsa()),
            role("full", full.clone(), eddsa()),
            role("empty", Some(ed_pem(&[])), eddsa()),
            role("none", None, eddsa()),
            role("no-pem", Some("shared-secret".to_string()), eddsa()),
            role("other-algorithm", full, vec![Algorithm::HS256]),
        ],
        false,
    )
    .unwrap();
    let mut claims = serde_json::Map::new();
    claims.insert("sub".to_string(), "me".into());
    claims.insert("iss".to_string(), github_workflow_role().issuer.into());
    claims.insert("aud".to_string(), github_workflow_role().audience.into());
    claims.insert("exp".to_string(), 4_102_444_800u64.into());
    let header = Header::new(jsonwebtoken::Algorithm::EdDSA);
    let token = encode(&header, &claims, &ed_key()).unwrap();
    assert_eq!(validator.validate(&token), vec!["full".to_string()]);
    let stands_for = |name: &str| {
        validator.validate_role_with_claims(name, &StringMap::new(), &token)
    };
    assert!(stands_for("full"));
    for name in ["short", "empty", "none", "no-pem", "other-algorithm", "missing"] {
        assert!(!stands_for(name), "{name}");
    }
}

#[test]
fn self_access_requires_the_requested_repository() {
    let policy = workflow_self_scoping_policy();
    let claims = claims_for_request(&policy, "myorg/alfa");
    assert_eq!(claims.len(), 1);
    assert_eq!(claims.get("repository"), Some(&ClaimRequirement::equals("myorg/alfa")));

    let mut plain = workflow_self_scoping_policy();
    plain.allow_self_access = false;
    plain.required_claims =
        from_entries(vec![("ref".to_string(), ClaimRequirement::equals("main"))]);
    let claims = claims_for_request(&plain, "myorg/alfa");
    assert_eq!(claims.len(), 1);
    assert_eq!(claims.get("ref"), Some(&ClaimRequirement::equals("main")));
}

#[test]
fn decisions_follow_roles_and_then_the_first_accepted_policy() {
    let policy = |pattern: &str, level: &str| InstallationPolicyConfig {
        repositories: vec![pattern.to_string()],
        permissions: from_entries(vec![("contents".to_string(), level.to_string())]),
        ..workflow_self_scoping_policy()
    };
    let app = GithubAppConfig {
        name: "default".to_string(),
        app_id: 42,
        secret_key: "private-key.pem".to_string(),
        webhook_target: None,
        webhook_validation_secret_file: None,
        allowed_roles: vec!["deploy".to_string()],
    };
    let state = test_state_with_installation_policies(
        vec![app.clone()],
        vec![policy("myorg/alfa", "read"), policy("myorg/*", "write"), policy("myorg/?lfa", "admin")],
    );
    let decide = |roles: &[&str], accepted: [bool; 3], repo: &str| {
        let roles: Vec<String> = roles.iter().map(|role| role.to_string()).collect();
        state.decide_scope(&app, repo, &roles, &accepted.to_vec())
    };
    let granted = |level: &str| {
        Ok(TokenScope {
            repositories: RepoScope::OnlyRequested,
            permissions: from_entries(vec![("contents".to_string(), level.to_string())]),
        })
    };
    assert_eq!(decide(&["x", "deploy"], [false; 3], "myorg/alfa"), Ok(TokenScope::broad()));
    assert_eq!(decide(&["x"], [true; 3], "myorg/alfa"), granted("read"));
    assert_eq!(decide(&[], [false, true, true], "myorg/alfa"), granted("write"));
    assert_eq!(decide(&[], [false, false, true], "myorg/alfa"), granted("admin"));
    assert_eq!(decide(&[], [true, false, true], "myorg/golf"), {
        Err(AppError::Unauthorized(
            "source token did not match any allowed role for github-app 'default' and repository 'myorg/golf'"
                .to_string(),
        ))
    });
}

#[test]
fn patterns_match_whole_repository_names() {
    let matches = |pattern: &str, repo: &str| {
        let policy = InstallationPolicyConfig {
            repositories: vec![pattern.to_string()],
            ..workflow_self_scoping_policy()
        };
        let app = GithubAppConfig {
            name: "default".to_string(),
            app_id: 42,
            secret_key: "private-key.pem".to_string(),
            webhook_target: None,
            webhook_validation_secret_file: None,
            allowed_roles: Vec::new(),
        };
        let state = test_state_with_installation_policies(vec![app.clone()], vec![policy]);
        state.decide_scope(&app, repo, &Vec::new(), &vec![true]).is_ok()
    };
    assert!(matches("*", "myorg/alfa"));
    assert!(matches("myorg/*", "myorg/alfa"));
    assert!(matches("myorg/*", "myorg/"));
    assert!(matches("*/alfa", "myorg/alfa"));
    assert!(matches("m*g/a*a", "myorg/alfa"));
    assert!(matches("myorg/al?a", "myorg/alfa"));
    assert!(matches("myorg/a**", "myorg/alfa"));
    assert!(!matches("myorg/al?", "myorg/alfa"));
    assert!(!matches("myorg/alfa", "myorg/alfa2"));
    assert!(!matches("myorg", "myorg/alfa"));
    assert!(!matches("MYORG/*", "myorg/alfa"));
    assert!(!matches("myorg/*?", "myorg/"));
}
