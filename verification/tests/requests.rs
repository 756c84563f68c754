use idcat::access::extract_bearer_token;
use idcat::algorithm::Algorithm;
use idcat::config::{GithubAppConfig, InstallationPolicyConfig, KeySource};
use idcat::error::AppError;
use idcat::requests::{
    ensure_permissions_allowed, permission_level_is_at_most,
    select_multiple_repository_permissions, validate_repository_names,
};
use idcat::roles::{ClaimRequirement, RoleConfig, TokenValidator};
use idcat::service::{AppState, RepoScope, TokenScope};
use idcat::string_map::{from_entries, StringMap};

fn permissions(entries: &[(&str, &str)]) -> StringMap<String> {
    from_entries(
        entries
            .iter()
            .map(|(name, level)| (name.to_string(), level.to_string()))
            .collect(),
    )
}

fn token_scope(entries: &[(&str, &str)]) -> TokenScope {
    TokenScope {
        repositories: RepoScope::OnlyRequested,
        permissions: permissions(entries),
    }
}

fn names(list: &[&str]) -> Vec<String> {
    list.iter().map(|name| name.to_string()).collect()
}

#[test]
fn validates_multiple_repository_names() {
    validate_repository_names(&names(&["alfa", "bravo"])).unwrap();

    assert!(validate_repository_names(&names(&[])).is_err());
    assert!(validate_repository_names(&names(&["myorg/alfa"])).is_err());
    assert!(validate_repository_names(&names(&["alfa", "alfa"])).is_err());
}

#[test]
fn explicit_permissions_must_be_allowed_for_every_repository() {
    let requested = permissions(&[("contents", "write")]);
    let scopes = vec![
        token_scope(&[("contents", "write")]),
        token_scope(&[("contents", "read")]),
    ];

    assert!(select_multiple_repository_permissions(Some(requested), &scopes).is_err());
}

#[test]
fn explicit_permissions_can_downscope_every_repository() {
    let requested = permissions(&[("contents", "read")]);
    let scopes = vec![
        token_scope(&[("contents", "write")]),
        token_scope(&[("contents", "read")]),
    ];

    assert_eq!(
        select_multiple_repository_permissions(Some(requested.clone()), &scopes).unwrap(),
        requested
    );
}

#[test]
fn omitted_permissions_use_shared_restricted_policy() {
    let expected = permissions(&[("contents", "read")]);
    let scopes = vec![
        token_scope(&[]),
        token_scope(&[("contents", "read")]),
        token_scope(&[("contents", "read")]),
    ];

    assert_eq!(
        select_multiple_repository_permissions(None, &scopes).unwrap(),
        expected
    );
}

#[test]
fn omitted_permissions_reject_different_restricted_policies() {
    let scopes = vec![
        token_scope(&[("contents", "read")]),
        token_scope(&[("issues", "write")]),
    ];

    assert!(select_multiple_repository_permissions(None, &scopes).is_err());
}

#[test]
fn permission_levels_are_ordered() {
    assert!(permission_level_is_at_most("read", "write"));
    assert!(permission_level_is_at_most("write", "admin"));
    assert!(!permission_level_is_at_most("write", "read"));
    assert!(permission_level_is_at_most("custom", "custom"));
    assert!(!permission_level_is_at_most("custom", "read"));
}

#[test]
fn repository_lists_are_refused_for_the_right_reason() {
    let refuse = |list: Vec<String>| validate_repository_names(&list).unwrap_err();
    assert_eq!(
        refuse(Vec::new()),
        AppError::BadRequest("repositories must contain at least one repository".to_string())
    );
    let many: Vec<String> = (0..501).map(|i| format!("r{i}")).collect();
    assert_eq!(
        refuse(many.clone()),
        AppError::BadRequest(
            "repositories must contain no more than 500 repositories".to_string()
        )
    );
    assert_eq!(validate_repository_names(&many[..500].to_vec()), Ok(()));
    assert_eq!(
        refuse(names(&["a", ""])),
        AppError::BadRequest(
            "repository '' must be a repository name without an owner".to_string()
        )
    );
    assert_eq!(
        refuse(names(&["a", "b", "a", "x/y"])),
        AppError::BadRequest("repository 'a' is listed more than once".to_string())
    );
}

#[test]
fn permissions_are_refused_for_the_right_reason() {
    assert_eq!(
        select_multiple_repository_permissions(Some(permissions(&[])), &vec![token_scope(&[])]),
        Err(AppError::BadRequest(
            "permissions must not be empty when specified".to_string()
        ))
    );
    assert_eq!(
        ensure_permissions_allowed(
            &permissions(&[("contents", "read"), ("issues", "read")]),
            &permissions(&[("contents", "read")])
        ),
        Err(AppError::Unauthorized(
            "permission 'issues' is not allowed by every matching installation policy".to_string()
        ))
    );
    assert_eq!(
        ensure_permissions_allowed(
            &permissions(&[("contents", "admin")]),
            &permissions(&[("contents", "write")])
        ),
        Err(AppError::Unauthorized(
            "permission 'contents' level 'admin' exceeds allowed level 'write'".to_string()
        ))
    );
    // To allow no permission by name is to allow all of them.
    assert_eq!(
        ensure_permissions_allowed(&permissions(&[("contents", "admin")]), &permissions(&[])),
        Ok(())
    );
    assert_eq!(
        select_multiple_repository_permissions(None, &vec![token_scope(&[])]),
        Ok(permissions(&[]))
    );
    assert_eq!(
        select_multiple_repository_permissions(
            None,
            &vec![token_scope(&[("a", "read")]), token_scope(&[("a", "write")])]
        ),
        Err(AppError::BadRequest(
            "repositories have different permission policies; specify permissions explicitly"
                .to_string()
        ))
    );
}

#[test]
fn bearer_tokens_are_read_from_the_header() {
    let unauthorized = |text: &str| Err(AppError::Unauthorized(text.to_string()));
    assert_eq!(extract_bearer_token(Some(b"Bearer abc")), Ok("abc".to_string()));
    assert_eq!(extract_bearer_token(Some(b"Bearer  a\tb")), Ok(" a\tb".to_string()));
    assert_eq!(extract_bearer_token(None), unauthorized("missing Authorization header"));
    assert_eq!(
        extract_bearer_token(Some(b"Bearer \xc3\xa9")),
        unauthorized("invalid Authorization header")
    );
    assert_eq!(
        extract_bearer_token(Some(b"Bearer a\nb")),
        unauthorized("invalid Authorization header")
    );
    assert_eq!(extract_bearer_token(Some(b"bearer abc")), unauthorized("expected a Bearer token"));
    assert_eq!(extract_bearer_token(Some(b"")), unauthorized("expected a Bearer token"));
    assert_eq!(extract_bearer_token(Some(b"Bearer ")), unauthorized("empty bearer token"));
}

fn app(allowed_roles: &[&str]) -> GithubAppConfig {
    GithubAppConfig {
        name: "deployments".to_string(),
        app_id: 42,
        secret_key: "private-key.pem".to_string(),
        webhook_target: None,
        webhook_validation_secret_file: None,
        allowed_roles: names(allowed_roles),
    }
}

fn policy(repository: &str, claim: (&str, &str), granted: &[(&str, &str)]) -> InstallationPolicyConfig {
    InstallationPolicyConfig {
        github_app: "deployments".to_string(),
        repositories: vec![repository.to_string()],
        role: "workflow".to_string(),
        required_claims: from_entries(vec![(
            claim.0.to_string(),
            ClaimRequirement::equals(claim.1),
        )]),
        allow_self_access: false,
        permissions: permissions(granted),
    }
}

fn role() -> RoleConfig {
    RoleConfig {
        name: "workflow".to_string(),
        audience: "idcat".to_string(),
        issuer: "https://issuer.example.invalid".to_string(),
        validation_key: Some("secret".to_string()),
        algorithms: vec![Algorithm::HS256],
        claims: StringMap::new(),
    }
}

fn state(disable_auth: bool, policies: Vec<InstallationPolicyConfig>) -> AppState {
    AppState {
        github_apps: vec![app(&[])],
        installation_policies: policies,
        human_policies: Vec::new(),
        human_roles: StringMap::new(),
        token_validator: TokenValidator::new(vec![role()], disable_auth).unwrap(),
        key_source: KeySource::Local,
    }
}

fn bearer(claims: &[(&str, &str)]) -> Vec<u8> {
    let mut payload = serde_json::Map::new();
    payload.insert("sub".to_string(), "someone".into());
    payload.insert("aud".to_string(), "idcat".into());
    payload.insert("iss".to_string(), "https://issuer.example.invalid".into());
    payload.insert("exp".to_string(), 4_102_444_800u64.into());
    for (name, value) in claims {
        payload.insert(name.to_string(), value.to_string().into());
    }
    let token = jsonwebtoken::encode(
        &jsonwebtoken::Header::new(jsonwebtoken::Algorithm::HS256),
        &payload,
        &jsonwebtoken::EncodingKey::from_secret(b"secret"),
    )
    .unwrap();
    format!("Bearer {token}").into_bytes()
}

#[test]
fn one_repository_is_granted_by_its_policy() {
    let state = state(false, vec![policy("myorg/alfa", ("team", "red"), &[("contents", "read")])]);
    let header = bearer(&[("team", "red")]);

    let (app, scope) = state
        .authorize_repository("deployments", "myorg/alfa", Some(&header))
        .unwrap();
    assert_eq!(app.name, "deployments");
    assert_eq!(scope, token_scope(&[("contents", "read")]));

    assert_eq!(
        state.authorize_repository("unknown", "myorg/alfa", Some(&header)).unwrap_err(),
        AppError::NotFound("unknown github_app 'unknown'".to_string())
    );
    assert_eq!(
        state.authorize_repository("deployments", "myorg/alfa", None).unwrap_err(),
        AppError::Unauthorized("missing Authorization header".to_string())
    );
    assert_eq!(
        state
            .authorize_repository("deployments", "myorg/bravo", Some(&header))
            .unwrap_err(),
        AppError::Unauthorized(
            "source token did not match any allowed role for github-app 'deployments' and repository 'myorg/bravo'"
                .to_string()
        )
    );
}

#[test]
fn requests_need_no_token_where_authorization_is_off() {
    let state = state(true, Vec::new());
    let (_, scope) = state
        .authorize_repository("deployments", "myorg/alfa", Some(b"nonsense"))
        .unwrap();
    assert_eq!(scope, TokenScope::broad());
    assert_eq!(state.request_bearer_token(None), Ok(None));
    assert_eq!(
        state.request_bearer_token(Some(b"Bearer abc")),
        Ok(Some("abc".to_string()))
    );
}

#[test]
fn several_repositories_are_granted_together() {
    let state = state(
        false,
        vec![
            policy("myorg/alfa", ("team", "red"), &[("contents", "write")]),
            policy("myorg/bravo", ("team", "red"), &[("contents", "read")]),
        ],
    );
    let header = bearer(&[("team", "red")]);
    let ask = |list: &[&str], wanted: Option<StringMap<String>>| {
        state.authorize_repositories("deployments", "myorg", &names(list), wanted, Some(&header))
    };

    let grant = ask(&["alfa", "bravo"], Some(permissions(&[("contents", "read")]))).unwrap();
    assert_eq!(grant.repositories, names(&["myorg/alfa", "myorg/bravo"]));
    assert_eq!(grant.permissions, permissions(&[("contents", "read")]));

    assert_eq!(
        ask(&["alfa"], None).unwrap().permissions,
        permissions(&[("contents", "write")])
    );
    assert!(matches!(ask(&["alfa", "bravo"], None), Err(AppError::BadRequest(_))));
    assert!(matches!(
        ask(&["alfa", "bravo"], Some(permissions(&[("contents", "write")]))),
        Err(AppError::Unauthorized(_))
    ));
    assert!(matches!(ask(&["alfa", "charlie"], None), Err(AppError::Unauthorized(_))));
    assert!(matches!(ask(&[], None), Err(AppError::BadRequest(_))));
    assert!(matches!(
        state.authorize_repositories("other", "myorg", &names(&["alfa"]), None, Some(&header)),
        Err(AppError::NotFound(_))
    ));
    assert!(matches!(
        state.authorize_repositories("deployments", "myorg", &names(&["alfa"]), None, None),
        Err(AppError::Unauthorized(_))
    ));
}
