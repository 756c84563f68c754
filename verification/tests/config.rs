use idcat::algorithm::Algorithm;
use idcat::config::{
    default_bind_address, default_human_algorithms, default_private_key_directory,
    default_roles_claim, is_valid_repo_pattern, policy_repositories, Config, GithubAppConfig,
    HumanJwtAlgorithm, HumanPolicyConfig, HumanRoleConfig, InstallationPolicyConfig, KeySource,
    NatsConfig, TlsConfig, WebhookTarget,
};
use idcat::permissions::{known_github_permissions, permission_warnings, PermissionWarning};
use idcat::roles::{ClaimRequirement, RoleConfig};
use idcat::service::AppState;
use idcat::string_map::{from_entries, StringMap};
use toml::{Table, Value};

/// The texts of a TOML value that is a text, a list of texts, or a table with such a list.
fn texts(value: &Value) -> Vec<String> {
    match value {
        Value::Array(list) => list.iter().map(|item| item.as_str().unwrap().to_string()).collect(),
        other => panic!("expected a list, got {other:?}"),
    }
}

fn text(table: &Table, key: &str) -> Result<String, String> {
    match table.get(key) {
        Some(value) => Ok(value.as_str().unwrap().to_string()),
        None => Err(format!("missing field `{key}`")),
    }
}

fn optional(table: &Table, key: &str) -> Option<String> {
    text(table, key).ok()
}

fn list(table: &Table, key: &str) -> Vec<String> {
    table.get(key).map(texts).unwrap_or_default()
}

fn tables<'a>(table: &'a Table, key: &str) -> Vec<&'a Table> {
    match table.get(key) {
        Some(Value::Array(list)) => list.iter().map(|item| item.as_table().unwrap()).collect(),
        _ => Vec::new(),
    }
}

fn requirements(table: &Table, key: &str) -> StringMap<ClaimRequirement> {
    let entries = match table.get(key) {
        Some(Value::Table(claims)) => claims
            .iter()
            .map(|(claim, value)| {
                let requirement = match value {
                    Value::String(text) => ClaimRequirement::Equals(text.clone()),
                    Value::Table(detailed) => ClaimRequirement::Detailed(list(detailed, "any-of")),
                    other => ClaimRequirement::AnyOf(texts(other)),
                };
                (claim.clone(), requirement)
            })
            .collect(),
        _ => Vec::new(),
    };
    from_entries(entries)
}

fn permission_map(table: &Table) -> StringMap<String> {
    let entries = match table.get("permissions") {
        Some(Value::Table(permissions)) => permissions
            .iter()
            .map(|(name, level)| (name.clone(), level.as_str().unwrap().to_string()))
            .collect(),
        _ => Vec::new(),
    };
    from_entries(entries)
}

fn workload_algorithm(name: &str) -> Algorithm {
    Algorithm::from_name(name).unwrap()
}

fn role(table: &Table) -> Result<RoleConfig, String> {
    Ok(RoleConfig {
        name: text(table, "name")?,
        audience: text(table, "audience")?,
        issuer: text(table, "issuer")?,
        validation_key: optional(table, "validation-key"),
        algorithms: match table.get("algorithms") {
            Some(value) => texts(value).iter().map(|name| workload_algorithm(name)).collect(),
            None => vec![Algorithm::RS256],
        },
        claims: requirements(table, "claims"),
    })
}

fn app(table: &Table) -> Result<GithubAppConfig, String> {
    Ok(GithubAppConfig {
        name: text(table, "name")?,
        app_id: table["app-id"].as_integer().unwrap() as u64,
        secret_key: text(table, "secret-key")?,
        webhook_target: optional(table, "webhook-target").map(|_| WebhookTarget::Nats),
        webhook_validation_secret_file: optional(table, "webhook-validation-secret-file"),
        allowed_roles: list(table, "allowed-roles"),
    })
}

fn policy(table: &Table) -> Result<InstallationPolicyConfig, String> {
    Ok(InstallationPolicyConfig {
        github_app: text(table, "github-app")?,
        repositories: policy_repositories(
            optional(table, "repository"),
            table.get("repositories").map(texts),
        )
        .map_err(|error| error.to_text())?,
        role: text(table, "role")?,
        required_claims: requirements(table, "required-claims"),
        allow_self_access: table
            .get("allow-self-access")
            .map(|value| value.as_bool().unwrap())
            .unwrap_or(false),
        permissions: permission_map(table),
    })
}

fn human_role(table: &Table) -> Result<HumanRoleConfig, String> {
    let algorithms = match table.get("algorithms") {
        Some(value) => texts(value)
            .iter()
            .map(|name| {
                HumanJwtAlgorithm::from_name(name).ok_or(format!("unknown variant `{name}`"))
            })
            .collect::<Result<Vec<HumanJwtAlgorithm>, String>>()?,
        None => default_human_algorithms(),
    };
    Ok(HumanRoleConfig {
        name: text(table, "name")?,
        issuer: text(table, "issuer")?,
        audience: text(table, "audience")?,
        jwks_url: text(table, "jwks-url")?,
        teleport_role: text(table, "teleport-role")?,
        roles_claim: optional(table, "roles-claim").unwrap_or_else(default_roles_claim),
        algorithms,
        request_id_claim: optional(table, "request-id-claim"),
        required_claims: requirements(table, "required-claims"),
    })
}

fn human_policy(table: &Table) -> Result<HumanPolicyConfig, String> {
    Ok(HumanPolicyConfig {
        github_app: text(table, "github-app")?,
        repository: text(table, "repository")?,
        human_role: text(table, "human-role")?,
        permissions: permission_map(table),
    })
}

fn parse(input: &str) -> Result<Config, String> {
    let table: Table = toml::from_str(input).map_err(|error| error.to_string())?;
    let section = |key: &str| table.get(key).map(|value| value.as_table().unwrap());
    Ok(Config {
        bind_address: optional(&table, "bind-address").unwrap_or_else(default_bind_address),
        tls: match section("tls") {
            Some(tls) => Some(TlsConfig {
                certificate_file: text(tls, "certificate-file")?,
                private_key_file: text(tls, "private-key-file")?,
            }),
            None => None,
        },
        key_source: match optional(&table, "key-source").as_deref() {
            Some("kms") => KeySource::Kms,
            _ => KeySource::default(),
        },
        private_key_directory: optional(&table, "private-key-directory")
            .unwrap_or_else(default_private_key_directory),
        nats: match section("nats") {
            Some(nats) => Some(NatsConfig {
                endpoint: text(nats, "endpoint")?,
                subject_base: text(nats, "subject-base")?,
                token_path: optional(nats, "token-path"),
            }),
            None => None,
        },
        roles: tables(&table, "role").into_iter().map(role).collect::<Result<_, String>>()?,
        github_apps: tables(&table, "github-app").into_iter().map(app).collect::<Result<_, String>>()?,
        installation_policies: tables(&table, "installation-policy")
            .into_iter()
            .map(policy)
            .collect::<Result<_, String>>()?,
        human_roles: tables(&table, "human-role")
            .into_iter()
            .map(human_role)
            .collect::<Result<_, String>>()?,
        human_policies: tables(&table, "human-policy")
            .into_iter()
            .map(human_policy)
            .collect::<Result<_, String>>()?,
    })
}

fn validate(config: &Config, disable_auth: bool) -> Result<(), String> {
    config.validate(disable_auth).map_err(|error| error.to_text())
}

#[test]
fn accepts_wildcard_repository_without_allow_self_access() {
    let config: Config = parse(
        r#"
[[role]]
name = "github-workflow"
audience = "idcat"
issuer = "https://token.actions.githubusercontent.com"
validation-key = "shared-secret"
algorithms = ["HS256"]

[[github-app]]
name = "deployments"
app-id = 42
secret-key = "private-key.pem"

[[installation-policy]]
github-app = "deployments"
repository = "myorg/*"
role = "github-workflow"

[installation-policy.required-claims]
environment = "production"
"#,
    )
    .unwrap();

    validate(&config, false).unwrap();
}

#[test]
fn accepts_wildcard_repository_with_allow_self_access() {
    let config: Config = parse(
        r#"
[[role]]
name = "github-workflow"
audience = "idcat"
issuer = "https://token.actions.githubusercontent.com"
validation-key = "shared-secret"
algorithms = ["HS256"]

[[github-app]]
name = "deployments"
app-id = 42
secret-key = "private-key.pem"

[[installation-policy]]
github-app = "deployments"
repository = "myorg/*"
role = "github-workflow"
allow-self-access = true
"#,
    )
    .unwrap();

    validate(&config, false).unwrap();
}

#[test]
fn accepts_bare_star_wildcard_with_allow_self_access() {
    let config: Config = parse(
        r#"
[[role]]
name = "github-workflow"
audience = "idcat"
issuer = "https://token.actions.githubusercontent.com"
validation-key = "shared-secret"
algorithms = ["HS256"]

[[github-app]]
name = "deployments"
app-id = 42
secret-key = "private-key.pem"

[[installation-policy]]
github-app = "deployments"
repository = "*"
role = "github-workflow"
allow-self-access = true
"#,
    )
    .unwrap();

    validate(&config, false).unwrap();
}

#[test]
fn parses_installation_policy_with_allow_self_access() {
    let config: Config = parse(
        r#"
[[role]]
name = "github-workflow"
audience = "idcat"
issuer = "https://token.actions.githubusercontent.com"
validation-key = "shared-secret"
algorithms = ["HS256"]

[[github-app]]
name = "deployments"
app-id = 42
secret-key = "private-key.pem"

[[installation-policy]]
github-app = "deployments"
repository = "myorg/alfa"
role = "github-workflow"
allow-self-access = true
"#,
    )
    .unwrap();

    let policy = &config.installation_policies[0];
    assert_eq!(policy.repositories, vec!["myorg/alfa".to_string()]);
    assert!(policy.allow_self_access);
    assert!(policy.required_claims.is_empty());
}

#[test]
fn parses_installation_policy_with_repositories() {
    let config: Config = parse(
        r#"
[[role]]
name = "github-workflow"
audience = "idcat"
issuer = "https://token.actions.githubusercontent.com"
validation-key = "shared-secret"
algorithms = ["HS256"]

[[github-app]]
name = "deployments"
app-id = 42
secret-key = "private-key.pem"

[[installation-policy]]
github-app = "deployments"
repositories = ["myorg/alfa", "myorg/bravo"]
role = "github-workflow"

[installation-policy.required-claims]
repository = "myorg/gamma"
"#,
    )
    .unwrap();

    validate(&config, false).unwrap();
    assert_eq!(
        config.installation_policies[0].repositories,
        vec!["myorg/alfa".to_string(), "myorg/bravo".to_string()]
    );
}

#[test]
fn rejects_installation_policy_with_both_repository_forms() {
    let error = parse(
        r#"
[[role]]
name = "github-workflow"
audience = "idcat"
issuer = "https://token.actions.githubusercontent.com"
validation-key = "shared-secret"
algorithms = ["HS256"]

[[github-app]]
name = "deployments"
app-id = 42
secret-key = "private-key.pem"

[[installation-policy]]
github-app = "deployments"
repository = "myorg/alfa"
repositories = ["myorg/bravo"]
role = "github-workflow"

[installation-policy.required-claims]
repository = "myorg/gamma"
"#,
    )
    .unwrap_err()
    .to_string();

    assert!(
        error.contains("either repository or repositories, not both"),
        "expected repository/repositories conflict error, got: {error}"
    );
}

#[test]
fn rejects_installation_policy_without_repository_form() {
    let error = parse(
        r#"
[[role]]
name = "github-workflow"
audience = "idcat"
issuer = "https://token.actions.githubusercontent.com"
validation-key = "shared-secret"
algorithms = ["HS256"]

[[github-app]]
name = "deployments"
app-id = 42
secret-key = "private-key.pem"

[[installation-policy]]
github-app = "deployments"
role = "github-workflow"

[installation-policy.required-claims]
repository = "myorg/gamma"
"#,
    )
    .unwrap_err()
    .to_string();

    assert!(
        error.contains("either repository or repositories"),
        "expected missing repository/repositories error, got: {error}"
    );
}

#[test]
fn rejects_installation_policy_with_empty_repositories() {
    let config: Config = parse(
        r#"
[[role]]
name = "github-workflow"
audience = "idcat"
issuer = "https://token.actions.githubusercontent.com"
validation-key = "shared-secret"
algorithms = ["HS256"]

[[github-app]]
name = "deployments"
app-id = 42
secret-key = "private-key.pem"

[[installation-policy]]
github-app = "deployments"
repositories = []
role = "github-workflow"

[installation-policy.required-claims]
repository = "myorg/gamma"
"#,
    )
    .unwrap();

    let error = validate(&config, false).unwrap_err().to_string();
    assert!(
        error.contains("at least one repository"),
        "expected empty repositories error, got: {error}"
    );
}

#[test]
fn rejects_allow_self_access_with_explicit_repository_required_claim() {
    let config: Config = parse(
        r#"
[[role]]
name = "github-workflow"
audience = "idcat"
issuer = "https://token.actions.githubusercontent.com"
validation-key = "shared-secret"
algorithms = ["HS256"]

[[github-app]]
name = "deployments"
app-id = 42
secret-key = "private-key.pem"

[[installation-policy]]
github-app = "deployments"
repository = "myorg/*"
role = "github-workflow"
allow-self-access = true

[installation-policy.required-claims]
repository = "myorg/alfa"
"#,
    )
    .unwrap();

    let error = validate(&config, false).unwrap_err().to_string();
    assert!(
        error.contains("allow-self-access"),
        "expected allow-self-access conflict error, got: {error}"
    );
}

#[test]
fn required_claims_accepts_any_of_list_form() {
    let config: Config = parse(
        r#"
[[role]]
name = "github-workflow"
audience = "idcat"
issuer = "https://token.actions.githubusercontent.com"
validation-key = "shared-secret"
algorithms = ["HS256"]

[[github-app]]
name = "deployments"
app-id = 42
secret-key = "private-key.pem"

[[installation-policy]]
github-app = "deployments"
repository = "myorg/alfa"
role = "github-workflow"

[installation-policy.required-claims]
repository = ["myorg/alfa", "myorg/bravo"]
"#,
    )
    .unwrap();

    validate(&config, false).unwrap();

    let policy = &config.installation_policies[0];
    match policy.required_claims.get("repository") {
        Some(ClaimRequirement::AnyOf(values)) => {
            assert_eq!(
                values,
                &vec!["myorg/alfa".to_string(), "myorg/bravo".to_string()]
            );
        }
        other => panic!("expected ClaimRequirement::AnyOf([..]), got {other:?}"),
    }
}

#[test]
fn rejects_installation_policy_with_malformed_repository_pattern() {
    let config: Config = parse(
        r#"
[[role]]
name = "github-workflow"
audience = "idcat"
issuer = "https://token.actions.githubusercontent.com"
validation-key = "shared-secret"
algorithms = ["HS256"]

[[github-app]]
name = "deployments"
app-id = 42
secret-key = "private-key.pem"

[[installation-policy]]
github-app = "deployments"
repository = "owner-only-no-slash"
role = "github-workflow"

[installation-policy.required-claims]
repository = "myorg/gamma"
"#,
    )
    .unwrap();

    let error = validate(&config, false).unwrap_err().to_string();
    assert!(
        error.contains("owner/name"),
        "expected owner/name error, got: {error}"
    );
}

#[test]
fn known_github_permissions_parses_data_file_ignoring_comments_and_blanks() {
    let perms = known_github_permissions();
    assert!(perms.contains(&"contents"), "expected repo-level 'contents'");
    assert!(
        perms.contains(&"pull_requests"),
        "expected repo-level 'pull_requests'"
    );
    assert!(
        perms.contains(&"organization_administration"),
        "expected org-level permission"
    );
    assert!(
        !perms.contains(&"definitely_not_a_real_permission"),
        "made-up permission must be absent"
    );
    assert!(
        !perms.iter().any(|p| p.is_empty() || p.starts_with('#')),
        "comments and blank lines must not become entries"
    );
}

#[test]
fn validate_accepts_unknown_permission_name_and_value_without_error() {
    let config: Config = parse(
        r#"
[[role]]
name = "github-workflow"
audience = "idcat"
issuer = "https://token.actions.githubusercontent.com"
validation-key = "shared-secret"
algorithms = ["HS256"]

[[github-app]]
name = "deployments"
app-id = 42
secret-key = "private-key.pem"

[[installation-policy]]
github-app = "deployments"
repository = "myorg/alfa"
role = "github-workflow"

[installation-policy.required-claims]
repository = "myorg/gamma"

[installation-policy.permissions]
made_up_permission = "sideways"
"#,
    )
    .unwrap();

    validate(&config, false).unwrap();
}

#[test]
fn parses_installation_policy_with_permissions() {
    let config: Config = parse(
        r#"
[[role]]
name = "github-workflow"
audience = "idcat"
issuer = "https://token.actions.githubusercontent.com"
validation-key = "shared-secret"
algorithms = ["HS256"]

[[github-app]]
name = "deployments"
app-id = 42
secret-key = "private-key.pem"

[[installation-policy]]
github-app = "deployments"
repository = "myorg/*"
role = "github-workflow"

[installation-policy.required-claims]
repository = "myorg/gamma"

[installation-policy.permissions]
contents = "read"
pull_requests = "write"
"#,
    )
    .unwrap();

    validate(&config, false).unwrap();
    let policy = &config.installation_policies[0];
    assert_eq!(
        policy.permissions.get("contents").map(String::as_str),
        Some("read")
    );
    assert_eq!(
        policy.permissions.get("pull_requests").map(String::as_str),
        Some("write")
    );
}

#[test]
fn installation_policy_permissions_default_empty_when_absent() {
    let config: Config = parse(
        r#"
[[role]]
name = "github-workflow"
audience = "idcat"
issuer = "https://token.actions.githubusercontent.com"
validation-key = "shared-secret"
algorithms = ["HS256"]

[[github-app]]
name = "deployments"
app-id = 42
secret-key = "private-key.pem"

[[installation-policy]]
github-app = "deployments"
repository = "myorg/alfa"
role = "github-workflow"

[installation-policy.required-claims]
repository = "myorg/gamma"
"#,
    )
    .unwrap();

    let policy = &config.installation_policies[0];
    assert!(policy.permissions.is_empty());
}

#[test]
fn parses_minimal_config() {
    let config: Config = parse(
        r#"
[[github-app]]
name = "default"
app-id = 42
secret-key = "private-key.pem"
allowed-roles = ["kubernetes-default"]

[[role]]
name = "kubernetes-default"
audience = "idcat"
issuer = "https://kubernetes.default.svc"
validation-key = """
-----BEGIN PUBLIC KEY-----
MIIBIjANBgkqhkiG9w0BAQEFAAOCAQ8AMIIBCgKCAQEAwFi8U2NAcihFpXAvLmOz
K1GfRjFzTuGWVDEBjjyEjSiDeBFZEl+gq3TnDFw9+TQPPbjLbFou5HIZ11PoT+sp
d26cU1FsvNEJMzlr4esgzdd9bR7lMcz/Y3CkSga1fQupgp85VpKfE0X7oUVDQYQq
vyuxfmcMdoBLwBXU9nWXL8Y6QaHCUuekpYLgiQf+mBqh1n3LJqllCL/73zIcGmk+
Kbh2b10d0fDtaUzw7mfbFW7S34v2wAs8SjsUPq6OhtTnmhUR1sZQ2AAJWQdm+lVr
S0kRuvb81yBZzXrfzskMnNL2PQ7aZuO0D3XHNgzTtze6+jJdgAm2UeSA4QIDAQAB
-----END PUBLIC KEY-----
"""

[role.claims]
sub = "system:serviceaccount:idelephant:default"
"#,
    )
    .unwrap();

    validate(&config, false).unwrap();
    assert_eq!(config.bind_address, "0.0.0.0:8080");
    assert_eq!(config.tls, None);
    assert_eq!(config.key_source, KeySource::Local);
    assert_eq!(config.private_key_directory, "/var/run/secrets/idcat");
    assert_eq!(config.github_apps[0].webhook_target, None);
    assert_eq!(config.nats, None);
}

#[test]
fn parses_tls_config() {
    let config: Config = parse(
        r#"
[tls]
certificate-file = "/var/run/secrets/idcat/tls.crt"
private-key-file = "/var/run/secrets/idcat/tls.key"

[[github-app]]
name = "default"
app-id = 42
secret-key = "private-key.pem"
"#,
    )
    .unwrap();

    validate(&config, true).unwrap();
    let tls = config.tls.unwrap();
    assert_eq!(tls.certificate_file, "/var/run/secrets/idcat/tls.crt");
    assert_eq!(tls.private_key_file, "/var/run/secrets/idcat/tls.key");
}

#[test]
fn rejects_empty_tls_file_paths() {
    for (certificate_file, private_key_file, expected_error) in [
        (
            "",
            "/var/run/secrets/idcat/tls.key",
            "tls certificate-file must not be empty",
        ),
        (
            "/var/run/secrets/idcat/tls.crt",
            "",
            "tls private-key-file must not be empty",
        ),
    ] {
        let config: Config = parse(&format!(
            r#"
[tls]
certificate-file = "{certificate_file}"
private-key-file = "{private_key_file}"

[[github-app]]
name = "default"
app-id = 42
secret-key = "private-key.pem"
"#,
        ))
        .unwrap();

        let error = validate(&config, true).unwrap_err().to_string();
        assert_eq!(error, expected_error);
    }
}

#[test]
fn parses_nats_webhook_target_config() {
    let config: Config = parse(
        r#"
[nats]
endpoint = "nats://nats.example.com:4222"
subject-base = "idcat.github.webhook"
token-path = "/var/run/secrets/idcat/nats-token"

[[github-app]]
name = "default"
app-id = 42
secret-key = "private-key.pem"
webhook-target = "nats"
"#,
    )
    .unwrap();

    validate(&config, true).unwrap();
    assert_eq!(
        config.github_apps[0].webhook_target,
        Some(WebhookTarget::Nats)
    );
    let nats = config.nats.as_ref().unwrap();
    assert_eq!(nats.endpoint, "nats://nats.example.com:4222");
    assert_eq!(nats.subject_base, "idcat.github.webhook");
    assert_eq!(
        nats.token_path.as_deref(),
        Some("/var/run/secrets/idcat/nats-token")
    );
}

#[test]
fn rejects_nats_webhook_target_without_nats_config() {
    let config: Config = parse(
        r#"
[[github-app]]
name = "default"
app-id = 42
secret-key = "private-key.pem"
webhook-target = "nats"
"#,
    )
    .unwrap();

    let error = validate(&config, true).unwrap_err().to_string();
    assert_eq!(
        error,
        "webhook-target 'nats' requires a [nats] config block"
    );
}

#[test]
fn rejects_empty_nats_token_path() {
    let config: Config = parse(
        r#"
[nats]
endpoint = "nats://nats.example.com:4222"
subject-base = "idcat.github.webhook"
token-path = ""

[[github-app]]
name = "default"
app-id = 42
secret-key = "private-key.pem"
webhook-target = "nats"
"#,
    )
    .unwrap();

    let error = validate(&config, true).unwrap_err().to_string();
    assert_eq!(error, "nats token-path must not be empty when set");
}

#[test]
fn parses_webhook_validation_secret_file() {
    let config: Config = parse(
        r#"
[[github-app]]
name = "default"
app-id = 42
secret-key = "private-key.pem"
webhook-validation-secret-file = "/var/run/secrets/idcat/webhook-secret"
"#,
    )
    .unwrap();

    validate(&config, true).unwrap();
    assert_eq!(
        config.github_apps[0]
            .webhook_validation_secret_file
            .as_deref(),
        Some("/var/run/secrets/idcat/webhook-secret")
    );
}

#[test]
fn rejects_empty_webhook_validation_secret_file() {
    let config: Config = parse(
        r#"
[[github-app]]
name = "default"
app-id = 42
secret-key = "private-key.pem"
webhook-validation-secret-file = ""
"#,
    )
    .unwrap();

    let error = validate(&config, true).unwrap_err().to_string();
    assert_eq!(
        error,
        "github-app 'default' webhook-validation-secret-file must not be empty when set"
    );
}

#[test]
fn accepts_kms_key_source_when_kms_feature_is_enabled() {
    let config: Config = parse(
        r#"
key-source = "kms"

[[github-app]]
name = "default"
app-id = 42
secret-key = "default"
"#,
    )
    .unwrap();

    config.validate_for_build(true, true).unwrap();
    assert_eq!(config.key_source, KeySource::Kms);
}

#[test]
fn rejects_kms_key_source_when_kms_feature_is_disabled() {
    let config: Config = parse(
        r#"
key-source = "kms"

[[github-app]]
name = "default"
app-id = 42
secret-key = "default"
"#,
    )
    .unwrap();

    let error = validate(&config, true).unwrap_err();
    assert_eq!(
        error.to_string(),
        "key-source 'kms' requires idcat to be built with the 'kms' feature"
    );
}

#[test]
fn accepts_multiple_allowed_roles_for_github_app() {
    let config: Config = parse(
        r#"
[[github-app]]
name = "default"
app-id = 42
secret-key = "private-key.pem"
allowed-roles = ["kubernetes-default", "buildkite-deploy"]

[[role]]
name = "kubernetes-default"
audience = "idcat"
issuer = "https://kubernetes.default.svc"
validation-key = """
-----BEGIN PUBLIC KEY-----
MIIBIjANBgkqhkiG9w0BAQEFAAOCAQ8AMIIBCgKCAQEAwFi8U2NAcihFpXAvLmOz
K1GfRjFzTuGWVDEBjjyEjSiDeBFZEl+gq3TnDFw9+TQPPbjLbFou5HIZ11PoT+sp
d26cU1FsvNEJMzlr4esgzdd9bR7lMcz/Y3CkSga1fQupgp85VpKfE0X7oUVDQYQq
vyuxfmcMdoBLwBXU9nWXL8Y6QaHCUuekpYLgiQf+mBqh1n3LJqllCL/73zIcGmk+
Kbh2b10d0fDtaUzw7mfbFW7S34v2wAs8SjsUPq6OhtTnmhUR1sZQ2AAJWQdm+lVr
S0kRuvb81yBZzXrfzskMnNL2PQ7aZuO0D3XHNgzTtze6+jJdgAm2UeSA4QIDAQAB
-----END PUBLIC KEY-----
"""

[[role]]
name = "buildkite-deploy"
audience = "idcat"
issuer = "https://agent.buildkite.com"
validation-key = "shared-secret"
algorithms = ["HS256"]
"#,
    )
    .unwrap();

    validate(&config, false).unwrap();
}

#[test]
fn accepts_installation_policy_with_required_claims() {
    let config: Config = parse(
        r#"
[[role]]
name = "github-workflow"
audience = "idcat"
issuer = "https://token.actions.githubusercontent.com"
validation-key = "shared-secret"
algorithms = ["HS256"]

[[github-app]]
name = "deployments"
app-id = 42
secret-key = "private-key.pem"

[[installation-policy]]
github-app = "deployments"
repository = "myorg/alfa"
role = "github-workflow"

[installation-policy.required-claims]
repository = "myorg/gamma"
"#,
    )
    .unwrap();

    validate(&config, false).unwrap();
    assert_eq!(config.installation_policies.len(), 1);
}

#[test]
fn rejects_github_app_with_unknown_allowed_role() {
    let config: Config = parse(
        r#"
[[role]]
name = "kubernetes"
audience = "idcat"
issuer = "https://kubernetes.default.svc"

[[github-app]]
name = "default"
app-id = 42
secret-key = "private-key.pem"
allowed-roles = ["buildkite"]
"#,
    )
    .unwrap();

    let error = validate(&config, false).unwrap_err();
    assert_eq!(error.to_string(), "unknown role 'buildkite'");
}

#[test]
fn rejects_github_app_without_allowed_roles() {
    let config: Config = parse(
        r#"
[[role]]
name = "kubernetes"
audience = "idcat"
issuer = "https://kubernetes.default.svc"

[[github-app]]
name = "default"
app-id = 42
secret-key = "private-key.pem"
"#,
    )
    .unwrap();

    let error = validate(&config, false).unwrap_err();
    assert_eq!(
        error.to_string(),
        "github-app 'default' must define at least one allowed-role, installation-policy or human-policy"
    );
}

#[test]
fn rejects_installation_policy_without_required_claims() {
    let config: Config = parse(
        r#"
[[role]]
name = "github-workflow"
audience = "idcat"
issuer = "https://token.actions.githubusercontent.com"
validation-key = "shared-secret"
algorithms = ["HS256"]

[[github-app]]
name = "deployments"
app-id = 42
secret-key = "private-key.pem"

[[installation-policy]]
github-app = "deployments"
repository = "myorg/alfa"
role = "github-workflow"
"#,
    )
    .unwrap();

    let error = validate(&config, false).unwrap_err();
    assert_eq!(
        error.to_string(),
        "installation-policy for github-app 'deployments' repository 'myorg/alfa' role 'github-workflow' must define at least one required-claim (or set allow-self-access)"
    );
}

#[test]
fn disable_auth_skips_authentication_and_required_claims_validation() {
    let config: Config = parse(
        r#"
[[github-app]]
name = "default"
app-id = 42
secret-key = "private-key.pem"
"#,
    )
    .unwrap();

    validate(&config, true).unwrap();
}

const BASE: &str = r#"
[[github-app]]
name = "source-reader"
app-id = 42
secret-key = "private-key.pem"

[[human-role]]
name = "pilot-repo-reader"
issuer = "https://teleport.example.invalid"
audience = "https://idcat.teleport.example.invalid:443"
jwks-url = "https://teleport.example.invalid/.well-known/jwks.json"
teleport-role = "github-app-token-pilot-repo"
"#;

fn config(extra: &str) -> Result<(), String> {
    let config: Config = parse(&format!("{BASE}{extra}"))?;
    validate(&config, false)
}

const VALID_POLICY: &str = r#"
[[human-policy]]
github-app = "source-reader"
repository = "myorg/pilot"
human-role = "pilot-repo-reader"

[human-policy.permissions]
contents = "read"
"#;

#[test]
fn accepts_one_exact_repository_with_a_permission_map() {
    config(VALID_POLICY).unwrap();
}

#[test]
fn config_rejects_a_wildcard_repository() {
    for repository in ["*", "myorg/*", "myorg/pilot?"] {
        let error = config(&format!(
            r#"
[[human-policy]]
github-app = "source-reader"
repository = "{repository}"
human-role = "pilot-repo-reader"

[human-policy.permissions]
contents = "read"
"#
        ))
        .unwrap_err();
        assert!(
            error.to_string().contains("one exact repository"),
            "repository '{repository}' must be refused, got: {error}"
        );
    }
}

#[test]
fn rejects_a_repository_that_is_not_in_owner_name_form() {
    let error = config(
        r#"
[[human-policy]]
github-app = "source-reader"
repository = "pilot"
human-role = "pilot-repo-reader"

[human-policy.permissions]
contents = "read"
"#,
    )
    .unwrap_err();

    assert!(error.to_string().contains("owner/name form"), "{error}");
}

#[test]
fn rejects_an_empty_permission_map() {
    let error = config(
        r#"
[[human-policy]]
github-app = "source-reader"
repository = "myorg/pilot"
human-role = "pilot-repo-reader"
"#,
    )
    .unwrap_err();

    assert!(
        error.to_string().contains("at least one permission"),
        "an empty permission map would inherit the whole installation: {error}"
    );
}

#[test]
fn rejects_a_second_policy_for_the_same_repository() {
    let error = config(&format!(
        r#"{VALID_POLICY}
[[human-policy]]
github-app = "source-reader"
repository = "myorg/pilot"
human-role = "pilot-repo-reader"

[human-policy.permissions]
contents = "write"
"#
    ))
    .unwrap_err();

    assert!(
        error.to_string().contains("duplicate human-policy"),
        "{error}"
    );
}

#[test]
fn rejects_two_roles_reaching_the_same_repository() {
    let error = config(&format!(
        r#"
[[human-role]]
name = "second-reader"
issuer = "https://teleport.example.invalid"
audience = "https://idcat.teleport.example.invalid:443"
jwks-url = "https://teleport.example.invalid/.well-known/jwks.json"
teleport-role = "another-teleport-role"
{VALID_POLICY}
[[human-policy]]
github-app = "source-reader"
repository = "myorg/pilot"
human-role = "second-reader"

[human-policy.permissions]
contents = "read"
"#
    ))
    .unwrap_err();

    assert!(
        error
            .to_string()
            .contains("more than one human-policy for repository"),
        "{error}"
    );
}

#[test]
fn rejects_a_github_app_that_also_grants_the_role_through_allowed_roles() {
    // `allowed-roles` is checked before any policy on the workload path, so an App granting
    // the same name there would make the narrow human policy unreachable and pointless.
    let error = parse(&format!(
        r#"
[[role]]
name = "pilot-repo-reader"
audience = "idcat"
issuer = "https://token.actions.githubusercontent.com"
validation-key = "secret"
algorithms = ["HS256"]

[[github-app]]
name = "source-reader"
app-id = 42
secret-key = "private-key.pem"
allowed-roles = ["pilot-repo-reader"]

[[human-role]]
name = "pilot-repo-reader"
issuer = "https://teleport.example.invalid"
audience = "https://idcat.teleport.example.invalid:443"
jwks-url = "https://teleport.example.invalid/.well-known/jwks.json"
teleport-role = "github-app-token-pilot-repo"
{VALID_POLICY}"#
    ))
    .map(|config| validate(&config, false))
    .unwrap()
    .unwrap_err();

    assert!(
        error.to_string().contains("must not overlap"),
        "a name shared by [[role]] and [[human-role]] must be refused: {error}"
    );
}

#[test]
fn rejects_an_app_whose_allowed_roles_name_the_human_role() {
    // No `[[role]]` of this name exists, so `allowed-roles` cannot resolve it. Together with
    // `rejects_a_github_app_that_also_grants_the_role_through_allowed_roles` (which covers the
    // case where such a `[[role]]` does exist) this closes both halves: an App can never grant
    // a broad token under the name a human-policy uses.
    let error = config(&format!(
        r#"
[[github-app]]
name = "second-app"
app-id = 43
secret-key = "private-key.pem"
allowed-roles = ["pilot-repo-reader"]
{VALID_POLICY}"#
    ))
    .unwrap_err();

    assert!(
        error.to_string().contains("unknown role"),
        "an allowed-role naming a human-role must not resolve: {error}"
    );
}

#[test]
fn rejects_a_jwks_url_that_is_not_the_teleport_jwks_path() {
    for jwks_url in [
        "https://teleport.example.invalid/.well-known/openid-configuration",
        "https://teleport.example.invalid/jwks",
        "http://teleport.example.invalid/.well-known/jwks.json",
    ] {
        let error = parse(&format!(
            r#"
[[github-app]]
name = "source-reader"
app-id = 42
secret-key = "private-key.pem"

[[human-role]]
name = "pilot-repo-reader"
issuer = "https://teleport.example.invalid"
audience = "https://idcat.teleport.example.invalid:443"
jwks-url = "{jwks_url}"
teleport-role = "github-app-token-pilot-repo"
{VALID_POLICY}"#
        ))
        .map(|config| validate(&config, false))
        .unwrap()
        .unwrap_err();

        assert!(
            error.to_string().contains("jwks-url"),
            "jwks-url '{jwks_url}' must be refused, got: {error}"
        );
    }
}

#[test]
fn rejects_a_teleport_role_pattern() {
    let error = parse(&format!(
        r#"
[[github-app]]
name = "source-reader"
app-id = 42
secret-key = "private-key.pem"

[[human-role]]
name = "pilot-repo-reader"
issuer = "https://teleport.example.invalid"
audience = "https://idcat.teleport.example.invalid:443"
jwks-url = "https://teleport.example.invalid/.well-known/jwks.json"
teleport-role = "github-app-token-*"
{VALID_POLICY}"#
    ))
    .map(|config| validate(&config, false))
    .unwrap()
    .unwrap_err();

    assert!(error.to_string().contains("exact role name"), "{error}");
}

#[test]
fn rejects_an_unknown_human_role_reference() {
    let error = config(
        r#"
[[human-policy]]
github-app = "source-reader"
repository = "myorg/pilot"
human-role = "no-such-role"

[human-policy.permissions]
contents = "read"
"#,
    )
    .unwrap_err();

    assert!(error.to_string().contains("unknown human-role"), "{error}");
}

#[test]
fn rejects_an_unknown_github_app_reference() {
    let error = config(
        r#"
[[human-policy]]
github-app = "no-such-app"
repository = "myorg/pilot"
human-role = "pilot-repo-reader"

[human-policy.permissions]
contents = "read"
"#,
    )
    .unwrap_err();

    assert!(error.to_string().contains("unknown github-app"), "{error}");
}

#[test]
fn rejects_an_hmac_algorithm_for_a_human_role() {
    // A shared secret able to verify a human token could also mint one.
    let error = parse(&format!(
        r#"
[[github-app]]
name = "source-reader"
app-id = 42
secret-key = "private-key.pem"

[[human-role]]
name = "pilot-repo-reader"
issuer = "https://teleport.example.invalid"
audience = "https://idcat.teleport.example.invalid:443"
jwks-url = "https://teleport.example.invalid/.well-known/jwks.json"
teleport-role = "github-app-token-pilot-repo"
algorithms = ["HS256"]
{VALID_POLICY}"#
    ))
    .unwrap_err();

    assert!(
        error.to_string().contains("HS256") || error.to_string().contains("unknown variant"),
        "an HMAC algorithm must not parse for a human role: {error}"
    );
}

#[test]
fn rejects_a_required_claim_that_shadows_the_roles_claim() {
    let error = parse(&format!(
        r#"
[[github-app]]
name = "source-reader"
app-id = 42
secret-key = "private-key.pem"

[[human-role]]
name = "pilot-repo-reader"
issuer = "https://teleport.example.invalid"
audience = "https://idcat.teleport.example.invalid:443"
jwks-url = "https://teleport.example.invalid/.well-known/jwks.json"
teleport-role = "github-app-token-pilot-repo"

[human-role.required-claims]
roles = "github-app-token-pilot-repo"
{VALID_POLICY}"#
    ))
    .map(|config| validate(&config, false))
    .unwrap()
    .unwrap_err();

    assert!(
        error.to_string().contains("duplicates roles-claim"),
        "a scalar requirement on the roles claim must be refused: {error}"
    );
}

#[test]
fn a_github_app_may_be_authorized_by_a_human_policy_alone() {
    // Without this, adding a human-only App would demand a pointless workload role.
    config(VALID_POLICY).unwrap();
}

/// A configuration in which nothing is wrong.
fn sound() -> Config {
    parse(
        r#"
[[role]]
name = "workflow"
audience = "idcat"
issuer = "https://issuer.example.invalid"
validation-key = "secret"
algorithms = ["HS256"]

[role.claims]
team = "red"

[[github-app]]
name = "deployments"
app-id = 42
secret-key = "private-key.pem"
allowed-roles = ["workflow"]

[[installation-policy]]
github-app = "deployments"
repository = "myorg/*"
role = "workflow"

[installation-policy.required-claims]
environment = "production"

[[human-role]]
name = "reader"
issuer = "https://teleport.example.invalid"
audience = "https://idcat.example.invalid"
jwks-url = "https://teleport.example.invalid/.well-known/jwks.json"
teleport-role = "pilot"

[[human-policy]]
github-app = "deployments"
repository = "myorg/pilot"
human-role = "reader"

[human-policy.permissions]
contents = "read"
"#,
    )
    .unwrap()
}

/// What a sound configuration is refused for after a change.
fn refusal(change: impl FnOnce(&mut Config)) -> String {
    let mut config = sound();
    assert_eq!(validate(&config, false), Ok(()));
    assert_eq!(validate(&config, true), Ok(()));
    change(&mut config);
    validate(&config, false).unwrap_err()
}

fn requirement(claim: &str, value: &str) -> StringMap<ClaimRequirement> {
    from_entries(vec![(claim.to_string(), ClaimRequirement::equals(value))])
}

#[test]
fn server_settings_are_refused_for_the_right_reason() {
    assert_eq!(refusal(|c| c.bind_address.clear()), "bind-address must not be empty");
    assert_eq!(
        refusal(|c| c.private_key_directory.clear()),
        "private-key-directory must not be empty"
    );
    let nats = |endpoint: &str, subject_base: &str| NatsConfig {
        endpoint: endpoint.to_string(),
        subject_base: subject_base.to_string(),
        token_path: None,
    };
    assert_eq!(refusal(|c| c.nats = Some(nats("", "a"))), "nats endpoint must not be empty");
    assert_eq!(refusal(|c| c.nats = Some(nats("a", ""))), "nats subject-base must not be empty");
    for blank in ["a b", "a\tb", "\u{2009}", "a\n", "a\u{85}"] {
        assert_eq!(
            refusal(|c| c.nats = Some(nats("a", blank))),
            "nats subject-base must not contain whitespace"
        );
    }
    assert_eq!(
        refusal(|c| {
            c.roles.clear();
            c.human_roles.clear();
        }),
        "at least one [[role]] or [[human-role]] entry is required"
    );
    assert_eq!(
        refusal(|c| c.github_apps.clear()),
        "at least one [[github-app]] entry is required"
    );
    assert_eq!(
        refusal(|c| c.roles.push(c.roles[0].clone())),
        "duplicate role 'workflow'"
    );

    let mut unused = sound();
    assert!(!unused.nats_is_unused());
    unused.nats = Some(nats("a", "b"));
    assert_eq!(validate(&unused, false), Ok(()));
    assert!(unused.nats_is_unused());
    unused.github_apps[0].webhook_target = Some(WebhookTarget::Nats);
    assert!(!unused.nats_is_unused());
}

#[test]
fn apps_are_refused_for_the_right_reason() {
    assert_eq!(refusal(|c| c.github_apps[0].name.clear()), "github-app names must not be empty");
    assert_eq!(
        refusal(|c| c.github_apps[0].name = "a/b".to_string()),
        "github-app 'a/b' name must not contain '/'"
    );
    assert_eq!(
        refusal(|c| c.github_apps[0].app_id = 0),
        "github-app 'deployments' app-id must be greater than 0"
    );
    assert_eq!(
        refusal(|c| c.github_apps[0].secret_key.clear()),
        "github-app 'deployments' must define secret-key"
    );
    for path in ["/etc/key.pem", "../key.pem", "a/../key.pem", "a..b"] {
        assert_eq!(
            refusal(|c| c.github_apps[0].secret_key = path.to_string()),
            "github-app 'deployments' secret-key must be a relative file name"
        );
    }
    assert_eq!(
        refusal(|c| c.github_apps.push(c.github_apps[0].clone())),
        "duplicate github-app 'deployments'"
    );
    assert_eq!(
        refusal(|c| c.github_apps[0].allowed_roles.push(String::new())),
        "github-app 'deployments' allowed-roles must not contain empty entries"
    );
    assert_eq!(
        refusal(|c| c.github_apps[0].allowed_roles.push("reader".to_string())),
        "unknown role 'reader'"
    );

    // The key of a service may have any name.
    let mut service = sound();
    service.key_source = KeySource::Kms;
    service.github_apps[0].secret_key = "/alias/../key".to_string();
    assert_eq!(service.validate_for_build(false, true), Ok(()));
}

#[test]
fn installation_policies_are_refused_for_the_right_reason() {
    let name = "installation-policy for github-app 'deployments' repository 'myorg/*' role 'workflow'";
    assert_eq!(
        refusal(|c| c.installation_policies[0].github_app.clear()),
        "installation-policy github-app must not be empty"
    );
    assert_eq!(
        refusal(|c| c.installation_policies[0].github_app = "other".to_string()),
        "installation-policy references unknown github-app 'other'"
    );
    assert_eq!(
        refusal(|c| c.installation_policies[0].repositories.clear()),
        "installation-policy for github-app 'deployments' must define at least one repository"
    );
    assert_eq!(
        refusal(|c| c.installation_policies[0].repositories.push("a/b/c".to_string())),
        "installation-policy for github-app 'deployments' must define repository as owner/name or a glob like 'owner/*' or '*'"
    );
    assert_eq!(
        refusal(|c| {
            c.installation_policies[0].repositories.push("a/b".to_string());
            c.installation_policies[0].role.clear();
        }),
        "installation-policy for github-app 'deployments' repository 'myorg/*, a/b' must define role"
    );
    assert_eq!(
        refusal(|c| c.installation_policies[0].role = "reader".to_string()),
        "unknown role 'reader'"
    );
    assert_eq!(
        refusal(|c| c.installation_policies[0].required_claims = StringMap::new()),
        format!("{name} must define at least one required-claim (or set allow-self-access)")
    );
    assert_eq!(
        refusal(|c| c.installation_policies[0].required_claims = requirement("", "x")),
        format!("{name} required-claim names must not be empty")
    );
    assert_eq!(
        refusal(|c| c.installation_policies[0].required_claims = requirement("x", "")),
        "role 'workflow' claim 'x' must define at least one acceptable value"
    );
    assert_eq!(
        refusal(|c| c.installation_policies[0].required_claims = requirement("team", "blue")),
        format!("{name} required-claim 'team' duplicates a role claim")
    );
    assert_eq!(
        refusal(|c| {
            c.installation_policies[0].allow_self_access = true;
            c.installation_policies[0].required_claims = requirement("repository", "x");
        }),
        format!("{name} sets allow-self-access; required-claims must not also define 'repository' (allow-self-access already constrains it to the requested repo)")
    );
    assert_eq!(
        refusal(|c| {
            c.installation_policies[0].allow_self_access = true;
            c.roles[0].claims = requirement("repository", "x");
        }),
        format!("{name} sets allow-self-access, but role 'workflow' already constrains the 'repository' claim")
    );
}

#[test]
fn human_roles_are_refused_for_the_right_reason() {
    let refuse = |change: fn(&mut HumanRoleConfig)| refusal(|c| change(&mut c.human_roles[0]));
    assert_eq!(refuse(|r| r.name.clear()), "human-role names must not be empty");
    assert_eq!(
        refusal(|c| c.human_roles.push(c.human_roles[0].clone())),
        "duplicate human-role 'reader'"
    );
    assert_eq!(
        refuse(|r| r.name = "workflow".to_string()),
        "human-role 'workflow' has the same name as a [[role]]; workload and human role names must not overlap"
    );
    assert_eq!(refuse(|r| r.issuer.clear()), "human-role 'reader' must define issuer");
    assert_eq!(
        refuse(|r| r.audience.clear()),
        "human-role 'reader' must define audience (the Teleport application uri)"
    );
    assert_eq!(
        refuse(|r| r.jwks_url = "http://t/.well-known/jwks.json".to_string()),
        "human-role 'reader' jwks-url must be an https URL"
    );
    assert_eq!(
        refuse(|r| r.jwks_url = "https://t/jwks.json".to_string()),
        "human-role 'reader' jwks-url must end in '/.well-known/jwks.json'"
    );
    assert_eq!(
        refuse(|r| r.teleport_role.clear()),
        "human-role 'reader' must define teleport-role"
    );
    for pattern in ["a*", "?b"] {
        assert_eq!(
            refusal(|c| c.human_roles[0].teleport_role = pattern.to_string()),
            "human-role 'reader' teleport-role must be an exact role name, not a pattern"
        );
    }
    assert_eq!(
        refuse(|r| r.roles_claim.clear()),
        "human-role 'reader' roles-claim must not be empty"
    );
    assert_eq!(
        refuse(|r| r.algorithms.clear()),
        "human-role 'reader' must allow at least one algorithm"
    );
    assert_eq!(
        refuse(|r| r.request_id_claim = Some(String::new())),
        "human-role 'reader' request-id-claim must not be empty when set"
    );
    assert_eq!(
        refuse(|r| r.required_claims = requirement("", "x")),
        "human-role 'reader' required-claim names must not be empty"
    );
    assert_eq!(
        refuse(|r| r.required_claims = requirement("roles", "x")),
        "human-role 'reader' required-claim 'roles' duplicates roles-claim; role membership is checked against the array, not as a scalar"
    );
    assert_eq!(
        refuse(|r| r.required_claims = requirement("x", "")),
        "role 'reader' claim 'x' must define at least one acceptable value"
    );
}

#[test]
fn human_policies_are_refused_for_the_right_reason() {
    let refuse = |change: fn(&mut HumanPolicyConfig)| refusal(|c| change(&mut c.human_policies[0]));
    let name = "human-policy for github-app 'deployments' repository 'myorg/pilot'";
    assert_eq!(
        refuse(|p| p.github_app = "other".to_string()),
        "human-policy references unknown github-app 'other'"
    );
    assert_eq!(
        refuse(|p| p.repository = "myorg/p*".to_string()),
        "human-policy for github-app 'deployments' repository 'myorg/p*' must name one exact repository; wildcards are not allowed on the human path"
    );
    for repository in ["pilot", "myorg/", "/pilot", "a/b/c", ""] {
        assert_eq!(
            refusal(|c| c.human_policies[0].repository = repository.to_string()),
            format!("human-policy for github-app 'deployments' repository '{repository}' must be in owner/name form")
        );
    }
    assert_eq!(
        refuse(|p| p.human_role = "other".to_string()),
        "human-policy for repository 'myorg/pilot' references unknown human-role 'other'"
    );
    assert_eq!(
        refuse(|p| p.permissions = StringMap::new()),
        format!("{name} must define at least one permission")
    );
    assert_eq!(
        refuse(|p| p.permissions = from_entries(vec![(String::new(), "read".to_string())])),
        format!("{name} permission names must not be empty")
    );
    assert_eq!(
        refuse(|p| p.permissions = from_entries(vec![("contents".to_string(), String::new())])),
        format!("{name} permission 'contents' must define a value")
    );
    assert_eq!(
        refusal(|c| c.human_policies.push(c.human_policies[0].clone())),
        "duplicate human-policy for github-app 'deployments' repository 'myorg/pilot' human-role 'reader'"
    );
    assert_eq!(
        refusal(|c| {
            let mut role = c.human_roles[0].clone();
            role.name = "second".to_string();
            c.human_roles.push(role);
            let mut policy = c.human_policies[0].clone();
            policy.human_role = "second".to_string();
            c.human_policies.push(policy);
        }),
        "github-app 'deployments' has more than one human-policy for repository 'myorg/pilot'; each repository must map to exactly one human-role"
    );
    assert_eq!(
        refusal(|c| {
            c.github_apps[0].allowed_roles.clear();
            c.installation_policies.clear();
            c.human_policies.clear();
        }),
        "github-app 'deployments' must define at least one allowed-role, installation-policy or human-policy"
    );

    // One repository may be reached through two GitHub Apps.
    let mut config = sound();
    let mut second = config.github_apps[0].clone();
    second.name = "second".to_string();
    config.github_apps.push(second);
    let mut policy = config.human_policies[0].clone();
    policy.github_app = "second".to_string();
    config.human_policies.push(policy);
    assert_eq!(validate(&config, false), Ok(()));
}

#[test]
fn a_role_that_is_granted_broadly_is_no_human_role() {
    let config = sound();
    // Past the check of the roles themselves the overlap would be caught where the policy is.
    let mut broad = config.clone();
    broad.github_apps[0].allowed_roles = vec!["reader".to_string()];
    assert_eq!(
        broad.validate_human_config().unwrap_err().to_text(),
        "github-app 'deployments' grants human-role 'reader' through allowed-roles; a human-policy must be the only path to that role"
    );
    assert_eq!(config.validate_human_config(), Ok(()));
}

#[test]
fn repository_patterns_have_an_owner_and_a_name() {
    for pattern in ["*", "myorg/*", "*/alfa", "a/b", "a/*b?"] {
        assert!(is_valid_repo_pattern(pattern), "{pattern}");
    }
    for pattern in ["", "a", "a/", "/b", "a/b/c", "**", "/"] {
        assert!(!is_valid_repo_pattern(pattern), "{pattern}");
    }
}

#[test]
fn defaults_are_those_of_a_mounted_secret() {
    assert_eq!(default_bind_address(), "0.0.0.0:8080");
    assert_eq!(default_private_key_directory(), "/var/run/secrets/idcat");
    assert_eq!(default_roles_claim(), "roles");
    assert_eq!(default_human_algorithms(), vec![HumanJwtAlgorithm::Rs256]);
    assert_eq!(KeySource::default(), KeySource::Local);
}

#[test]
fn policies_name_one_repository_or_several() {
    let one = || Some("a/b".to_string());
    let several = || Some(vec!["a/b".to_string(), "c/d".to_string()]);
    assert_eq!(policy_repositories(one(), None).unwrap(), ["a/b"]);
    assert_eq!(policy_repositories(None, several()).unwrap(), ["a/b", "c/d"]);
    assert_eq!(
        policy_repositories(one(), several()).unwrap_err().to_text(),
        "installation-policy must specify either repository or repositories, not both"
    );
    assert_eq!(
        policy_repositories(None, None).unwrap_err().to_text(),
        "installation-policy must specify either repository or repositories"
    );
}

#[test]
fn unknown_permissions_are_warned_of() {
    let permissions = from_entries(vec![
        ("made_up".to_string(), "read".to_string()),
        ("contents".to_string(), "sideways".to_string()),
        ("issues".to_string(), "write".to_string()),
        ("z".to_string(), "y".to_string()),
    ]);
    assert_eq!(
        permission_warnings(&permissions),
        vec![
            PermissionWarning::UnknownLevel {
                permission: "contents".to_string(),
                level: "sideways".to_string()
            },
            PermissionWarning::UnknownName { permission: "made_up".to_string() },
            PermissionWarning::UnknownName { permission: "z".to_string() },
            PermissionWarning::UnknownLevel {
                permission: "z".to_string(),
                level: "y".to_string()
            },
        ]
    );
}

#[test]
fn state_is_built_from_a_configuration() {
    let state = AppState::from_config(sound(), false).unwrap();
    assert!(state.token_validator.auth_enabled());
    assert_eq!(state.github_app("deployments").unwrap().app_id, 42);
    assert_eq!(state.human_policies.len(), 1);
    assert_eq!(state.installation_policies.len(), 1);
    for policy in &state.human_policies {
        assert!(state.human_roles.contains_key(&policy.human_role));
    }
    assert_eq!(state.key_source, KeySource::Local);
    assert!(!AppState::from_config(sound(), true).unwrap().token_validator.auth_enabled());

    let mut broken = sound();
    broken.roles[0].issuer.clear();
    assert_eq!(
        AppState::from_config(broken, false).unwrap_err().to_text(),
        "role 'workflow' issuer must not be empty"
    );
}
