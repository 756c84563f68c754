//! The broker's configuration.
use crate::algorithm::Algorithm;
use crate::checks::ConfigError;
use crate::roles::{ClaimRequirement, RoleConfig};
use crate::string_map::StringMap;
use crate::text::{contains_char, join, joined, same, split_at_first, split_once, texts};
use vstd::prelude::*;

verus! {

/// The broker's configuration.
#[derive(Debug, Clone)]
pub struct Config {
    pub bind_address: String,
    pub tls: Option<TlsConfig>,
    pub key_source: KeySource,
    pub private_key_directory: String,
    pub nats: Option<NatsConfig>,
    pub roles: Vec<RoleConfig>,
    pub github_apps: Vec<GithubAppConfig>,
    pub installation_policies: Vec<InstallationPolicyConfig>,
    pub human_roles: Vec<HumanRoleConfig>,
    pub human_policies: Vec<HumanPolicyConfig>,
}

/// The certificate that the broker serves TLS with.
#[derive(Debug, Clone, PartialEq, Eq)]
pub struct TlsConfig {
    pub certificate_file: String,
    pub private_key_file: String,
}

/// Where the private keys of GitHub Apps are.
#[derive(Debug, Clone, Copy, PartialEq, Eq, Structural)]
pub enum KeySource {
    /// In files of the private-key directory.
    Local,
    /// In a key-management service that signs with them.
    Kms,
}

impl Default for KeySource {
    fn default() -> (r: Self)
        ensures
            r == KeySource::Local,
    {
        KeySource::Local
    }
}

/// Where the webhook deliveries of a GitHub App are published.
#[derive(Debug, Clone, Copy, PartialEq, Eq, Structural)]
pub enum WebhookTarget {
    Nats,
}

/// The NATS server that webhook deliveries are published to.
#[derive(Debug, Clone, PartialEq, Eq)]
pub struct NatsConfig {
    pub endpoint: String,
    pub subject_base: String,
    pub token_path: Option<String>,
}

/// A GitHub App whose installation tokens the broker hands out.
#[derive(Debug, Clone, PartialEq, Eq)]
pub struct GithubAppConfig {
    pub name: String,
    pub app_id: u64,
    pub secret_key: String,
    pub webhook_target: Option<WebhookTarget>,
    pub webhook_validation_secret_file: Option<String>,
    /// The roles whose tokens get a token for the whole installation.
    pub allowed_roles: Vec<String>,
}

/// Which workloads get a token for which repositories of a GitHub App.
#[derive(Debug, Clone)]
pub struct InstallationPolicyConfig {
    pub github_app: String,
    /// Patterns of the repositories that the policy is for.
    pub repositories: Vec<String>,
    pub role: String,
    pub required_claims: StringMap<ClaimRequirement>,
    /// Whether the token must come from the repository that it asks for.
    pub allow_self_access: bool,
    pub permissions: StringMap<String>,
}

/// A Teleport issuer whose tokens are presented by a person. Kept separate from
/// the workload roles, so that a workload's token can never satisfy a human
/// policy and a person's token can never satisfy a workload one: the two are
/// validated by different code against different issuers, and neither namespace
/// can name the other's roles.
#[derive(Debug, Clone)]
pub struct HumanRoleConfig {
    /// The name that a human policy refers to.
    pub name: String,
    /// The exact `iss` that the token must carry.
    pub issuer: String,
    /// The exact `aud` that the token must carry: the Teleport application's
    /// uri, which is not necessarily the hostname that a person types.
    pub audience: String,
    /// The JWKS endpoint, given explicitly rather than discovered from the
    /// issuer.
    pub jwks_url: String,
    /// The exact Teleport role that must appear in `roles_claim`.
    pub teleport_role: String,
    pub roles_claim: String,
    pub algorithms: Vec<HumanJwtAlgorithm>,
    /// A claim that names the Teleport access request or session, recorded on
    /// issuance so that an operator can join the approval to the token.
    pub request_id_claim: Option<String>,
    pub required_claims: StringMap<ClaimRequirement>,
}

/// Binds one exact repository to one exact Teleport role. There is no pattern
/// and no fallback: where this does not match, the request is refused.
#[derive(Debug, Clone)]
pub struct HumanPolicyConfig {
    pub github_app: String,
    /// Exactly one repository, as `owner/name`.
    pub repository: String,
    /// The human role that authorises this repository.
    pub human_role: String,
    pub permissions: StringMap<String>,
}

/// Asymmetric signature algorithms only. A person's token must never be checked
/// against a shared secret: whoever can check such a token can also mint one.
#[derive(Debug, Clone, Copy, PartialEq, Eq, Structural)]
pub enum HumanJwtAlgorithm {
    Rs256,
    Rs384,
    Rs512,
    Ps256,
    Ps384,
    Ps512,
    Es256,
    Es384,
    EdDsa,
}

impl HumanJwtAlgorithm {
    /// The algorithm as tokens name it.
    pub open spec fn algorithm(self) -> Algorithm {
        match self {
            HumanJwtAlgorithm::Rs256 => Algorithm::RS256,
            HumanJwtAlgorithm::Rs384 => Algorithm::RS384,
            HumanJwtAlgorithm::Rs512 => Algorithm::RS512,
            HumanJwtAlgorithm::Ps256 => Algorithm::PS256,
            HumanJwtAlgorithm::Ps384 => Algorithm::PS384,
            HumanJwtAlgorithm::Ps512 => Algorithm::PS512,
            HumanJwtAlgorithm::Es256 => Algorithm::ES256,
            HumanJwtAlgorithm::Es384 => Algorithm::ES384,
            HumanJwtAlgorithm::EdDsa => Algorithm::EdDSA,
        }
    }

    /// The algorithm as tokens name it. It is never one whose tokens are signed
    /// with the key that they are checked with.
    pub fn to_algorithm(self) -> (r: Algorithm)
        ensures
            r == self.algorithm(),
            !r.shares_its_key(),
    {
        match self {
            HumanJwtAlgorithm::Rs256 => Algorithm::RS256,
            HumanJwtAlgorithm::Rs384 => Algorithm::RS384,
            HumanJwtAlgorithm::Rs512 => Algorithm::RS512,
            HumanJwtAlgorithm::Ps256 => Algorithm::PS256,
            HumanJwtAlgorithm::Ps384 => Algorithm::PS384,
            HumanJwtAlgorithm::Ps512 => Algorithm::PS512,
            HumanJwtAlgorithm::Es256 => Algorithm::ES256,
            HumanJwtAlgorithm::Es384 => Algorithm::ES384,
            HumanJwtAlgorithm::EdDsa => Algorithm::EdDSA,
        }
    }

    /// The algorithm of a name in the configuration. There is none for the
    /// algorithms that share a secret.
    pub fn from_name(name: &str) -> (r: Option<Self>)
        ensures
            r matches Some(human) ==> human.algorithm().spec_name() == name@,
            r is None ==> forall|human: HumanJwtAlgorithm|
                #[trigger] human.algorithm().spec_name() != name@,
    {
        match Algorithm::from_name(name) {
            Some(Algorithm::RS256) => Some(HumanJwtAlgorithm::Rs256),
            Some(Algorithm::RS384) => Some(HumanJwtAlgorithm::Rs384),
            Some(Algorithm::RS512) => Some(HumanJwtAlgorithm::Rs512),
            Some(Algorithm::PS256) => Some(HumanJwtAlgorithm::Ps256),
            Some(Algorithm::PS384) => Some(HumanJwtAlgorithm::Ps384),
            Some(Algorithm::PS512) => Some(HumanJwtAlgorithm::Ps512),
            Some(Algorithm::ES256) => Some(HumanJwtAlgorithm::Es256),
            Some(Algorithm::ES384) => Some(HumanJwtAlgorithm::Es384),
            Some(Algorithm::EdDSA) => Some(HumanJwtAlgorithm::EdDsa),
            Some(other) => {
                proof {
                    assert forall|human: HumanJwtAlgorithm|
                        #[trigger] human.algorithm().spec_name() != name@ by {
                        crate::algorithm::algorithm_names_differ(human.algorithm(), other);
                    }
                }
                None
            },
            None => None,
        }
    }
}

/// The claim that holds a person's roles, where none is configured.
pub fn default_roles_claim() -> (r: String)
    ensures
        r@ == "roles"@,
{
    "roles".to_owned()
}

/// The algorithms of a human role, where none are configured.
pub fn default_human_algorithms() -> (r: Vec<HumanJwtAlgorithm>)
    ensures
        r@ == seq![HumanJwtAlgorithm::Rs256],
{
    vec![HumanJwtAlgorithm::Rs256]
}

/// The address that the broker listens at, where none is configured.
pub fn default_bind_address() -> (r: String)
    ensures
        r@ == "0.0.0.0:8080"@,
{
    "0.0.0.0:8080".to_owned()
}

/// The private-key directory, where none is configured.
pub fn default_private_key_directory() -> (r: String)
    ensures
        r@ == "/var/run/secrets/idcat"@,
{
    "/var/run/secrets/idcat".to_owned()
}

/// The repositories of an installation policy, which names either one
/// repository or a list of them.
pub fn policy_repositories(
    repository: Option<String>,
    repositories: Option<Vec<String>>,
) -> (r: Result<Vec<String>, ConfigError>)
    ensures
        match (repository, repositories) {
            (Some(one), None) => r matches Ok(list) && list@ == seq![one],
            (None, Some(several)) => r == Ok::<Vec<String>, ConfigError>(several),
            (Some(_), Some(_)) => r matches Err(e) && e.message@
                == "installation-policy must specify either repository or repositories, not both"@,
            (None, None) => r matches Err(e) && e.message@
                == "installation-policy must specify either repository or repositories"@,
        },
{
    match (repository, repositories) {
        (Some(_), Some(_)) => Err(
            ConfigError::new(
                "installation-policy must specify either repository or repositories, not both".to_owned(),
            ),
        ),
        (Some(repository), None) => {
            let mut list: Vec<String> = Vec::new();
            list.push(repository);
            Ok(list)
        },
        (None, Some(repositories)) => Ok(repositories),
        (None, None) => Err(
            ConfigError::new(
                "installation-policy must specify either repository or repositories".to_owned(),
            ),
        ),
    }
}

impl InstallationPolicyConfig {
    /// The policy's patterns in one line.
    pub open spec fn label(self) -> Seq<char> {
        joined(texts(self.repositories@), ", "@)
    }

    /// The policy's patterns in one line.
    pub fn repositories_label(&self) -> (r: String)
        ensures
            r@ == self.label(),
    {
        join(&self.repositories, ", ")
    }
}

/// A repository pattern is `*`, or has exactly one `/` with text on both sides.
pub open spec fn valid_repo_pattern(pattern: Seq<char>) -> bool {
    ||| pattern == "*"@
    ||| split_at_first(pattern, '/') matches Some((owner, name)) && owner.len() > 0 && name.len()
        > 0 && !name.contains('/')
}

/// Whether a text can stand for repositories in an installation policy.
pub fn is_valid_repo_pattern(pattern: &str) -> (r: bool)
    ensures
        r == valid_repo_pattern(pattern@),
{
    if pattern.is_empty() {
        proof {
            reveal_strlit("*");
        }
        return false;
    }
    if same(pattern, "*") {
        return true;
    }
    match split_once(pattern, '/') {
        Some((owner, name)) => !contains_char(name, '/') && !owner.is_empty() && !name.is_empty(),
        None => false,
    }
}

} // verus!
