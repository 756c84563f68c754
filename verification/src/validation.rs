//! What makes a configuration fit to start with. Each check stops at the first
//! thing that is wrong and says which.
use crate::checks::{first_problem, reports, ConfigError};
use crate::config::{
    is_valid_repo_pattern, valid_repo_pattern, Config, GithubAppConfig, InstallationPolicyConfig,
    KeySource, NatsConfig,
};
use crate::roles::{
    check_roles, find_role, role_views, roles_by_name, roles_problem, RequirementView, RoleConfig,
    RoleView,
};
use crate::text::{
    cat2, cat3, cat5, cat7, contains_char, contains_double_dot, contains_text, has_double_dot,
    has_white_space, same, text_of, texts, white_space,
};
use vstd::prelude::*;

verus! {

/// The first of two problems.
pub open spec fn first_of(a: Option<Seq<char>>, b: Option<Seq<char>>) -> Option<Seq<char>> {
    match a {
        Some(text) => Some(text),
        None => b,
    }
}

/// A GitHub App that publishes its deliveries to NATS.
pub open spec fn publishes_to_nats(apps: Seq<GithubAppConfig>) -> bool {
    exists|i: int| 0 <= i < apps.len() && (#[trigger] apps[i]).webhook_target is Some
}

/// Whether a GitHub App has the name.
pub open spec fn has_app(apps: Seq<GithubAppConfig>, name: Seq<char>) -> bool {
    exists|i: int| 0 <= i < apps.len() && (#[trigger] apps[i]).name@ == name
}

/// The first GitHub App of a name.
pub open spec fn first_app(apps: Seq<GithubAppConfig>, name: Seq<char>) -> Option<GithubAppConfig>
    decreases apps.len(),
{
    if apps.len() == 0 {
        None
    } else if apps[0].name@ == name {
        Some(apps[0])
    } else {
        first_app(apps.skip(1), name)
    }
}

/// An optional text that is there and empty.
pub open spec fn set_but_empty(value: Option<String>) -> bool {
    text_of(value) == Some(Seq::<char>::empty())
}

/// The first of the names that no role has.
pub open spec fn unknown_role_problem(
    names: Seq<Seq<char>>,
    roles: Map<Seq<char>, RoleView>,
) -> Option<Seq<char>> {
    first_problem(
        |i: int|
            if roles.contains_key(names[i]) {
                None
            } else {
                Some("unknown role '"@ + names[i] + "'"@)
            },
        0,
        names.len() as int,
    )
}

/// What is wrong with the settings of the NATS server.
pub open spec fn nats_problem(nats: NatsConfig) -> Option<Seq<char>> {
    if nats.endpoint@.len() == 0 {
        Some("nats endpoint must not be empty"@)
    } else if nats.subject_base@.len() == 0 {
        Some("nats subject-base must not be empty"@)
    } else if exists|i: int|
        0 <= i < nats.subject_base@.len() && white_space(#[trigger] nats.subject_base@[i]) {
        Some("nats subject-base must not contain whitespace"@)
    } else if set_but_empty(nats.token_path) {
        Some("nats token-path must not be empty when set"@)
    } else {
        None
    }
}

impl Config {
    /// The workload roles by name.
    pub open spec fn named_roles(self) -> Map<Seq<char>, RoleView> {
        roles_by_name(role_views(self.roles@))
    }

    /// What is wrong with the server's own settings, where a key-management
    /// service can sign (`kms_supported`) or cannot.
    pub open spec fn server_problem(self, kms_supported: bool) -> Option<Seq<char>> {
        if self.bind_address@.len() == 0 {
            Some("bind-address must not be empty"@)
        } else if self.tls matches Some(tls) && tls.certificate_file@.len() == 0 {
            Some("tls certificate-file must not be empty"@)
        } else if self.tls matches Some(tls) && tls.private_key_file@.len() == 0 {
            Some("tls private-key-file must not be empty"@)
        } else if self.key_source == KeySource::Local && self.private_key_directory@.len() == 0 {
            Some("private-key-directory must not be empty"@)
        } else if self.key_source == KeySource::Kms && !kms_supported {
            Some("key-source 'kms' requires idcat to be built with the 'kms' feature"@)
        } else if publishes_to_nats(self.github_apps@) && self.nats is None {
            Some("webhook-target 'nats' requires a [nats] config block"@)
        } else {
            match self.nats {
                Some(nats) => nats_problem(nats),
                None => None,
            }
        }
    }

    /// What is wrong with the roles that a GitHub App allows.
    pub open spec fn allowed_roles_problem(self, app: GithubAppConfig) -> Option<Seq<char>> {
        if texts(app.allowed_roles@).contains(Seq::<char>::empty()) {
            Some("github-app '"@ + app.name@ + "' allowed-roles must not contain empty entries"@)
        } else {
            unknown_role_problem(texts(app.allowed_roles@), self.named_roles())
        }
    }

    /// What is wrong with the GitHub App at a position.
    pub open spec fn app_problem(self, i: int, disable_auth: bool) -> Option<Seq<char>> {
        let app = self.github_apps@[i];
        if app.name@.len() == 0 {
            Some("github-app names must not be empty"@)
        } else if app.name@.contains('/') {
            Some("github-app '"@ + app.name@ + "' name must not contain '/'"@)
        } else if app.app_id == 0 {
            Some("github-app '"@ + app.name@ + "' app-id must be greater than 0"@)
        } else if app.secret_key@.len() == 0 {
            Some("github-app '"@ + app.name@ + "' must define secret-key"@)
        } else if self.key_source == KeySource::Local && (app.secret_key@[0] == '/'
            || has_double_dot(app.secret_key@)) {
            Some("github-app '"@ + app.name@ + "' secret-key must be a relative file name"@)
        } else if set_but_empty(app.webhook_validation_secret_file) {
            Some(
                "github-app '"@ + app.name@
                    + "' webhook-validation-secret-file must not be empty when set"@,
            )
        } else if has_app(self.github_apps@.take(i), app.name@) {
            Some("duplicate github-app '"@ + app.name@ + "'"@)
        } else if disable_auth {
            None
        } else {
            self.allowed_roles_problem(app)
        }
    }

    /// The first thing that is wrong with the GitHub Apps.
    pub open spec fn apps_problem(self, disable_auth: bool) -> Option<Seq<char>> {
        first_problem(
            |i: int| self.app_problem(i, disable_auth),
            0,
            self.github_apps@.len() as int,
        )
    }
}

/// Whether an optional text is there and empty.
pub fn is_set_but_empty(value: &Option<String>) -> (r: bool)
    ensures
        r == set_but_empty(*value),
{
    match value {
        Some(text) => {
            proof {
                if text@.len() == 0 {
                    assert(text@ =~= Seq::empty());
                }
            }
            text.as_str().is_empty()
        },
        None => false,
    }
}

/// Whether some GitHub App publishes its deliveries to NATS.
pub fn any_nats_webhook_target(apps: &Vec<GithubAppConfig>) -> (r: bool)
    ensures
        r == publishes_to_nats(apps@),
{
    let mut i: usize = 0;
    while i < apps.len()
        invariant
            i <= apps@.len(),
            forall|j: int| 0 <= j < i ==> (#[trigger] apps@[j]).webhook_target is None,
        decreases apps@.len() - i,
    {
        if apps[i].webhook_target.is_some() {
            return true;
        }
        i = i + 1;
    }
    false
}

/// The first GitHub App of a name, where there is one.
pub fn find_app<'a>(apps: &'a Vec<GithubAppConfig>, name: &str) -> (r: Option<&'a GithubAppConfig>)
    ensures
        r is Some <==> has_app(apps@, name@),
        r is Some <==> first_app(apps@, name@) is Some,
        r matches Some(app) ==> first_app(apps@, name@) == Some(*app) && app.name@ == name@,
{
    let mut i: usize = 0;
    assert(apps@.skip(0) =~= apps@);
    while i < apps.len()
        invariant
            i <= apps@.len(),
            forall|j: int| 0 <= j < i ==> (#[trigger] apps@[j]).name@ != name@,
            first_app(apps@, name@) == first_app(apps@.skip(i as int), name@),
        decreases apps@.len() - i,
    {
        proof {
            assert(apps@.skip(i as int)[0] == apps@[i as int]);
            assert(apps@.skip(i as int).skip(1) =~= apps@.skip(i + 1));
        }
        if same(apps[i].name.as_str(), name) {
            return Some(&apps[i]);
        }
        i = i + 1;
    }
    None
}

/// Whether one of the first `n` GitHub Apps has the name.
fn is_taken(apps: &Vec<GithubAppConfig>, n: usize, name: &str) -> (r: bool)
    requires
        n <= apps@.len(),
    ensures
        r == has_app(apps@.take(n as int), name@),
{
    let mut i: usize = 0;
    while i < n
        invariant
            i <= n <= apps@.len(),
            forall|j: int| 0 <= j < i ==> (#[trigger] apps@.take(n as int)[j]).name@ != name@,
        decreases n - i,
    {
        if same(apps[i].name.as_str(), name) {
            assert(apps@.take(n as int)[i as int].name@ == name@);
            return true;
        }
        i = i + 1;
    }
    false
}

/// Refuses a list of names of which one is that of no role.
fn ensure_roles_exist(names: &Vec<String>, roles: &Vec<RoleConfig>) -> (r: Result<(), ConfigError>)
    ensures
        reports(r, unknown_role_problem(texts(names@), roles_by_name(role_views(roles@)))),
{
    let ghost known = roles_by_name(role_views(roles@));
    let ghost list = texts(names@);
    let ghost check = |i: int|
        if known.contains_key(list[i]) {
            None
        } else {
            Some("unknown role '"@ + list[i] + "'"@)
        };
    let mut i: usize = 0;
    while i < names.len()
        invariant
            i <= names@.len(),
            list == texts(names@),
            known == roles_by_name(role_views(roles@)),
            check == (|i: int|
                if known.contains_key(list[i]) {
                    None
                } else {
                    Some("unknown role '"@ + list[i] + "'"@)
                }),
            first_problem(check, 0, names@.len() as int) == first_problem(
                check,
                i as int,
                names@.len() as int,
            ),
        decreases names@.len() - i,
    {
        if find_role(roles, names[i].as_str()).is_none() {
            return Err(ConfigError::new(cat3("unknown role '", names[i].as_str(), "'")));
        }
        i = i + 1;
    }
    Ok(())
}

fn check_nats(nats: &NatsConfig) -> (r: Result<(), ConfigError>)
    ensures
        reports(r, nats_problem(*nats)),
{
    if nats.endpoint.as_str().is_empty() {
        return Err(ConfigError::new("nats endpoint must not be empty".to_owned()));
    }
    if nats.subject_base.as_str().is_empty() {
        return Err(ConfigError::new("nats subject-base must not be empty".to_owned()));
    }
    if has_white_space(nats.subject_base.as_str()) {
        return Err(ConfigError::new("nats subject-base must not contain whitespace".to_owned()));
    }
    if is_set_but_empty(&nats.token_path) {
        return Err(ConfigError::new("nats token-path must not be empty when set".to_owned()));
    }
    Ok(())
}

impl Config {
    fn check_server(&self, kms_supported: bool) -> (r: Result<(), ConfigError>)
        ensures
            reports(r, self.server_problem(kms_supported)),
    {
        if self.bind_address.as_str().is_empty() {
            return Err(ConfigError::new("bind-address must not be empty".to_owned()));
        }
        if let Some(tls) = &self.tls {
            if tls.certificate_file.as_str().is_empty() {
                return Err(ConfigError::new("tls certificate-file must not be empty".to_owned()));
            }
            if tls.private_key_file.as_str().is_empty() {
                return Err(ConfigError::new("tls private-key-file must not be empty".to_owned()));
            }
        }
        if self.key_source == KeySource::Local && self.private_key_directory.as_str().is_empty() {
            return Err(ConfigError::new("private-key-directory must not be empty".to_owned()));
        }
        if self.key_source == KeySource::Kms && !kms_supported {
            return Err(
                ConfigError::new(
                    "key-source 'kms' requires idcat to be built with the 'kms' feature".to_owned(),
                ),
            );
        }
        if any_nats_webhook_target(&self.github_apps) && self.nats.is_none() {
            return Err(
                ConfigError::new(
                    "webhook-target 'nats' requires a [nats] config block".to_owned(),
                ),
            );
        }
        match &self.nats {
            Some(nats) => check_nats(nats),
            None => Ok(()),
        }
    }

    fn check_app(&self, i: usize, disable_auth: bool) -> (r: Result<(), ConfigError>)
        requires
            i < self.github_apps@.len(),
        ensures
            reports(r, self.app_problem(i as int, disable_auth)),
    {
        let app = &self.github_apps[i];
        let name = app.name.as_str();
        if name.is_empty() {
            return Err(ConfigError::new("github-app names must not be empty".to_owned()));
        }
        if contains_char(name, '/') {
            return Err(
                ConfigError::new(cat3("github-app '", name, "' name must not contain '/'")),
            );
        }
        if app.app_id == 0 {
            return Err(
                ConfigError::new(cat3("github-app '", name, "' app-id must be greater than 0")),
            );
        }
        if app.secret_key.as_str().is_empty() {
            return Err(ConfigError::new(cat3("github-app '", name, "' must define secret-key")));
        }
        if self.key_source == KeySource::Local && (app.secret_key.as_str().get_char(0) == '/'
            || contains_double_dot(app.secret_key.as_str())) {
            return Err(
                ConfigError::new(
                    cat3("github-app '", name, "' secret-key must be a relative file name"),
                ),
            );
        }
        if is_set_but_empty(&app.webhook_validation_secret_file) {
            return Err(
                ConfigError::new(
                    cat3(
                        "github-app '",
                        name,
                        "' webhook-validation-secret-file must not be empty when set",
                    ),
                ),
            );
        }
        if is_taken(&self.github_apps, i, name) {
            return Err(ConfigError::new(cat3("duplicate github-app '", name, "'")));
        }
        if disable_auth {
            return Ok(());
        }
        let empty = String::new();
        if contains_text(&app.allowed_roles, empty.as_str()) {
            return Err(
                ConfigError::new(
                    cat3("github-app '", name, "' allowed-roles must not contain empty entries"),
                ),
            );
        }
        ensure_roles_exist(&app.allowed_roles, &self.roles)
    }

    fn check_apps(&self, disable_auth: bool) -> (r: Result<(), ConfigError>)
        ensures
            reports(r, self.apps_problem(disable_auth)),
    {
        let ghost check = |i: int| self.app_problem(i, disable_auth);
        let n: usize = self.github_apps.len();
        let mut i: usize = 0;
        while i < n
            invariant
                i <= n,
                n == self.github_apps@.len(),
                check == (|i: int| self.app_problem(i, disable_auth)),
                first_problem(check, 0, n as int) == first_problem(check, i as int, n as int),
            decreases n - i,
        {
            let outcome = self.check_app(i, disable_auth);
            if outcome.is_err() {
                return outcome;
            }
            i = i + 1;
        }
        Ok(())
    }
}

/// How a message names an installation policy.
pub open spec fn policy_name(policy: InstallationPolicyConfig) -> Seq<char> {
    "installation-policy for github-app '"@ + policy.github_app@ + "' repository '"@
        + policy.label() + "' role '"@ + policy.role@ + "' "@
}

/// What is wrong with a claim that an installation policy requires, beside the
/// claims that its role already requires.
pub open spec fn policy_claim_problem(
    policy: InstallationPolicyConfig,
    role_claims: Map<Seq<char>, RequirementView>,
    i: int,
) -> Option<Seq<char>> {
    let (claim, requirement) = policy.required_claims.pairs()[i];
    if claim.len() == 0 {
        Some(policy_name(policy) + "required-claim names must not be empty"@)
    } else {
        first_of(
            requirement.problem(policy.role@, claim),
            if role_claims.contains_key(claim) {
                Some(
                    policy_name(policy) + ("required-claim '"@ + claim
                        + "' duplicates a role claim"@),
                )
            } else {
                None
            },
        )
    }
}

/// What is wrong with the claims that an installation policy requires.
pub open spec fn policy_claims_problem(
    policy: InstallationPolicyConfig,
    role_claims: Map<Seq<char>, RequirementView>,
) -> Option<Seq<char>> {
    first_problem(
        |i: int| policy_claim_problem(policy, role_claims, i),
        0,
        policy.required_claims.pairs().len() as int,
    )
}

/// What is wrong with an installation policy that allows self-access: the
/// `repository` claim is constrained to the requested repository already.
pub open spec fn self_access_problem(
    policy: InstallationPolicyConfig,
    role_claims: Map<Seq<char>, RequirementView>,
) -> Option<Seq<char>> {
    if !policy.allow_self_access {
        None
    } else if policy.required_claims@.contains_key("repository"@) {
        Some(
            policy_name(policy)
                + "sets allow-self-access; required-claims must not also define 'repository' (allow-self-access already constrains it to the requested repo)"@,
        )
    } else if role_claims.contains_key("repository"@) {
        Some(
            policy_name(policy) + ("sets allow-self-access, but role '"@ + policy.role@
                + "' already constrains the 'repository' claim"@),
        )
    } else {
        None
    }
}

impl Config {
    /// What is wrong with the installation policy at a position.
    pub open spec fn policy_problem(self, i: int) -> Option<Seq<char>> {
        let policy = self.installation_policies@[i];
        let app = policy.github_app@;
        let role_claims = self.named_roles()[policy.role@].required();
        if app.len() == 0 {
            Some("installation-policy github-app must not be empty"@)
        } else if !has_app(self.github_apps@, app) {
            Some("installation-policy references unknown github-app '"@ + app + "'"@)
        } else if policy.repositories@.len() == 0 {
            Some(
                "installation-policy for github-app '"@ + app
                    + "' must define at least one repository"@,
            )
        } else if exists|k: int|
            0 <= k < policy.repositories@.len() && !valid_repo_pattern(
                #[trigger] policy.repositories@[k]@,
            ) {
            Some(
                "installation-policy for github-app '"@ + app
                    + "' must define repository as owner/name or a glob like 'owner/*' or '*'"@,
            )
        } else if policy.role@.len() == 0 {
            Some(
                "installation-policy for github-app '"@ + app + "' repository '"@ + policy.label()
                    + "' must define role"@,
            )
        } else if !self.named_roles().contains_key(policy.role@) {
            Some("unknown role '"@ + policy.role@ + "'"@)
        } else if policy.required_claims.pairs().len() == 0 && !policy.allow_self_access {
            Some(
                policy_name(policy)
                    + "must define at least one required-claim (or set allow-self-access)"@,
            )
        } else {
            first_of(
                policy_claims_problem(policy, role_claims),
                self_access_problem(policy, role_claims),
            )
        }
    }

    /// The first thing that is wrong with the installation policies.
    pub open spec fn policies_problem(self) -> Option<Seq<char>> {
        first_problem(
            |i: int| self.policy_problem(i),
            0,
            self.installation_policies@.len() as int,
        )
    }
}

fn policy_name_text(policy: &InstallationPolicyConfig) -> (r: String)
    ensures
        r@ == policy_name(*policy),
{
    let label = policy.repositories_label();
    cat7(
        "installation-policy for github-app '",
        policy.github_app.as_str(),
        "' repository '",
        label.as_str(),
        "' role '",
        policy.role.as_str(),
        "' ",
    )
}

fn has_invalid_pattern(patterns: &Vec<String>) -> (r: bool)
    ensures
        r == exists|k: int|
            0 <= k < patterns@.len() && !valid_repo_pattern(#[trigger] patterns@[k]@),
{
    let mut i: usize = 0;
    while i < patterns.len()
        invariant
            i <= patterns@.len(),
            forall|k: int| 0 <= k < i ==> valid_repo_pattern(#[trigger] patterns@[k]@),
        decreases patterns@.len() - i,
    {
        if !is_valid_repo_pattern(patterns[i].as_str()) {
            return true;
        }
        i = i + 1;
    }
    false
}

fn check_policy_claims(policy: &InstallationPolicyConfig, role: &RoleConfig) -> (r: Result<
    (),
    ConfigError,
>)
    ensures
        reports(r, policy_claims_problem(*policy, role@.required())),
{
    let ghost role_claims = role@.required();
    let ghost check = |i: int| policy_claim_problem(*policy, role_claims, i);
    let n: usize = policy.required_claims.len();
    let mut i: usize = 0;
    while i < n
        invariant
            i <= n,
            n == policy.required_claims.pairs().len(),
            role_claims == role@.required(),
            check == (|i: int| policy_claim_problem(*policy, role_claims, i)),
            first_problem(check, 0, n as int) == first_problem(check, i as int, n as int),
        decreases n - i,
    {
        let claim = policy.required_claims.key_at(i);
        if claim.as_str().is_empty() {
            let name = policy_name_text(policy);
            return Err(
                ConfigError::new(cat2(name.as_str(), "required-claim names must not be empty")),
            );
        }
        let outcome = policy.required_claims.value_at(i).validate(
            policy.role.as_str(),
            claim.as_str(),
        );
        if outcome.is_err() {
            return outcome;
        }
        if role.claims.contains_key(claim.as_str()) {
            let name = policy_name_text(policy);
            let what = cat3("required-claim '", claim.as_str(), "' duplicates a role claim");
            return Err(ConfigError::new(cat2(name.as_str(), what.as_str())));
        }
        i = i + 1;
    }
    Ok(())
}

fn check_self_access(policy: &InstallationPolicyConfig, role: &RoleConfig) -> (r: Result<
    (),
    ConfigError,
>)
    ensures
        reports(r, self_access_problem(*policy, role@.required())),
{
    if policy.allow_self_access {
        if policy.required_claims.contains_key("repository") {
            let name = policy_name_text(policy);
            return Err(
                ConfigError::new(
                    cat2(
                        name.as_str(),
                        "sets allow-self-access; required-claims must not also define 'repository' (allow-self-access already constrains it to the requested repo)",
                    ),
                ),
            );
        }
        if role.claims.contains_key("repository") {
            let name = policy_name_text(policy);
            let what = cat3(
                "sets allow-self-access, but role '",
                policy.role.as_str(),
                "' already constrains the 'repository' claim",
            );
            return Err(ConfigError::new(cat2(name.as_str(), what.as_str())));
        }
    }
    Ok(())
}

impl Config {
    fn check_policy(&self, i: usize) -> (r: Result<(), ConfigError>)
        requires
            i < self.installation_policies@.len(),
        ensures
            reports(r, self.policy_problem(i as int)),
    {
        let policy = &self.installation_policies[i];
        let app = policy.github_app.as_str();
        if app.is_empty() {
            return Err(
                ConfigError::new("installation-policy github-app must not be empty".to_owned()),
            );
        }
        if find_app(&self.github_apps, app).is_none() {
            return Err(
                ConfigError::new(
                    cat3("installation-policy references unknown github-app '", app, "'"),
                ),
            );
        }
        if policy.repositories.len() == 0 {
            return Err(
                ConfigError::new(
                    cat3(
                        "installation-policy for github-app '",
                        app,
                        "' must define at least one repository",
                    ),
                ),
            );
        }
        if has_invalid_pattern(&policy.repositories) {
            return Err(
                ConfigError::new(
                    cat3(
                        "installation-policy for github-app '",
                        app,
                        "' must define repository as owner/name or a glob like 'owner/*' or '*'",
                    ),
                ),
            );
        }
        if policy.role.as_str().is_empty() {
            let label = policy.repositories_label();
            return Err(
                ConfigError::new(
                    cat5(
                        "installation-policy for github-app '",
                        app,
                        "' repository '",
                        label.as_str(),
                        "' must define role",
                    ),
                ),
            );
        }
        match find_role(&self.roles, policy.role.as_str()) {
            None => Err(ConfigError::new(cat3("unknown role '", policy.role.as_str(), "'"))),
            Some(role) => {
                if policy.required_claims.len() == 0 && !policy.allow_self_access {
                    let name = policy_name_text(policy);
                    return Err(
                        ConfigError::new(
                            cat2(
                                name.as_str(),
                                "must define at least one required-claim (or set allow-self-access)",
                            ),
                        ),
                    );
                }
                let outcome = check_policy_claims(policy, role);
                if outcome.is_err() {
                    return outcome;
                }
                check_self_access(policy, role)
            },
        }
    }

    fn check_policies(&self) -> (r: Result<(), ConfigError>)
        ensures
            reports(r, self.policies_problem()),
    {
        let ghost check = |i: int| self.policy_problem(i);
        let n: usize = self.installation_policies.len();
        let mut i: usize = 0;
        while i < n
            invariant
                i <= n,
                n == self.installation_policies@.len(),
                check == (|i: int| self.policy_problem(i)),
                first_problem(check, 0, n as int) == first_problem(check, i as int, n as int),
            decreases n - i,
        {
            let outcome = self.check_policy(i);
            if outcome.is_err() {
                return outcome;
            }
            i = i + 1;
        }
        Ok(())
    }
}

/// Whether something in the configuration gives tokens of the GitHub App.
pub open spec fn app_is_reachable(config: Config, app: GithubAppConfig) -> bool {
    ||| app.allowed_roles@.len() > 0
    ||| exists|k: int|
        0 <= k < config.installation_policies@.len() && (
        #[trigger] config.installation_policies@[k]).github_app@ == app.name@
    ||| exists|k: int|
        0 <= k < config.human_policies@.len() && (#[trigger] config.human_policies@[k]).github_app@
            == app.name@
}

impl Config {
    /// The GitHub App at a position, where nothing gives tokens of it.
    pub open spec fn unreachable_app_problem(self, i: int) -> Option<Seq<char>> {
        let app = self.github_apps@[i];
        if app_is_reachable(self, app) {
            None
        } else {
            Some(
                "github-app '"@ + app.name@
                    + "' must define at least one allowed-role, installation-policy or human-policy"@,
            )
        }
    }

    /// The first thing that is wrong with who gets tokens.
    pub open spec fn access_problem(self) -> Option<Seq<char>> {
        first_of(
            self.policies_problem(),
            first_of(
                self.human_problem(),
                first_problem(
                    |i: int| self.unreachable_app_problem(i),
                    0,
                    self.github_apps@.len() as int,
                ),
            ),
        )
    }

    /// The first thing that is wrong with the configuration, where
    /// authorization is switched off (`disable_auth`) or on, and where a
    /// key-management service can sign (`kms_supported`) or cannot.
    pub open spec fn problem(self, disable_auth: bool, kms_supported: bool) -> Option<Seq<char>> {
        first_of(
            self.server_problem(kms_supported),
            first_of(
                roles_problem(role_views(self.roles@)),
                if !disable_auth && self.roles@.len() == 0 && self.human_roles@.len() == 0 {
                    Some("at least one [[role]] or [[human-role]] entry is required"@)
                } else if self.github_apps@.len() == 0 {
                    Some("at least one [[github-app]] entry is required"@)
                } else {
                    first_of(
                        self.apps_problem(disable_auth),
                        if disable_auth {
                            None
                        } else {
                            self.access_problem()
                        },
                    )
                },
            ),
        )
    }
}

impl Config {
    fn is_reachable(&self, app: &GithubAppConfig) -> (r: bool)
        ensures
            r == app_is_reachable(*self, *app),
    {
        if app.allowed_roles.len() > 0 {
            return true;
        }
        let mut i: usize = 0;
        while i < self.installation_policies.len()
            invariant
                i <= self.installation_policies@.len(),
                forall|k: int|
                    0 <= k < i ==> (#[trigger] self.installation_policies@[k]).github_app@
                        != app.name@,
            decreases self.installation_policies@.len() - i,
        {
            if same(self.installation_policies[i].github_app.as_str(), app.name.as_str()) {
                return true;
            }
            i = i + 1;
        }
        let mut j: usize = 0;
        while j < self.human_policies.len()
            invariant
                app.allowed_roles@.len() == 0,
                j <= self.human_policies@.len(),
                forall|k: int|
                    0 <= k < self.installation_policies@.len() ==> (
                    #[trigger] self.installation_policies@[k]).github_app@ != app.name@,
                forall|k: int|
                    0 <= k < j ==> (#[trigger] self.human_policies@[k]).github_app@ != app.name@,
            decreases self.human_policies@.len() - j,
        {
            if same(self.human_policies[j].github_app.as_str(), app.name.as_str()) {
                return true;
            }
            j = j + 1;
        }
        false
    }

    fn check_access(&self) -> (r: Result<(), ConfigError>)
        ensures
            reports(r, self.access_problem()),
    {
        let outcome = self.check_policies();
        if outcome.is_err() {
            return outcome;
        }
        // The checks of people's access come first, so that a policy for an unknown GitHub App or
        // role reports that, rather than that the GitHub App authorizes nothing.
        let outcome = self.validate_human_config();
        if outcome.is_err() {
            return outcome;
        }
        let ghost check = |i: int| self.unreachable_app_problem(i);
        let n: usize = self.github_apps.len();
        let mut i: usize = 0;
        while i < n
            invariant
                i <= n,
                n == self.github_apps@.len(),
                self.policies_problem() is None,
                self.human_problem() is None,
                check == (|i: int| self.unreachable_app_problem(i)),
                first_problem(check, 0, n as int) == first_problem(check, i as int, n as int),
            decreases n - i,
        {
            if !self.is_reachable(&self.github_apps[i]) {
                return Err(
                    ConfigError::new(
                        cat3(
                            "github-app '",
                            self.github_apps[i].name.as_str(),
                            "' must define at least one allowed-role, installation-policy or human-policy",
                        ),
                    ),
                );
            }
            i = i + 1;
        }
        Ok(())
    }

    /// Refuses a configuration that the broker cannot start with, in a build
    /// where a key-management service can sign (`kms_supported`) or cannot.
    pub fn validate_for_build(&self, disable_auth: bool, kms_supported: bool) -> (r: Result<
        (),
        ConfigError,
    >)
        ensures
            reports(r, self.problem(disable_auth, kms_supported)),
    {
        let outcome = self.check_server(kms_supported);
        if outcome.is_err() {
            return outcome;
        }
        let outcome = check_roles(&self.roles);
        if outcome.is_err() {
            return outcome;
        }
        // Where only people get tokens there are human roles and no workload roles, so either kind
        // will do.
        if !disable_auth && self.roles.len() == 0 && self.human_roles.len() == 0 {
            return Err(
                ConfigError::new(
                    "at least one [[role]] or [[human-role]] entry is required".to_owned(),
                ),
            );
        }
        if self.github_apps.len() == 0 {
            return Err(
                ConfigError::new("at least one [[github-app]] entry is required".to_owned()),
            );
        }
        let outcome = self.check_apps(disable_auth);
        if outcome.is_err() {
            return outcome;
        }
        if disable_auth {
            Ok(())
        } else {
            self.check_access()
        }
    }

    /// Refuses a configuration that the broker cannot start with. This build
    /// signs with local keys only.
    pub fn validate(&self, disable_auth: bool) -> (r: Result<(), ConfigError>)
        ensures
            reports(r, self.problem(disable_auth, false)),
    {
        self.validate_for_build(disable_auth, false)
    }
}

} // verus!
