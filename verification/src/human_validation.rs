//! What makes the configuration of people's access fit to start with. Every one
//! of these checks fails closed: rather than narrowing a loose policy when a
//! request comes, the broker refuses to start.
use crate::checks::{first_problem, reports, ConfigError};
use crate::config::{Config, HumanPolicyConfig, HumanRoleConfig};
use crate::roles::find_role;
use crate::text::{
    cat3, cat5, cat7, contains_char, contains_text, ends_with, same, split_at_first, split_once,
    starts_with, texts,
};
use crate::validation::{
    find_app, first_app, first_of, has_app, is_set_but_empty, set_but_empty,
};
use vstd::prelude::*;

verus! {

/// The path that a Teleport JWKS is published under. A configured JWKS URL must
/// end in it, so that a typo cannot point key retrieval at some other endpoint.
pub const TELEPORT_JWKS_PATH: &'static str = "/.well-known/jwks.json";

/// Whether a text holds a character of patterns.
pub open spec fn is_pattern(s: Seq<char>) -> bool {
    s.contains('*') || s.contains('?')
}

/// Whether a text names one repository: exactly one `/`, with text on both
/// sides.
pub open spec fn is_owner_and_name(s: Seq<char>) -> bool {
    split_at_first(s, '/') matches Some((owner, name)) && owner.len() > 0 && name.len() > 0
        && !name.contains('/')
}

/// Whether one of the roles has the name.
pub open spec fn has_human_role(roles: Seq<HumanRoleConfig>, name: Seq<char>) -> bool {
    exists|i: int| 0 <= i < roles.len() && (#[trigger] roles[i]).name@ == name
}

/// What is wrong with a claim that a human role requires.
pub open spec fn human_claim_problem(role: HumanRoleConfig, i: int) -> Option<Seq<char>> {
    let (claim, requirement) = role.required_claims.pairs()[i];
    if claim.len() == 0 {
        Some("human-role '"@ + role.name@ + "' required-claim names must not be empty"@)
    } else if claim == role.roles_claim@ {
        Some(
            "human-role '"@ + role.name@ + "' required-claim '"@ + claim
                + "' duplicates roles-claim; role membership is checked against the array, not as a scalar"@,
        )
    } else {
        requirement.problem(role.name@, claim)
    }
}

/// What is wrong with what a human role says of its issuer and its tokens.
pub open spec fn human_issuer_problem(role: HumanRoleConfig) -> Option<Seq<char>> {
    let name = role.name@;
    if role.issuer@.len() == 0 {
        Some("human-role '"@ + name + "' must define issuer"@)
    } else if role.audience@.len() == 0 {
        Some("human-role '"@ + name + "' must define audience (the Teleport application uri)"@)
    } else if !"https://"@.is_prefix_of(role.jwks_url@) {
        Some("human-role '"@ + name + "' jwks-url must be an https URL"@)
    } else if !TELEPORT_JWKS_PATH@.is_suffix_of(role.jwks_url@) {
        Some("human-role '"@ + name + "' jwks-url must end in '"@ + TELEPORT_JWKS_PATH@ + "'"@)
    } else if role.teleport_role@.len() == 0 {
        Some("human-role '"@ + name + "' must define teleport-role"@)
    } else if is_pattern(role.teleport_role@) {
        Some("human-role '"@ + name + "' teleport-role must be an exact role name, not a pattern"@)
    } else if role.roles_claim@.len() == 0 {
        Some("human-role '"@ + name + "' roles-claim must not be empty"@)
    } else if role.algorithms@.len() == 0 {
        Some("human-role '"@ + name + "' must allow at least one algorithm"@)
    } else if set_but_empty(role.request_id_claim) {
        Some("human-role '"@ + name + "' request-id-claim must not be empty when set"@)
    } else {
        first_problem(
            |i: int| human_claim_problem(role, i),
            0,
            role.required_claims.pairs().len() as int,
        )
    }
}

/// What is wrong with a permission that a human policy grants.
pub open spec fn human_permission_problem(policy: HumanPolicyConfig, i: int) -> Option<Seq<char>> {
    let (permission, value) = policy.permissions.pairs()[i];
    if permission.len() == 0 {
        Some(
            "human-policy for github-app '"@ + policy.github_app@ + "' repository '"@
                + policy.repository@ + "' permission names must not be empty"@,
        )
    } else if value.len() == 0 {
        Some(
            "human-policy for github-app '"@ + policy.github_app@ + "' repository '"@
                + policy.repository@ + "' permission '"@ + permission
                + "' must define a value"@,
        )
    } else {
        None
    }
}

/// What is wrong with the permissions that a human policy grants.
pub open spec fn human_permissions_problem(policy: HumanPolicyConfig) -> Option<Seq<char>> {
    first_problem(
        |i: int| human_permission_problem(policy, i),
        0,
        policy.permissions.pairs().len() as int,
    )
}

/// Whether one of the policies is for the same GitHub App and repository.
pub open spec fn same_repository(
    policies: Seq<HumanPolicyConfig>,
    policy: HumanPolicyConfig,
) -> bool {
    exists|i: int|
        0 <= i < policies.len() && (#[trigger] policies[i]).github_app@ == policy.github_app@
            && policies[i].repository@ == policy.repository@
}

/// Whether one of the policies is for the same GitHub App, repository and role.
pub open spec fn same_mapping(policies: Seq<HumanPolicyConfig>, policy: HumanPolicyConfig) -> bool {
    exists|i: int|
        0 <= i < policies.len() && (#[trigger] policies[i]).github_app@ == policy.github_app@
            && policies[i].repository@ == policy.repository@ && policies[i].human_role@
            == policy.human_role@
}

impl Config {
    /// What is wrong with the human role at a position.
    pub open spec fn human_role_problem(self, i: int) -> Option<Seq<char>> {
        let role = self.human_roles@[i];
        if role.name@.len() == 0 {
            Some("human-role names must not be empty"@)
        } else if has_human_role(self.human_roles@.take(i), role.name@) {
            Some("duplicate human-role '"@ + role.name@ + "'"@)
        } else if self.named_roles().contains_key(role.name@) {
            Some(
                "human-role '"@ + role.name@
                    + "' has the same name as a [[role]]; workload and human role names must not overlap"@,
            )
        } else {
            human_issuer_problem(role)
        }
    }

    /// What is wrong with how a human policy stands beside the others: its role
    /// is also granted broadly, or an earlier policy is for its repository.
    pub open spec fn human_overlap_problem(self, i: int) -> Option<Seq<char>> {
        let policy = self.human_policies@[i];
        let app = first_app(self.github_apps@, policy.github_app@);
        let earlier = self.human_policies@.take(i);
        if texts(app->Some_0.allowed_roles@).contains(policy.human_role@) {
            Some(
                "github-app '"@ + policy.github_app@ + "' grants human-role '"@ + policy.human_role@
                    + "' through allowed-roles; a human-policy must be the only path to that role"@,
            )
        } else if same_mapping(earlier, policy) {
            Some(
                "duplicate human-policy for github-app '"@ + policy.github_app@ + "' repository '"@
                    + policy.repository@ + "' human-role '"@ + policy.human_role@ + "'"@,
            )
        } else if same_repository(earlier, policy) {
            Some(
                "github-app '"@ + policy.github_app@
                    + "' has more than one human-policy for repository '"@ + policy.repository@
                    + "'; each repository must map to exactly one human-role"@,
            )
        } else {
            None
        }
    }

    /// What is wrong with the human policy at a position.
    pub open spec fn human_policy_problem(self, i: int) -> Option<Seq<char>> {
        let policy = self.human_policies@[i];
        if !has_app(self.github_apps@, policy.github_app@) {
            Some("human-policy references unknown github-app '"@ + policy.github_app@ + "'"@)
        } else if is_pattern(policy.repository@) {
            Some(
                "human-policy for github-app '"@ + policy.github_app@ + "' repository '"@
                    + policy.repository@
                    + "' must name one exact repository; wildcards are not allowed on the human path"@,
            )
        } else if !is_owner_and_name(policy.repository@) {
            Some(
                "human-policy for github-app '"@ + policy.github_app@ + "' repository '"@
                    + policy.repository@ + "' must be in owner/name form"@,
            )
        } else if !has_human_role(self.human_roles@, policy.human_role@) {
            Some(
                "human-policy for repository '"@ + policy.repository@
                    + "' references unknown human-role '"@ + policy.human_role@ + "'"@,
            )
        } else if policy.permissions.pairs().len() == 0 {
            Some(
                "human-policy for github-app '"@ + policy.github_app@ + "' repository '"@
                    + policy.repository@ + "' must define at least one permission"@,
            )
        } else {
            first_of(human_permissions_problem(policy), self.human_overlap_problem(i))
        }
    }

    /// The first thing that is wrong with the configuration of people's access.
    pub open spec fn human_problem(self) -> Option<Seq<char>> {
        first_of(
            first_problem(|i: int| self.human_role_problem(i), 0, self.human_roles@.len() as int),
            first_problem(
                |i: int| self.human_policy_problem(i),
                0,
                self.human_policies@.len() as int,
            ),
        )
    }
}

/// Whether one of the first `n` human roles has the name.
fn is_human_role(roles: &Vec<HumanRoleConfig>, n: usize, name: &str) -> (r: bool)
    requires
        n <= roles@.len(),
    ensures
        r == has_human_role(roles@.take(n as int), name@),
{
    let mut i: usize = 0;
    while i < n
        invariant
            i <= n <= roles@.len(),
            forall|j: int| 0 <= j < i ==> (#[trigger] roles@.take(n as int)[j]).name@ != name@,
        decreases n - i,
    {
        if same(roles[i].name.as_str(), name) {
            assert(roles@.take(n as int)[i as int].name@ == name@);
            return true;
        }
        i = i + 1;
    }
    false
}

fn check_human_claims(role: &HumanRoleConfig) -> (r: Result<(), ConfigError>)
    ensures
        reports(
            r,
            first_problem(
                |i: int| human_claim_problem(*role, i),
                0,
                role.required_claims.pairs().len() as int,
            ),
        ),
{
    let name = role.name.as_str();
    let ghost check = |i: int| human_claim_problem(*role, i);
    let n: usize = role.required_claims.len();
    let mut i: usize = 0;
    while i < n
        invariant
            i <= n,
            n == role.required_claims.pairs().len(),
            name@ == role.name@,
            check == (|i: int| human_claim_problem(*role, i)),
            first_problem(check, 0, n as int) == first_problem(check, i as int, n as int),
        decreases n - i,
    {
        let claim = role.required_claims.key_at(i).as_str();
        if claim.is_empty() {
            return Err(
                ConfigError::new(
                    cat3("human-role '", name, "' required-claim names must not be empty"),
                ),
            );
        }
        if same(claim, role.roles_claim.as_str()) {
            return Err(
                ConfigError::new(
                    cat5(
                        "human-role '",
                        name,
                        "' required-claim '",
                        claim,
                        "' duplicates roles-claim; role membership is checked against the array, not as a scalar",
                    ),
                ),
            );
        }
        let outcome = role.required_claims.value_at(i).validate(name, claim);
        if outcome.is_err() {
            return outcome;
        }
        i = i + 1;
    }
    Ok(())
}

fn check_human_issuer(role: &HumanRoleConfig) -> (r: Result<(), ConfigError>)
    ensures
        reports(r, human_issuer_problem(*role)),
{
    let name = role.name.as_str();
    if role.issuer.as_str().is_empty() {
        return Err(ConfigError::new(cat3("human-role '", name, "' must define issuer")));
    }
    if role.audience.as_str().is_empty() {
        return Err(
            ConfigError::new(
                cat3(
                    "human-role '",
                    name,
                    "' must define audience (the Teleport application uri)",
                ),
            ),
        );
    }
    if !starts_with(role.jwks_url.as_str(), "https://") {
        return Err(
            ConfigError::new(cat3("human-role '", name, "' jwks-url must be an https URL")),
        );
    }
    if !ends_with(role.jwks_url.as_str(), TELEPORT_JWKS_PATH) {
        return Err(
            ConfigError::new(
                cat5("human-role '", name, "' jwks-url must end in '", TELEPORT_JWKS_PATH, "'"),
            ),
        );
    }
    if role.teleport_role.as_str().is_empty() {
        return Err(ConfigError::new(cat3("human-role '", name, "' must define teleport-role")));
    }
    if contains_char(role.teleport_role.as_str(), '*') || contains_char(
        role.teleport_role.as_str(),
        '?',
    ) {
        return Err(
            ConfigError::new(
                cat3(
                    "human-role '",
                    name,
                    "' teleport-role must be an exact role name, not a pattern",
                ),
            ),
        );
    }
    if role.roles_claim.as_str().is_empty() {
        return Err(
            ConfigError::new(cat3("human-role '", name, "' roles-claim must not be empty")),
        );
    }
    if role.algorithms.len() == 0 {
        return Err(
            ConfigError::new(cat3("human-role '", name, "' must allow at least one algorithm")),
        );
    }
    if is_set_but_empty(&role.request_id_claim) {
        return Err(
            ConfigError::new(
                cat3("human-role '", name, "' request-id-claim must not be empty when set"),
            ),
        );
    }
    check_human_claims(role)
}

fn check_human_permissions(policy: &HumanPolicyConfig) -> (r: Result<(), ConfigError>)
    ensures
        reports(r, human_permissions_problem(*policy)),
{
    let ghost check = |i: int| human_permission_problem(*policy, i);
    let n: usize = policy.permissions.len();
    let mut i: usize = 0;
    while i < n
        invariant
            i <= n,
            n == policy.permissions.pairs().len(),
            check == (|i: int| human_permission_problem(*policy, i)),
            first_problem(check, 0, n as int) == first_problem(check, i as int, n as int),
        decreases n - i,
    {
        let permission = policy.permissions.key_at(i).as_str();
        if permission.is_empty() {
            return Err(
                ConfigError::new(
                    cat5(
                        "human-policy for github-app '",
                        policy.github_app.as_str(),
                        "' repository '",
                        policy.repository.as_str(),
                        "' permission names must not be empty",
                    ),
                ),
            );
        }
        if policy.permissions.value_at(i).as_str().is_empty() {
            return Err(
                ConfigError::new(
                    cat7(
                        "human-policy for github-app '",
                        policy.github_app.as_str(),
                        "' repository '",
                        policy.repository.as_str(),
                        "' permission '",
                        permission,
                        "' must define a value",
                    ),
                ),
            );
        }
        i = i + 1;
    }
    Ok(())
}

/// Whether one of the first `n` policies is for the same GitHub App and
/// repository as `policy` and, where `with_role` says so, for the same role.
fn is_mapped(
    policies: &Vec<HumanPolicyConfig>,
    n: usize,
    policy: &HumanPolicyConfig,
    with_role: bool,
) -> (r: bool)
    requires
        n <= policies@.len(),
    ensures
        with_role ==> r == same_mapping(policies@.take(n as int), *policy),
        !with_role ==> r == same_repository(policies@.take(n as int), *policy),
{
    let ghost earlier = policies@.take(n as int);
    let mut i: usize = 0;
    while i < n
        invariant
            i <= n <= policies@.len(),
            earlier == policies@.take(n as int),
            forall|j: int|
                0 <= j < i ==> !((#[trigger] earlier[j]).github_app@ == policy.github_app@
                    && earlier[j].repository@ == policy.repository@ && (with_role ==>
                    earlier[j].human_role@ == policy.human_role@)),
        decreases n - i,
    {
        let other = &policies[i];
        assert(earlier[i as int] == *other);
        if same(other.github_app.as_str(), policy.github_app.as_str()) && same(
            other.repository.as_str(),
            policy.repository.as_str(),
        ) && (!with_role || same(other.human_role.as_str(), policy.human_role.as_str())) {
            return true;
        }
        i = i + 1;
    }
    false
}

impl Config {
    fn check_human_role(&self, i: usize) -> (r: Result<(), ConfigError>)
        requires
            i < self.human_roles@.len(),
        ensures
            reports(r, self.human_role_problem(i as int)),
    {
        let role = &self.human_roles[i];
        let name = role.name.as_str();
        if name.is_empty() {
            return Err(ConfigError::new("human-role names must not be empty".to_owned()));
        }
        if is_human_role(&self.human_roles, i, name) {
            return Err(ConfigError::new(cat3("duplicate human-role '", name, "'")));
        }
        if find_role(&self.roles, name).is_some() {
            return Err(
                ConfigError::new(
                    cat3(
                        "human-role '",
                        name,
                        "' has the same name as a [[role]]; workload and human role names must not overlap",
                    ),
                ),
            );
        }
        check_human_issuer(role)
    }

    fn check_human_overlap(&self, i: usize) -> (r: Result<(), ConfigError>)
        requires
            i < self.human_policies@.len(),
            has_app(self.github_apps@, self.human_policies@[i as int].github_app@),
        ensures
            reports(r, self.human_overlap_problem(i as int)),
    {
        let policy = &self.human_policies[i];
        let granted = match find_app(&self.github_apps, policy.github_app.as_str()) {
            Some(app) => contains_text(&app.allowed_roles, policy.human_role.as_str()),
            None => false,
        };
        if granted {
            return Err(
                ConfigError::new(
                    cat5(
                        "github-app '",
                        policy.github_app.as_str(),
                        "' grants human-role '",
                        policy.human_role.as_str(),
                        "' through allowed-roles; a human-policy must be the only path to that role",
                    ),
                ),
            );
        }
        if is_mapped(&self.human_policies, i, policy, true) {
            return Err(
                ConfigError::new(
                    cat7(
                        "duplicate human-policy for github-app '",
                        policy.github_app.as_str(),
                        "' repository '",
                        policy.repository.as_str(),
                        "' human-role '",
                        policy.human_role.as_str(),
                        "'",
                    ),
                ),
            );
        }
        if is_mapped(&self.human_policies, i, policy, false) {
            return Err(
                ConfigError::new(
                    cat5(
                        "github-app '",
                        policy.github_app.as_str(),
                        "' has more than one human-policy for repository '",
                        policy.repository.as_str(),
                        "'; each repository must map to exactly one human-role",
                    ),
                ),
            );
        }
        Ok(())
    }

    fn check_human_policy(&self, i: usize) -> (r: Result<(), ConfigError>)
        requires
            i < self.human_policies@.len(),
        ensures
            reports(r, self.human_policy_problem(i as int)),
    {
        let policy = &self.human_policies[i];
        let app = policy.github_app.as_str();
        let repository = policy.repository.as_str();
        if find_app(&self.github_apps, app).is_none() {
            return Err(
                ConfigError::new(cat3("human-policy references unknown github-app '", app, "'")),
            );
        }
        if contains_char(repository, '*') || contains_char(repository, '?') {
            return Err(
                ConfigError::new(
                    cat5(
                        "human-policy for github-app '",
                        app,
                        "' repository '",
                        repository,
                        "' must name one exact repository; wildcards are not allowed on the human path",
                    ),
                ),
            );
        }
        let exact = match split_once(repository, '/') {
            Some((owner, name)) => !owner.is_empty() && !name.is_empty() && !contains_char(
                name,
                '/',
            ),
            None => false,
        };
        if !exact {
            return Err(
                ConfigError::new(
                    cat5(
                        "human-policy for github-app '",
                        app,
                        "' repository '",
                        repository,
                        "' must be in owner/name form",
                    ),
                ),
            );
        }
        assert(self.human_roles@.take(self.human_roles@.len() as int) =~= self.human_roles@);
        if !is_human_role(&self.human_roles, self.human_roles.len(), policy.human_role.as_str()) {
            return Err(
                ConfigError::new(
                    cat5(
                        "human-policy for repository '",
                        repository,
                        "' references unknown human-role '",
                        policy.human_role.as_str(),
                        "'",
                    ),
                ),
            );
        }
        if policy.permissions.len() == 0 {
            return Err(
                ConfigError::new(
                    cat5(
                        "human-policy for github-app '",
                        app,
                        "' repository '",
                        repository,
                        "' must define at least one permission",
                    ),
                ),
            );
        }
        let outcome = check_human_permissions(policy);
        if outcome.is_err() {
            return outcome;
        }
        self.check_human_overlap(i)
    }

    /// Refuses a configuration of people's access in which something is wrong.
    pub fn validate_human_config(&self) -> (r: Result<(), ConfigError>)
        ensures
            reports(r, self.human_problem()),
    {
        let ghost role_check = |i: int| self.human_role_problem(i);
        let n: usize = self.human_roles.len();
        let mut i: usize = 0;
        while i < n
            invariant
                i <= n,
                n == self.human_roles@.len(),
                role_check == (|i: int| self.human_role_problem(i)),
                first_problem(role_check, 0, n as int) == first_problem(
                    role_check,
                    i as int,
                    n as int,
                ),
            decreases n - i,
        {
            let outcome = self.check_human_role(i);
            if outcome.is_err() {
                return outcome;
            }
            i = i + 1;
        }
        let ghost policy_check = |i: int| self.human_policy_problem(i);
        let m: usize = self.human_policies.len();
        let mut j: usize = 0;
        while j < m
            invariant
                j <= m,
                m == self.human_policies@.len(),
                policy_check == (|i: int| self.human_policy_problem(i)),
                first_problem(
                    |i: int| self.human_role_problem(i),
                    0,
                    self.human_roles@.len() as int,
                ) is None,
                first_problem(policy_check, 0, m as int) == first_problem(
                    policy_check,
                    j as int,
                    m as int,
                ),
            decreases m - j,
        {
            let outcome = self.check_human_policy(j);
            if outcome.is_err() {
                return outcome;
            }
            j = j + 1;
        }
        Ok(())
    }
}

} // verus!
