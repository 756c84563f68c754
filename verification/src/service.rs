//! Who gets which token: the decisions on the requests of workloads and people.
use crate::algorithm::Algorithm;
use crate::checks::ConfigError;
use crate::claims::claim_text;
use crate::config::{
    Config, GithubAppConfig, HumanJwtAlgorithm, HumanPolicyConfig, HumanRoleConfig,
    InstallationPolicyConfig, KeySource,
};
use crate::error::{AppError, AppErrorView};
use crate::glob::{glob_matches, wild_match};
use crate::human::{
    HumanClaims, HumanClaimsView, HumanRequirement, HumanTokenError, HumanTokenValidator,
    JwksSource,
};
use crate::jwks::KeySet;
use crate::roles::{
    decides, decides_strictly, role_views, roles_problem, standing_for, ClaimRequirement,
    RequirementView, TokenValidator,
};
use crate::string_map::{map_of, Duplicate, StringMap};
use crate::text::{cat3, cat5, contains_text, same, text_of, texts};
use crate::validation::{find_app, first_app};
use vstd::prelude::*;

verus! {

/// Which repositories of an installation a token is for.
#[derive(Debug, Clone, Copy, PartialEq, Eq, Structural)]
pub enum RepoScope {
    OnlyRequested,
    All,
}

/// What a token is good for. Without permissions it has those of the
/// installation.
#[derive(Debug, Clone, PartialEq, Eq)]
pub struct TokenScope {
    pub repositories: RepoScope,
    pub permissions: StringMap<String>,
}

/// The model of a `TokenScope`.
pub struct ScopeView {
    pub repositories: RepoScope,
    pub permissions: Map<Seq<char>, Seq<char>>,
}

impl View for TokenScope {
    type V = ScopeView;

    open spec fn view(&self) -> ScopeView {
        ScopeView { repositories: self.repositories, permissions: self.permissions@ }
    }
}

impl ScopeView {
    /// Everything that the installation can do.
    pub open spec fn broad() -> ScopeView {
        ScopeView { repositories: RepoScope::All, permissions: Map::empty() }
    }
}

impl TokenScope {
    /// Everything that the installation can do.
    pub fn broad() -> (r: Self)
        ensures
            r@ == ScopeView::broad(),
    {
        TokenScope { repositories: RepoScope::All, permissions: StringMap::new() }
    }

    /// The requested repositories, with these permissions.
    fn narrow(permissions: &StringMap<String>) -> (r: Self)
        ensures
            r@ == (ScopeView {
                repositories: RepoScope::OnlyRequested,
                permissions: permissions@,
            }),
    {
        TokenScope {
            repositories: RepoScope::OnlyRequested,
            permissions: permissions.duplicate(),
        }
    }
}

/// Who a token is for. This is part of the key of kept installation tokens, so
/// a token made for one person is never handed to another, and a person's token
/// is never served from what workloads share.
#[derive(Debug, Clone, PartialEq, Eq)]
pub enum Requester {
    /// A workload. Workloads share kept tokens: what they get depends only on
    /// the GitHub App, the repository and the scope, and no person is
    /// accountable for it.
    Workload,
    /// A person, by validated subject and by the access request behind it, so
    /// that a second approval for one person yields a fresh token.
    Person { subject: String, request_id: Option<String> },
}

/// The model of a `Requester`.
pub enum RequesterView {
    Workload,
    Person { subject: Seq<char>, request_id: Option<Seq<char>> },
}

impl View for Requester {
    type V = RequesterView;

    open spec fn view(&self) -> RequesterView {
        match self {
            Requester::Workload => RequesterView::Workload,
            Requester::Person { subject, request_id } => RequesterView::Person {
                subject: subject@,
                request_id: text_of(*request_id),
            },
        }
    }
}

/// Who is asking, carried from authorization to the token request, so that the
/// issuance record names a person.
#[derive(Debug, Clone, PartialEq, Eq)]
pub struct HumanIdentity {
    /// The validated subject of the Teleport token.
    pub subject: String,
    /// The Teleport access request or session behind the approval, where the
    /// issuer names it.
    pub request_id: Option<String>,
    /// The human role that authorised the request.
    pub human_role: String,
}

/// The model of a `HumanIdentity`.
pub struct IdentityView {
    pub subject: Seq<char>,
    pub request_id: Option<Seq<char>>,
    pub human_role: Seq<char>,
}

impl View for HumanIdentity {
    type V = IdentityView;

    open spec fn view(&self) -> IdentityView {
        IdentityView {
            subject: self.subject@,
            request_id: text_of(self.request_id),
            human_role: self.human_role@,
        }
    }
}

impl Requester {
    /// The person of an identity.
    pub fn person(identity: &HumanIdentity) -> (r: Self)
        ensures
            r@ == (RequesterView::Person {
                subject: identity@.subject,
                request_id: identity@.request_id,
            }),
    {
        Requester::Person {
            subject: identity.subject.clone(),
            request_id: crate::text::copy_text(&identity.request_id),
        }
    }
}

/// A configured Teleport issuer, and the validator of its tokens.
#[derive(Debug)]
pub struct HumanRole {
    pub config: HumanRoleConfig,
    pub validator: HumanTokenValidator,
}

impl View for HumanRole {
    type V = HumanRole;

    open spec fn view(&self) -> HumanRole {
        *self
    }
}

/// What the broker decides requests by.
#[derive(Debug)]
pub struct AppState {
    pub github_apps: Vec<GithubAppConfig>,
    pub installation_policies: Vec<InstallationPolicyConfig>,
    pub human_policies: Vec<HumanPolicyConfig>,
    pub human_roles: StringMap<HumanRole>,
    pub token_validator: TokenValidator,
    pub key_source: KeySource,
}

/// Whether an installation policy is for a GitHub App and a repository.
pub open spec fn policy_applies(
    policy: InstallationPolicyConfig,
    app: Seq<char>,
    repo: Seq<char>,
) -> bool {
    policy.github_app@ == app && exists|k: int|
        0 <= k < policy.repositories@.len() && glob_matches(
            #[trigger] policy.repositories@[k]@,
            repo,
        )
}

/// What an installation policy requires of the claims of a request's token. A
/// policy that allows self-access requires that the token come from the
/// requested repository.
pub open spec fn request_claims(policy: InstallationPolicyConfig, repo: Seq<char>) -> Map<
    Seq<char>,
    RequirementView,
> {
    if policy.allow_self_access {
        policy.required_claims@.insert("repository"@, RequirementView::Equals(repo))
    } else {
        policy.required_claims@
    }
}

/// What an installation policy requires of the claims of a request's token.
pub fn claims_for_request(
    installation_policy: &InstallationPolicyConfig,
    request_repo: &str,
) -> (r: StringMap<ClaimRequirement>)
    ensures
        r@ == request_claims(*installation_policy, request_repo@),
{
    let claims = installation_policy.required_claims.duplicate();
    if installation_policy.allow_self_access {
        claims.with("repository".to_owned(), ClaimRequirement::equals(request_repo))
    } else {
        claims
    }
}

fn matches_any(patterns: &Vec<String>, repo: &str) -> (r: bool)
    ensures
        r == exists|k: int|
            0 <= k < patterns@.len() && glob_matches(#[trigger] patterns@[k]@, repo@),
{
    let mut i: usize = 0;
    while i < patterns.len()
        invariant
            i <= patterns@.len(),
            forall|k: int| 0 <= k < i ==> !glob_matches(#[trigger] patterns@[k]@, repo@),
        decreases patterns@.len() - i,
    {
        if wild_match(patterns[i].as_str(), repo) {
            return true;
        }
        i = i + 1;
    }
    false
}

fn applies(policy: &InstallationPolicyConfig, app: &str, repo: &str) -> (r: bool)
    ensures
        r == policy_applies(*policy, app@, repo@),
{
    same(policy.github_app.as_str(), app) && matches_any(&policy.repositories, repo)
}

/// Whether two lists of names have one in common.
pub open spec fn have_common(a: Seq<Seq<char>>, b: Seq<Seq<char>>) -> bool {
    exists|i: int| 0 <= i < a.len() && b.contains(#[trigger] a[i])
}

fn has_common(a: &Vec<String>, b: &Vec<String>) -> (r: bool)
    ensures
        r == have_common(texts(a@), texts(b@)),
{
    let mut i: usize = 0;
    while i < a.len()
        invariant
            i <= a@.len(),
            forall|j: int| 0 <= j < i ==> !texts(b@).contains(#[trigger] texts(a@)[j]),
        decreases a@.len() - i,
    {
        if contains_text(b, a[i].as_str()) {
            assert(texts(b@).contains(texts(a@)[i as int]));
            return true;
        }
        i = i + 1;
    }
    false
}

/// The first of the installation policies, from a position on, that is for the
/// GitHub App and the repository and whose requirements the token met.
pub open spec fn granting_policy(
    policies: Seq<InstallationPolicyConfig>,
    accepted: Seq<bool>,
    app: Seq<char>,
    repo: Seq<char>,
    from: int,
) -> Option<InstallationPolicyConfig>
    decreases policies.len() - from,
{
    if from < 0 || from >= policies.len() {
        None
    } else if policy_applies(policies[from], app, repo) && accepted[from] {
        Some(policies[from])
    } else {
        granting_policy(policies, accepted, app, repo, from + 1)
    }
}

/// What a workload's request comes to, given the names of the roles that its
/// token stands for and, for each installation policy, whether the token meets
/// its requirements. A role that the GitHub App allows gets everything;
/// otherwise the first policy that grants the request decides.
pub open spec fn workload_scope(
    policies: Seq<InstallationPolicyConfig>,
    app: GithubAppConfig,
    repo: Seq<char>,
    roles: Seq<Seq<char>>,
    accepted: Seq<bool>,
) -> Result<ScopeView, AppErrorView> {
    if have_common(roles, texts(app.allowed_roles@)) {
        Ok(ScopeView::broad())
    } else {
        match granting_policy(policies, accepted, app.name@, repo, 0) {
            Some(policy) => Ok(
                ScopeView {
                    repositories: RepoScope::OnlyRequested,
                    permissions: policy.permissions@,
                },
            ),
            None => Err(
                AppErrorView::Unauthorized(
                    "source token did not match any allowed role for github-app '"@ + app.name@
                        + "' and repository '"@ + repo + "'"@,
                ),
            ),
        }
    }
}

/// The view of an outcome. That of a pair is the pair of the views.
pub open spec fn outcome_view<T: View>(outcome: Result<T, AppError>) -> Result<T::V, AppErrorView> {
    match outcome {
        Ok(value) => Ok(value@),
        Err(error) => Err(error@),
    }
}

impl AppState {
    /// The first GitHub App of a name.
    pub fn github_app(&self, github_app_name: &str) -> (r: Result<&GithubAppConfig, AppError>)
        ensures
            match r {
                Ok(app) => first_app(self.github_apps@, github_app_name@) == Some(*app),
                Err(error) => first_app(self.github_apps@, github_app_name@) is None && error@
                    == AppErrorView::NotFound("unknown github_app '"@ + github_app_name@ + "'"@),
            },
    {
        match find_app(&self.github_apps, github_app_name) {
            Some(app) => Ok(app),
            None => Err(AppError::NotFound(cat3("unknown github_app '", github_app_name, "'"))),
        }
    }

    /// What a workload's request comes to, given the names of the roles that
    /// its token stands for and, for each installation policy, whether the
    /// token meets its requirements.
    pub fn decide_scope(
        &self,
        github_app: &GithubAppConfig,
        repo: &str,
        matching_roles: &Vec<String>,
        accepted: &Vec<bool>,
    ) -> (r: Result<TokenScope, AppError>)
        requires
            accepted@.len() == self.installation_policies@.len(),
        ensures
            outcome_view(r) == workload_scope(
                self.installation_policies@,
                *github_app,
                repo@,
                texts(matching_roles@),
                accepted@,
            ),
    {
        if has_common(matching_roles, &github_app.allowed_roles) {
            return Ok(TokenScope::broad());
        }
        let mut i: usize = 0;
        while i < self.installation_policies.len()
            invariant
                i <= self.installation_policies@.len(),
                accepted@.len() == self.installation_policies@.len(),
                !have_common(texts(matching_roles@), texts(github_app.allowed_roles@)),
                granting_policy(
                    self.installation_policies@,
                    accepted@,
                    github_app.name@,
                    repo@,
                    0,
                ) == granting_policy(
                    self.installation_policies@,
                    accepted@,
                    github_app.name@,
                    repo@,
                    i as int,
                ),
            decreases self.installation_policies@.len() - i,
        {
            let policy = &self.installation_policies[i];
            if applies(policy, github_app.name.as_str(), repo) && accepted[i] {
                return Ok(TokenScope::narrow(&policy.permissions));
            }
            i = i + 1;
        }
        Err(
            AppError::Unauthorized(
                cat5(
                    "source token did not match any allowed role for github-app '",
                    github_app.name.as_str(),
                    "' and repository '",
                    repo,
                    "'",
                ),
            ),
        )
    }

    /// What must hold of a token's claims for it to meet the requirements of
    /// the installation policy at a position.
    pub open spec fn policy_admits(self, i: int, repo: Seq<char>, token: Seq<char>) -> bool {
        let policy = self.installation_policies@[i];
        &&& self.token_validator.roles() matches Some(roles)
        &&& roles.contains_key(policy.role@)
        &&& roles[policy.role@].admits_with(request_claims(policy, repo), token)
    }

    /// Whether the decision on the installation policy at a position is the
    /// right one. A policy for another GitHub App or repository is not accepted,
    /// nor one after the first that is, nor one whose role is unknown. Any other
    /// is decided by holding the token against its role with the requirements of
    /// the request; if it is accepted, its role admits the token with them.
    pub open spec fn policy_decided(
        self,
        i: int,
        app: Seq<char>,
        repo: Seq<char>,
        token: Seq<char>,
        accepted: Seq<bool>,
    ) -> bool {
        let policy = self.installation_policies@[i];
        let roles = self.token_validator.roles()->Some_0;
        if !policy_applies(policy, app, repo) || (exists|j: int|
            0 <= j < i && #[trigger] accepted[j]) || !roles.contains_key(policy.role@) {
            !accepted[i]
        } else {
            &&& accepted[i] ==> self.policy_admits(i, repo, token)
            &&& decides_strictly(
                accepted[i],
                roles[policy.role@],
                request_claims(policy, repo),
                token,
            )
        }
    }

    /// For each installation policy whether the token meets its requirements.
    /// A policy for another GitHub App or repository is not looked into, nor
    /// one after the first that grants the request.
    fn accepted_policies(&self, app: &str, repo: &str, token: &str) -> (r: Vec<bool>)
        requires
            self.token_validator.roles() is Some,
        ensures
            r@.len() == self.installation_policies@.len(),
            forall|i: int|
                0 <= i < r@.len() ==> #[trigger] self.policy_decided(i, app@, repo@, token@, r@),
    {
        let mut accepted: Vec<bool> = Vec::new();
        let mut found = false;
        let mut i: usize = 0;
        while i < self.installation_policies.len()
            invariant
                i <= self.installation_policies@.len(),
                accepted@.len() == i,
                self.token_validator.roles() is Some,
                found == exists|j: int| 0 <= j < i && #[trigger] accepted@[j],
                forall|j: int|
                    0 <= j < i ==> #[trigger] self.policy_decided(
                        j,
                        app@,
                        repo@,
                        token@,
                        accepted@,
                    ),
            decreases self.installation_policies@.len() - i,
        {
            let policy = &self.installation_policies[i];
            let met = !found && applies(policy, app, repo)
                && self.token_validator.validate_role_with_claims(
                policy.role.as_str(),
                &claims_for_request(policy, repo),
                token,
            );
            let ghost before = accepted@;
            let ghost earlier = found;
            if met {
                found = true;
            }
            accepted.push(met);
            proof {
                let after = accepted@;
                assert forall|j: int| 0 <= j <= i implies #[trigger] self.policy_decided(
                    j,
                    app@,
                    repo@,
                    token@,
                    after,
                ) by {
                    assert forall|k: int| 0 <= k < i implies after[k] == before[k] by {}
                    if j < i {
                        assert(self.policy_decided(j, app@, repo@, token@, before));
                        assert((exists|k: int| 0 <= k < j && #[trigger] after[k]) == (exists|k: int|
                            0 <= k < j && #[trigger] before[k])) by {
                            if exists|k: int| 0 <= k < j && #[trigger] after[k] {
                                let k = choose|k: int| 0 <= k < j && #[trigger] after[k];
                                assert(before[k]);
                            }
                            if exists|k: int| 0 <= k < j && #[trigger] before[k] {
                                let k = choose|k: int| 0 <= k < j && #[trigger] before[k];
                                assert(after[k]);
                            }
                        }
                    } else {
                        assert(earlier == (exists|k: int| 0 <= k < i && #[trigger] after[k])) by {
                            if earlier {
                                let k = choose|k: int| 0 <= k < i && #[trigger] before[k];
                                assert(after[k]);
                            }
                            if exists|k: int| 0 <= k < i && #[trigger] after[k] {
                                let k = choose|k: int| 0 <= k < i && #[trigger] after[k];
                                assert(before[k]);
                            }
                        }
                    }
                }
                assert(found == exists|j: int| 0 <= j < i + 1 && #[trigger] after[j]) by {
                    if earlier {
                        let k = choose|k: int| 0 <= k < i && #[trigger] before[k];
                        assert(after[k]);
                    }
                    if met {
                        assert(after[i as int]);
                    }
                    if exists|j: int| 0 <= j < i + 1 && #[trigger] after[j] {
                        let j = choose|j: int| 0 <= j < i + 1 && #[trigger] after[j];
                        if j < i {
                            assert(before[j]);
                        }
                    }
                }
            }
            i = i + 1;
        }
        accepted
    }

    /// Whether these are the roles that a token stands for: each admits it, and
    /// those that have a validation key are all that `authzoo` accepts at the
    /// time.
    pub open spec fn roles_decided(self, matching: Seq<Seq<char>>, token: Seq<char>) -> bool {
        let roles = self.token_validator.roles()->Some_0;
        &&& standing_for(matching, roles, token)
        &&& forall|name: Seq<char>| #[trigger]
            roles.contains_key(name) ==> decides(matching.contains(name), roles[name], token)
    }

    /// What a workload's request comes to: everything, where the token stands
    /// for a role that the GitHub App allows, and otherwise what the first
    /// installation policy grants whose requirements it meets. Which roles and
    /// policies those are, `authzoo` decides.
    pub open spec fn authorizes(
        self,
        app: GithubAppConfig,
        repo: Seq<char>,
        bearer_token: Option<Seq<char>>,
        outcome: Result<ScopeView, AppErrorView>,
    ) -> bool {
        match (self.token_validator.roles(), bearer_token) {
            (None, _) => outcome == Ok::<ScopeView, AppErrorView>(ScopeView::broad()),
            (Some(_), None) => outcome == Err::<ScopeView, AppErrorView>(
                AppErrorView::Unauthorized("missing Authorization header"@),
            ),
            (Some(_), Some(token)) => exists|matching: Seq<Seq<char>>, accepted: Seq<bool>|
                {
                    &&& self.roles_decided(matching, token)
                    &&& accepted.len() == self.installation_policies@.len()
                    &&& have_common(matching, texts(app.allowed_roles@)) || forall|i: int|
                        0 <= i < accepted.len() ==> #[trigger] self.policy_decided(
                            i,
                            app.name@,
                            repo,
                            token,
                            accepted,
                        )
                    &&& outcome == #[trigger] workload_scope(
                        self.installation_policies@,
                        app,
                        repo,
                        matching,
                        accepted,
                    )
                },
        }
    }

    /// Decides a workload's request for a token of a GitHub App.
    pub fn authorize_github_app(
        &self,
        github_app: &GithubAppConfig,
        repo: &str,
        bearer_token: Option<&str>,
    ) -> (r: Result<TokenScope, AppError>)
        ensures
            self.authorizes(
                *github_app,
                repo@,
                match bearer_token {
                    Some(token) => Some(token@),
                    None => None,
                },
                outcome_view(r),
            ),
    {
        if !self.token_validator.auth_enabled() {
            return Ok(TokenScope::broad());
        }
        let token = match bearer_token {
            Some(token) => token,
            None => {
                return Err(AppError::Unauthorized("missing Authorization header".to_owned()));
            },
        };
        let matching_roles = self.token_validator.validate(token);
        let accepted = if has_common(&matching_roles, &github_app.allowed_roles) {
            self.no_policies()
        } else {
            self.accepted_policies(github_app.name.as_str(), repo, token)
        };
        self.decide_scope(github_app, repo, &matching_roles, &accepted)
    }

    fn no_policies(&self) -> (r: Vec<bool>)
        ensures
            r@ == Seq::new(self.installation_policies@.len(), |i: int| false),
    {
        let mut accepted: Vec<bool> = Vec::new();
        let mut i: usize = 0;
        while i < self.installation_policies.len()
            invariant
                i <= self.installation_policies@.len(),
                accepted@ == Seq::new(i as nat, |i: int| false),
            decreases self.installation_policies@.len() - i,
        {
            accepted.push(false);
            i = i + 1;
            assert(accepted@ =~= Seq::new(i as nat, |i: int| false));
        }
        accepted
    }
}

/// Whether a human policy is for a GitHub App and a repository.
pub open spec fn is_human_policy_for(
    policy: HumanPolicyConfig,
    app: Seq<char>,
    repo: Seq<char>,
) -> bool {
    policy.github_app@ == app && policy.repository@ == repo
}

/// The human policies for a GitHub App and a repository.
pub open spec fn human_policies_for(
    policies: Seq<HumanPolicyConfig>,
    app: Seq<char>,
    repo: Seq<char>,
) -> Seq<HumanPolicyConfig>
    decreases policies.len(),
{
    if policies.len() == 0 {
        Seq::empty()
    } else if is_human_policy_for(policies.last(), app, repo) {
        human_policies_for(policies.drop_last(), app, repo).push(policies.last())
    } else {
        human_policies_for(policies.drop_last(), app, repo)
    }
}

/// What a human role requires of a person's token.
pub open spec fn role_requirement(role: HumanRoleConfig) -> HumanRequirement {
    HumanRequirement {
        roles_claim: role.roles_claim@,
        role: role.teleport_role@,
        claims: role.required_claims.pairs(),
    }
}

/// Who the claims of an accepted token say is asking.
pub open spec fn identity_of(
    policy: HumanPolicyConfig,
    role: HumanRoleConfig,
    claims: HumanClaimsView,
) -> IdentityView {
    IdentityView {
        subject: claims.subject,
        request_id: match role.request_id_claim {
            Some(claim) => claim_text(claims.claims, claim@),
            None => None,
        },
        human_role: policy.human_role@,
    }
}

/// What a person's request comes to, given what the validation of the token
/// came to: the policy's permissions on the requested repository, and nothing
/// more.
pub open spec fn human_outcome(
    policy: HumanPolicyConfig,
    role: HumanRoleConfig,
    repo: Seq<char>,
    validated: Result<HumanClaims, HumanTokenError>,
) -> Result<(ScopeView, IdentityView), AppErrorView> {
    match validated {
        Ok(claims) => Ok(
            (
                ScopeView {
                    repositories: RepoScope::OnlyRequested,
                    permissions: policy.permissions@,
                },
                identity_of(policy, role, claims@),
            ),
        ),
        Err(HumanTokenError::KeysUnavailable) => Err(
            AppErrorView::Internal("Teleport validation keys could not be retrieved"@),
        ),
        Err(_) => Err(
            AppErrorView::Unauthorized(
                "token did not satisfy human-role '"@ + policy.human_role@ + "' for repository '"@
                    + repo + "'"@,
            ),
        ),
    }
}

/// What a person's request comes to, given what the validation of the token
/// came to.
pub fn answer_human(
    policy: &HumanPolicyConfig,
    role: &HumanRoleConfig,
    repo: &str,
    validated: Result<HumanClaims, HumanTokenError>,
) -> (r: Result<(TokenScope, HumanIdentity), AppError>)
    ensures
        outcome_view(r) == human_outcome(*policy, *role, repo@, validated),
{
    match validated {
        Ok(claims) => {
            let request_id = match &role.request_id_claim {
                Some(claim) => match claims.claim_str(claim.as_str()) {
                    Some(text) => Some(text.to_owned()),
                    None => None,
                },
                None => None,
            };
            let identity = HumanIdentity {
                subject: claims.subject().to_owned(),
                request_id,
                human_role: policy.human_role.clone(),
            };
            Ok((TokenScope::narrow(&policy.permissions), identity))
        },
        Err(HumanTokenError::KeysUnavailable) => Err(
            AppError::Internal("Teleport validation keys could not be retrieved".to_owned()),
        ),
        Err(_) => Err(
            AppError::Unauthorized(
                cat5(
                    "token did not satisfy human-role '",
                    policy.human_role.as_str(),
                    "' for repository '",
                    repo,
                    "'",
                ),
            ),
        ),
    }
}

impl AppState {
    /// The error of a person's request that does not get as far as the
    /// validation of its token, or else the policy and the role that decide it.
    pub open spec fn human_route(
        self,
        app: Seq<char>,
        repo: Seq<char>,
        bearer_token: Option<Seq<char>>,
    ) -> Result<(HumanPolicyConfig, HumanRole), AppErrorView> {
        match bearer_token {
            None => Err(AppErrorView::Unauthorized("missing Authorization header"@)),
            Some(_) => {
                let policies = human_policies_for(self.human_policies@, app, repo);
                if policies.len() == 0 {
                    Err(
                        AppErrorView::Unauthorized(
                            "no human-policy authorizes github-app '"@ + app
                                + "' for repository '"@ + repo + "'"@,
                        ),
                    )
                } else if policies.len() > 1 {
                    Err(
                        AppErrorView::Unauthorized(
                            "more than one human-policy names github-app '"@ + app
                                + "' and repository '"@ + repo + "'"@,
                        ),
                    )
                } else if !self.human_roles@.contains_key(policies[0].human_role@) {
                    Err(
                        AppErrorView::Internal(
                            "human-policy references unknown human-role '"@
                                + policies[0].human_role@ + "'"@,
                        ),
                    )
                } else {
                    Ok((policies[0], self.human_roles@[policies[0].human_role@]))
                }
            },
        }
    }

    /// Finds the one policy and the role that decide a person's request. The
    /// token is not looked at, so a request for the wrong repository costs
    /// nothing.
    pub fn select_human_policy(
        &self,
        github_app: &GithubAppConfig,
        repo: &str,
        bearer_token: Option<&str>,
    ) -> (r: Result<(&HumanPolicyConfig, &HumanRole), AppError>)
        ensures
            ({
                let token = match bearer_token {
                    Some(token) => Some(token@),
                    None => None,
                };
                match r {
                    Ok((policy, role)) => self.human_route(github_app.name@, repo@, token) == Ok::<
                        (HumanPolicyConfig, HumanRole),
                        AppErrorView,
                    >((*policy, *role)),
                    Err(error) => self.human_route(github_app.name@, repo@, token) == Err::<
                        (HumanPolicyConfig, HumanRole),
                        AppErrorView,
                    >(error@),
                }
            }),
    {
        // Switched-off authorization is for workloads. To honour it here would hand tokens to
        // anyone, so there is no way round a person's token.
        if bearer_token.is_none() {
            return Err(AppError::Unauthorized("missing Authorization header".to_owned()));
        }
        let ghost all = self.human_policies@;
        let ghost app = github_app.name@;
        let mut found: Option<&HumanPolicyConfig> = None;
        let mut several = false;
        let mut i: usize = 0;
        while i < self.human_policies.len()
            invariant
                i <= self.human_policies@.len(),
                all == self.human_policies@,
                app == github_app.name@,
                bearer_token is Some,
                ({
                    let matching = human_policies_for(all.take(i as int), app, repo@);
                    &&& several == (matching.len() > 1)
                    &&& match found {
                        Some(policy) => matching.len() > 0 && *policy == matching[0],
                        None => matching.len() == 0,
                    }
                }),
            decreases self.human_policies@.len() - i,
        {
            proof {
                assert(all.take(i + 1).drop_last() =~= all.take(i as int));
                assert(all.take(i + 1).last() == all[i as int]);
            }
            let policy = &self.human_policies[i];
            if same(policy.github_app.as_str(), github_app.name.as_str()) && same(
                policy.repository.as_str(),
                repo,
            ) {
                if found.is_some() {
                    several = true;
                } else {
                    found = Some(policy);
                }
            }
            i = i + 1;
        }
        assert(all.take(i as int) =~= all);
        if several {
            return Err(
                AppError::Unauthorized(
                    cat5(
                        "more than one human-policy names github-app '",
                        github_app.name.as_str(),
                        "' and repository '",
                        repo,
                        "'",
                    ),
                ),
            );
        }
        match found {
            Some(policy) => match self.human_roles.get(policy.human_role.as_str()) {
                Some(role) => Ok((policy, role)),
                None => Err(
                    AppError::Internal(
                        cat3(
                            "human-policy references unknown human-role '",
                            policy.human_role.as_str(),
                            "'",
                        ),
                    ),
                ),
            },
            None => Err(
                AppError::Unauthorized(
                    cat5(
                        "no human-policy authorizes github-app '",
                        github_app.name.as_str(),
                        "' for repository '",
                        repo,
                        "'",
                    ),
                ),
            ),
        }
    }

    /// What a person's request comes to. Where a policy and a role decide it,
    /// the answer rests on the validation of the token with the role's keys at
    /// hand.
    pub open spec fn authorizes_human(
        self,
        app: Seq<char>,
        repo: Seq<char>,
        bearer_token: Option<Seq<char>>,
        now: u64,
        outcome: Result<(ScopeView, IdentityView), AppErrorView>,
    ) -> bool {
        match self.human_route(app, repo, bearer_token) {
            Err(error) => outcome == Err::<(ScopeView, IdentityView), AppErrorView>(error),
            Ok((policy, role)) => exists|validated: Result<HumanClaims, HumanTokenError>|
                {
                    &&& role.validator.validates(
                        bearer_token->Some_0,
                        role_requirement(role.config),
                        now,
                        validated,
                    )
                    &&& outcome == #[trigger] human_outcome(policy, role.config, repo, validated)
                },
        }
    }

    /// Decides a person's request for a token of exactly `repo`.
    ///
    /// This is no variant of how workloads are authorized. It never looks at
    /// the roles that a GitHub App allows, never widens the scope, and never
    /// tries another policy: a request that does not match exactly one policy is
    /// refused. `now` is the time on the clock that the keys of issuers were
    /// fetched by.
    pub fn authorize_human(
        &self,
        github_app: &GithubAppConfig,
        repo: &str,
        bearer_token: Option<&str>,
        now: u64,
    ) -> (r: Result<(TokenScope, HumanIdentity), AppError>)
        ensures
            self.authorizes_human(
                github_app.name@,
                repo@,
                match bearer_token {
                    Some(token) => Some(token@),
                    None => None,
                },
                now,
                outcome_view(r),
            ),
    {
        let (policy, role) = match self.select_human_policy(github_app, repo, bearer_token) {
            Ok(found) => found,
            Err(error) => {
                return Err(error);
            },
        };
        match bearer_token {
            Some(token) => {
                let validated = role.validator.validate(
                    token,
                    role.config.roles_claim.as_str(),
                    role.config.teleport_role.as_str(),
                    &role.config.required_claims,
                    now,
                );
                answer_human(policy, &role.config, repo, validated)
            },
            None => Err(AppError::Unauthorized("missing Authorization header".to_owned())),
        }
    }

    /// Whether keys are to be fetched before a person's request is decided. A
    /// request that is refused without a look at its token needs none.
    pub fn human_key_step(
        &self,
        github_app: &GithubAppConfig,
        repo: &str,
        bearer_token: &str,
        now: u64,
    ) -> (r: HumanKeyStep)
        ensures
            r@ == self.next_key_step(github_app.name@, repo@, bearer_token@, now),
    {
        match self.select_human_policy(github_app, repo, Some(bearer_token)) {
            Ok((policy, role)) => match role.validator.awaited_keys(bearer_token, now) {
                Some(url) => HumanKeyStep::Fetch { human_role: policy.human_role.clone(), url },
                None => HumanKeyStep::Decide,
            },
            Err(_) => HumanKeyStep::Decide,
        }
    }

    /// Whether keys are to be fetched before a person's request is decided.
    pub open spec fn next_key_step(
        self,
        app: Seq<char>,
        repo: Seq<char>,
        token: Seq<char>,
        now: u64,
    ) -> HumanKeyStepView {
        match self.human_route(app, repo, Some(token)) {
            Ok((policy, role)) => match role.validator.awaited_url(token, now) {
                Some(url) => HumanKeyStepView::Fetch { human_role: policy.human_role@, url },
                None => HumanKeyStepView::Decide,
            },
            Err(_) => HumanKeyStepView::Decide,
        }
    }

    /// Whether this is a state whose human role has received the answer to a
    /// request for keys.
    pub open spec fn has_received(
        self,
        before: AppState,
        human_role: Seq<char>,
        fetched: Option<KeySet>,
        now: u64,
    ) -> bool {
        &&& self.github_apps == before.github_apps
        &&& self.installation_policies == before.installation_policies
        &&& self.human_policies == before.human_policies
        &&& self.token_validator == before.token_validator
        &&& self.key_source == before.key_source
        &&& if before.human_roles@.contains_key(human_role) {
            let role = before.human_roles@[human_role];
            exists|after: HumanRole, outcome: Result<(), HumanTokenError>|
                {
                    &&& self.human_roles@ == #[trigger] before.human_roles@.insert(
                        human_role,
                        after,
                    )
                    &&& after.config == role.config
                    &&& #[trigger] after.validator.has_received(
                        role.validator,
                        fetched,
                        now,
                        outcome,
                    )
                }
        } else {
            self.human_roles@ == before.human_roles@
        }
    }

    /// Receives the answer to a request for the keys of a human role's issuer:
    /// the key set, or none where the request failed or its answer was no key
    /// set.
    pub fn receive_human_jwks(
        &mut self,
        human_role: &str,
        fetched: Option<KeySet>,
        now: u64,
    ) -> (r: Result<(), AppError>)
        ensures
            final(self).has_received(*old(self), human_role@, fetched, now),
            r is Ok <==> fetched is Some,
            r matches Err(error) ==> error@ == AppErrorView::Internal(
                "Teleport validation keys could not be retrieved"@,
            ),
    {
        let answered = fetched.is_some();
        let mut taken: StringMap<HumanRole> = StringMap::new();
        core::mem::swap(&mut taken, &mut self.human_roles);
        let ghost roles = taken@;
        let (found, rest) = taken.remove(human_role);
        match found {
            Some(mut role) => {
                let outcome = role.validator.receive_jwks(fetched, now);
                let ghost after = role;
                self.human_roles = rest.with(human_role.to_owned(), role);
                proof {
                    assert(self.human_roles@ =~= roles.insert(human_role@, after));
                    assert(after.validator.has_received(
                        roles[human_role@].validator,
                        fetched,
                        now,
                        outcome,
                    ));
                }
            },
            None => {
                self.human_roles = rest;
                assert(self.human_roles@ =~= roles);
            },
        }
        if answered {
            Ok(())
        } else {
            Err(AppError::Internal("Teleport validation keys could not be retrieved".to_owned()))
        }
    }
}

/// What to do before a person's request is decided.
#[derive(Debug, PartialEq, Eq)]
pub enum HumanKeyStep {
    /// Nothing: decide it.
    Decide,
    /// Fetch the keys of a human role's issuer from this URL.
    Fetch { human_role: String, url: String },
}

/// The model of a `HumanKeyStep`.
pub enum HumanKeyStepView {
    Decide,
    Fetch { human_role: Seq<char>, url: Seq<char> },
}

impl View for HumanKeyStep {
    type V = HumanKeyStepView;

    open spec fn view(&self) -> HumanKeyStepView {
        match self {
            HumanKeyStep::Decide => HumanKeyStepView::Decide,
            HumanKeyStep::Fetch { human_role, url } => HumanKeyStepView::Fetch {
                human_role: human_role@,
                url: url@,
            },
        }
    }
}

/// Whether a role is the one that a configuration describes, with a validator
/// that holds no keys yet.
pub open spec fn is_built_from(role: HumanRole, config: HumanRoleConfig) -> bool {
    &&& role.config == config
    &&& role.validator.issuer@ == config.issuer@
    &&& role.validator.audience@ == config.audience@
    &&& role.validator.algorithms@ == config.algorithms@.map_values(
        |algorithm: HumanJwtAlgorithm| algorithm.algorithm(),
    )
    &&& role.validator.source matches JwksSource::Http { url } && url@ == config.jwks_url@
    &&& role.validator.cache is None
}

/// The configurations of human roles by name.
pub open spec fn configs_by_name(configs: Seq<HumanRoleConfig>) -> Map<Seq<char>, HumanRoleConfig> {
    map_of(configs.map_values(|config: HumanRoleConfig| (config.name@, config)))
}

/// Whether the roles are those that the configurations describe.
pub open spec fn are_built_from(
    roles: Map<Seq<char>, HumanRole>,
    configs: Map<Seq<char>, HumanRoleConfig>,
) -> bool {
    &&& forall|name: Seq<char>| #[trigger] roles.contains_key(name) <==> configs.contains_key(name)
    &&& forall|name: Seq<char>| #[trigger]
        roles.contains_key(name) ==> is_built_from(roles[name], configs[name])
}

fn build_human_role(config: HumanRoleConfig) -> (r: HumanRole)
    ensures
        is_built_from(r, config),
{
    let mut algorithms: Vec<Algorithm> = Vec::new();
    let ghost wanted = config.algorithms@.map_values(
        |algorithm: HumanJwtAlgorithm| algorithm.algorithm(),
    );
    let mut i: usize = 0;
    while i < config.algorithms.len()
        invariant
            i <= config.algorithms@.len(),
            wanted == config.algorithms@.map_values(
                |algorithm: HumanJwtAlgorithm| algorithm.algorithm(),
            ),
            algorithms@ == wanted.take(i as int),
        decreases config.algorithms@.len() - i,
    {
        algorithms.push(config.algorithms[i].to_algorithm());
        i = i + 1;
        assert(wanted.take(i as int).drop_last() =~= wanted.take(i - 1));
    }
    assert(wanted.take(i as int) =~= wanted);
    let validator = HumanTokenValidator::from_http(
        config.issuer.as_str(),
        config.audience.as_str(),
        config.jwks_url.as_str(),
        algorithms,
    );
    HumanRole { config, validator }
}

/// The human roles that a configuration describes, by name.
pub fn build_human_roles(human_roles: Vec<HumanRoleConfig>) -> (r: StringMap<HumanRole>)
    ensures
        are_built_from(r@, configs_by_name(human_roles@)),
{
    let ghost named = human_roles@.map_values(|config: HumanRoleConfig| (config.name@, config));
    let mut roles: StringMap<HumanRole> = StringMap::new();
    for config in it: human_roles
        invariant
            it.seq() == human_roles@,
            named == human_roles@.map_values(
                |config: HumanRoleConfig| (config.name@, config),
            ),
            are_built_from(roles@, map_of(named.take(it.index() as int))),
    {
        let ghost k = it.index() as int;
        let ghost before = roles@;
        let ghost configs = map_of(named.take(k));
        proof {
            assert(named.take(k + 1).drop_last() =~= named.take(k));
            assert(named[k] == (config.name@, config));
        }
        let ghost built = config;
        let name = config.name.clone();
        let role = build_human_role(config);
        roles = roles.with(name, role);
        assert(map_of(named.take(k + 1)) == configs.insert(built.name@, built));
    }
    assert(named.take(named.len() as int) =~= named);
    roles
}

impl AppState {
    /// What the broker decides requests by, under a configuration.
    pub fn from_config(config: Config, disable_auth: bool) -> (r: Result<AppState, ConfigError>)
        ensures
            match r {
                Ok(state) => {
                    &&& state.github_apps == config.github_apps
                    &&& state.installation_policies == config.installation_policies
                    &&& state.human_policies == config.human_policies
                    &&& are_built_from(state.human_roles@, configs_by_name(config.human_roles@))
                    &&& state.token_validator.roles() == (if disable_auth {
                        None
                    } else {
                        Some(config.named_roles())
                    })
                    &&& disable_auth || roles_problem(role_views(config.roles@)) is None
                    &&& state.key_source == config.key_source
                },
                Err(error) => !disable_auth && roles_problem(role_views(config.roles@)) == Some(
                    error.message@,
                ),
            },
    {
        match TokenValidator::new(config.roles, disable_auth) {
            Ok(token_validator) => Ok(
                AppState {
                    github_apps: config.github_apps,
                    installation_policies: config.installation_policies,
                    human_policies: config.human_policies,
                    human_roles: build_human_roles(config.human_roles),
                    token_validator,
                    key_source: config.key_source,
                },
            ),
            Err(error) => Err(error),
        }
    }
}

} // verus!
