//! What holds of the broker as a whole.
use crate::access::decided;
use crate::algorithm::{algorithm_names_differ, Algorithm};
use crate::checks::no_problem;
use crate::claims::{claim_text, is_alive_at, payload_claims, token_header, ClaimView};
use crate::config::{
    Config, GithubAppConfig, HumanPolicyConfig, HumanRoleConfig, InstallationPolicyConfig,
};
use crate::error::AppErrorView;
use crate::human::{
    accepted_claims, claim_names, decodes_at, held_roles, payload_problem, registered_claims,
    CachedJwks, HumanClaims, HumanErrorView, HumanRequirement, HumanTokenError, HumanTokenValidator,
    JwksSource, JwksStepView,
};
use crate::human_validation::{has_human_role, is_owner_and_name, is_pattern, same_repository};
use crate::jwks::{key_may_be_tried, selected, KeySet, KeyView, JWKS_CACHE_TTL, JWKS_REFETCH_FLOOR};
use crate::roles::{
    accepts_at, decides, is_decision, meets, role_views, roles_problem, RequirementView, RoleView,
};
use crate::service::{
    are_built_from, configs_by_name, granting_policy, have_common, human_outcome,
    human_policies_for, identity_of, is_human_policy_for, policy_applies, request_claims,
    role_requirement, workload_scope, AppState, HumanKeyStepView, HumanRole, IdentityView,
    RepoScope, RequesterView, ScopeView,
};
use crate::string_map::map_of_has_keys;
use crate::text::texts;
use crate::validation::{first_app, has_app};
use vstd::prelude::*;

pub mod answers;
pub mod changes;
pub mod decisions;
pub mod exchanges;
pub mod helper;
pub mod parts;
pub mod people;
pub mod proxying;
pub mod records;
pub mod requests;
pub mod startup;
pub mod texts;
pub mod tokens;
pub mod validators;
pub mod views;
pub mod workloads;

verus! {

/// In a configuration that the broker starts with, every GitHub App has a name
/// of its own without `/`.
pub proof fn app_names_are_unique(
    config: Config,
    disable_auth: bool,
    kms_supported: bool,
    i: int,
    j: int,
)
    requires
        config.problem(disable_auth, kms_supported) is None,
        0 <= i < j < config.github_apps@.len(),
    ensures
        config.github_apps@[i].name@ != config.github_apps@[j].name@,
        config.github_apps@[i].name@.len() > 0,
        !config.github_apps@[i].name@.contains('/'),
        !config.github_apps@[j].name@.contains('/'),
{
    let check = |k: int| config.app_problem(k, disable_auth);
    no_problem(check, 0, config.github_apps@.len() as int);
    assert(check(i) is None);
    assert(check(j) is None);
    let earlier = config.github_apps@.take(j);
    assert(earlier[i] == config.github_apps@[i]);
    assert(!has_app(earlier, config.github_apps@[j].name@));
}

proof fn first_app_is_the_only_one(apps: Seq<GithubAppConfig>, i: int)
    requires
        0 <= i < apps.len(),
        forall|j: int| 0 <= j < i ==> (#[trigger] apps[j]).name@ != apps[i].name@,
    ensures
        first_app(apps, apps[i].name@) == Some(apps[i]),
    decreases i,
{
    if i > 0 {
        let rest = apps.skip(1);
        assert(rest[i - 1] == apps[i]);
        assert forall|j: int| 0 <= j < i - 1 implies (#[trigger] rest[j]).name@
            != rest[i - 1].name@ by {
            assert(apps[j + 1].name@ != apps[i].name@);
        }
        assert(apps[0].name@ != apps[i].name@);
        first_app_is_the_only_one(rest, i - 1);
    }
}

/// In a configuration that the broker starts with, a GitHub App is found by its
/// name.
pub proof fn apps_are_found_by_name(
    config: Config,
    disable_auth: bool,
    kms_supported: bool,
    i: int,
)
    requires
        config.problem(disable_auth, kms_supported) is None,
        0 <= i < config.github_apps@.len(),
    ensures
        first_app(config.github_apps@, config.github_apps@[i].name@) == Some(
            config.github_apps@[i],
        ),
{
    assert forall|j: int| 0 <= j < i implies (#[trigger] config.github_apps@[j]).name@
        != config.github_apps@[i].name@ by {
        app_names_are_unique(config, disable_auth, kms_supported, j, i);
    }
    first_app_is_the_only_one(config.github_apps@, i);
}

/// A configuration that the broker starts with is also one that it starts with
/// where authorization is switched off.
pub proof fn switching_authorization_off_refuses_nothing(config: Config, kms_supported: bool)
    requires
        config.problem(false, kms_supported) is None,
    ensures
        config.problem(true, kms_supported) is None,
{
    let on = |i: int| config.app_problem(i, false);
    let off = |i: int| config.app_problem(i, true);
    let n = config.github_apps@.len() as int;
    no_problem(on, 0, n);
    no_problem(off, 0, n);
    assert forall|i: int| 0 <= i < n implies #[trigger] off(i) is None by {
        assert(on(i) is None);
    }
}

/// In a configuration that the broker starts with, no human role has the name
/// of a workload role, so neither kind of policy can name the other's roles.
pub proof fn human_and_workload_roles_are_apart(config: Config, kms_supported: bool, i: int)
    requires
        config.problem(false, kms_supported) is None,
        0 <= i < config.human_roles@.len(),
    ensures
        !config.named_roles().contains_key(config.human_roles@[i].name@),
{
    let check = |k: int| config.human_role_problem(k);
    no_problem(check, 0, config.human_roles@.len() as int);
    assert(check(i) is None);
}

/// In a configuration that the broker starts with, a human policy names one
/// exact repository, a human role that exists, and at least one permission,
/// and its GitHub App does not grant the role broadly.
pub proof fn human_policies_are_exact(config: Config, kms_supported: bool, i: int)
    requires
        config.problem(false, kms_supported) is None,
        0 <= i < config.human_policies@.len(),
    ensures
        is_owner_and_name(config.human_policies@[i].repository@),
        !is_pattern(config.human_policies@[i].repository@),
        has_human_role(config.human_roles@, config.human_policies@[i].human_role@),
        config.human_policies@[i].permissions.pairs().len() > 0,
        has_app(config.github_apps@, config.human_policies@[i].github_app@),
        !texts(
            first_app(
                config.github_apps@,
                config.human_policies@[i].github_app@,
            )->Some_0.allowed_roles@,
        ).contains(config.human_policies@[i].human_role@),
{
    let check = |k: int| config.human_policy_problem(k);
    no_problem(check, 0, config.human_policies@.len() as int);
    assert(check(i) is None);
}

/// In a configuration that the broker starts with, a repository of a GitHub App
/// has one human policy, so it is clear who approves access to it.
pub proof fn human_policies_do_not_overlap(config: Config, kms_supported: bool, i: int, j: int)
    requires
        config.problem(false, kms_supported) is None,
        0 <= i < j < config.human_policies@.len(),
        config.human_policies@[i].github_app@ == config.human_policies@[j].github_app@,
    ensures
        config.human_policies@[i].repository@ != config.human_policies@[j].repository@,
{
    let check = |k: int| config.human_policy_problem(k);
    no_problem(check, 0, config.human_policies@.len() as int);
    assert(check(j) is None);
    let earlier = config.human_policies@.take(j);
    assert(earlier[i] == config.human_policies@[i]);
    assert(!same_repository(earlier, config.human_policies@[j]));
}

pub(crate) proof fn granting_policy_applies(
    state: AppState,
    accepted: Seq<bool>,
    app: Seq<char>,
    repo: Seq<char>,
    from: int,
) -> (i: int)
    requires
        0 <= from,
        accepted.len() == state.installation_policies@.len(),
        granting_policy(state.installation_policies@, accepted, app, repo, from) is Some,
    ensures
        from <= i < state.installation_policies@.len(),
        accepted[i],
        policy_applies(state.installation_policies@[i], app, repo),
        granting_policy(state.installation_policies@, accepted, app, repo, from) == Some(
            state.installation_policies@[i],
        ),
    decreases state.installation_policies@.len() - from,
{
    if policy_applies(state.installation_policies@[from], app, repo) && accepted[from] {
        from
    } else {
        granting_policy_applies(state, accepted, app, repo, from + 1)
    }
}

/// What backs the grant of a workload's request: a role that the GitHub App
/// allows and whose requirements the token's claims meet, for everything; or an
/// installation policy for the GitHub App and the repository whose requirements
/// they meet, for what that policy grants.
pub open spec fn is_backed(
    state: AppState,
    app: GithubAppConfig,
    repo: Seq<char>,
    token: Seq<char>,
    scope: ScopeView,
) -> bool {
    let roles = state.token_validator.roles()->Some_0;
    ||| scope == ScopeView::broad() && exists|role: Seq<char>| #[trigger]
        texts(app.allowed_roles@).contains(role) && roles.contains_key(role) && roles[role].admits(token)
    ||| exists|i: int|
        0 <= i < state.installation_policies@.len() && policy_applies(
            #[trigger] state.installation_policies@[i],
            app.name@,
            repo,
        ) && state.policy_admits(i, repo, token) && scope == (ScopeView {
            repositories: RepoScope::OnlyRequested,
            permissions: state.installation_policies@[i].permissions@,
        })
}

/// Where authorization is switched on, no workload gets a token that is not
/// backed by what its own token claims.
pub proof fn workload_grants_are_backed(
    state: AppState,
    app: GithubAppConfig,
    repo: Seq<char>,
    bearer_token: Option<Seq<char>>,
    scope: ScopeView,
)
    requires
        state.token_validator.roles() is Some,
        state.authorizes(app, repo, bearer_token, Ok(scope)),
    ensures
        bearer_token is Some,
        is_backed(state, app, repo, bearer_token->Some_0, scope),
{
    let roles = state.token_validator.roles()->Some_0;
    let token = bearer_token->Some_0;
    let outcome = Ok::<ScopeView, AppErrorView>(scope);
    let (matching, accepted) = choose|matching: Seq<Seq<char>>, accepted: Seq<bool>|
        {
            &&& state.roles_decided(matching, token)
            &&& accepted.len() == state.installation_policies@.len()
            &&& have_common(matching, texts(app.allowed_roles@)) || forall|i: int|
                0 <= i < accepted.len() ==> #[trigger] state.policy_decided(
                    i,
                    app.name@,
                    repo,
                    token,
                    accepted,
                )
            &&& outcome == #[trigger] workload_scope(
                state.installation_policies@,
                app,
                repo,
                matching,
                accepted,
            )
        };
    if have_common(matching, texts(app.allowed_roles@)) {
        let k = choose|k: int|
            0 <= k < matching.len() && texts(app.allowed_roles@).contains(#[trigger] matching[k]);
        assert(roles[matching[k]].admits(token));
    } else {
        let i = granting_policy_applies(state, accepted, app.name@, repo, 0);
        assert(state.policy_decided(i, app.name@, repo, token, accepted));
        assert(policy_applies(state.installation_policies@[i], app.name@, repo));
    }
}

/// A workload whose token stands for a role that the GitHub App allows gets
/// everything, for whatever repository. Where the role has a validation key, and
/// the token may be held against it, only time can stand in the way: it gets
/// less only if there is a time at which `authzoo` does not accept the token for
/// the role.
pub proof fn allowed_roles_get_everything(
    state: AppState,
    app: GithubAppConfig,
    repo: Seq<char>,
    token: Seq<char>,
    role: Seq<char>,
    outcome: Result<ScopeView, AppErrorView>,
)
    requires
        state.token_validator.roles() matches Some(roles) && {
            &&& roles.contains_key(role)
            &&& roles[role].validation_key is Some
            &&& roles[role].may_be_tried_on(token)
        },
        texts(app.allowed_roles@).contains(role),
        state.authorizes(app, repo, Some(token), outcome),
    ensures
        outcome == Ok::<ScopeView, AppErrorView>(ScopeView::broad()) || exists|now: u64|
            !#[trigger] accepts_at(state.token_validator.roles()->Some_0[role], token, now),
{
    let roles = state.token_validator.roles()->Some_0;
    let (matching, accepted) = choose|matching: Seq<Seq<char>>, accepted: Seq<bool>|
        {
            &&& state.roles_decided(matching, token)
            &&& accepted.len() == state.installation_policies@.len()
            &&& have_common(matching, texts(app.allowed_roles@)) || forall|i: int|
                0 <= i < accepted.len() ==> #[trigger] state.policy_decided(
                    i,
                    app.name@,
                    repo,
                    token,
                    accepted,
                )
            &&& outcome == #[trigger] workload_scope(
                state.installation_policies@,
                app,
                repo,
                matching,
                accepted,
            )
        };
    assert(decides(matching.contains(role), roles[role], token));
    assert(is_decision(matching.contains(role), roles[role], token));
    if matching.contains(role) {
        let k = choose|k: int| 0 <= k < matching.len() && matching[k] == role;
        assert(texts(app.allowed_roles@).contains(matching[k]));
    }
}

/// Whether nothing but the token and the time decides on a policy: its role is
/// known and, together with the requirements of the request, has a validation key
/// and nothing wrong with it, and the token may be held against it.
pub open spec fn rests_on_the_token(
    state: AppState,
    i: int,
    repo: Seq<char>,
    token: Seq<char>,
) -> bool {
    let policy = state.installation_policies@[i];
    let roles = state.token_validator.roles()->Some_0;
    &&& roles.contains_key(policy.role@)
    &&& forall|strict: RoleView| #[trigger]
        strict.is_strict_form_of(roles[policy.role@], request_claims(policy, repo)) ==> {
            &&& strict.problem() is None
            &&& strict.validation_key is Some
            &&& strict.may_be_tried_on(token)
        }
}

/// Whether there is a time at which `authzoo` does not accept a token for the
/// role of a policy with the requirements of the request.
pub open spec fn may_be_refused(
    state: AppState,
    i: int,
    repo: Seq<char>,
    token: Seq<char>,
) -> bool {
    let policy = state.installation_policies@[i];
    exists|strict: RoleView, now: u64|
        {
            &&& #[trigger] strict.is_strict_form_of(
                state.token_validator.roles()->Some_0[policy.role@],
                request_claims(policy, repo),
            )
            &&& !#[trigger] accepts_at(strict, token, now)
        }
}

proof fn an_accepted_policy_grants(
    policies: Seq<InstallationPolicyConfig>,
    accepted: Seq<bool>,
    app: Seq<char>,
    repo: Seq<char>,
    from: int,
    i: int,
) -> (j: int)
    requires
        0 <= from <= i < policies.len(),
        policy_applies(policies[i], app, repo),
        accepted[i],
    ensures
        from <= j <= i,
        policy_applies(policies[j], app, repo),
        granting_policy(policies, accepted, app, repo, from) == Some(policies[j]),
    decreases i - from,
{
    if policy_applies(policies[from], app, repo) && accepted[from] {
        from
    } else {
        an_accepted_policy_grants(policies, accepted, app, repo, from + 1, i)
    }
}

/// A workload whose token meets an installation policy for the GitHub App and
/// the repository is not refused: it gets everything, where it stands for a role
/// that the GitHub App allows, and otherwise what that policy, or an earlier one
/// for them, grants on the repository. Only time can stand in the way.
pub proof fn met_policies_grant(
    state: AppState,
    app: GithubAppConfig,
    repo: Seq<char>,
    token: Seq<char>,
    i: int,
    outcome: Result<ScopeView, AppErrorView>,
)
    requires
        state.token_validator.roles() is Some,
        0 <= i < state.installation_policies@.len(),
        policy_applies(state.installation_policies@[i], app.name@, repo),
        rests_on_the_token(state, i, repo, token),
        state.authorizes(app, repo, Some(token), outcome),
    ensures
        may_be_refused(state, i, repo, token) || outcome == Ok::<ScopeView, AppErrorView>(
            ScopeView::broad(),
        ) || exists|j: int|
            {
                &&& 0 <= j <= i
                &&& policy_applies(#[trigger] state.installation_policies@[j], app.name@, repo)
                &&& outcome == Ok::<ScopeView, AppErrorView>(
                    ScopeView {
                        repositories: RepoScope::OnlyRequested,
                        permissions: state.installation_policies@[j].permissions@,
                    },
                )
            },
{
    let policies = state.installation_policies@;
    let (matching, accepted) = choose|matching: Seq<Seq<char>>, accepted: Seq<bool>|
        {
            &&& state.roles_decided(matching, token)
            &&& accepted.len() == state.installation_policies@.len()
            &&& have_common(matching, texts(app.allowed_roles@)) || forall|i: int|
                0 <= i < accepted.len() ==> #[trigger] state.policy_decided(
                    i,
                    app.name@,
                    repo,
                    token,
                    accepted,
                )
            &&& outcome == #[trigger] workload_scope(
                state.installation_policies@,
                app,
                repo,
                matching,
                accepted,
            )
        };
    if !have_common(matching, texts(app.allowed_roles@)) && !may_be_refused(
        state,
        i,
        repo,
        token,
    ) {
        assert(state.policy_decided(i, app.name@, repo, token, accepted));
        let k = if exists|k: int| 0 <= k < i && #[trigger] accepted[k] {
            choose|k: int| 0 <= k < i && #[trigger] accepted[k]
        } else {
            i
        };
        assert(state.policy_decided(k, app.name@, repo, token, accepted));
        assert(accepted[k]);
        let j = an_accepted_policy_grants(policies, accepted, app.name@, repo, 0, k);
        assert(policy_applies(policies[j], app.name@, repo));
    }
}

/// A workload's request for a repository that no installation policy of the
/// GitHub App is for, where the GitHub App allows no role, is refused whatever
/// the token.
pub proof fn unmatched_requests_are_refused(
    state: AppState,
    app: GithubAppConfig,
    repo: Seq<char>,
    bearer_token: Option<Seq<char>>,
    outcome: Result<ScopeView, AppErrorView>,
)
    requires
        state.token_validator.roles() is Some,
        app.allowed_roles@.len() == 0,
        forall|i: int|
            0 <= i < state.installation_policies@.len() ==> !policy_applies(
                #[trigger] state.installation_policies@[i],
                app.name@,
                repo,
            ),
        state.authorizes(app, repo, bearer_token, outcome),
    ensures
        outcome is Err,
        outcome->Err_0 is Unauthorized,
{
    if outcome is Ok {
        workload_grants_are_backed(state, app, repo, bearer_token, outcome->Ok_0);
        let none = texts(app.allowed_roles@);
        assert(none.len() == 0);
    }
}

/// A policy that allows self-access grants a request only where the token says
/// that it comes from the requested repository, and only where it also meets
/// whatever else the policy requires.
pub proof fn self_access_is_for_the_own_repository(
    state: AppState,
    i: int,
    repo: Seq<char>,
    token: Seq<char>,
)
    requires
        0 <= i < state.installation_policies@.len(),
        state.installation_policies@[i].allow_self_access,
        state.policy_admits(i, repo, token),
    ensures
        claim_text(payload_claims(token), "repository"@) == Some(repo),
{
    let policy = state.installation_policies@[i];
    let role = state.token_validator.roles()->Some_0[policy.role@];
    let required = role.required().union_prefer_right(request_claims(policy, repo));
    assert(meets(required, payload_claims(token)));
    assert(required.contains_key("repository"@));
    assert(required["repository"@] == RequirementView::Equals(repo));
    assert(RequirementView::Equals(repo).acceptable() =~= seq![repo]);
}

pub(crate) proof fn human_policies_are_for_their_repository(
    policies: Seq<HumanPolicyConfig>,
    app: Seq<char>,
    repo: Seq<char>,
    k: int,
)
    requires
        0 <= k < human_policies_for(policies, app, repo).len(),
    ensures
        policies.contains(human_policies_for(policies, app, repo)[k]),
        is_human_policy_for(human_policies_for(policies, app, repo)[k], app, repo),
    decreases policies.len(),
{
    let rest = policies.drop_last();
    let earlier = human_policies_for(rest, app, repo);
    if k < earlier.len() {
        human_policies_are_for_their_repository(rest, app, repo, k);
        let i = choose|i: int| 0 <= i < rest.len() && rest[i] == earlier[k];
        assert(policies[i] == earlier[k]);
    } else {
        assert(policies[policies.len() - 1] == policies.last());
    }
}

pub(crate) proof fn human_policies_are_counted(
    policies: Seq<HumanPolicyConfig>,
    app: Seq<char>,
    repo: Seq<char>,
    i: int,
)
    requires
        0 <= i < policies.len(),
        is_human_policy_for(policies[i], app, repo),
    ensures
        human_policies_for(policies, app, repo).len() > 0,
    decreases policies.len(),
{
    if i < policies.len() - 1 {
        human_policies_are_counted(policies.drop_last(), app, repo, i);
    }
}

pub(crate) proof fn two_human_policies_are_counted(
    policies: Seq<HumanPolicyConfig>,
    app: Seq<char>,
    repo: Seq<char>,
    i: int,
    j: int,
)
    requires
        0 <= i < j < policies.len(),
        is_human_policy_for(policies[i], app, repo),
        is_human_policy_for(policies[j], app, repo),
    ensures
        human_policies_for(policies, app, repo).len() > 1,
    decreases policies.len(),
{
    if j < policies.len() - 1 {
        two_human_policies_are_counted(policies.drop_last(), app, repo, i, j);
    } else {
        human_policies_are_counted(policies.drop_last(), app, repo, i);
    }
}

pub(crate) proof fn at_most_one_human_policy(
    policies: Seq<HumanPolicyConfig>,
    app: Seq<char>,
    repo: Seq<char>,
)
    requires
        forall|i: int, j: int|
            0 <= i < j < policies.len() ==> !(#[trigger] is_human_policy_for(
                policies[i],
                app,
                repo,
            ) && #[trigger] is_human_policy_for(policies[j], app, repo)),
    ensures
        human_policies_for(policies, app, repo).len() <= 1,
    decreases policies.len(),
{
    if policies.len() > 0 {
        let rest = policies.drop_last();
        let earlier = human_policies_for(rest, app, repo);
        assert forall|i: int, j: int| 0 <= i < j < rest.len() implies !(
        #[trigger] is_human_policy_for(rest[i], app, repo) && #[trigger] is_human_policy_for(
            rest[j],
            app,
            repo,
        )) by {
            assert(rest[i] == policies[i] && rest[j] == policies[j]);
        }
        at_most_one_human_policy(rest, app, repo);
        if earlier.len() > 0 && is_human_policy_for(policies.last(), app, repo) {
            human_policies_are_for_their_repository(rest, app, repo, 0);
            let k = choose|k: int| 0 <= k < rest.len() && rest[k] == earlier[0];
            assert(is_human_policy_for(policies[k], app, repo));
            assert(is_human_policy_for(policies[policies.len() - 1], app, repo));
        }
    }
}

/// What a person gets: the permissions of the one configured policy for the
/// GitHub App and the repository of the request, and on that repository only.
/// The token is vouched for by the configured issuer, holds the role that the
/// policy's human role asks for, meets its required claims, names the person,
/// and is within its lifetime.
pub proof fn people_get_what_their_policy_grants(
    state: AppState,
    app: Seq<char>,
    repo: Seq<char>,
    bearer_token: Option<Seq<char>>,
    now: u64,
    scope: ScopeView,
    identity: IdentityView,
)
    requires
        state.authorizes_human(app, repo, bearer_token, now, Ok((scope, identity))),
    ensures
        bearer_token is Some,
        ({
            let policies = human_policies_for(state.human_policies@, app, repo);
            let policy = policies[0];
            let payload = payload_claims(bearer_token->Some_0);
            &&& policies.len() == 1
            &&& state.human_policies@.contains(policy)
            &&& policy.github_app@ == app
            &&& policy.repository@ == repo
            &&& scope == (ScopeView {
                repositories: RepoScope::OnlyRequested,
                permissions: policy.permissions@,
            })
            &&& identity.human_role == policy.human_role@
            &&& state.human_roles@.contains_key(policy.human_role@)
            &&& ({
                let role = state.human_roles@[policy.human_role@];
                &&& claim_names(payload, "iss"@, role.validator.issuer@)
                &&& claim_names(payload, "aud"@, role.validator.audience@)
                &&& claim_text(payload, "sub"@) == Some(identity.subject)
                &&& payload_problem(payload, role_requirement(role.config)) is None
                &&& held_roles(payload.remove("sub"@), role.config.roles_claim@) matches Some(roles)
                    && roles.contains(role.config.teleport_role@)
            })
            &&& exists|at: u64| #[trigger] is_alive_at(bearer_token->Some_0, at)
        }),
{
    human_policies_are_for_their_repository(state.human_policies@, app, repo, 0);
    let outcome = Ok::<(ScopeView, IdentityView), AppErrorView>((scope, identity));
    let policy = human_policies_for(state.human_policies@, app, repo)[0];
    let role = state.human_roles@[policy.human_role@];
    let token = bearer_token->Some_0;
    let validated = choose|validated: Result<HumanClaims, HumanTokenError>|
        {
            &&& role.validator.validates(token, role_requirement(role.config), now, validated)
            &&& outcome == #[trigger] human_outcome(policy, role.config, repo, validated)
        };
    assert(validated is Ok);
}

/// A person whom a policy is for gets what it grants. So it is where the
/// policy's human role is known, the token names an allowed algorithm and a key
/// that is at hand and long enough, and its payload holds what the role asks
/// for. It then rests with `jsonwebtoken`, at the time of the request, whether
/// the person gets all of that or nothing; outside the token's lifetime it is
/// nothing.
pub proof fn approved_people_are_let_in(
    state: AppState,
    app: Seq<char>,
    repo: Seq<char>,
    token: Seq<char>,
    now: u64,
    policy: HumanPolicyConfig,
    role: HumanRole,
    algorithm: Algorithm,
    kid: Option<Seq<char>>,
    key: KeyView,
    outcome: Result<(ScopeView, IdentityView), AppErrorView>,
)
    requires
        state.human_route(app, repo, Some(token)) == Ok::<
            (HumanPolicyConfig, HumanRole),
            AppErrorView,
        >((policy, role)),
        token_header(token) == Some((algorithm.spec_name(), kid)),
        role.validator.algorithms@.contains(algorithm),
        role.validator.keys_at_hand(now) matches Some(keys) && selected(keys, kid, algorithm)
            == Some(key),
        key_may_be_tried(key.document, algorithm.spec_name()),
        payload_problem(payload_claims(token), role_requirement(role.config)) is None,
        state.authorizes_human(app, repo, Some(token), now, outcome),
    ensures
        exists|at: u64|
            (outcome is Ok ==> is_alive_at(token, at)) && outcome == (if #[trigger] decodes_at(
                token,
                key.document,
                algorithm.spec_name(),
                seq![role.validator.issuer@],
                seq![role.validator.audience@],
                registered_claims(),
                at,
            ) {
                Ok::<(ScopeView, IdentityView), AppErrorView>(
                    (
                        ScopeView {
                            repositories: RepoScope::OnlyRequested,
                            permissions: policy.permissions@,
                        },
                        identity_of(policy, role.config, accepted_claims(payload_claims(token))),
                    ),
                )
            } else {
                Err(
                    AppErrorView::Unauthorized(
                        "token did not satisfy human-role '"@ + policy.human_role@
                            + "' for repository '"@ + repo + "'"@,
                    ),
                )
            }),
{
    let requirement = role_requirement(role.config);
    let validated = choose|validated: Result<HumanClaims, HumanTokenError>|
        {
            &&& role.validator.validates(token, requirement, now, validated)
            &&& outcome == #[trigger] human_outcome(policy, role.config, repo, validated)
        };
    let named = choose|named: Algorithm| #[trigger]
        named.spec_name() == algorithm.spec_name() && role.validator.validates_with(
            token,
            named,
            kid,
            requirement,
            now,
            validated,
        );
    algorithm_names_differ(named, algorithm);
    assert(role.validator.comes_to(token, key, algorithm, requirement, validated));
}

/// A person's request is not touched by whether authorization is switched off,
/// nor by the roles that GitHub Apps allow workloads.
pub proof fn people_have_no_way_round_their_token(
    state: AppState,
    other: AppState,
    app: Seq<char>,
    repo: Seq<char>,
    bearer_token: Option<Seq<char>>,
    now: u64,
    outcome: Result<(ScopeView, IdentityView), AppErrorView>,
)
    requires
        state.human_policies@ == other.human_policies@,
        state.human_roles@ == other.human_roles@,
    ensures
        state.authorizes_human(app, repo, bearer_token, now, outcome) == other.authorizes_human(
            app,
            repo,
            bearer_token,
            now,
            outcome,
        ),
        state.authorizes_human(app, repo, None, now, outcome) ==> outcome == Err::<
            (ScopeView, IdentityView),
            AppErrorView,
        >(AppErrorView::Unauthorized("missing Authorization header"@)),
{
    assert(state.human_route(app, repo, bearer_token) == other.human_route(
        app,
        repo,
        bearer_token,
    ));
}

/// A person's request for a repository without a policy is refused whatever the
/// token, which is not looked at.
pub proof fn wrong_repository_is_refused(
    state: AppState,
    app: Seq<char>,
    repo: Seq<char>,
    token: Seq<char>,
    now: u64,
    outcome: Result<(ScopeView, IdentityView), AppErrorView>,
)
    requires
        forall|i: int|
            0 <= i < state.human_policies@.len() ==> !is_human_policy_for(
                #[trigger] state.human_policies@[i],
                app,
                repo,
            ),
        state.authorizes_human(app, repo, Some(token), now, outcome),
    ensures
        outcome == Err::<(ScopeView, IdentityView), AppErrorView>(
            AppErrorView::Unauthorized(
                "no human-policy authorizes github-app '"@ + app + "' for repository '"@ + repo
                    + "'"@,
            ),
        ),
{
    if human_policies_for(state.human_policies@, app, repo).len() > 0 {
        human_policies_are_for_their_repository(state.human_policies@, app, repo, 0);
    }
}

/// A person's request that two policies are for is refused whatever the token:
/// it is not clear who approves it.
pub proof fn ambiguous_policies_are_refused(
    state: AppState,
    app: Seq<char>,
    repo: Seq<char>,
    bearer_token: Option<Seq<char>>,
    now: u64,
    outcome: Result<(ScopeView, IdentityView), AppErrorView>,
    i: int,
    j: int,
)
    requires
        0 <= i < j < state.human_policies@.len(),
        is_human_policy_for(state.human_policies@[i], app, repo),
        is_human_policy_for(state.human_policies@[j], app, repo),
        state.authorizes_human(app, repo, bearer_token, now, outcome),
    ensures
        outcome is Err,
        outcome->Err_0 is Unauthorized,
{
    two_human_policies_are_counted(state.human_policies@, app, repo, i, j);
}

/// Under a configuration that the broker starts with, no person's request is
/// refused because two policies are for it.
pub proof fn human_policies_are_not_ambiguous(
    config: Config,
    kms_supported: bool,
    app: Seq<char>,
    repo: Seq<char>,
)
    requires
        config.problem(false, kms_supported) is None,
    ensures
        human_policies_for(config.human_policies@, app, repo).len() <= 1,
{
    let policies = config.human_policies@;
    assert forall|i: int, j: int|
        0 <= i < j < policies.len() implies !(
    #[trigger] is_human_policy_for(policies[i], app, repo)
        && #[trigger] is_human_policy_for(policies[j], app, repo)) by {
        if is_human_policy_for(policies[i], app, repo) && is_human_policy_for(
            policies[j],
            app,
            repo,
        ) {
            human_policies_do_not_overlap(config, kms_supported, i, j);
        }
    }
    at_most_one_human_policy(policies, app, repo);
}

/// A single text in place of an array of roles never gets a person anything,
/// even where it spells the required role.
pub proof fn a_text_is_no_list_of_roles(
    payload: Map<Seq<char>, ClaimView>,
    requirement: HumanRequirement,
    text: Seq<char>,
)
    requires
        requirement.roles_claim != "sub"@,
        payload.contains_key(requirement.roles_claim),
        payload[requirement.roles_claim] == ClaimView::Text(text),
        claim_text(payload, "sub"@) is Some,
    ensures
        payload_problem(payload, requirement) == Some(
            HumanErrorView::RoleClaimNotAnArray { claim: requirement.roles_claim },
        ),
{
}

/// Two people, or one person under two access requests, are two requesters, and
/// neither is a workload.
pub proof fn people_are_told_apart(a: IdentityView, b: IdentityView)
    ensures
        ({
            let first = RequesterView::Person { subject: a.subject, request_id: a.request_id };
            let second = RequesterView::Person { subject: b.subject, request_id: b.request_id };
            &&& first == second ==> a.subject == b.subject && a.request_id == b.request_id
            &&& first != RequesterView::Workload
        }),
{
}

/// How an issuer's keys are retrieved. Keys that were fetched less than a
/// quarter of an hour ago (a minute ago, where new ones are asked for) are used
/// and no request is made. Otherwise one request is made: where it brings a key
/// set, that takes the place of what was kept, with the time of the request;
/// where it does not, the keys are unavailable, and neither the kept keys nor
/// their time change.
pub proof fn keys_are_retrieved(
    before: HumanTokenValidator,
    after: HumanTokenValidator,
    url: Seq<char>,
    force: bool,
    now: u64,
    fetched: Option<KeySet>,
    received_at: u64,
    outcome: Result<(), HumanTokenError>,
)
    requires
        before.source matches JwksSource::Http { url: source } && source@ == url,
        after.has_received(before, fetched, received_at, outcome),
    ensures
        before.jwks_step(force, now) == match before.cache {
            Some(cached) => if now - cached.fetched_at < (if force {
                JWKS_REFETCH_FLOOR
            } else {
                JWKS_CACHE_TTL
            }) {
                JwksStepView::Use(cached.jwks)
            } else {
                JwksStepView::Fetch(url)
            },
            None => JwksStepView::Fetch(url),
        },
        fetched matches Some(jwks) ==> {
            &&& outcome is Ok
            &&& after.jwks_step(force, received_at) == JwksStepView::Use(jwks)
            &&& after.cache == Some(CachedJwks { jwks, fetched_at: received_at })
        },
        fetched is None ==> {
            &&& outcome == Err::<(), HumanTokenError>(HumanTokenError::KeysUnavailable)
            &&& after.cache == before.cache
        },
        after.source == before.source,
        after.issuer == before.issuer,
        after.audience == before.audience,
        after.algorithms == before.algorithms,
{
}

/// A round of key retrieval ends: once the keys that a person's request asked
/// for have been received, the request asks for no more within the next minute,
/// whatever the keys are, and is decided.
pub proof fn key_rounds_end(
    before: AppState,
    after: AppState,
    app: Seq<char>,
    repo: Seq<char>,
    token: Seq<char>,
    now: u64,
    human_role: Seq<char>,
    url: Seq<char>,
    jwks: KeySet,
    received_at: u64,
    later: u64,
)
    requires
        before.next_key_step(app, repo, token, now) == (HumanKeyStepView::Fetch {
            human_role,
            url,
        }),
        after.has_received(before, human_role, Some(jwks), received_at),
        later < received_at + JWKS_REFETCH_FLOOR,
    ensures
        after.next_key_step(app, repo, token, later) is Decide,
        after.human_route(app, repo, Some(token)) is Ok,
{
}

/// The answer to a request for one issuer's keys leaves every other human role
/// as it was, and a request that failed leaves them all.
pub proof fn keys_are_received_by_one_role(
    before: AppState,
    after: AppState,
    human_role: Seq<char>,
    fetched: Option<KeySet>,
    now: u64,
)
    requires
        after.has_received(before, human_role, fetched, now),
    ensures
        after.human_roles@.dom() == before.human_roles@.dom(),
        fetched is None ==> after.human_roles@ == before.human_roles@,
        forall|other: Seq<char>| #[trigger]
            before.human_roles@.contains_key(other) && other != human_role
                ==> after.human_roles@[other] == before.human_roles@[other],
{
    assert(after.human_roles@.dom() =~= before.human_roles@.dom());
    if fetched is None {
        assert(after.human_roles@ =~= before.human_roles@);
    }
}

/// Under a configuration that the broker starts with, the human role of every
/// policy is known, so no person's request fails for want of it.
pub proof fn human_roles_of_policies_are_known(
    config: Config,
    kms_supported: bool,
    state: AppState,
    app: Seq<char>,
    repo: Seq<char>,
)
    requires
        config.problem(false, kms_supported) is None,
        state.human_policies@ == config.human_policies@,
        are_built_from(state.human_roles@, configs_by_name(config.human_roles@)),
    ensures
        human_policies_for(state.human_policies@, app, repo).len() > 0
            ==> state.human_roles@.contains_key(
            human_policies_for(state.human_policies@, app, repo)[0].human_role@,
        ),
{
    if human_policies_for(state.human_policies@, app, repo).len() > 0 {
        let policy = human_policies_for(state.human_policies@, app, repo)[0];
        human_policies_are_for_their_repository(state.human_policies@, app, repo, 0);
        let i = choose|i: int|
            0 <= i < config.human_policies@.len() && config.human_policies@[i] == policy;
        human_policies_are_exact(config, kms_supported, i);
        let k = choose|k: int|
            0 <= k < config.human_roles@.len() && (#[trigger] config.human_roles@[k]).name@
                == policy.human_role@;
        let named = config.human_roles@.map_values(
            |role: HumanRoleConfig| (role.name@, role),
        );
        assert(named[k].0 == policy.human_role@);
        map_of_has_keys(named, k);
    }
}

/// Under a configuration that the broker starts with, what it decides requests
/// by can be built.
pub proof fn startup_accepts_the_roles(config: Config, kms_supported: bool)
    requires
        config.problem(false, kms_supported) is None,
    ensures
        roles_problem(role_views(config.roles@)) is None,
{
}

/// A token for several repositories is granted only where a token for each of
/// them is.
pub proof fn several_repositories_are_each_authorized(
    state: AppState,
    app: GithubAppConfig,
    repositories: Seq<Seq<char>>,
    token: Option<Seq<char>>,
    requested: Option<Seq<(Seq<char>, Seq<char>)>>,
    granted: (Seq<Seq<char>>, Map<Seq<char>, Seq<char>>),
    i: int,
)
    requires
        state.grants_after(app, repositories, token, requested, Ok(granted)),
        0 <= i < repositories.len(),
    ensures
        granted.0 == repositories,
        exists|scope: ScopeView| #[trigger]
            state.authorizes(app, repositories[i], token, Ok(scope)),
{
    let outcome = Ok::<(Seq<Seq<char>>, Map<Seq<char>, Seq<char>>), AppErrorView>(granted);
    let decisions = choose|decisions: Seq<Result<ScopeView, AppErrorView>>|
        {
            &&& #[trigger] state.are_decisions(app, repositories, token, decisions)
            &&& outcome == decided(repositories, requested, decisions)
        };
    assert(decisions[i] is Ok);
    assert(state.authorizes(app, repositories[i], token, decisions[i]));
    let scope = decisions[i]->Ok_0;
    assert(decisions[i] == Ok::<ScopeView, AppErrorView>(scope));
}

/// A token that names its issuer by a text is never both a person's and a
/// workload's, where the two have different issuers.
pub proof fn people_and_workloads_do_not_mix(
    token: Seq<char>,
    human_issuer: Seq<char>,
    role: RoleView,
)
    requires
        claim_text(payload_claims(token), "iss"@) is Some,
        human_issuer != role.issuer,
    ensures
        !(claim_names(payload_claims(token), "iss"@, human_issuer) && role.admits(token)),
{
}

/// Fetched keys that are older than a quarter of an hour get nobody in: a token
/// is not validated with them.
pub proof fn stale_keys_are_not_used(
    validator: HumanTokenValidator,
    token: Seq<char>,
    requirement: HumanRequirement,
    now: u64,
    outcome: Result<HumanClaims, HumanTokenError>,
)
    requires
        validator.source is Http,
        validator.cache matches Some(cached) ==> now >= cached.fetched_at + JWKS_CACHE_TTL,
        validator.validates(token, requirement, now, outcome),
    ensures
        outcome is Err,
{
}

} // verus!
