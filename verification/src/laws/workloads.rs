//! What workloads get, over the fields of the configuration.
use crate::access::bearer_token_of;
use crate::algorithm::Algorithm;
use crate::claims::{claim_text, payload_claims, token_header, ClaimView};
use crate::config::{GithubAppConfig, InstallationPolicyConfig};
use crate::error::AppErrorView;
use crate::glob::glob_matches;
use crate::laws::{
    may_be_refused, met_policies_grant, rests_on_the_token, workload_grants_are_backed,
};
use crate::roles::{accepts_at, decides, ed_key_size, RequirementView, RoleView};
use crate::service::{
    have_common, policy_applies, request_claims, workload_scope, AppState, RepoScope, ScopeView,
};
use crate::text::texts;
use crate::validation::first_app;
use vstd::prelude::*;

verus! {

/// A requirement is met by a claim that is there, is text, and is one of the
/// texts that the requirement names, and by no other.
pub proof fn requirements_are_met_by_their_texts(
    claims: Map<Seq<char>, ClaimView>,
    claim: Seq<char>,
    value: Seq<char>,
    values: Seq<Seq<char>>,
)
    ensures
        RequirementView::Equals(value).accepts(claim_text(claims, claim)) <==> claims.contains_key(
            claim,
        ) && claims[claim] == ClaimView::Text(value),
        RequirementView::AnyOf(values).accepts(claim_text(claims, claim)) <==> claims.contains_key(
            claim,
        ) && (claims[claim] matches ClaimView::Text(text) && values.contains(text)),
        RequirementView::Detailed(values).accepts(claim_text(claims, claim))
            <==> claims.contains_key(claim) && (claims[claim] matches ClaimView::Text(text)
            && values.contains(text)),
{
    let one = seq![value];
    assert(one[0] == value);
    assert(RequirementView::Equals(value).acceptable() =~= one);
}

/// An installation policy backs a grant only where it is for the requested
/// GitHub App by name and one of its patterns matches the repository. The grant
/// is then for the requested repository alone, with the policy's permissions.
/// The token meets every claim that the policy requires, comes from the
/// requested repository where the policy allows self-access, and meets every
/// claim of the policy's role that the policy does not require otherwise; its
/// header names an algorithm of the role. Anything else that is granted is the
/// whole installation, to a role that the GitHub App allows.
pub proof fn policies_grant_for_their_own_app(
    state: AppState,
    app: GithubAppConfig,
    repo: Seq<char>,
    bearer_token: Option<Seq<char>>,
    scope: ScopeView,
)
    requires
        state.token_validator.roles() is Some,
        state.authorizes(app, repo, bearer_token, Ok(scope)),
    ensures
        bearer_token is Some,
        ({
            let token = bearer_token->Some_0;
            let claims = payload_claims(token);
            let roles = state.token_validator.roles()->Some_0;
            ||| {
                &&& scope.repositories == RepoScope::All
                &&& scope.permissions == Map::<Seq<char>, Seq<char>>::empty()
                &&& exists|k: int|
                    {
                        let role = app.allowed_roles@[k]@;
                        &&& 0 <= k < app.allowed_roles@.len()
                        &&& roles.contains_key(#[trigger] app.allowed_roles@[k]@)
                        &&& forall|claim: Seq<char>| #[trigger]
                            roles[role].required().contains_key(claim)
                                ==> roles[role].required()[claim].accepts(
                                claim_text(claims, claim),
                            )
                        &&& token_header(token) matches Some((name, _)) && exists|a: int|
                            0 <= a < roles[role].algorithms.len()
                                && (#[trigger] roles[role].algorithms[a]).spec_name() == name
                    }
            }
            ||| exists|i: int|
                {
                    let policy = state.installation_policies@[i];
                    let role = roles[policy.role@];
                    &&& 0 <= i < state.installation_policies@.len()
                    &&& (#[trigger] state.installation_policies@[i]).github_app@ == app.name@
                    &&& exists|k: int|
                        0 <= k < policy.repositories@.len() && glob_matches(
                            #[trigger] policy.repositories@[k]@,
                            repo,
                        )
                    &&& scope.repositories == RepoScope::OnlyRequested
                    &&& scope.permissions == policy.permissions@
                    &&& roles.contains_key(policy.role@)
                    &&& policy.allow_self_access ==> claims.contains_key("repository"@)
                        && claims["repository"@] == ClaimView::Text(repo)
                    &&& forall|claim: Seq<char>| #[trigger]
                        policy.required_claims@.contains_key(claim) && !(policy.allow_self_access
                            && claim == "repository"@) ==> policy.required_claims@[claim].accepts(
                            claim_text(claims, claim),
                        )
                    &&& forall|claim: Seq<char>| #[trigger]
                        role.required().contains_key(claim)
                            && !policy.required_claims@.contains_key(claim)
                            && !(policy.allow_self_access && claim == "repository"@)
                            ==> role.required()[claim].accepts(claim_text(claims, claim))
                    &&& token_header(token) matches Some((name, _)) && exists|a: int|
                        0 <= a < role.algorithms.len() && (#[trigger] role.algorithms[a]).spec_name()
                            == name
                }
        }),
{
    workload_grants_are_backed(state, app, repo, bearer_token, scope);
    let token = bearer_token->Some_0;
    let claims = payload_claims(token);
    let roles = state.token_validator.roles()->Some_0;
    if scope == ScopeView::broad() && exists|role: Seq<char>| #[trigger]
        texts(app.allowed_roles@).contains(role) && roles.contains_key(role)
            && roles[role].admits(token) {
        let role = choose|role: Seq<char>| #[trigger]
            texts(app.allowed_roles@).contains(role) && roles.contains_key(role)
                && roles[role].admits(token);
        let k = choose|k: int|
            0 <= k < texts(app.allowed_roles@).len() && texts(app.allowed_roles@)[k] == role;
        assert(app.allowed_roles@[k]@ == role);
    } else {
        let i = choose|i: int|
            0 <= i < state.installation_policies@.len() && policy_applies(
                #[trigger] state.installation_policies@[i],
                app.name@,
                repo,
            ) && state.policy_admits(i, repo, token) && scope == (ScopeView {
                repositories: RepoScope::OnlyRequested,
                permissions: state.installation_policies@[i].permissions@,
            });
        let policy = state.installation_policies@[i];
        let role = roles[policy.role@];
        let required = role.required().union_prefer_right(request_claims(policy, repo));
        assert forall|claim: Seq<char>| #[trigger]
            policy.required_claims@.contains_key(claim) && !(policy.allow_self_access && claim
                == "repository"@) implies policy.required_claims@[claim].accepts(
            claim_text(claims, claim),
        ) by {
            assert(required.contains_key(claim));
        }
        assert forall|claim: Seq<char>| #[trigger]
            role.required().contains_key(claim) && !policy.required_claims@.contains_key(claim)
                && !(policy.allow_self_access && claim
                == "repository"@) implies role.required()[claim].accepts(
            claim_text(claims, claim),
        ) by {
            assert(required.contains_key(claim));
        }
        if policy.allow_self_access {
            assert(required.contains_key("repository"@));
            assert(required["repository"@] == RequirementView::Equals(repo));
            requirements_are_met_by_their_texts(claims, "repository"@, repo, Seq::empty());
        }
        assert(state.installation_policies@[i].github_app@ == app.name@);
    }
}

/// A request for a GitHub App that allows no role, where no installation policy
/// names the GitHub App with a pattern for the repository, is refused whatever
/// the token, with a text that names both. So is a request without a token.
pub proof fn apps_without_policies_refuse(
    state: AppState,
    app: GithubAppConfig,
    repo: Seq<char>,
    bearer_token: Option<Seq<char>>,
    outcome: Result<ScopeView, AppErrorView>,
)
    requires
        state.token_validator.roles() is Some,
        state.authorizes(app, repo, bearer_token, outcome),
    ensures
        bearer_token is None ==> outcome == Err::<ScopeView, AppErrorView>(
            AppErrorView::Unauthorized("missing Authorization header"@),
        ),
        bearer_token is Some && app.allowed_roles@.len() == 0 && (forall|i: int, k: int|
            0 <= i < state.installation_policies@.len() && 0 <= k
                < state.installation_policies@[i].repositories@.len()
                && state.installation_policies@[i].github_app@ == app.name@ ==> !glob_matches(
                #[trigger] state.installation_policies@[i].repositories@[k]@,
                repo,
            )) ==> outcome == Err::<ScopeView, AppErrorView>(
            AppErrorView::Unauthorized(
                "source token did not match any allowed role for github-app '"@ + app.name@
                    + "' and repository '"@ + repo + "'"@,
            ),
        ),
        outcome matches Err(error) ==> error is Unauthorized,
{
    if bearer_token is Some {
        if outcome is Ok {
            policies_grant_for_their_own_app(state, app, repo, bearer_token, outcome->Ok_0);
        }
        assert(texts(app.allowed_roles@).len() == app.allowed_roles@.len());
    }
}

/// Where authorization is switched off every request gets the whole
/// installation.
pub proof fn switched_off_authorization_grants_everything(
    state: AppState,
    app: GithubAppConfig,
    repo: Seq<char>,
    bearer_token: Option<Seq<char>>,
    outcome: Result<ScopeView, AppErrorView>,
)
    requires
        state.token_validator.roles() is None,
        state.authorizes(app, repo, bearer_token, outcome),
    ensures
        outcome matches Ok(scope) && scope.repositories == RepoScope::All && scope.permissions
            == Map::<Seq<char>, Seq<char>>::empty(),
{
}

/// A policy whose GitHub App is the requested one by name, and of whose
/// patterns one matches the repository, is not passed over: where nothing but
/// time stands in the way of its token, the request is granted, and by no later
/// policy.
pub proof fn policies_for_the_app_are_not_passed_over(
    state: AppState,
    app: GithubAppConfig,
    repo: Seq<char>,
    token: Seq<char>,
    i: int,
    k: int,
    outcome: Result<ScopeView, AppErrorView>,
)
    requires
        state.token_validator.roles() is Some,
        0 <= i < state.installation_policies@.len(),
        state.installation_policies@[i].github_app@ == app.name@,
        0 <= k < state.installation_policies@[i].repositories@.len(),
        glob_matches(state.installation_policies@[i].repositories@[k]@, repo),
        rests_on_the_token(state, i, repo, token),
        state.authorizes(app, repo, Some(token), outcome),
    ensures
        may_be_refused(state, i, repo, token) || (outcome matches Ok(scope) && {
            ||| scope.repositories == RepoScope::All && scope.permissions == Map::<
                Seq<char>,
                Seq<char>,
            >::empty()
            ||| exists|j: int|
                {
                    &&& 0 <= j <= i
                    &&& (#[trigger] state.installation_policies@[j]).github_app@ == app.name@
                    &&& scope.repositories == RepoScope::OnlyRequested
                    &&& scope.permissions == state.installation_policies@[j].permissions@
                }
        }),
{
    met_policies_grant(state, app, repo, token, i, outcome);
    if !may_be_refused(state, i, repo, token) && outcome != Ok::<ScopeView, AppErrorView>(
        ScopeView::broad(),
    ) {
        let j = choose|j: int|
            {
                &&& 0 <= j <= i
                &&& policy_applies(#[trigger] state.installation_policies@[j], app.name@, repo)
                &&& outcome == Ok::<ScopeView, AppErrorView>(
                    ScopeView {
                        repositories: RepoScope::OnlyRequested,
                        permissions: state.installation_policies@[j].permissions@,
                    },
                )
            };
        assert(state.installation_policies@[j].github_app@ == app.name@);
    }
}

/// How the decision is taken, once it is known which roles the token stands for
/// and which policies it meets: a role that the GitHub App allows gets the whole
/// installation; without one, the first of the policies for the GitHub App and
/// the repository that is met grants its permissions; without one, the request
/// is refused.
pub proof fn the_first_policy_that_is_met_decides(
    policies: Seq<InstallationPolicyConfig>,
    app: GithubAppConfig,
    repo: Seq<char>,
    roles: Seq<Seq<char>>,
    accepted: Seq<bool>,
    i: int,
    k: int,
)
    requires
        accepted.len() == policies.len(),
    ensures
        (exists|a: int, b: int|
            0 <= a < roles.len() && 0 <= b < app.allowed_roles@.len() && #[trigger] roles[a]
                == #[trigger] app.allowed_roles@[b]@) ==> (workload_scope(
            policies,
            app,
            repo,
            roles,
            accepted,
        ) matches Ok(scope) && scope.repositories == RepoScope::All && scope.permissions == Map::<
            Seq<char>,
            Seq<char>,
        >::empty()),
        ({
            &&& forall|a: int, b: int|
                0 <= a < roles.len() && 0 <= b < app.allowed_roles@.len() ==> #[trigger] roles[a]
                    != #[trigger] app.allowed_roles@[b]@
            &&& 0 <= i < policies.len()
            &&& accepted[i]
            &&& policies[i].github_app@ == app.name@
            &&& 0 <= k < policies[i].repositories@.len()
            &&& glob_matches(policies[i].repositories@[k]@, repo)
            &&& forall|j: int|
                0 <= j < i ==> !(#[trigger] accepted[j]) || policies[j].github_app@ != app.name@
                    || forall|m: int|
                    0 <= m < policies[j].repositories@.len() ==> !glob_matches(
                        #[trigger] policies[j].repositories@[m]@,
                        repo,
                    )
        }) ==> workload_scope(policies, app, repo, roles, accepted) == Ok::<
            ScopeView,
            AppErrorView,
        >(
            ScopeView {
                repositories: RepoScope::OnlyRequested,
                permissions: policies[i].permissions@,
            },
        ),
{
    let allowed = texts(app.allowed_roles@);
    if exists|a: int, b: int|
        0 <= a < roles.len() && 0 <= b < app.allowed_roles@.len() && #[trigger] roles[a]
            == #[trigger] app.allowed_roles@[b]@ {
        let (a, b) = choose|a: int, b: int|
            0 <= a < roles.len() && 0 <= b < app.allowed_roles@.len() && #[trigger] roles[a]
                == #[trigger] app.allowed_roles@[b]@;
        assert(allowed[b] == roles[a]);
        assert(allowed.contains(roles[a]));
        assert(have_common(roles, allowed));
    } else {
        if have_common(roles, allowed) {
            let a = choose|a: int| 0 <= a < roles.len() && allowed.contains(#[trigger] roles[a]);
            let b = choose|b: int| 0 <= b < allowed.len() && allowed[b] == roles[a];
            assert(app.allowed_roles@[b]@ == roles[a]);
        }
        if 0 <= i < policies.len() && accepted[i] && policy_applies(policies[i], app.name@, repo)
            && (forall|j: int|
            0 <= j < i ==> !(#[trigger] accepted[j]) || !policy_applies(
                policies[j],
                app.name@,
                repo,
            )) {
            first_grant_is_found(policies, accepted, app.name@, repo, 0, i);
        }
    }
}

proof fn first_grant_is_found(
    policies: Seq<InstallationPolicyConfig>,
    accepted: Seq<bool>,
    app: Seq<char>,
    repo: Seq<char>,
    from: int,
    i: int,
)
    requires
        0 <= from <= i < policies.len(),
        accepted.len() == policies.len(),
        accepted[i],
        policy_applies(policies[i], app, repo),
        forall|j: int|
            0 <= j < i ==> !(#[trigger] accepted[j]) || !policy_applies(policies[j], app, repo),
    ensures
        crate::service::granting_policy(policies, accepted, app, repo, from) == Some(policies[i]),
    decreases i - from,
{
    if from < i {
        assert(!accepted[from] || !policy_applies(policies[from], app, repo));
        first_grant_is_found(policies, accepted, app, repo, from + 1, i);
    }
}

/// A GitHub App is found by its exact name, the first of the list with it; it
/// is not found where none has the name.
pub proof fn apps_are_found_by_exact_name(
    apps: Seq<GithubAppConfig>,
    name: Seq<char>,
    i: int,
)
    ensures
        first_app(apps, name) is None <==> forall|k: int|
            0 <= k < apps.len() ==> (#[trigger] apps[k]).name@ != name,
        0 <= i < apps.len() && apps[i].name@ == name && (forall|k: int|
            0 <= k < i ==> (#[trigger] apps[k]).name@ != name) ==> first_app(apps, name) == Some(
            apps[i],
        ),
        first_app(apps, name) matches Some(app) ==> app.name@ == name && apps.contains(app),
    decreases apps.len(),
{
    if apps.len() > 0 {
        let rest = apps.skip(1);
        apps_are_found_by_exact_name(rest, name, i - 1);
        assert(forall|k: int| 0 <= k < rest.len() ==> rest[k] == apps[k + 1]);
        if apps[0].name@ != name {
            if first_app(rest, name) is None {
                assert forall|k: int| 0 <= k < apps.len() implies (#[trigger] apps[k]).name@
                    != name by {
                    if k > 0 {
                        assert(rest[k - 1].name@ != name);
                    }
                }
            } else {
                let app = first_app(rest, name)->Some_0;
                let k = choose|k: int| 0 <= k < rest.len() && rest[k] == app;
                assert(apps[k + 1] == app);
            }
            if forall|k: int| 0 <= k < apps.len() ==> (#[trigger] apps[k]).name@ != name {
                assert forall|k: int| 0 <= k < rest.len() implies (#[trigger] rest[k]).name@
                    != name by {
                    assert(apps[k + 1].name@ != name);
                }
            }
            if 0 < i < apps.len() && (forall|k: int|
                0 <= k < i ==> (#[trigger] apps[k]).name@ != name) {
                assert forall|k: int| 0 <= k < i - 1 implies (#[trigger] rest[k]).name@ != name by {
                    assert(apps[k + 1].name@ != name);
                }
            }
        } else {
            assert(apps[0].name@ == name);
            if i > 0 && (forall|k: int| 0 <= k < i ==> (#[trigger] apps[k]).name@ != name) {
                assert(apps[0].name@ != name);
            }
        }
    }
}

/// A request for one repository is decided for the GitHub App of the requested
/// name and with the token of the request's own header.
pub proof fn requests_are_decided_for_the_named_app(
    state: AppState,
    app_name: Seq<char>,
    repo: Seq<char>,
    authorization: Option<Seq<u8>>,
    outcome: Result<(GithubAppConfig, ScopeView), AppErrorView>,
)
    requires
        state.grants_repository(app_name, repo, authorization, outcome),
    ensures
        outcome matches Ok((app, scope)) ==> {
            &&& app.name@ == app_name
            &&& state.github_apps@.contains(app)
            &&& match bearer_token_of(authorization) {
                Ok(token) => state.authorizes(app, repo, Some(token), Ok(scope)),
                Err(_) => state.token_validator.roles() is None && state.authorizes(
                    app,
                    repo,
                    None,
                    Ok(scope),
                ),
            }
        },
        state.token_validator.roles() is Some && bearer_token_of(authorization) is Err
            ==> outcome == Err::<(GithubAppConfig, ScopeView), AppErrorView>(
            AppErrorView::Unauthorized(bearer_token_of(authorization)->Err_0),
        ),
        bearer_token_of(authorization) is Ok && (forall|k: int|
            0 <= k < state.github_apps@.len() ==> (#[trigger] state.github_apps@[k]).name@
                != app_name) ==> outcome == Err::<(GithubAppConfig, ScopeView), AppErrorView>(
            AppErrorView::NotFound("unknown github_app '"@ + app_name + "'"@),
        ),
{
    apps_are_found_by_exact_name(state.github_apps@, app_name, 0);
}

/// A header gives a bearer token exactly where its bytes are `Bearer `, a
/// space included, and the token: one character or more, each of them visible
/// ASCII, a space or a tab.
pub proof fn bearer_tokens_follow_their_scheme(
    value: Seq<u8>,
    token: Seq<char>,
)
    ensures
        bearer_token_of(Some(value)) == Ok::<Seq<char>, Seq<char>>(token) <==> {
            &&& token.len() > 0
            &&& value.len() == 7 + token.len()
            &&& forall|i: int|
                0 <= i < value.len() ==> (32 <= #[trigger] value[i] && value[i] <= 126)
                    || value[i] == 9
            &&& forall|i: int| 0 <= i < value.len() ==> #[trigger] value[i] as char == ("Bearer "@
                + token)[i]
        },
        bearer_token_of(None) == Err::<Seq<char>, Seq<char>>("missing Authorization header"@),
        (exists|i: int|
            0 <= i < value.len() && ((#[trigger] value[i] < 32 && value[i] != 9) || value[i]
                >= 127)) ==> bearer_token_of(Some(value)) == Err::<Seq<char>, Seq<char>>(
            "invalid Authorization header"@,
        ),
        value.len() == 0 ==> bearer_token_of(Some(value)) == Err::<Seq<char>, Seq<char>>(
            "expected a Bearer token"@,
        ),
        (value.len() == 7 && forall|i: int|
            0 <= i < value.len() ==> #[trigger] value[i] as char == "Bearer "@[i])
            ==> bearer_token_of(Some(value)) == Err::<Seq<char>, Seq<char>>("empty bearer token"@),
{
    reveal_strlit("Bearer ");
    let scheme = "Bearer "@;
    let text = crate::access::ascii_text(value);
    assert(text.len() == value.len());
    assert(forall|i: int| 0 <= i < value.len() ==> text[i] == #[trigger] value[i] as char);
    if bearer_token_of(Some(value)) == Ok::<Seq<char>, Seq<char>>(token) {
        assert(text =~= scheme + token);
        assert forall|i: int| 0 <= i < value.len() implies (32 <= #[trigger] value[i] && value[i]
            <= 126) || value[i] == 9 by {
            assert(crate::access::is_visible(value[i]));
        }
    }
    if token.len() > 0 && value.len() == 7 + token.len() && (forall|i: int|
        0 <= i < value.len() ==> (32 <= #[trigger] value[i] && value[i] <= 126) || value[i] == 9)
        && (forall|i: int| 0 <= i < value.len() ==> #[trigger] value[i] as char == (scheme
        + token)[i]) {
        assert(text =~= scheme + token);
        assert(scheme.is_prefix_of(text));
        assert(text.skip(7) =~= token);
    }
    if value.len() == 7 && forall|i: int|
        0 <= i < value.len() ==> #[trigger] value[i] as char == scheme[i] {
        assert(text =~= scheme);
        assert forall|i: int| 0 <= i < value.len() implies crate::access::is_visible(
            #[trigger] value[i],
        ) by {
            assert(value[i] as char == scheme[i]);
        }
    }
}

/// What a policy requires of a request's token: the claims that it names, each
/// as it says, and where it allows self-access that the token come from the
/// requested repository; nothing else.
pub proof fn policies_require_what_they_name(
    policy: InstallationPolicyConfig,
    repo: Seq<char>,
    claim: Seq<char>,
)
    ensures
        !policy.allow_self_access ==> request_claims(policy, repo) == policy.required_claims@,
        policy.allow_self_access ==> {
            &&& request_claims(policy, repo).contains_key("repository"@)
            &&& request_claims(policy, repo)["repository"@] == RequirementView::Equals(repo)
        },
        claim != "repository"@ ==> {
            &&& request_claims(policy, repo).contains_key(claim)
                == policy.required_claims@.contains_key(claim)
            &&& policy.required_claims@.contains_key(claim) ==> request_claims(policy, repo)[claim]
                == policy.required_claims@[claim]
        },
{
}

/// A role that is held against a token with further requirements is the role
/// itself in everything but its claims; each further requirement takes the place
/// of the role's own for its claim, and the others stay.
pub proof fn strict_roles_keep_the_role(
    strict: RoleView,
    role: RoleView,
    further: Map<Seq<char>, RequirementView>,
    claim: Seq<char>,
)
    requires
        strict.is_strict_form_of(role, further),
    ensures
        strict.name == role.name,
        strict.audience == role.audience,
        strict.issuer == role.issuer,
        strict.validation_key == role.validation_key,
        strict.algorithms == role.algorithms,
        strict.required().contains_key(claim) <==> role.required().contains_key(claim)
            || further.contains_key(claim),
        further.contains_key(claim) ==> strict.required()[claim] == further[claim],
        role.required().contains_key(claim) && !further.contains_key(claim)
            ==> strict.required()[claim] == role.required()[claim],
{
}

/// Every token but an EdDSA one may be held against every role, and so may an
/// EdDSA token against a role that does not allow EdDSA or whose key is of 32
/// bytes or more.
pub proof fn tokens_are_held_against_roles(role: RoleView, token: Seq<char>)
    ensures
        token_header(token) is None ==> role.may_be_tried_on(token),
        (token_header(token) matches Some((name, _)) && name != "EdDSA"@) ==> role.may_be_tried_on(
            token,
        ),
        !role.algorithms.contains(Algorithm::EdDSA) ==> role.may_be_tried_on(token),
        (role.validation_key matches Some(key) && (ed_key_size(key) matches Some(size) ==> size
            >= 32)) ==> role.may_be_tried_on(token),
        ((token_header(token) matches Some((name, _)) && name == "EdDSA"@)
            && role.algorithms.contains(Algorithm::EdDSA) && role.may_be_tried_on(token)) ==> (
        role.validation_key matches Some(key) && (ed_key_size(key) matches Some(size) ==> size
            >= 32)),
{
}

/// What is granted rests on what `authzoo` accepted. Where a grant is the whole
/// installation by a role with a validation key, there is a time at which the
/// token was accepted for that role; where it is a policy's, and the policy's
/// role has a validation key, there is a time at which it was accepted for the
/// role with the policy's requirements.
pub proof fn grants_rest_on_acceptance(
    state: AppState,
    app: GithubAppConfig,
    repo: Seq<char>,
    token: Seq<char>,
    scope: ScopeView,
)
    requires
        state.token_validator.roles() is Some,
        state.authorizes(app, repo, Some(token), Ok(scope)),
    ensures
        ({
            let roles = state.token_validator.roles()->Some_0;
            ||| scope.repositories == RepoScope::All && exists|k: int|
                {
                    let role = roles[app.allowed_roles@[k]@];
                    &&& 0 <= k < app.allowed_roles@.len()
                    &&& roles.contains_key(#[trigger] app.allowed_roles@[k]@)
                    &&& role.validation_key is Some ==> exists|now: u64| #[trigger]
                        accepts_at(role, token, now)
                }
            ||| scope.repositories == RepoScope::OnlyRequested && exists|i: int|
                {
                    &&& 0 <= i < state.installation_policies@.len()
                    &&& (#[trigger] state.installation_policies@[i]).github_app@ == app.name@
                    &&& scope.permissions == state.installation_policies@[i].permissions@
                    &&& roles.contains_key(state.installation_policies@[i].role@)
                    &&& exists|strict: RoleView|
                        {
                            &&& #[trigger] strict.is_strict_form_of(
                                roles[state.installation_policies@[i].role@],
                                request_claims(state.installation_policies@[i], repo),
                            )
                            &&& strict.problem() is None
                            &&& strict.validation_key is Some ==> exists|now: u64| #[trigger]
                                accepts_at(strict, token, now)
                        }
                }
        }),
{
    let roles = state.token_validator.roles()->Some_0;
    let policies = state.installation_policies@;
    let outcome = Ok::<ScopeView, AppErrorView>(scope);
    let (matching, accepted) = choose|matching: Seq<Seq<char>>, accepted: Seq<bool>|
        {
            &&& state.roles_decided(matching, token)
            &&& accepted.len() == state.installation_policies@.len()
            &&& have_common(matching, texts(app.allowed_roles@)) || forall|i: int|
                0 <= i < accepted.len() ==> #[trigger] state.policy_decided(
                    i,
                    app.name@,
                    repo,
                    token,
                    accepted,
                )
            &&& outcome == #[trigger] workload_scope(
                state.installation_policies@,
                app,
                repo,
                matching,
                accepted,
            )
        };
    if have_common(matching, texts(app.allowed_roles@)) {
        let m = choose|m: int|
            0 <= m < matching.len() && texts(app.allowed_roles@).contains(#[trigger] matching[m]);
        let name = matching[m];
        let k = choose|k: int|
            0 <= k < texts(app.allowed_roles@).len() && texts(app.allowed_roles@)[k] == name;
        assert(app.allowed_roles@[k]@ == name);
        assert(roles.contains_key(name));
        assert(matching.contains(name));
        assert(decides(matching.contains(name), roles[name], token));
    } else {
        let i = crate::laws::granting_policy_applies(state, accepted, app.name@, repo, 0);
        assert(state.policy_decided(i, app.name@, repo, token, accepted));
        let policy = policies[i];
        let strict = choose|strict: RoleView|
            {
                &&& #[trigger] strict.is_strict_form_of(
                    roles[policy.role@],
                    request_claims(policy, repo),
                )
                &&& if strict.problem() is Some {
                    !accepted[i]
                } else {
                    decides(accepted[i], strict, token)
                }
            };
        assert(strict.is_strict_form_of(roles[policy.role@], request_claims(policy, repo)));
        assert(state.installation_policies@[i].github_app@ == app.name@);
    }
}

/// A request for one repository that is refused, though it has a token and names
/// a GitHub App, is refused by the decision on it.
pub proof fn refusals_are_decided(
    state: AppState,
    app_name: Seq<char>,
    repo: Seq<char>,
    authorization: Option<Seq<u8>>,
    error: AppErrorView,
    i: int,
)
    requires
        state.grants_repository(app_name, repo, authorization, Err(error)),
        bearer_token_of(authorization) is Ok,
        0 <= i < state.github_apps@.len(),
        state.github_apps@[i].name@ == app_name,
        forall|k: int| 0 <= k < i ==> (#[trigger] state.github_apps@[k]).name@ != app_name,
    ensures
        state.authorizes(
            state.github_apps@[i],
            repo,
            Some(bearer_token_of(authorization)->Ok_0),
            Err(error),
        ),
{
    apps_are_found_by_exact_name(state.github_apps@, app_name, i);
}

/// The algorithms go by their registered names.
pub proof fn algorithms_go_by_their_names(algorithm: Algorithm)
    ensures
        algorithm is HS256 ==> algorithm.spec_name() == "HS256"@,
        algorithm is HS384 ==> algorithm.spec_name() == "HS384"@,
        algorithm is HS512 ==> algorithm.spec_name() == "HS512"@,
        algorithm is RS256 ==> algorithm.spec_name() == "RS256"@,
        algorithm is RS384 ==> algorithm.spec_name() == "RS384"@,
        algorithm is RS512 ==> algorithm.spec_name() == "RS512"@,
        algorithm is PS256 ==> algorithm.spec_name() == "PS256"@,
        algorithm is PS384 ==> algorithm.spec_name() == "PS384"@,
        algorithm is PS512 ==> algorithm.spec_name() == "PS512"@,
        algorithm is ES256 ==> algorithm.spec_name() == "ES256"@,
        algorithm is ES384 ==> algorithm.spec_name() == "ES384"@,
        algorithm is EdDSA ==> algorithm.spec_name() == "EdDSA"@,
        algorithm.shares_its_key() <==> algorithm is HS256 || algorithm is HS384
            || algorithm is HS512,
{
}

} // verus!
