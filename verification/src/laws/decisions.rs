//! What the broker's decisions return, over their arguments and results.
use crate::access::{bearer_token_of, extract_bearer_token, RepositoriesGrant};
use crate::algorithm::Algorithm;
use crate::claims::{claim_text, is_alive_at, payload_claims, token_header, ClaimView};
use crate::config::{GithubAppConfig, HumanPolicyConfig, HumanRoleConfig};
use crate::error::{AppError, AppErrorView};
use crate::glob::glob_matches;
use crate::human::{claim_names, decodes_at, registered_claims, HumanClaims, HumanTokenError};
use crate::jwks::{key_size, selected, KeyView};
use crate::laws::people::{
    keys_may_be_tried, one_policy_decides, payloads_hold_the_role_and_every_claim,
    people_meet_every_configured_claim, refused_people_are_told_no_details,
};
use crate::laws::requests::{
    levels_go_from_read_to_admin, lists_of_repositories_in_order,
    requested_permissions_are_granted_whole, several_repositories_are_granted_whole,
    unrequested_permissions_are_those_of_the_policies,
};
use crate::laws::workloads::{
    apps_are_found_by_exact_name, apps_without_policies_refuse, bearer_tokens_follow_their_scheme,
    policies_grant_for_their_own_app, requests_are_decided_for_the_named_app,
    switched_off_authorization_grants_everything, the_first_policy_that_is_met_decides,
};
use crate::requests::{
    permission_level_is_at_most, scope_views, select_multiple_repository_permissions,
    validate_repository_names,
};
use crate::service::{
    answer_human, outcome_view, AppState, HumanIdentity, HumanRole, RepoScope, ScopeView,
    TokenScope,
};
use crate::string_map::{sorted_by_key, StringMap};
use crate::text::texts;
use vstd::prelude::*;

verus! {

/// What a workload is answered. A policy grants only for the GitHub App that it
/// names and a repository that one of its patterns matches, its own permissions
/// on that repository, and to tokens that meet what it requires. Everything else
/// that is granted is the whole installation: where authorization is switched
/// off, or to a role that the GitHub App allows. Everything else is refused as
/// unauthorized.
pub proof fn workloads_are_answered(
    state: AppState,
    app: GithubAppConfig,
    repo: &str,
    bearer_token: Option<&str>,
    r: Result<TokenScope, AppError>,
    claim: Seq<char>,
)
    requires
        call_ensures(AppState::authorize_github_app, (&state, &app, repo, bearer_token), r),
    ensures
        r matches Ok(scope) ==> {
            ||| scope.repositories == RepoScope::All && scope.permissions@ == Map::<
                Seq<char>,
                Seq<char>,
            >::empty() && state.token_validator.roles() is None
            ||| scope.repositories == RepoScope::All && scope.permissions@ == Map::<
                Seq<char>,
                Seq<char>,
            >::empty() && bearer_token is Some && app.allowed_roles@.len() > 0
            ||| scope.repositories == RepoScope::OnlyRequested && bearer_token is Some && exists|
                i: int,
            |
                {
                    let policy = state.installation_policies@[i];
                    let claims = payload_claims(bearer_token->Some_0@);
                    &&& 0 <= i < state.installation_policies@.len()
                    &&& (#[trigger] state.installation_policies@[i]).github_app@ == app.name@
                    &&& exists|k: int|
                        0 <= k < policy.repositories@.len() && glob_matches(
                            #[trigger] policy.repositories@[k]@,
                            repo@,
                        )
                    &&& scope.permissions@ == policy.permissions@
                    &&& policy.allow_self_access ==> claims.contains_key("repository"@)
                        && claims["repository"@] == ClaimView::Text(repo@)
                    &&& policy.required_claims@.contains_key(claim) && !(policy.allow_self_access
                        && claim == "repository"@) ==> policy.required_claims@[claim].accepts(
                        claim_text(claims, claim),
                    )
                }
        },
        state.token_validator.roles() is None ==> r is Ok,
        r matches Err(error) ==> error is Unauthorized,
        state.token_validator.roles() is Some && bearer_token is None ==> (r matches Err(
            AppError::Unauthorized(text),
        ) && text@ == "missing Authorization header"@),
        state.token_validator.roles() is Some && bearer_token is Some && app.allowed_roles@.len()
            == 0 && (forall|i: int, k: int|
            0 <= i < state.installation_policies@.len() && 0 <= k
                < state.installation_policies@[i].repositories@.len()
                && state.installation_policies@[i].github_app@ == app.name@ ==> !glob_matches(
                #[trigger] state.installation_policies@[i].repositories@[k]@,
                repo@,
            )) ==> (r matches Err(AppError::Unauthorized(text)) && text@
            == "source token did not match any allowed role for github-app '"@ + app.name@
            + "' and repository '"@ + repo@ + "'"@),
{
    let token = match bearer_token {
        Some(token) => Some(token@),
        None => None,
    };
    let outcome = outcome_view(r);
    if state.token_validator.roles() is None {
        switched_off_authorization_grants_everything(state, app, repo@, token, outcome);
    } else {
        apps_without_policies_refuse(state, app, repo@, token, outcome);
        if let Ok(scope) = outcome {
            policies_grant_for_their_own_app(state, app, repo@, token, scope);
        }
    }
}

/// How a workload's request is decided, once it is known which roles its token
/// stands for and which policies it meets.
pub proof fn workloads_are_decided(
    state: AppState,
    app: GithubAppConfig,
    repo: &str,
    matching_roles: Vec<String>,
    accepted: Vec<bool>,
    r: Result<TokenScope, AppError>,
    i: int,
    k: int,
)
    requires
        accepted@.len() == state.installation_policies@.len(),
        call_ensures(
            AppState::decide_scope,
            (&state, &app, repo, &matching_roles, &accepted),
            r,
        ),
    ensures
        (exists|a: int, b: int|
            0 <= a < matching_roles@.len() && 0 <= b < app.allowed_roles@.len() && (
            #[trigger] matching_roles@[a])@ == (#[trigger] app.allowed_roles@[b])@) ==> (
        r matches Ok(scope) && scope.repositories == RepoScope::All && scope.permissions@ == Map::<
            Seq<char>,
            Seq<char>,
        >::empty()),
        ({
            &&& forall|a: int, b: int|
                0 <= a < matching_roles@.len() && 0 <= b < app.allowed_roles@.len() ==> (
                #[trigger] matching_roles@[a])@ != (#[trigger] app.allowed_roles@[b])@
            &&& 0 <= i < state.installation_policies@.len()
            &&& accepted@[i]
            &&& state.installation_policies@[i].github_app@ == app.name@
            &&& 0 <= k < state.installation_policies@[i].repositories@.len()
            &&& glob_matches(state.installation_policies@[i].repositories@[k]@, repo@)
            &&& forall|j: int|
                0 <= j < i ==> !(#[trigger] accepted@[j])
                    || state.installation_policies@[j].github_app@ != app.name@ || forall|m: int|
                    0 <= m < state.installation_policies@[j].repositories@.len() ==> !glob_matches(
                        #[trigger] state.installation_policies@[j].repositories@[m]@,
                        repo@,
                    )
        }) ==> (r matches Ok(scope) && scope.repositories == RepoScope::OnlyRequested
            && scope.permissions@ == state.installation_policies@[i].permissions@),
{
    let roles = texts(matching_roles@);
    the_first_policy_that_is_met_decides(
        state.installation_policies@,
        app,
        repo@,
        roles,
        accepted@,
        i,
        k,
    );
    if exists|a: int, b: int|
        0 <= a < matching_roles@.len() && 0 <= b < app.allowed_roles@.len() && (
        #[trigger] matching_roles@[a])@ == (#[trigger] app.allowed_roles@[b])@ {
        let (a, b) = choose|a: int, b: int|
            0 <= a < matching_roles@.len() && 0 <= b < app.allowed_roles@.len() && (
            #[trigger] matching_roles@[a])@ == (#[trigger] app.allowed_roles@[b])@;
        assert(roles[a] == app.allowed_roles@[b]@);
    } else {
        assert forall|a: int, b: int|
            0 <= a < roles.len() && 0 <= b < app.allowed_roles@.len() implies #[trigger] roles[a]
            != #[trigger] app.allowed_roles@[b]@ by {
            assert(roles[a] == matching_roles@[a]@);
        }
    }
}

/// What a person is answered: the permissions of the only policy that names the
/// GitHub App and the repository, on that repository, where the token meets
/// every claim that the policy's human role requires, holds its Teleport role,
/// names its issuer and audience, and names the person. Without a token, without
/// such a policy, or with two, the person is refused as unauthorized.
pub proof fn people_are_answered(
    state: AppState,
    app: GithubAppConfig,
    repo: &str,
    bearer_token: Option<&str>,
    now: u64,
    r: Result<(TokenScope, HumanIdentity), AppError>,
    i: int,
    p: int,
    q: int,
)
    requires
        call_ensures(AppState::authorize_human, (&state, &app, repo, bearer_token, now), r),
    ensures
        r matches Ok((scope, identity)) ==> {
            &&& bearer_token is Some
            &&& exists|p: int|
                {
                    let policy = state.human_policies@[p];
                    let role = state.human_roles@[policy.human_role@];
                    let payload = payload_claims(bearer_token->Some_0@);
                    let claims = payload.remove("sub"@);
                    let required = role.config.required_claims.pairs();
                    &&& 0 <= p < state.human_policies@.len()
                    &&& (#[trigger] state.human_policies@[p]).github_app@ == app.name@
                    &&& policy.repository@ == repo@
                    &&& scope.repositories == RepoScope::OnlyRequested
                    &&& scope.permissions@ == policy.permissions@
                    &&& identity.human_role@ == policy.human_role@
                    &&& state.human_roles@.contains_key(policy.human_role@)
                    &&& payload.contains_key("sub"@)
                    &&& payload["sub"@] == ClaimView::Text(identity.subject@)
                    &&& role.config.request_id_claim is None ==> identity.request_id is None
                    &&& role.config.request_id_claim matches Some(claim) ==> crate::text::text_of(
                        identity.request_id,
                    ) == claim_text(claims, claim@)
                    &&& 0 <= i < required.len() ==> required[i].1.accepts(
                        claim_text(claims, required[i].0),
                    )
                    &&& payload.contains_key(role.config.roles_claim@)
                    &&& payload[role.config.roles_claim@] matches ClaimView::List(list)
                        && list.contains(Some(role.config.teleport_role@))
                    &&& claim_names(payload, "iss"@, role.validator.issuer@)
                    &&& claim_names(payload, "aud"@, role.validator.audience@)
                    &&& exists|at: u64| #[trigger] is_alive_at(bearer_token->Some_0@, at)
                }
        },
        bearer_token is None ==> (r matches Err(AppError::Unauthorized(text)) && text@
            == "missing Authorization header"@),
        bearer_token is Some && (forall|m: int|
            0 <= m < state.human_policies@.len() ==> !((
            #[trigger] state.human_policies@[m]).github_app@ == app.name@
                && state.human_policies@[m].repository@ == repo@)) ==> (r matches Err(
            AppError::Unauthorized(text),
        ) && text@ == "no human-policy authorizes github-app '"@ + app.name@ + "' for repository '"@
            + repo@ + "'"@),
        ({
            &&& 0 <= p < q < state.human_policies@.len()
            &&& state.human_policies@[p].github_app@ == app.name@
            &&& state.human_policies@[p].repository@ == repo@
            &&& state.human_policies@[q].github_app@ == app.name@
            &&& state.human_policies@[q].repository@ == repo@
        }) ==> (r matches Err(error) && error is Unauthorized),
{
    let token = match bearer_token {
        Some(token) => Some(token@),
        None => None,
    };
    one_policy_decides(
        state,
        app.name@,
        repo@,
        match token {
            Some(token) => token,
            None => Seq::empty(),
        },
        p,
        q,
    );
    if let Ok((scope, identity)) = r {
        people_meet_every_configured_claim(
            state,
            app.name@,
            repo@,
            token,
            now,
            scope@,
            identity@,
            i,
        );
    }
}

/// What a person is answered for what the validation of the token came to.
pub proof fn validated_people_are_answered(
    policy: HumanPolicyConfig,
    role: HumanRoleConfig,
    repo: &str,
    validated: Result<HumanClaims, HumanTokenError>,
    r: Result<(TokenScope, HumanIdentity), AppError>,
)
    requires
        call_ensures(answer_human, (&policy, &role, repo, validated), r),
    ensures
        validated matches Ok(claims) ==> (r matches Ok((scope, identity)) && {
            &&& scope.repositories == RepoScope::OnlyRequested
            &&& scope.permissions@ == policy.permissions@
            &&& identity.subject@ == claims@.subject
            &&& identity.human_role@ == policy.human_role@
            &&& role.request_id_claim is None ==> identity.request_id is None
            &&& role.request_id_claim matches Some(claim) ==> crate::text::text_of(
                identity.request_id,
            ) == claim_text(claims@.claims, claim@)
        }),
        validated matches Err(error) ==> {
            &&& error is KeysUnavailable ==> (r matches Err(AppError::Internal(text)) && text@
                == "Teleport validation keys could not be retrieved"@)
            &&& !(error is KeysUnavailable) ==> (r matches Err(AppError::Unauthorized(text))
                && text@ == "token did not satisfy human-role '"@ + policy.human_role@
                + "' for repository '"@ + repo@ + "'"@)
        },
{
    if let Ok((scope, identity)) = r {
        assert(outcome_view(r) == Ok::<(ScopeView, crate::service::IdentityView), AppErrorView>(
            (scope@, identity@),
        ));
    }
    if let Err(error) = validated {
        refused_people_are_told_no_details(policy, role, repo@, error, error);
    }
}

/// The policy and the role that a person's request is decided by are the
/// configured ones for it.
pub proof fn people_are_routed(
    state: AppState,
    app: GithubAppConfig,
    repo: &str,
    bearer_token: Option<&str>,
    r: Result<(&HumanPolicyConfig, &HumanRole), AppError>,
    p: int,
)
    requires
        call_ensures(AppState::select_human_policy, (&state, &app, repo, bearer_token), r),
        0 <= p < state.human_policies@.len(),
        bearer_token is Some,
        state.human_policies@[p].github_app@ == app.name@,
        state.human_policies@[p].repository@ == repo@,
        forall|i: int|
            0 <= i < state.human_policies@.len() && i != p ==> !((
            #[trigger] state.human_policies@[i]).github_app@ == app.name@
                && state.human_policies@[i].repository@ == repo@),
        state.human_roles@.contains_key(state.human_policies@[p].human_role@),
    ensures
        r matches Ok((policy, role)) && *policy == state.human_policies@[p] && *role
            == state.human_roles@[policy.human_role@],
{
    one_policy_decides(state, app.name@, repo@, bearer_token->Some_0@, p, p);
}

/// What a request for one repository is answered: for the GitHub App of that
/// name, as the decision on the repository says. A GitHub App that is not
/// configured is not found.
pub proof fn repository_requests_are_answered(
    state: AppState,
    app_name: &str,
    repo: &str,
    authorization: Option<&[u8]>,
    r: Result<(&GithubAppConfig, TokenScope), AppError>,
)
    requires
        call_ensures(AppState::authorize_repository, (&state, app_name, repo, authorization), r),
    ensures
        r matches Ok((app, scope)) ==> {
            &&& app.name@ == app_name@
            &&& state.github_apps@.contains(*app)
            &&& exists|token: Option<Seq<char>>| #[trigger]
                state.authorizes(*app, repo@, token, Ok(scope@)) && match authorization {
                    Some(value) => bearer_token_of(Some(value@)) is Ok ==> token == Some(
                        bearer_token_of(Some(value@))->Ok_0,
                    ),
                    None => token is None,
                }
        },
        state.token_validator.roles() is Some && authorization is None ==> (r matches Err(
            AppError::Unauthorized(text),
        ) && text@ == "missing Authorization header"@),
        (state.token_validator.roles() is None && forall|k: int|
            0 <= k < state.github_apps@.len() ==> (#[trigger] state.github_apps@[k]).name@
                != app_name@) ==> (r matches Err(AppError::NotFound(text)) && text@
            == "unknown github_app '"@ + app_name@ + "'"@),
{
    let header = crate::access::header_bytes(authorization);
    let outcome = crate::access::repository_access(r);
    requests_are_decided_for_the_named_app(state, app_name@, repo@, header, outcome);
    apps_are_found_by_exact_name(state.github_apps@, app_name@, 0);
    bearer_tokens_follow_their_scheme(Seq::empty(), Seq::empty());
    if let Ok((app, scope)) = r {
        match bearer_token_of(header) {
            Ok(token) => {
                assert(state.authorizes(*app, repo@, Some(token), Ok(scope@)));
            },
            Err(_) => {
                assert(state.authorizes(*app, repo@, None, Ok(scope@)));
            },
        }
    }
}

/// What a request for several repositories is answered: a token for exactly
/// those of the owner, with exactly the permissions that were asked for where any
/// were.
pub proof fn repositories_requests_are_answered(
    state: AppState,
    app_name: &str,
    owner: &str,
    names: Vec<String>,
    permissions: Option<StringMap<String>>,
    authorization: Option<&[u8]>,
    r: Result<RepositoriesGrant, AppError>,
    i: int,
    j: int,
    name: Seq<char>,
)
    requires
        permissions matches Some(map) ==> sorted_by_key(map.pairs()),
        call_ensures(
            AppState::authorize_repositories,
            (&state, app_name, owner, &names, permissions, authorization),
            r,
        ),
    ensures
        r matches Ok(grant) ==> {
            &&& grant.repositories@.len() == names@.len()
            &&& 1 <= names@.len() <= 500
            &&& 0 <= i < names@.len() ==> grant.repositories@[i]@ == owner@ + "/"@ + names@[i]@
            &&& permissions matches Some(map) ==> {
                &&& 0 <= j < map.pairs().len() ==> grant.permissions@.contains_key(
                    map.pairs()[j].0,
                ) && grant.permissions@[map.pairs()[j].0] == map.pairs()[j].1
                &&& grant.permissions@.contains_key(name) ==> exists|k: int|
                    0 <= k < map.pairs().len() && (#[trigger] map.pairs()[k]).0 == name
            }
            &&& 0 <= i < names@.len() ==> exists|app: GithubAppConfig, token: Option<Seq<char>>, scope: ScopeView|
                {
                    &&& app.name@ == app_name@
                    &&& #[trigger] state.authorizes(
                        app,
                        owner@ + "/"@ + names@[i]@,
                        token,
                        Ok(scope),
                    )
                }
        },
        names@.len() == 0 || names@.len() > 500 ==> (r matches Err(error) && error is BadRequest),
{
    let list = texts(names@);
    let requested = crate::requests::requested_pairs(permissions);
    let header = crate::access::header_bytes(authorization);
    let outcome = match r {
        Ok(grant) => Ok::<(Seq<Seq<char>>, Map<Seq<char>, Seq<char>>), AppErrorView>(
            (texts(grant.repositories@), grant.permissions@),
        ),
        Err(error) => Err(error@),
    };
    several_repositories_are_granted_whole(
        state,
        app_name@,
        owner@,
        list,
        requested,
        header,
        outcome,
        i,
        j,
    );
    if let Ok(grant) = r {
        assert(texts(grant.repositories@).len() == grant.repositories@.len());
        if 0 <= i < names@.len() {
            assert(list[i] == names@[i]@);
            assert(texts(grant.repositories@)[i] == grant.repositories@[i]@);
            let (app, token, scope) = choose|
                app: GithubAppConfig,
                token: Option<Seq<char>>,
                scope: ScopeView,
            |
                {
                    &&& app.name@ == app_name@
                    &&& state.github_apps@.contains(app)
                    &&& #[trigger] state.authorizes(app, owner@ + "/"@ + list[i], token, Ok(scope))
                    &&& (requested is None && scope.permissions != Map::<
                        Seq<char>,
                        Seq<char>,
                    >::empty()) ==> grant.permissions@ == scope.permissions
                };
            assert(state.authorizes(app, owner@ + "/"@ + names@[i]@, token, Ok(scope)));
        }
        if let Some(map) = permissions {
            if grant.permissions@.contains_key(name) {
                assert(outcome->Ok_0.1.contains_key(name));
                assert(requested == Some(map.pairs()));
                let k = choose|k: int|
                    0 <= k < requested->Some_0.len() && (#[trigger] requested->Some_0[k]).0 == name;
                assert(map.pairs()[k].0 == name);
            }
        }
    }
}

/// What the permissions of a token for several repositories come to: exactly
/// those that were asked for, where each is allowed at every repository that
/// restricts them; and where none were asked for, those that the repositories
/// that restrict them agree on.
pub proof fn permissions_are_selected(
    requested: Option<StringMap<String>>,
    scopes: Vec<TokenScope>,
    r: Result<StringMap<String>, AppError>,
    i: int,
    name: Seq<char>,
)
    requires
        requested matches Some(map) ==> sorted_by_key(map.pairs()),
        call_ensures(select_multiple_repository_permissions, (requested, &scopes), r),
    ensures
        requested matches Some(map) ==> {
            &&& r matches Ok(granted) ==> {
                &&& granted@.contains_key(name) <==> exists|k: int|
                    0 <= k < map.pairs().len() && (#[trigger] map.pairs()[k]).0 == name
                &&& 0 <= i < map.pairs().len() ==> granted@.contains_key(map.pairs()[i].0)
                    && granted@[map.pairs()[i].0] == map.pairs()[i].1
            }
            &&& (map.pairs().len() > 0 && forall|s: int, j: int|
                0 <= s < scopes@.len() && 0 <= j < map.pairs().len() && (
                #[trigger] scopes@[s]).permissions@ != Map::<Seq<char>, Seq<char>>::empty()
                    ==> scopes@[s].permissions@.contains_key((#[trigger] map.pairs()[j]).0)
                    && crate::requests::level_at_most(
                    map.pairs()[j].1,
                    scopes@[s].permissions@[map.pairs()[j].0],
                )) ==> r is Ok
            &&& map.pairs().len() == 0 ==> (r matches Err(error) && error is BadRequest)
        },
        requested is None ==> {
            &&& (forall|s: int|
                0 <= s < scopes@.len() ==> (#[trigger] scopes@[s]).permissions@ == Map::<
                    Seq<char>,
                    Seq<char>,
                >::empty()) ==> (r matches Ok(granted) && granted@ == Map::<
                Seq<char>,
                Seq<char>,
            >::empty())
            &&& (0 <= i < scopes@.len() && scopes@[i].permissions@ != Map::<
                Seq<char>,
                Seq<char>,
            >::empty() && forall|s: int|
                0 <= s < scopes@.len() ==> (#[trigger] scopes@[s]).permissions@ == Map::<
                    Seq<char>,
                    Seq<char>,
                >::empty() || scopes@[s].permissions@ == scopes@[i].permissions@) ==> (
            r matches Ok(granted) && granted@ == scopes@[i].permissions@)
        },
{
    let views = scope_views(scopes@);
    assert(forall|s: int| 0 <= s < views.len() ==> views[s] == (#[trigger] scopes@[s])@);
    assert(forall|s: int|
        0 <= s < views.len() ==> (#[trigger] views[s]).permissions == scopes@[s].permissions@);
    match requested {
        Some(map) => {
            requested_permissions_are_granted_whole(map.pairs(), views, name, i);
        },
        None => {
            unrequested_permissions_are_those_of_the_policies(views, i, i);
        },
    }
}

/// Which lists of repositories one token can be asked for.
pub proof fn repository_names_are_checked(names: Vec<String>, r: Result<(), AppError>)
    requires
        call_ensures(validate_repository_names, (&names,), r),
    ensures
        r is Ok <==> {
            &&& 1 <= names@.len() <= 500
            &&& forall|i: int|
                0 <= i < names@.len() ==> (#[trigger] names@[i])@.len() > 0
                    && !names@[i]@.contains('/')
            &&& forall|i: int, j: int|
                0 <= i < j < names@.len() ==> (#[trigger] names@[i])@ != (#[trigger] names@[j])@
        },
        r matches Err(error) ==> error is BadRequest,
{
    let list = texts(names@);
    lists_of_repositories_in_order(list);
    assert(forall|i: int| 0 <= i < list.len() ==> list[i] == (#[trigger] names@[i])@);
    assert(forall|i: int| 0 <= i < list.len() ==> #[trigger] list[i] == names@[i]@);
}

/// Which levels of access are no more than others.
pub proof fn levels_are_compared(requested: &str, allowed: &str, r: bool)
    requires
        call_ensures(permission_level_is_at_most, (requested, allowed), r),
    ensures
        requested@ == allowed@ ==> r,
        requested@ == "read"@ && (allowed@ == "write"@ || allowed@ == "admin"@) ==> r,
        requested@ == "write"@ && allowed@ == "admin"@ ==> r,
        requested@ == "write"@ && allowed@ == "read"@ ==> !r,
        requested@ == "admin"@ && (allowed@ == "read"@ || allowed@ == "write"@) ==> !r,
        requested@ != allowed@ && !(requested@ == "read"@ || requested@ == "write"@ || requested@
            == "admin"@) ==> !r,
        requested@ != allowed@ && !(allowed@ == "read"@ || allowed@ == "write"@ || allowed@
            == "admin"@) ==> !r,
{
    levels_go_from_read_to_admin(requested@, allowed@);
    levels_go_from_read_to_admin(allowed@, requested@);
}

/// Which headers give a bearer token.
pub proof fn bearer_tokens_are_extracted(
    authorization: Option<&[u8]>,
    r: Result<String, AppError>,
    token: Seq<char>,
)
    requires
        call_ensures(extract_bearer_token, (authorization,), r),
    ensures
        r matches Err(error) ==> error is Unauthorized,
        authorization is None ==> (r matches Err(AppError::Unauthorized(text)) && text@
            == "missing Authorization header"@),
        authorization matches Some(value) ==> ((r matches Ok(found) && found@ == token) <==> {
            &&& token.len() > 0
            &&& value@.len() == 7 + token.len()
            &&& forall|i: int|
                0 <= i < value@.len() ==> (32 <= #[trigger] value@[i] && value@[i] <= 126)
                    || value@[i] == 9
            &&& forall|i: int|
                0 <= i < value@.len() ==> #[trigger] value@[i] as char == ("Bearer "@ + token)[i]
        }),
{
    if let Some(value) = authorization {
        bearer_tokens_follow_their_scheme(value@, token);
    } else {
        bearer_tokens_follow_their_scheme(Seq::empty(), token);
    }
}

/// A GitHub App is looked up by its exact name.
pub proof fn apps_are_looked_up(
    state: AppState,
    name: &str,
    r: Result<&GithubAppConfig, AppError>,
    i: int,
)
    requires
        call_ensures(AppState::github_app, (&state, name), r),
    ensures
        r matches Ok(app) ==> app.name@ == name@ && state.github_apps@.contains(*app),
        0 <= i < state.github_apps@.len() && state.github_apps@[i].name@ == name@ ==> r is Ok,
        r matches Err(error) ==> (error matches AppError::NotFound(text) && text@
            == "unknown github_app '"@ + name@ + "'"@),
{
    apps_are_found_by_exact_name(state.github_apps@, name@, i);
}

/// A workload whose token is accepted for a role that the GitHub App allows is
/// answered with the whole installation; only time can stand in the way.
pub proof fn allowed_workloads_are_answered(
    state: AppState,
    app: GithubAppConfig,
    repo: &str,
    token: &str,
    r: Result<TokenScope, AppError>,
    k: int,
)
    requires
        call_ensures(AppState::authorize_github_app, (&state, &app, repo, Some(token)), r),
        0 <= k < app.allowed_roles@.len(),
        state.token_validator.roles() matches Some(roles) && {
            let role = app.allowed_roles@[k]@;
            &&& roles.contains_key(role)
            &&& roles[role].validation_key is Some
            &&& roles[role].may_be_tried_on(token@)
        },
    ensures
        (r matches Ok(scope) && scope.repositories == RepoScope::All && scope.permissions@ == Map::<
            Seq<char>,
            Seq<char>,
        >::empty()) || exists|now: u64|
            !#[trigger] crate::roles::accepts_at(
                state.token_validator.roles()->Some_0[app.allowed_roles@[k]@],
                token@,
                now,
            ),
{
    let role = app.allowed_roles@[k]@;
    assert(texts(app.allowed_roles@)[k] == role);
    assert(texts(app.allowed_roles@).contains(role));
    crate::laws::allowed_roles_get_everything(
        state,
        app,
        repo@,
        token@,
        role,
        outcome_view(r),
    );
}

/// A workload whose token is accepted for a policy that names the GitHub App,
/// with a pattern for the repository, is answered with a grant: of that policy,
/// or of an earlier one, or of the whole installation; only time can stand in the
/// way.
pub proof fn admitted_workloads_are_answered(
    state: AppState,
    app: GithubAppConfig,
    repo: &str,
    token: &str,
    r: Result<TokenScope, AppError>,
    i: int,
    k: int,
)
    requires
        call_ensures(AppState::authorize_github_app, (&state, &app, repo, Some(token)), r),
        state.token_validator.roles() is Some,
        0 <= i < state.installation_policies@.len(),
        state.installation_policies@[i].github_app@ == app.name@,
        0 <= k < state.installation_policies@[i].repositories@.len(),
        glob_matches(state.installation_policies@[i].repositories@[k]@, repo@),
        crate::laws::rests_on_the_token(state, i, repo@, token@),
    ensures
        crate::laws::may_be_refused(state, i, repo@, token@) || (r matches Ok(scope) && {
            ||| scope.repositories == RepoScope::All && scope.permissions@ == Map::<
                Seq<char>,
                Seq<char>,
            >::empty()
            ||| exists|j: int|
                {
                    &&& 0 <= j <= i
                    &&& (#[trigger] state.installation_policies@[j]).github_app@ == app.name@
                    &&& scope.repositories == RepoScope::OnlyRequested
                    &&& scope.permissions@ == state.installation_policies@[j].permissions@
                }
        }),
{
    crate::laws::workloads::policies_for_the_app_are_not_passed_over(
        state,
        app,
        repo@,
        token@,
        i,
        k,
        outcome_view(r),
    );
}

/// A person whom exactly one policy is for, and whose token shows what the
/// policy's human role asks for, is answered with what the policy grants wherever
/// `jsonwebtoken` accepts the token at the time, and refused otherwise.
pub proof fn approved_people_are_answered(
    state: AppState,
    app: GithubAppConfig,
    repo: &str,
    token: &str,
    now: u64,
    r: Result<(TokenScope, HumanIdentity), AppError>,
    p: int,
    algorithm: Algorithm,
    kid: Option<Seq<char>>,
    key: KeyView,
)
    requires
        call_ensures(AppState::authorize_human, (&state, &app, repo, Some(token), now), r),
        0 <= p < state.human_policies@.len(),
        state.human_policies@[p].github_app@ == app.name@,
        state.human_policies@[p].repository@ == repo@,
        forall|i: int|
            0 <= i < state.human_policies@.len() && i != p ==> !((
            #[trigger] state.human_policies@[i]).github_app@ == app.name@
                && state.human_policies@[i].repository@ == repo@),
        state.human_roles@.contains_key(state.human_policies@[p].human_role@),
        ({
            let role = state.human_roles@[state.human_policies@[p].human_role@];
            let config = role.config;
            let payload = payload_claims(token@);
            &&& token_header(token@) == Some((algorithm.spec_name(), kid))
            &&& role.validator.algorithms@.contains(algorithm)
            &&& role.validator.keys_at_hand(now) matches Some(keys) && selected(
                keys,
                kid,
                algorithm,
            ) == Some(key)
            &&& algorithm is EdDSA ==> (key_size(key.document) matches Some(Some(size)) && size
                >= 32)
            &&& payload.contains_key("sub"@) && payload["sub"@] is Text
            &&& config.roles_claim@ != "sub"@
            &&& payload.contains_key(config.roles_claim@)
            &&& payload[config.roles_claim@] matches ClaimView::List(list) && (forall|m: int|
                0 <= m < list.len() ==> (#[trigger] list[m]) is Some) && list.contains(
                Some(config.teleport_role@),
            )
            &&& forall|i: int|
                0 <= i < config.required_claims.pairs().len() ==> (
                #[trigger] config.required_claims.pairs()[i]).1.accepts(
                    claim_text(payload.remove("sub"@), config.required_claims.pairs()[i].0),
                )
        }),
    ensures
        ({
            let policy = state.human_policies@[p];
            let validator = state.human_roles@[policy.human_role@].validator;
            exists|at: u64|
                if #[trigger] decodes_at(
                    token@,
                    key.document,
                    algorithm.spec_name(),
                    seq![validator.issuer@],
                    seq![validator.audience@],
                    registered_claims(),
                    at,
                ) {
                    r matches Ok((scope, identity)) && scope.repositories
                        == RepoScope::OnlyRequested && scope.permissions@ == policy.permissions@
                        && payload_claims(token@)["sub"@] == ClaimView::Text(identity.subject@)
                } else {
                    r matches Err(AppError::Unauthorized(text)) && text@
                        == "token did not satisfy human-role '"@ + policy.human_role@
                        + "' for repository '"@ + repo@ + "'"@
                }
        }),
{
    let policy = state.human_policies@[p];
    let role = state.human_roles@[policy.human_role@];
    let payload = payload_claims(token@);
    let requirement = crate::service::role_requirement(role.config);
    one_policy_decides(state, app.name@, repo@, token@, p, p);
    keys_may_be_tried(key.document, algorithm.spec_name());
    crate::algorithm::algorithm_names_differ(algorithm, Algorithm::EdDSA);
    payloads_hold_the_role_and_every_claim(payload, requirement);
    crate::laws::approved_people_are_let_in(
        state,
        app.name@,
        repo@,
        token@,
        now,
        policy,
        role,
        algorithm,
        kid,
        key,
        outcome_view(r),
    );
    let at = choose|at: u64|
        (outcome_view(r) is Ok ==> is_alive_at(token@, at)) && outcome_view(r) == (
        if #[trigger] decodes_at(
            token@,
            key.document,
            algorithm.spec_name(),
            seq![role.validator.issuer@],
            seq![role.validator.audience@],
            registered_claims(),
            at,
        ) {
            Ok::<(ScopeView, crate::service::IdentityView), AppErrorView>(
                (
                    ScopeView {
                        repositories: RepoScope::OnlyRequested,
                        permissions: policy.permissions@,
                    },
                    crate::service::identity_of(
                        policy,
                        role.config,
                        crate::human::accepted_claims(payload),
                    ),
                ),
            )
        } else {
            Err(
                AppErrorView::Unauthorized(
                    "token did not satisfy human-role '"@ + policy.human_role@
                        + "' for repository '"@ + repo@ + "'"@,
                ),
            )
        });
    assert(decodes_at(
        token@,
        key.document,
        algorithm.spec_name(),
        seq![role.validator.issuer@],
        seq![role.validator.audience@],
        registered_claims(),
        at,
    ) == (r is Ok));
}

} // verus!
