//! What people get, over the fields of the configuration and the claims of
//! their tokens.
use crate::algorithm::{algorithm_names_differ, Algorithm};
use crate::claims::{claim_text, is_alive_at, payload_claims, token_header, ClaimView};
use crate::config::{HumanJwtAlgorithm, HumanPolicyConfig, HumanRoleConfig};
use crate::error::AppErrorView;
use crate::human::{
    accepted_claims, claim_names, first_mismatch, held_roles, is_signed_with, payload_problem,
    registered_claims, HumanClaims, HumanErrorView, HumanRequirement, HumanTokenError,
    HumanTokenValidator, JwksSource, JwksStepView,
};
use crate::jwks::{
    key_is_usable, key_may_be_tried, key_size, key_with_id, selected, KeySet, KeyStepView, KeyView,
};
use crate::laws::people_get_what_their_policy_grants;
use crate::roles::RequirementView;
use crate::service::{
    are_built_from, configs_by_name, human_outcome, human_policies_for, is_human_policy_for,
    role_requirement, AppState, HumanKeyStepView, HumanRole, IdentityView, RepoScope, ScopeView,
};
use vstd::prelude::*;

verus! {

proof fn no_mismatch(
    claims: Map<Seq<char>, ClaimView>,
    required: Seq<(Seq<char>, RequirementView)>,
)
    ensures
        first_mismatch(claims, required) is None <==> forall|i: int|
            0 <= i < required.len() ==> (#[trigger] required[i]).1.accepts(
                claim_text(claims, required[i].0),
            ),
    decreases required.len(),
{
    if required.len() > 0 {
        let rest = required.skip(1);
        no_mismatch(claims, rest);
        if first_mismatch(claims, required) is None {
            assert forall|i: int| 0 <= i < required.len() implies (
            #[trigger] required[i]).1.accepts(claim_text(claims, required[i].0)) by {
                if i > 0 {
                    assert(rest[i - 1] == required[i]);
                }
            }
        } else if required[0].1.accepts(claim_text(claims, required[0].0)) {
            let k = choose|k: int|
                0 <= k < rest.len() && !(#[trigger] rest[k]).1.accepts(
                    claim_text(claims, rest[k].0),
                );
            assert(required[k + 1] == rest[k]);
        }
    }
}

proof fn held_role_is_a_member(
    claims: Map<Seq<char>, ClaimView>,
    claim: Seq<char>,
    role: Seq<char>,
)
    ensures
        (held_roles(claims, claim) matches Some(roles) && roles.contains(role)) <==> (
        claims.contains_key(claim) && (claims[claim] matches ClaimView::List(list) && (forall|i: int|
            0 <= i < list.len() ==> (#[trigger] list[i]) is Some) && list.contains(Some(role)))),
{
    if claims.contains_key(claim) {
        if let ClaimView::List(list) = claims[claim] {
            let roles = list.map_values(|member: Option<Seq<char>>| member->Some_0);
            if roles.contains(role) {
                let k = choose|k: int| 0 <= k < roles.len() && roles[k] == role;
                if list[k] is Some {
                    assert(list[k] == Some(role));
                }
            }
            if list.contains(Some(role)) {
                let k = choose|k: int| 0 <= k < list.len() && list[k] == Some(role);
                assert(roles[k] == role);
            }
        }
    }
}

/// The payload of a valid token is accepted exactly where it names its subject
/// by a text, its roles are an array of texts and hold the required one, and
/// every required claim is met. The subject is no role and meets no requirement.
pub proof fn payloads_hold_the_role_and_every_claim(
    payload: Map<Seq<char>, ClaimView>,
    requirement: HumanRequirement,
)
    ensures
        payload_problem(payload, requirement) is None <==> {
            &&& payload.contains_key("sub"@) && payload["sub"@] is Text
            &&& requirement.roles_claim != "sub"@
            &&& payload.contains_key(requirement.roles_claim)
            &&& payload[requirement.roles_claim] matches ClaimView::List(list) && (forall|i: int|
                0 <= i < list.len() ==> (#[trigger] list[i]) is Some) && list.contains(
                Some(requirement.role),
            )
            &&& forall|i: int|
                0 <= i < requirement.claims.len() ==> (#[trigger] requirement.claims[i]).1.accepts(
                    claim_text(payload.remove("sub"@), requirement.claims[i].0),
                )
        },
{
    let claims = payload.remove("sub"@);
    no_mismatch(claims, requirement.claims);
    held_role_is_a_member(claims, requirement.roles_claim, requirement.role);
}

/// Whoever gets a token as a person has a token of their own that shows all of
/// this: it is signed with a key at hand by an algorithm that the human role
/// allows, names the role's issuer and audience, is within its lifetime, names
/// the person, holds the configured Teleport role in the configured claim, an
/// array of texts, and meets every claim that the human role requires. They get
/// the permissions of the one policy for the GitHub App and the repository, on
/// that repository, and are recorded by the subject and the access request that
/// the token names.
pub proof fn people_meet_every_configured_claim(
    state: AppState,
    app: Seq<char>,
    repo: Seq<char>,
    bearer_token: Option<Seq<char>>,
    now: u64,
    scope: ScopeView,
    identity: IdentityView,
    i: int,
)
    requires
        state.authorizes_human(app, repo, bearer_token, now, Ok((scope, identity))),
    ensures
        bearer_token is Some,
        exists|p: int|
            {
                let policy = state.human_policies@[p];
                let role = state.human_roles@[policy.human_role@];
                let config = role.config;
                let token = bearer_token->Some_0;
                let payload = payload_claims(token);
                let claims = payload.remove("sub"@);
                &&& 0 <= p < state.human_policies@.len()
                &&& (#[trigger] state.human_policies@[p]).github_app@ == app
                &&& policy.repository@ == repo
                &&& forall|q: int|
                    0 <= q < state.human_policies@.len() && q != p && (
                    #[trigger] state.human_policies@[q]).github_app@ == app
                        ==> state.human_policies@[q].repository@ != repo
                &&& scope.repositories == RepoScope::OnlyRequested
                &&& scope.permissions == policy.permissions@
                &&& state.human_roles@.contains_key(policy.human_role@)
                &&& identity.human_role == policy.human_role@
                &&& payload.contains_key("sub"@)
                &&& payload["sub"@] == ClaimView::Text(identity.subject)
                &&& config.request_id_claim is None ==> identity.request_id is None
                &&& config.request_id_claim matches Some(claim) ==> identity.request_id
                    == claim_text(claims, claim@)
                &&& 0 <= i < config.required_claims.pairs().len()
                    ==> config.required_claims.pairs()[i].1.accepts(
                    claim_text(claims, config.required_claims.pairs()[i].0),
                )
                &&& config.roles_claim@ != "sub"@
                &&& payload.contains_key(config.roles_claim@)
                &&& payload[config.roles_claim@] matches ClaimView::List(list) && (forall|m: int|
                    0 <= m < list.len() ==> (#[trigger] list[m]) is Some) && list.contains(
                    Some(config.teleport_role@),
                )
                &&& claim_names(payload, "iss"@, role.validator.issuer@)
                &&& claim_names(payload, "aud"@, role.validator.audience@)
                &&& payload.contains_key("exp"@)
                &&& exists|at: u64| #[trigger] is_alive_at(token, at)
                &&& exists|algorithm: Algorithm, key: KeyView|
                    {
                        &&& role.validator.algorithms@.contains(algorithm)
                        &&& token_header(token) matches Some((name, _)) && name
                            == algorithm.spec_name()
                        &&& #[trigger] is_signed_with(token, key.document, algorithm.spec_name())
                        &&& role.validator.keys_at_hand(now) matches Some(keys) && keys.contains(
                            key,
                        )
                    }
            },
{
    people_get_what_their_policy_grants(state, app, repo, bearer_token, now, scope, identity);
    let policies = human_policies_for(state.human_policies@, app, repo);
    let policy = policies[0];
    let token = bearer_token->Some_0;
    let payload = payload_claims(token);
    let role = state.human_roles@[policy.human_role@];
    let requirement = role_requirement(role.config);
    let p = choose|p: int|
        0 <= p < state.human_policies@.len() && state.human_policies@[p] == policy;
    assert forall|q: int|
        0 <= q < state.human_policies@.len() && q != p && (
        #[trigger] state.human_policies@[q]).github_app@
            == app implies state.human_policies@[q].repository@ != repo by {
        if state.human_policies@[q].repository@ == repo {
            if q < p {
                crate::laws::two_human_policies_are_counted(
                    state.human_policies@,
                    app,
                    repo,
                    q,
                    p,
                );
            } else {
                crate::laws::two_human_policies_are_counted(
                    state.human_policies@,
                    app,
                    repo,
                    p,
                    q,
                );
            }
        }
    }
    payloads_hold_the_role_and_every_claim(payload, requirement);
    let outcome = Ok::<(ScopeView, IdentityView), AppErrorView>((scope, identity));
    let validated = choose|validated: Result<HumanClaims, HumanTokenError>|
        {
            &&& role.validator.validates(token, requirement, now, validated)
            &&& outcome == #[trigger] human_outcome(policy, role.config, repo, validated)
        };
    let (name, kid) = token_header(token)->Some_0;
    let algorithm = choose|algorithm: Algorithm| #[trigger]
        algorithm.spec_name() == name && role.validator.validates_with(
            token,
            algorithm,
            kid,
            requirement,
            now,
            validated,
        );
    let keys = role.validator.keys_at_hand(now)->Some_0;
    let key = selected(keys, kid, algorithm)->Some_0;
    keys_are_selected_by_id(keys, kid, algorithm, 0);
    assert(role.validator.comes_to(token, key, algorithm, requirement, validated));
    assert(is_signed_with(token, key.document, algorithm.spec_name()));
    if 0 <= i < role.config.required_claims.pairs().len() {
        assert(requirement.claims[i].1.accepts(
            claim_text(payload.remove("sub"@), requirement.claims[i].0),
        ));
    }
    assert(state.human_policies@[p].github_app@ == app);
}

/// The key that a token is checked with is one of those at hand, is usable, and
/// is for the token's algorithm where it says what it is for. Where the token
/// names a key id it is the first key of that id, and otherwise the only key.
pub proof fn keys_are_selected_by_id(
    keys: Seq<KeyView>,
    kid: Option<Seq<char>>,
    algorithm: Algorithm,
    i: int,
)
    ensures
        selected(keys, kid, algorithm) matches Some(key) ==> {
            &&& keys.contains(key)
            &&& key_is_usable(key.document)
            &&& key.key_algorithm is None || key.key_algorithm == Some(algorithm.spec_name())
            &&& kid is Some ==> key.key_id == kid
            &&& kid is None ==> keys.len() == 1
        },
        ({
            &&& 0 <= i < keys.len()
            &&& key_is_usable(keys[i].document)
            &&& keys[i].key_algorithm is None || keys[i].key_algorithm == Some(
                algorithm.spec_name(),
            )
            &&& match kid {
                Some(_) => keys[i].key_id == kid && forall|k: int|
                    0 <= k < i ==> (#[trigger] keys[k]).key_id != kid,
                None => keys.len() == 1,
            }
        }) ==> selected(keys, kid, algorithm) == Some(keys[i]),
{
    if let Some(id) = kid {
        first_with_id(keys, id, i);
    } else if keys.len() == 1 {
        assert(keys.contains(keys[0]));
    }
}

proof fn first_with_id(keys: Seq<KeyView>, kid: Seq<char>, i: int)
    ensures
        key_with_id(keys, kid) matches Some(key) ==> keys.contains(key) && key.key_id == Some(kid),
        0 <= i < keys.len() && keys[i].key_id == Some(kid) && (forall|k: int|
            0 <= k < i ==> (#[trigger] keys[k]).key_id != Some(kid)) ==> key_with_id(keys, kid)
            == Some(keys[i]),
    decreases keys.len(),
{
    if keys.len() > 0 {
        let rest = keys.skip(1);
        first_with_id(rest, kid, i - 1);
        if keys[0].key_id == Some(kid) {
            assert(keys.contains(keys[0]));
        } else {
            if let Some(key) = key_with_id(rest, kid) {
                let k = choose|k: int| 0 <= k < rest.len() && rest[k] == key;
                assert(keys[k + 1] == key);
            }
            if 0 < i < keys.len() && (forall|k: int|
                0 <= k < i ==> (#[trigger] keys[k]).key_id != Some(kid)) {
                assert(rest[i - 1] == keys[i]);
                assert forall|k: int| 0 <= k < i - 1 implies (#[trigger] rest[k]).key_id != Some(
                    kid,
                ) by {
                    assert(keys[k + 1].key_id != Some(kid));
                }
            }
        }
    }
}

/// Why a person's token is refused before its signature is looked at: its
/// header cannot be read; its algorithm is not allowed; no keys are at hand; or
/// none of them fits.
pub proof fn refusals_before_the_signature(
    validator: HumanTokenValidator,
    token: Seq<char>,
    requirement: HumanRequirement,
    now: u64,
    outcome: Result<HumanClaims, HumanTokenError>,
    algorithm: Algorithm,
    kid: Option<Seq<char>>,
)
    requires
        validator.validates(token, requirement, now, outcome),
    ensures
        token_header(token) is None ==> (outcome matches Err(error) && error is MalformedHeader),
        token_header(token) == Some((algorithm.spec_name(), kid)) ==> {
            &&& !validator.algorithms@.contains(algorithm) ==> (outcome matches Err(error) && error
                == HumanTokenError::AlgorithmNotAllowed(algorithm))
            &&& validator.algorithms@.contains(algorithm) && validator.source is Http && (
            validator.cache matches Some(cached) ==> now - cached.fetched_at >= 15 * 60
                * 1_000_000_000) ==> (outcome matches Err(error) && error is KeysUnavailable)
            &&& validator.algorithms@.contains(algorithm) && (
            validator.keys_at_hand(now) matches Some(keys) && selected(keys, kid, algorithm)
                is None) ==> (outcome matches Err(error) && error is UnknownKeyId)
        },
        validator.source is Http && (validator.cache matches Some(cached) && now
            - cached.fetched_at < 15 * 60 * 1_000_000_000) ==> validator.keys_at_hand(now) == Some(
            validator.cache->Some_0.jwks@,
        ),
        validator.source matches JwksSource::Static(keys) ==> validator.keys_at_hand(now) == Some(
            keys@,
        ),
{
    if let Some((name, id)) = token_header(token) {
        let named = choose|named: Algorithm| #[trigger]
            named.spec_name() == name && validator.validates_with(
                token,
                named,
                id,
                requirement,
                now,
                outcome,
            );
        if name == algorithm.spec_name() {
            algorithm_names_differ(named, algorithm);
        }
    }
}

/// Fetched keys are used for a quarter of an hour, or for a minute where the
/// token's key is not among them; otherwise they are to be fetched from the
/// configured address. Keys that are given once and for all never are.
pub proof fn keys_are_fetched_from_the_configured_address(
    validator: HumanTokenValidator,
    now: u64,
    force: bool,
    token: Seq<char>,
    algorithm: Algorithm,
    kid: Option<Seq<char>>,
)
    requires
        token_header(token) == Some((algorithm.spec_name(), kid)),
        validator.algorithms@.contains(algorithm),
    ensures
        validator.source matches JwksSource::Http { url } ==> match validator.cache {
            None => {
                &&& validator.jwks_step(force, now) == JwksStepView::Fetch(url@)
                &&& validator.awaited_url(token, now) == Some(url@)
            },
            Some(cached) => {
                let age = now - cached.fetched_at;
                &&& age < 60 * 1_000_000_000 ==> validator.jwks_step(force, now)
                    == JwksStepView::Use(cached.jwks) && validator.awaited_url(token, now) is None
                &&& age < 15 * 60 * 1_000_000_000 ==> validator.jwks_step(false, now)
                    == JwksStepView::Use(cached.jwks)
                &&& age >= 60 * 1_000_000_000 ==> validator.jwks_step(true, now)
                    == JwksStepView::Fetch(url@)
                &&& age >= 15 * 60 * 1_000_000_000 ==> validator.jwks_step(false, now)
                    == JwksStepView::Fetch(url@) && validator.awaited_url(token, now) == Some(url@)
                &&& 60 * 1_000_000_000 <= age < 15 * 60 * 1_000_000_000 ==> validator.awaited_url(
                    token,
                    now,
                ) == (if selected(cached.jwks@, kid, algorithm) is Some {
                    None
                } else {
                    Some(url@)
                })
            },
        },
        validator.source matches JwksSource::Static(keys) ==> {
            &&& validator.jwks_step(force, now) == JwksStepView::Use(keys)
            &&& validator.awaited_url(token, now) is None
        },
{
    let chosen = choose|chosen: Algorithm| #[trigger] chosen.spec_name() == algorithm.spec_name();
    algorithm_names_differ(chosen, algorithm);
}

/// What a refused person is told: a server error where the keys could not be
/// had, and otherwise that the token does not satisfy the human role for the
/// repository, whatever was wrong with it.
pub proof fn refused_people_are_told_no_details(
    policy: HumanPolicyConfig,
    role: HumanRoleConfig,
    repo: Seq<char>,
    error: HumanTokenError,
    other: HumanTokenError,
)
    ensures
        error is KeysUnavailable ==> human_outcome(policy, role, repo, Err(error)) == Err::<
            (ScopeView, IdentityView),
            AppErrorView,
        >(AppErrorView::Internal("Teleport validation keys could not be retrieved"@)),
        !(error is KeysUnavailable) ==> human_outcome(policy, role, repo, Err(error)) == Err::<
            (ScopeView, IdentityView),
            AppErrorView,
        >(
            AppErrorView::Unauthorized(
                "token did not satisfy human-role '"@ + policy.human_role@ + "' for repository '"@
                    + repo + "'"@,
            ),
        ),
        !(error is KeysUnavailable) && !(other is KeysUnavailable) ==> human_outcome(
            policy,
            role,
            repo,
            Err(error),
        ) == human_outcome(policy, role, repo, Err(other)),
{
}

/// The human roles of a configuration are built as it describes them: each is
/// found by its own name, and its tokens are held against the configured issuer,
/// audience and algorithms, with keys from the configured address.
pub proof fn human_roles_are_built_as_configured(
    roles: Map<Seq<char>, HumanRole>,
    configs: Seq<HumanRoleConfig>,
    i: int,
    a: int,
)
    requires
        are_built_from(roles, configs_by_name(configs)),
        0 <= i < configs.len(),
        forall|k: int| i < k < configs.len() ==> (#[trigger] configs[k]).name@ != configs[i].name@,
    ensures
        roles.contains_key(configs[i].name@),
        ({
            let role = roles[configs[i].name@];
            let validator = role.validator;
            &&& role.config == configs[i]
            &&& validator.issuer@ == configs[i].issuer@
            &&& validator.audience@ == configs[i].audience@
            &&& validator.source matches JwksSource::Http { url } && url@ == configs[i].jwks_url@
            &&& validator.cache is None
            &&& validator.algorithms@.len() == configs[i].algorithms@.len()
            &&& 0 <= a < configs[i].algorithms@.len() ==> validator.algorithms@[a].spec_name()
                == match configs[i].algorithms@[a] {
                HumanJwtAlgorithm::Rs256 => "RS256"@,
                HumanJwtAlgorithm::Rs384 => "RS384"@,
                HumanJwtAlgorithm::Rs512 => "RS512"@,
                HumanJwtAlgorithm::Ps256 => "PS256"@,
                HumanJwtAlgorithm::Ps384 => "PS384"@,
                HumanJwtAlgorithm::Ps512 => "PS512"@,
                HumanJwtAlgorithm::Es256 => "ES256"@,
                HumanJwtAlgorithm::Es384 => "ES384"@,
                HumanJwtAlgorithm::EdDsa => "EdDSA"@,
            }
        }),
{
    let named = configs.map_values(|config: HumanRoleConfig| (config.name@, config));
    assert(named[i] == (configs[i].name@, configs[i]));
    assert forall|k: int| i < k < named.len() implies (#[trigger] named[k]).0
        != configs[i].name@ by {
        assert(configs[k].name@ != configs[i].name@);
    }
    crate::laws::texts::the_last_pair_counts(named, configs[i].name@, i);
    assert(configs_by_name(configs)[configs[i].name@] == configs[i]);
    assert(roles.contains_key(configs[i].name@));
    assert(crate::service::is_built_from(roles[configs[i].name@], configs[i]));
    if 0 <= a < configs[i].algorithms@.len() {
        assert(roles[configs[i].name@].validator.algorithms@[a]
            == configs[i].algorithms@[a].algorithm());
    }
}

/// A person's token must expire and must name its issuer, its audience and its
/// subject; nothing else is required of every token.
pub proof fn four_registered_claims_are_required(claim: Seq<char>)
    ensures
        registered_claims().contains(claim) <==> claim == "exp"@ || claim == "iss"@ || claim
            == "aud"@ || claim == "sub"@,
{
    let list = registered_claims();
    assert(list[0] == "exp"@ && list[1] == "iss"@ && list[2] == "aud"@ && list[3] == "sub"@);
}

/// A claim names a text where it is that text, or an array with it.
pub proof fn claims_name_texts(
    claims: Map<Seq<char>, ClaimView>,
    claim: Seq<char>,
    text: Seq<char>,
)
    ensures
        claim_names(claims, claim, text) ==> claims.contains_key(claim) && (claims[claim]
            == ClaimView::Text(text) || (claims[claim] matches ClaimView::List(list)
            && list.contains(Some(text)))),
        claim_text(claims, claim) == Some(text) <==> claims.contains_key(claim) && claims[claim]
            == ClaimView::Text(text),
{
}

/// What is kept of an accepted token is its subject and its other claims, all
/// of them and as they are.
pub proof fn accepted_tokens_keep_their_claims(
    payload: Map<Seq<char>, ClaimView>,
    subject: Seq<char>,
    claim: Seq<char>,
)
    requires
        payload.contains_key("sub"@),
        payload["sub"@] == ClaimView::Text(subject),
    ensures
        accepted_claims(payload).subject == subject,
        !accepted_claims(payload).claims.contains_key("sub"@),
        claim != "sub"@ ==> {
            &&& accepted_claims(payload).claims.contains_key(claim) == payload.contains_key(claim)
            &&& payload.contains_key(claim) ==> accepted_claims(payload).claims[claim]
                == payload[claim]
        },
{
}

/// Which policy decides a person's request: the one that names the GitHub App
/// and the repository, where there is exactly one and its human role is known.
/// Where there is none, or more than one, the request is not authorized, whatever
/// the token; where the human role is not known the fault is the server's.
pub proof fn one_policy_decides(
    state: AppState,
    app: Seq<char>,
    repo: Seq<char>,
    token: Seq<char>,
    p: int,
    q: int,
)
    ensures
        state.human_route(app, repo, None) == Err::<(HumanPolicyConfig, HumanRole), AppErrorView>(
            AppErrorView::Unauthorized("missing Authorization header"@),
        ),
        (forall|i: int|
            0 <= i < state.human_policies@.len() ==> !((
            #[trigger] state.human_policies@[i]).github_app@ == app
                && state.human_policies@[i].repository@ == repo)) ==> state.human_route(
            app,
            repo,
            Some(token),
        ) == Err::<(HumanPolicyConfig, HumanRole), AppErrorView>(
            AppErrorView::Unauthorized(
                "no human-policy authorizes github-app '"@ + app + "' for repository '"@ + repo
                    + "'"@,
            ),
        ),
        ({
            &&& 0 <= p < q < state.human_policies@.len()
            &&& state.human_policies@[p].github_app@ == app
            &&& state.human_policies@[p].repository@ == repo
            &&& state.human_policies@[q].github_app@ == app
            &&& state.human_policies@[q].repository@ == repo
        }) ==> (state.human_route(app, repo, Some(token)) matches Err(error)
            && error is Unauthorized),
        ({
            &&& 0 <= p < state.human_policies@.len()
            &&& state.human_policies@[p].github_app@ == app
            &&& state.human_policies@[p].repository@ == repo
            &&& forall|i: int|
                0 <= i < state.human_policies@.len() && i != p ==> !((
                #[trigger] state.human_policies@[i]).github_app@ == app
                    && state.human_policies@[i].repository@ == repo)
        }) ==> {
            let policy = state.human_policies@[p];
            &&& state.human_roles@.contains_key(policy.human_role@) ==> state.human_route(
                app,
                repo,
                Some(token),
            ) == Ok::<(HumanPolicyConfig, HumanRole), AppErrorView>(
                (policy, state.human_roles@[policy.human_role@]),
            )
            &&& !state.human_roles@.contains_key(policy.human_role@) ==> (state.human_route(
                app,
                repo,
                Some(token),
            ) matches Err(error) && error is Internal)
        },
{
    let policies = state.human_policies@;
    let found = human_policies_for(policies, app, repo);
    if found.len() > 0 {
        crate::laws::human_policies_are_for_their_repository(policies, app, repo, 0);
        let k = choose|k: int| 0 <= k < policies.len() && policies[k] == found[0];
        assert(policies[k].github_app@ == app && policies[k].repository@ == repo);
    }
    if 0 <= p < q < policies.len() && policies[p].github_app@ == app && policies[p].repository@
        == repo && policies[q].github_app@ == app && policies[q].repository@ == repo {
        crate::laws::two_human_policies_are_counted(policies, app, repo, p, q);
    }
    if 0 <= p < policies.len() && policies[p].github_app@ == app && policies[p].repository@ == repo
        && (forall|i: int|
        0 <= i < policies.len() && i != p ==> !((#[trigger] policies[i]).github_app@ == app
            && policies[i].repository@ == repo)) {
        crate::laws::human_policies_are_counted(policies, app, repo, p);
        assert forall|i: int, j: int| 0 <= i < j < policies.len() implies !(
        #[trigger] is_human_policy_for(policies[i], app, repo) && #[trigger] is_human_policy_for(
            policies[j],
            app,
            repo,
        )) by {
            if i == p {
                assert(!(policies[j].github_app@ == app && policies[j].repository@ == repo));
            } else {
                assert(!(policies[i].github_app@ == app && policies[i].repository@ == repo));
            }
        }
        crate::laws::at_most_one_human_policy(policies, app, repo);
    }
}

/// Before a person's request is decided, keys are fetched where the token of a
/// routed request waits for them, for the human role of its policy; a request
/// that is refused anyway waits for none.
pub proof fn keys_are_fetched_for_the_role_of_the_policy(
    state: AppState,
    app: Seq<char>,
    repo: Seq<char>,
    token: Seq<char>,
    now: u64,
)
    ensures
        state.human_route(app, repo, Some(token)) is Err ==> state.next_key_step(
            app,
            repo,
            token,
            now,
        ) is Decide,
        state.human_route(app, repo, Some(token)) matches Ok((policy, role)) ==> (
        match role.validator.awaited_url(token, now) {
            Some(awaited) => state.next_key_step(app, repo, token, now) matches
                HumanKeyStepView::Fetch { human_role, url } && human_role == policy.human_role@
                && url == awaited,
            None => state.next_key_step(app, repo, token, now) is Decide,
        }),
{
}

/// Keys that were fetched for a human role are kept by that role, with the time
/// at which they came; its configuration, and everything else, stays as it was.
pub proof fn fetched_keys_are_kept_by_their_role(
    before: AppState,
    after: AppState,
    human_role: Seq<char>,
    jwks: KeySet,
    now: u64,
)
    requires
        after.has_received(before, human_role, Some(jwks), now),
    ensures
        after.human_policies == before.human_policies,
        after.github_apps == before.github_apps,
        after.installation_policies == before.installation_policies,
        after.token_validator == before.token_validator,
        after.human_roles@.contains_key(human_role) == before.human_roles@.contains_key(
            human_role,
        ),
        before.human_roles@.contains_key(human_role) ==> {
            let role = after.human_roles@[human_role];
            let earlier = before.human_roles@[human_role];
            &&& role.config == earlier.config
            &&& role.validator.issuer == earlier.validator.issuer
            &&& role.validator.audience == earlier.validator.audience
            &&& role.validator.algorithms == earlier.validator.algorithms
            &&& role.validator.source == earlier.validator.source
            &&& role.validator.cache matches Some(cached) && cached.jwks == jwks
                && cached.fetched_at == now
        },
{
}

/// Why a payload is refused: for want of a subject first, then of an array of
/// roles, then of the role, and then for the first required claim that is not
/// met.
pub proof fn refusals_of_payloads_are_told_apart(
    payload: Map<Seq<char>, ClaimView>,
    requirement: HumanRequirement,
    i: int,
)
    ensures
        ({
            let claims = payload.remove("sub"@);
            let problem = payload_problem(payload, requirement);
            let named = payload.contains_key("sub"@) && payload["sub"@] is Text;
            let listed = claims.contains_key(requirement.roles_claim) && (
            claims[requirement.roles_claim] matches ClaimView::List(list) && forall|m: int|
                0 <= m < list.len() ==> (#[trigger] list[m]) is Some);
            let held = listed && (claims[requirement.roles_claim] matches ClaimView::List(list)
                && list.contains(Some(requirement.role)));
            &&& !named ==> problem == Some(HumanErrorView::TokenRejected)
            &&& named && !listed ==> problem == Some(
                HumanErrorView::RoleClaimNotAnArray { claim: requirement.roles_claim },
            )
            &&& named && listed && !held ==> problem == Some(
                HumanErrorView::RoleNotHeld {
                    claim: requirement.roles_claim,
                    role: requirement.role,
                },
            )
            &&& (named && held && 0 <= i < requirement.claims.len()
                && !requirement.claims[i].1.accepts(claim_text(claims, requirement.claims[i].0))
                && forall|k: int|
                0 <= k < i ==> (#[trigger] requirement.claims[k]).1.accepts(
                    claim_text(claims, requirement.claims[k].0),
                )) ==> problem == Some(
                HumanErrorView::ClaimMismatch { claim: requirement.claims[i].0 },
            )
        }),
{
    let claims = payload.remove("sub"@);
    held_role_is_a_member(claims, requirement.roles_claim, requirement.role);
    if 0 <= i < requirement.claims.len() {
        first_mismatch_is_the_first(claims, requirement.claims, i);
    }
}

proof fn first_mismatch_is_the_first(
    claims: Map<Seq<char>, ClaimView>,
    required: Seq<(Seq<char>, RequirementView)>,
    i: int,
)
    requires
        0 <= i < required.len(),
    ensures
        !required[i].1.accepts(claim_text(claims, required[i].0)) && (forall|k: int|
            0 <= k < i ==> (#[trigger] required[k]).1.accepts(claim_text(claims, required[k].0)))
            ==> first_mismatch(claims, required) == Some(required[i].0),
    decreases i,
{
    if i > 0 {
        let rest = required.skip(1);
        first_mismatch_is_the_first(claims, rest, i - 1);
        if forall|k: int|
            0 <= k < i ==> (#[trigger] required[k]).1.accepts(claim_text(claims, required[k].0)) {
            assert(required[0].1.accepts(claim_text(claims, required[0].0)));
            assert(rest[i - 1] == required[i]);
            assert forall|k: int| 0 <= k < i - 1 implies (#[trigger] rest[k]).1.accepts(
                claim_text(claims, rest[k].0),
            ) by {
                assert(required[k + 1].1.accepts(claim_text(claims, required[k + 1].0)));
            }
        }
    }
}

/// The key of a token is the one that is selected among the keys at hand.
/// Without one the token waits for new keys, where they can be fetched and were
/// not within the last minute, and is refused otherwise.
pub proof fn tokens_are_checked_with_keys_at_hand(
    validator: HumanTokenValidator,
    kid: Option<Seq<char>>,
    algorithm: Algorithm,
    now: u64,
)
    ensures
        ({
            let step = validator.key_step(kid, algorithm, now);
            match validator.keys_at_hand(now) {
                Some(keys) => match selected(keys, kid, algorithm) {
                    Some(key) => step == KeyStepView::Use(key),
                    None => match validator.source {
                        JwksSource::Static(_) => step is Refuse,
                        JwksSource::Http { url } => if now - validator.cache->Some_0.fetched_at
                            < 60 * 1_000_000_000 {
                            step is Refuse
                        } else {
                            step == KeyStepView::Fetch(url@)
                        },
                    },
                },
                None => validator.source matches JwksSource::Http { url } && step
                    == KeyStepView::Fetch(url@),
            }
        }),
{
}

/// A key may be tried with every algorithm but EdDSA, and with that where it
/// has 32 bytes or more.
pub proof fn keys_may_be_tried(document: Seq<char>, algorithm: Seq<char>)
    ensures
        algorithm != "EdDSA"@ ==> key_may_be_tried(document, algorithm),
        algorithm == "EdDSA"@ ==> (key_may_be_tried(document, algorithm) <==> (key_size(
            document,
        ) matches Some(Some(size)) && size >= 32)),
        key_is_usable(document) == key_size(document) is Some,
{
}

/// The errors of people's tokens name what they are about.
pub proof fn errors_name_what_they_are_about(
    algorithm: Algorithm,
    claim: Seq<char>,
    role: Seq<char>,
)
    ensures
        HumanErrorView::AlgorithmNotAllowed(algorithm).text() == "token algorithm "@
            + algorithm.spec_name() + " is not allowed for this issuer"@,
        (HumanErrorView::RoleClaimNotAnArray { claim }).text() == "claim '"@ + claim
            + "' is not a JSON array of strings"@,
        (HumanErrorView::RoleNotHeld { claim, role }).text() == "required role '"@ + role
            + "' is not present in claim '"@ + claim + "'"@,
        (HumanErrorView::ClaimMismatch { claim }).text() == "claim '"@ + claim
            + "' did not match the configured requirement"@,
        HumanErrorView::MalformedHeader.text() == "token header could not be decoded"@,
        HumanErrorView::UnknownKeyId.text() == "no validation key matched the token's key id"@,
        HumanErrorView::TokenRejected.text()
            == "token signature, issuer, audience, expiry or not-before check failed"@,
        HumanErrorView::KeysUnavailable.text() == "validation keys could not be retrieved"@,
{
}

} // verus!
