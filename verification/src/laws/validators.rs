//! What the validation of tokens, keys and configurations returns, call by call.
use crate::algorithm::Algorithm;
use crate::checks::ConfigError;
use crate::claims::{claim_text, is_alive_at, payload_claims, token_header, ClaimValue, ClaimView};
use crate::config::{
    default_bind_address, default_human_algorithms, default_private_key_directory,
    default_roles_claim, Config, GithubAppConfig, HumanJwtAlgorithm,
};
use crate::human::{
    accept_payload, claim_names, is_signed_with, HumanClaims, HumanRequirement, HumanTokenError,
    HumanTokenValidator, JwksSource, JwksStep,
};
use crate::jwks::{key_is_usable, selected, KeySet, KeyView, PublicKey};
use crate::laws::people::{
    human_roles_are_built_as_configured, keys_are_fetched_for_the_role_of_the_policy,
    keys_are_selected_by_id, payloads_hold_the_role_and_every_claim, refusals_before_the_signature,
    refusals_of_payloads_are_told_apart,
};
use crate::laws::startup::{requirements_accept_something, role_is_found, roles_are_named};
use crate::roles::{accepts_at, role_views, ClaimRequirement, RoleView, TokenValidator};
use crate::service::{AppState, HumanKeyStep};
use crate::string_map::StringMap;
use crate::text::{text_before, text_of, texts};
use vstd::prelude::*;

verus! {

/// Which texts meet a requirement.
pub proof fn requirements_are_matched(
    requirement: ClaimRequirement,
    value: Option<&str>,
    r: bool,
)
    requires
        call_ensures(ClaimRequirement::matches, (&requirement, value), r),
    ensures
        value is None ==> !r,
        value matches Some(text) ==> match requirement {
            ClaimRequirement::Equals(wanted) => r == (wanted@ == text@),
            ClaimRequirement::AnyOf(list) => r <==> exists|i: int|
                0 <= i < list@.len() && (#[trigger] list@[i])@ == text@,
            ClaimRequirement::Detailed(list) => r <==> exists|i: int|
                0 <= i < list@.len() && (#[trigger] list@[i])@ == text@,
        },
{
    if let Some(text) = value {
        let list = match requirement {
            ClaimRequirement::Equals(wanted) => seq![wanted],
            ClaimRequirement::AnyOf(list) => list@,
            ClaimRequirement::Detailed(list) => list@,
        };
        if let ClaimRequirement::Equals(wanted) = requirement {
            assert(seq![wanted@][0] == wanted@);
            if seq![wanted@].contains(text@) {
                let k = choose|k: int| 0 <= k < seq![wanted@].len() && seq![wanted@][k] == text@;
                assert(k == 0);
            }
        } else {
            assert(requirement@.acceptable() == texts(list));
            if texts(list).contains(text@) {
                let k = choose|k: int| 0 <= k < texts(list).len() && texts(list)[k] == text@;
                assert(list[k]@ == text@);
            }
            if exists|i: int| 0 <= i < list.len() && (#[trigger] list[i])@ == text@ {
                let i = choose|i: int| 0 <= i < list.len() && (#[trigger] list[i])@ == text@;
                assert(texts(list)[i] == text@);
            }
        }
    }
}

/// Which requirements are in order.
pub proof fn requirements_are_validated(
    requirement: ClaimRequirement,
    role: &str,
    claim: &str,
    r: Result<(), ConfigError>,
)
    requires
        call_ensures(ClaimRequirement::validate, (&requirement, role, claim), r),
    ensures
        r is Ok <==> (exists|text: Seq<char>| #[trigger] requirement@.accepts(Some(text)))
            && !requirement@.accepts(Some(Seq::empty())),
{
    requirements_accept_something(requirement@, role@, claim@);
}

/// The roles that a token stands for come by name and in order, each once, and
/// each is one whose issuer, audience, algorithms, key and requirements the token
/// fits. Of those with a validation key that the token may be held against, each
/// is among them that `authzoo` accepts at the time, and no other.
pub proof fn tokens_stand_for_roles(
    validator: TokenValidator,
    token: &str,
    r: Vec<String>,
    i: int,
    j: int,
    name: Seq<char>,
    claim: Seq<char>,
)
    requires
        call_ensures(TokenValidator::validate, (&validator, token), r),
    ensures
        validator.roles() is None ==> r@.len() == 0,
        0 <= i < j < r@.len() ==> text_before(r@[i]@, r@[j]@),
        validator.roles() matches Some(roles) ==> {
            &&& 0 <= i < r@.len() ==> {
                let role = roles[r@[i]@];
                &&& roles.contains_key(r@[i]@)
                &&& role.required().contains_key(claim) ==> role.required()[claim].accepts(
                    claim_text(payload_claims(token@), claim),
                )
                &&& role.validation_key is Some ==> exists|now: u64| #[trigger]
                    accepts_at(role, token@, now)
            }
            &&& roles.contains_key(name) && roles[name].validation_key is Some
                && !crate::roles::is_eddsa(token@) ==> (exists|k: int|
                0 <= k < r@.len() && (#[trigger] r@[k])@ == name) || exists|now: u64|
                !#[trigger] accepts_at(roles[name], token@, now)
        },
{
    if let Some(roles) = validator.roles() {
        let names = texts(r@);
        assert(forall|k: int| 0 <= k < names.len() ==> names[k] == (#[trigger] r@[k])@);
        if 0 <= i < r@.len() {
            assert(names[i] == r@[i]@);
            assert(roles.contains_key(names[i]));
            assert(names.contains(names[i]));
            assert(crate::roles::decides(names.contains(names[i]), roles[names[i]], token@));
        }
        if 0 <= i < j < r@.len() {
            assert(names[i] == r@[i]@ && names[j] == r@[j]@);
        }
        if roles.contains_key(name) {
            assert(crate::roles::decides(names.contains(name), roles[name], token@));
            if names.contains(name) {
                let k = choose|k: int| 0 <= k < names.len() && names[k] == name;
                assert(r@[k]@ == name);
            }
        }
    }
}

/// A token stands for a role with further requirements only where it meets each
/// of them and each of the role's own that none of them replaces; and where the
/// role has a validation key, only where, and wherever, `authzoo` accepts it.
pub proof fn tokens_stand_for_strict_roles(
    validator: TokenValidator,
    role_name: &str,
    required_claims: StringMap<ClaimRequirement>,
    token: &str,
    r: bool,
    claim: Seq<char>,
)
    requires
        call_ensures(
            TokenValidator::validate_role_with_claims,
            (&validator, role_name, &required_claims, token),
            r,
        ),
    ensures
        r ==> (validator.roles() matches Some(roles) && {
            let role = roles[role_name@];
            let claims = payload_claims(token@);
            &&& roles.contains_key(role_name@)
            &&& required_claims@.contains_key(claim) ==> required_claims@[claim].accepts(
                claim_text(claims, claim),
            )
            &&& role.required().contains_key(claim) && !required_claims@.contains_key(claim)
                ==> role.required()[claim].accepts(claim_text(claims, claim))
        }),
        (validator.roles() matches Some(roles) && roles.contains_key(role_name@)
            && roles[role_name@].validation_key is Some && !crate::roles::is_eddsa(token@))
            ==> exists|strict: RoleView|
            {
                &&& #[trigger] strict.is_strict_form_of(
                    validator.roles()->Some_0[role_name@],
                    required_claims@,
                )
                &&& strict.problem() is None ==> exists|now: u64|
                    r == #[trigger] accepts_at(strict, token@, now)
                &&& strict.problem() is Some ==> !r
            },
{
    if r {
        let role = validator.roles()->Some_0[role_name@];
        let required = role.required().union_prefer_right(required_claims@);
        if required_claims@.contains_key(claim) || role.required().contains_key(claim) {
            assert(required.contains_key(claim));
        }
    }
    if let Some(roles) = validator.roles() {
        if roles.contains_key(role_name@) && roles[role_name@].validation_key is Some
            && !crate::roles::is_eddsa(token@) {
            let strict = choose|strict: RoleView|
                {
                    &&& #[trigger] strict.is_strict_form_of(roles[role_name@], required_claims@)
                    &&& if strict.problem() is Some {
                        !r
                    } else {
                        crate::roles::decides(r, strict, token@)
                    }
                };
            assert(strict.is_strict_form_of(roles[role_name@], required_claims@));
        }
    }
}

/// A validator holds tokens against the roles that it is made for, all of them
/// and as they are, unless authorization is switched off.
pub proof fn validators_hold_the_configured_roles(
    config: Config,
    disable_auth: bool,
    r: Result<TokenValidator, ConfigError>,
    i: int,
    name: Seq<char>,
)
    requires
        call_ensures(TokenValidator::new, (config.roles, disable_auth), r),
    ensures
        disable_auth ==> (r matches Ok(validator) && validator.roles() is None),
        !disable_auth ==> {
            &&& r is Ok <==> crate::roles::roles_problem(role_views(config.roles@)) is None
            &&& r matches Ok(validator) ==> (validator.roles() matches Some(roles) && {
                &&& roles.contains_key(name) <==> exists|k: int|
                    0 <= k < config.roles@.len() && (#[trigger] config.roles@[k]).name@ == name
                &&& 0 <= i < config.roles@.len() ==> {
                    let role = roles[config.roles@[i].name@];
                    &&& role.issuer == config.roles@[i].issuer@
                    &&& role.audience == config.roles@[i].audience@
                    &&& role.validation_key == text_of(config.roles@[i].validation_key)
                    &&& role.algorithms == config.roles@[i].algorithms@
                    &&& role.required() == config.roles@[i].claims@
                }
            })
        },
{
    if !disable_auth {
        roles_are_named(config, name);
        if crate::roles::roles_problem(role_views(config.roles@)) is None && 0 <= i
            < config.roles@.len() {
            role_is_found(config, i);
        }
    }
}

/// What a person's token is validated to.
pub proof fn people_are_validated(
    validator: HumanTokenValidator,
    token: &str,
    roles_claim: &str,
    required_role: &str,
    required_claims: StringMap<ClaimRequirement>,
    now: u64,
    r: Result<HumanClaims, HumanTokenError>,
    i: int,
    algorithm: Algorithm,
    kid: Option<Seq<char>>,
)
    requires
        call_ensures(
            HumanTokenValidator::validate,
            (&validator, token, roles_claim, required_role, &required_claims, now),
            r,
        ),
    ensures
        r matches Ok(claims) ==> {
            let payload = payload_claims(token@);
            &&& payload.contains_key("sub"@)
            &&& payload["sub"@] == ClaimView::Text(claims@.subject)
            &&& claims@.claims == payload.remove("sub"@)
            &&& roles_claim@ != "sub"@
            &&& payload.contains_key(roles_claim@)
            &&& payload[roles_claim@] matches ClaimView::List(list) && list.contains(
                Some(required_role@),
            )
            &&& 0 <= i < required_claims.pairs().len() ==> required_claims.pairs()[i].1.accepts(
                claim_text(payload.remove("sub"@), required_claims.pairs()[i].0),
            )
            &&& claim_names(payload, "iss"@, validator.issuer@)
            &&& claim_names(payload, "aud"@, validator.audience@)
            &&& exists|at: u64| #[trigger] is_alive_at(token@, at)
            &&& exists|used: Algorithm, key: KeyView|
                {
                    &&& validator.algorithms@.contains(used)
                    &&& #[trigger] is_signed_with(token@, key.document, used.spec_name())
                    &&& validator.keys_at_hand(now) matches Some(keys) && keys.contains(key)
                }
        },
        token_header(token@) is None ==> (r matches Err(error) && error is MalformedHeader),
        token_header(token@) == Some((algorithm.spec_name(), kid)) ==> {
            &&& !validator.algorithms@.contains(algorithm) ==> (r matches Err(error) && error
                == HumanTokenError::AlgorithmNotAllowed(algorithm))
            &&& validator.algorithms@.contains(algorithm) && validator.source is Http && (
            validator.cache matches Some(cached) ==> now - cached.fetched_at >= 15 * 60
                * 1_000_000_000) ==> (r matches Err(error) && error is KeysUnavailable)
            &&& validator.algorithms@.contains(algorithm) && (
            validator.keys_at_hand(now) matches Some(keys) && selected(keys, kid, algorithm)
                is None) ==> (r matches Err(error) && error is UnknownKeyId)
        },
{
    let requirement = HumanRequirement {
        roles_claim: roles_claim@,
        role: required_role@,
        claims: required_claims.pairs(),
    };
    refusals_before_the_signature(validator, token@, requirement, now, r, algorithm, kid);
    if let Ok(claims) = r {
        let payload = payload_claims(token@);
        payloads_hold_the_role_and_every_claim(payload, requirement);
        let (name, id) = token_header(token@)->Some_0;
        let used = choose|used: Algorithm| #[trigger]
            used.spec_name() == name && validator.validates_with(
                token@,
                used,
                id,
                requirement,
                now,
                r,
            );
        let keys = validator.keys_at_hand(now)->Some_0;
        let key = selected(keys, id, used)->Some_0;
        keys_are_selected_by_id(keys, id, used, 0);
        assert(validator.comes_to(token@, key, used, requirement, r));
        assert(is_signed_with(token@, key.document, used.spec_name()));
        if 0 <= i < required_claims.pairs().len() {
            assert(requirement.claims[i].1.accepts(
                claim_text(payload.remove("sub"@), requirement.claims[i].0),
            ));
        }
    }
}

/// What the payload of a valid token is accepted to.
pub proof fn payloads_are_accepted(
    payload: StringMap<ClaimValue>,
    roles_claim: &str,
    required_role: &str,
    required_claims: StringMap<ClaimRequirement>,
    r: Result<HumanClaims, HumanTokenError>,
    i: int,
)
    requires
        call_ensures(accept_payload, (payload, roles_claim, required_role, &required_claims), r),
    ensures
        r is Ok ==> {
            &&& payload@.contains_key("sub"@)
            &&& payload@["sub"@] == ClaimView::Text(r->Ok_0@.subject)
            &&& r->Ok_0@.claims == payload@.remove("sub"@)
            &&& roles_claim@ != "sub"@
            &&& payload@.contains_key(roles_claim@)
            &&& payload@[roles_claim@] matches ClaimView::List(list) && list.contains(
                Some(required_role@),
            )
            &&& 0 <= i < required_claims.pairs().len() ==> required_claims.pairs()[i].1.accepts(
                claim_text(payload@.remove("sub"@), required_claims.pairs()[i].0),
            )
        },
        ({
            &&& payload@.contains_key("sub"@) && payload@["sub"@] is Text
            &&& roles_claim@ != "sub"@
            &&& payload@.contains_key(roles_claim@)
            &&& payload@[roles_claim@] matches ClaimView::List(list) && (forall|m: int|
                0 <= m < list.len() ==> (#[trigger] list[m]) is Some) && list.contains(
                Some(required_role@),
            )
            &&& forall|k: int|
                0 <= k < required_claims.pairs().len() ==> (
                #[trigger] required_claims.pairs()[k]).1.accepts(
                    claim_text(payload@.remove("sub"@), required_claims.pairs()[k].0),
                )
        }) ==> r is Ok,
        !(payload@.contains_key("sub"@) && payload@["sub"@] is Text) ==> (r matches Err(error)
            && error is TokenRejected),
{
    let requirement = HumanRequirement {
        roles_claim: roles_claim@,
        role: required_role@,
        claims: required_claims.pairs(),
    };
    payloads_hold_the_role_and_every_claim(payload@, requirement);
    refusals_of_payloads_are_told_apart(payload@, requirement, i);
    if r is Ok && 0 <= i < required_claims.pairs().len() {
        assert(requirement.claims[i].1.accepts(
            claim_text(payload@.remove("sub"@), requirement.claims[i].0),
        ));
    }
}

/// Which key of a set a token is checked with.
pub proof fn keys_are_selected(
    set: KeySet,
    kid: Option<String>,
    algorithm: Algorithm,
    r: Option<&PublicKey>,
    i: int,
)
    requires
        call_ensures(KeySet::select_key, (&set, &kid, algorithm), r),
    ensures
        r matches Some(key) ==> {
            &&& exists|k: int| 0 <= k < set.keys@.len() && (#[trigger] set.keys@[k])@ == key@
            &&& key_is_usable(key.document@)
            &&& key.key_algorithm matches Some(name) ==> name@ == algorithm.spec_name()
            &&& kid matches Some(id) ==> (key.key_id matches Some(own) && own@ == id@)
            &&& kid is None ==> set.keys@.len() == 1
        },
        ({
            &&& 0 <= i < set.keys@.len()
            &&& key_is_usable(set.keys@[i].document@)
            &&& set.keys@[i].key_algorithm matches Some(name) ==> name@ == algorithm.spec_name()
            &&& match kid {
                Some(_) => text_of(set.keys@[i].key_id) == text_of(kid) && forall|k: int|
                    0 <= k < i ==> text_of((#[trigger] set.keys@[k]).key_id) != text_of(kid),
                None => set.keys@.len() == 1,
            }
        }) ==> (r matches Some(key) && key@ == set.keys@[i]@),
{
    let keys = set@;
    assert(forall|k: int| 0 <= k < keys.len() ==> keys[k] == (#[trigger] set.keys@[k])@);
    assert(forall|k: int| 0 <= k < keys.len() ==> (#[trigger] keys[k]) == set.keys@[k]@);
    keys_are_selected_by_id(keys, text_of(kid), algorithm, i);
    if let Some(key) = r {
        let k = choose|k: int| 0 <= k < keys.len() && keys[k] == key@;
        assert(set.keys@[k]@ == key@);
    }
    if 0 <= i < keys.len() && kid is Some && (forall|k: int|
        0 <= k < i ==> text_of((#[trigger] set.keys@[k]).key_id) != text_of(kid)) {
        assert forall|k: int| 0 <= k < i implies (#[trigger] keys[k]).key_id != text_of(kid) by {
            assert(text_of(set.keys@[k].key_id) != text_of(kid));
        }
    }
}

/// How long fetched keys are used.
pub proof fn fetched_keys_are_used(
    validator: HumanTokenValidator,
    force: bool,
    now: u64,
    r: JwksStep<'_>,
)
    requires
        call_ensures(HumanTokenValidator::jwks, (&validator, force, now), r),
    ensures
        validator.source matches JwksSource::Static(keys) ==> (r matches JwksStep::Use(used)
            && *used == keys),
        validator.source matches JwksSource::Http { url } ==> match validator.cache {
            Some(cached) if now - cached.fetched_at < (if force {
                60_000_000_000int
            } else {
                900_000_000_000int
            }) => r matches JwksStep::Use(used) && *used == cached.jwks,
            _ => r matches JwksStep::Fetch(from) && from@ == url@,
        },
{
    if let JwksStep::Use(used) = r {
        assert(r@ == crate::human::JwksStepView::Use(*used));
    }
}

/// Whether keys are fetched before a person's request is decided.
pub proof fn people_wait_for_keys(
    state: AppState,
    app: GithubAppConfig,
    repo: &str,
    token: &str,
    now: u64,
    r: HumanKeyStep,
)
    requires
        call_ensures(AppState::human_key_step, (&state, &app, repo, token, now), r),
    ensures
        state.human_route(app.name@, repo@, Some(token@)) is Err ==> r is Decide,
        state.human_route(app.name@, repo@, Some(token@)) matches Ok((policy, role)) ==> match
            role.validator.awaited_url(token@, now) {
            Some(awaited) => r matches HumanKeyStep::Fetch { human_role, url } && human_role@
                == policy.human_role@ && url@ == awaited,
            None => r is Decide,
        },
{
    keys_are_fetched_for_the_role_of_the_policy(state, app.name@, repo@, token@, now);
}

/// What a configuration makes of the broker.
pub proof fn brokers_are_built_as_configured(
    config: Config,
    disable_auth: bool,
    r: Result<AppState, ConfigError>,
    i: int,
    a: int,
)
    requires
        call_ensures(AppState::from_config, (config, disable_auth), r),
        0 <= i < config.human_roles@.len() ==> forall|k: int|
            i < k < config.human_roles@.len() ==> (#[trigger] config.human_roles@[k]).name@
                != config.human_roles@[i].name@,
    ensures
        r matches Ok(state) ==> {
            &&& state.github_apps == config.github_apps
            &&& state.installation_policies == config.installation_policies
            &&& state.human_policies == config.human_policies
            &&& state.key_source == config.key_source
            &&& disable_auth <==> state.token_validator.roles() is None
            &&& 0 <= i < config.human_roles@.len() ==> {
                let described = config.human_roles@[i];
                let role = state.human_roles@[described.name@];
                &&& state.human_roles@.contains_key(described.name@)
                &&& role.config == described
                &&& role.validator.issuer@ == described.issuer@
                &&& role.validator.audience@ == described.audience@
                &&& role.validator.algorithms@.len() == described.algorithms@.len()
                &&& role.validator.source matches JwksSource::Http { url } && url@
                    == described.jwks_url@
                &&& role.validator.cache is None
            }
        },
        disable_auth ==> r is Ok,
{
    if let Ok(state) = r {
        if 0 <= i < config.human_roles@.len() {
            human_roles_are_built_as_configured(
                state.human_roles@,
                config.human_roles@,
                i,
                a,
            );
        }
    }
}

/// A configuration is accepted exactly where nothing is wrong with it, by the
/// laws of what the broker starts with.
pub proof fn configurations_are_validated(
    config: Config,
    disable_auth: bool,
    kms_supported: bool,
    r: Result<(), ConfigError>,
    s: Result<(), ConfigError>,
)
    requires
        call_ensures(Config::validate, (&config, disable_auth), r),
        call_ensures(
            Config::validate_for_build,
            (&config, disable_auth, kms_supported),
            s,
        ),
    ensures
        r is Ok <==> config.problem(disable_auth, false) is None,
        s is Ok <==> config.problem(disable_auth, kms_supported) is None,
        r matches Err(error) ==> config.problem(disable_auth, false) == Some(error.message@),
        s matches Err(error) ==> config.problem(disable_auth, kms_supported) == Some(
            error.message@,
        ),
{
}

/// The defaults of a configuration.
pub proof fn defaults_are_as_documented(
    address: String,
    directory: String,
    claim: String,
    algorithms: Vec<HumanJwtAlgorithm>,
)
    requires
        call_ensures(default_bind_address, (), address),
        call_ensures(default_private_key_directory, (), directory),
        call_ensures(default_roles_claim, (), claim),
        call_ensures(default_human_algorithms, (), algorithms),
    ensures
        address@ == "0.0.0.0:8080"@,
        directory@ == "/var/run/secrets/idcat"@,
        claim@ == "roles"@,
        algorithms@.len() == 1 && algorithms@[0] == HumanJwtAlgorithm::Rs256,
{
}

} // verus!
