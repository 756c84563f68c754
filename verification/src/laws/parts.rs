//! What the smaller calls return, on which the others rest.
use crate::algorithm::Algorithm;
use crate::checks::{no_problem, ConfigError};
use crate::claims::{token_header, ClaimValue, ClaimView};
use crate::config::{is_valid_repo_pattern, Config, HumanJwtAlgorithm, InstallationPolicyConfig};
use crate::error::AppError;
use crate::github::{InstallationTarget, TargetView};
use crate::helper::config::Config as HelperConfig;
use crate::helper::config::Repository;
use crate::helper::credential::{answers_for, is_github_https_request, repo_from_credential, Repo};
use crate::helper::token_source::{
    token_from_output, token_from_text, trim_token, SourceOutput, TokenError,
};
use crate::human::{
    is_signed_with, role_members, HumanClaims, HumanRequirement, HumanTokenError,
    HumanTokenValidator, JwksSource, TokenHeader,
};
use crate::jwks::{key_size, may_be_tried, selected, KeySet, KeyStep, PublicKey};
use crate::laws::people::{
    keys_are_fetched_from_the_configured_address, keys_may_be_tried,
    tokens_are_checked_with_keys_at_hand,
};
use crate::laws::texts::{joining_puts_the_separator_between, lower_case_is_of_ascii_letters};
use crate::laws::workloads::{bearer_tokens_follow_their_scheme, policies_require_what_they_name};
use crate::load_test::percentile;
use crate::lookup::{Lookup, LookupStep};
use crate::minting::begin_lookup;
use crate::requests::ensure_permissions_allowed;
use crate::roles::{ClaimRequirement, RequirementView, TokenValidator};
use crate::service::{claims_for_request, AppState, HumanIdentity, RepoScope, Requester, TokenScope};
use crate::string_map::StringMap;
use crate::text::{lower, text_of, texts, trim, trimmed};
use crate::token_cache::{
    installation_key, GithubCache, InstallationTokenCacheKey, InstallationTokenResponse,
};
use vstd::prelude::*;
use vstd::utf8::{decode_utf8, valid_utf8};

verus! {

/// The whole installation is everything, with no permission by name.
pub proof fn everything_is_everything(r: TokenScope)
    requires
        call_ensures(TokenScope::broad, (), r),
    ensures
        r.repositories == RepoScope::All,
        r.permissions@ == Map::<Seq<char>, Seq<char>>::empty(),
{
}

/// A person who asks is known by subject and access request.
pub proof fn people_ask_as_themselves(identity: HumanIdentity, r: Requester)
    requires
        call_ensures(Requester::person, (&identity,), r),
    ensures
        r matches Requester::Person { subject, request_id } && subject@ == identity.subject@
            && text_of(request_id) == text_of(identity.request_id),
{
}

/// What a policy requires of a request's token.
pub proof fn requests_are_required_to(
    policy: InstallationPolicyConfig,
    repo: &str,
    r: StringMap<ClaimRequirement>,
    claim: Seq<char>,
)
    requires
        call_ensures(claims_for_request, (&policy, repo), r),
    ensures
        !policy.allow_self_access ==> r@ == policy.required_claims@,
        policy.allow_self_access ==> r@.contains_key("repository"@) && r@["repository"@]
            == RequirementView::Equals(repo@),
        claim != "repository"@ ==> r@.contains_key(claim) == policy.required_claims@.contains_key(
            claim,
        ),
        claim != "repository"@ && policy.required_claims@.contains_key(claim) ==> r@[claim]
            == policy.required_claims@[claim],
{
    policies_require_what_they_name(policy, repo@, claim);
}

/// The token that a workload's request is decided by is its own; without one it
/// is refused, unless authorization is switched off.
pub proof fn workloads_bring_their_token(
    state: AppState,
    authorization: Option<&[u8]>,
    r: Result<Option<String>, AppError>,
)
    requires
        call_ensures(AppState::request_bearer_token, (&state, authorization), r),
    ensures
        r matches Ok(Some(token)) ==> (authorization matches Some(value)
            && crate::access::bearer_token_of(Some(value@)) == Ok::<Seq<char>, Seq<char>>(token@)),
        r matches Ok(None) ==> state.token_validator.roles() is None,
        r is Err ==> state.token_validator.roles() is Some,
        authorization is None && state.token_validator.roles() is Some ==> (r matches Err(error)
            && error is Unauthorized),
{
    bearer_tokens_follow_their_scheme(Seq::empty(), Seq::empty());
}

/// Permissions are allowed exactly where each is among the allowed ones and at
/// most at the level there, or none is named.
pub proof fn permissions_are_allowed(
    requested: StringMap<String>,
    allowed: StringMap<String>,
    r: Result<(), AppError>,
)
    requires
        call_ensures(ensure_permissions_allowed, (&requested, &allowed), r),
    ensures
        r is Ok <==> (allowed@ == Map::<Seq<char>, Seq<char>>::empty() || forall|j: int|
            0 <= j < requested.pairs().len() ==> allowed@.contains_key(
                (#[trigger] requested.pairs()[j]).0,
            ) && crate::requests::level_at_most(
                requested.pairs()[j].1,
                allowed@[requested.pairs()[j].0],
            )),
        r matches Err(error) ==> error is Unauthorized,
{
    crate::laws::requests::nothing_exceeds(requested.pairs(), allowed@);
}

/// Which patterns a policy may name.
pub proof fn patterns_are_checked(pattern: &str, r: bool, owner: Seq<char>, name: Seq<char>)
    requires
        call_ensures(is_valid_repo_pattern, (pattern,), r),
    ensures
        pattern@ == "*"@ ==> r,
        pattern@ == owner + "/"@ + name && owner.len() > 0 && name.len() > 0 && !owner.contains(
            '/',
        ) && !name.contains('/') ==> r,
        r && pattern@ != "*"@ ==> exists|k: int|
            {
                &&& 0 < k < pattern@.len() - 1
                &&& pattern@[k] == '/'
                &&& forall|m: int|
                    0 <= m < pattern@.len() && m != k ==> #[trigger] pattern@[m] != '/'
            },
{
    crate::laws::startup::patterns_have_an_owner_and_a_name(pattern@, owner, name);
}

/// A policy is labelled by its repositories, with `, ` between them.
pub proof fn policies_are_labelled(policy: InstallationPolicyConfig, r: String)
    requires
        call_ensures(InstallationPolicyConfig::repositories_label, (&policy,), r),
    ensures
        policy.repositories@.len() == 0 ==> r@.len() == 0,
        policy.repositories@.len() == 1 ==> r@ == policy.repositories@[0]@,
        policy.repositories@.len() == 2 ==> r@ == policy.repositories@[0]@ + ", "@
            + policy.repositories@[1]@,
{
    let list = texts(policy.repositories@);
    if list.len() == 1 {
        assert(list =~= seq![policy.repositories@[0]@]);
        joining_puts_the_separator_between(
            Seq::empty(),
            Seq::empty(),
            policy.repositories@[0]@,
            ", "@,
        );
    }
    if list.len() == 2 {
        let a = seq![policy.repositories@[0]@];
        let b = seq![policy.repositories@[1]@];
        assert(list =~= a + b);
        joining_puts_the_separator_between(a, b, policy.repositories@[0]@, ", "@);
        joining_puts_the_separator_between(b, a, policy.repositories@[1]@, ", "@);
    }
}

/// A NATS server that nothing is published to is noticed.
pub proof fn unused_servers_are_noticed(config: Config, r: bool)
    requires
        call_ensures(Config::nats_is_unused, (&config,), r),
    ensures
        r <==> config.nats is Some && forall|i: int|
            0 <= i < config.github_apps@.len() ==> (
            #[trigger] config.github_apps@[i]).webhook_target is None,
{
}

/// The algorithms of people's tokens go by their registered names, and none of
/// them shares its key.
pub proof fn human_algorithms_go_by_their_names(human: HumanJwtAlgorithm, r: Algorithm)
    requires
        call_ensures(HumanJwtAlgorithm::to_algorithm, (human,), r),
    ensures
        r.spec_name() == match human {
            HumanJwtAlgorithm::Rs256 => "RS256"@,
            HumanJwtAlgorithm::Rs384 => "RS384"@,
            HumanJwtAlgorithm::Rs512 => "RS512"@,
            HumanJwtAlgorithm::Ps256 => "PS256"@,
            HumanJwtAlgorithm::Ps384 => "PS384"@,
            HumanJwtAlgorithm::Ps512 => "PS512"@,
            HumanJwtAlgorithm::Es256 => "ES256"@,
            HumanJwtAlgorithm::Es384 => "ES384"@,
            HumanJwtAlgorithm::EdDsa => "EdDSA"@,
        },
        !(r is HS256 || r is HS384 || r is HS512),
{
}

/// The roles that a claim holds are the members of an array of texts, all of
/// them in their order; anything else is an error that names the claim.
pub proof fn role_claims_are_arrays(
    claims: StringMap<ClaimValue>,
    roles_claim: &str,
    r: Result<Vec<String>, HumanTokenError>,
    i: int,
)
    requires
        call_ensures(role_members, (&claims, roles_claim), r),
    ensures
        r is Ok <==> claims@.contains_key(roles_claim@) && (
        claims@[roles_claim@] matches ClaimView::List(list) && forall|m: int|
            0 <= m < list.len() ==> (#[trigger] list[m]) is Some),
        r matches Ok(roles) ==> (claims@[roles_claim@] matches ClaimView::List(list) && roles@.len()
            == list.len() && (0 <= i < list.len() ==> list[i] == Some(roles@[i]@))),
        r matches Err(error) ==> (error matches HumanTokenError::RoleClaimNotAnArray { claim }
            && claim@ == roles_claim@),
{
    if let Ok(roles) = r {
        if let ClaimView::List(list) = claims@[roles_claim@] {
            let held = list.map_values(|member: Option<Seq<char>>| member->Some_0);
            assert(texts(roles@) == held);
            assert(texts(roles@).len() == roles@.len());
            if 0 <= i < list.len() {
                assert(texts(roles@)[i] == roles@[i]@);
                assert(held[i] == list[i]->Some_0);
            }
        }
    }
}

/// The header of a token is read as it is, and its algorithm must be allowed.
pub proof fn headers_are_read(
    validator: HumanTokenValidator,
    token: &str,
    r: Result<TokenHeader, HumanTokenError>,
)
    requires
        call_ensures(HumanTokenValidator::read_header, (&validator, token), r),
    ensures
        r matches Ok(header) ==> {
            &&& token_header(token@) == Some((header.algorithm.spec_name(), text_of(header.kid)))
            &&& validator.algorithms@.contains(header.algorithm)
        },
        token_header(token@) is None ==> (r matches Err(error) && error is MalformedHeader),
        r matches Err(error) ==> error is MalformedHeader || (
        error matches HumanTokenError::AlgorithmNotAllowed(algorithm)
            && !validator.algorithms@.contains(algorithm)),
{
}

/// Where the key of a token comes from.
pub proof fn keys_are_decided_on(
    validator: HumanTokenValidator,
    header: TokenHeader,
    now: u64,
    r: KeyStep,
)
    requires
        call_ensures(HumanTokenValidator::decoding_key, (&validator, &header, now), r),
    ensures
        validator.keys_at_hand(now) matches Some(keys) ==> match selected(
            keys,
            text_of(header.kid),
            header.algorithm,
        ) {
            Some(key) => r matches KeyStep::Use(used) && used@ == key,
            None => !(r is Use),
        },
        validator.keys_at_hand(now) is None ==> (validator.source matches JwksSource::Http { url }
            && r matches KeyStep::Fetch(from) && from@ == url@),
        validator.source is Static ==> !(r is Fetch),
{
    tokens_are_checked_with_keys_at_hand(validator, text_of(header.kid), header.algorithm, now);
}

/// Whether the keys of a token are to be fetched first, and from where.
pub proof fn keys_are_awaited(
    validator: HumanTokenValidator,
    token: &str,
    now: u64,
    r: Option<String>,
    algorithm: Algorithm,
    kid: Option<Seq<char>>,
)
    requires
        call_ensures(HumanTokenValidator::awaited_keys, (&validator, token, now), r),
        token_header(token@) == Some((algorithm.spec_name(), kid)),
        validator.algorithms@.contains(algorithm),
    ensures
        validator.source matches JwksSource::Http { url } ==> {
            &&& r matches Some(from) ==> from@ == url@
            &&& validator.cache is None ==> r is Some
            &&& validator.cache matches Some(cached) ==> {
                &&& now - cached.fetched_at < 60_000_000_000 ==> r is None
                &&& now - cached.fetched_at >= 900_000_000_000 ==> r is Some
            }
        },
        validator.source is Static ==> r is None,
{
    keys_are_fetched_from_the_configured_address(validator, now, false, token@, algorithm, kid);
    if validator.source is Http {
        let url = validator.source->url;
        assert(text_of(r) == validator.awaited_url(token@, now));
    }
}

/// What the check of a token with a key comes to.
pub proof fn tokens_are_checked(
    validator: HumanTokenValidator,
    token: &str,
    key: PublicKey,
    algorithm: Algorithm,
    roles_claim: &str,
    required_role: &str,
    required_claims: StringMap<ClaimRequirement>,
    r: Result<HumanClaims, HumanTokenError>,
)
    requires
        call_ensures(
            HumanTokenValidator::check_token,
            (&validator, token, &key, algorithm, roles_claim, required_role, &required_claims),
            r,
        ),
    ensures
        r is Ok ==> {
            let payload = crate::claims::payload_claims(token@);
            let requirement = HumanRequirement {
                roles_claim: roles_claim@,
                role: required_role@,
                claims: required_claims.pairs(),
            };
            &&& is_signed_with(token@, key.document@, algorithm.spec_name())
            &&& crate::human::claim_names(payload, "iss"@, validator.issuer@)
            &&& crate::human::claim_names(payload, "aud"@, validator.audience@)
            &&& crate::human::payload_problem(payload, requirement) is None
            &&& payload.contains_key("sub"@)
            &&& payload["sub"@] == ClaimView::Text(r->Ok_0@.subject)
            &&& exists|at: u64| #[trigger] crate::claims::is_alive_at(token@, at)
        },
        algorithm is EdDSA && !(key_size(key.document@) matches Some(Some(size)) && size >= 32)
            ==> (r matches Err(error) && error is TokenRejected),
{
    keys_may_be_tried(key.document@, algorithm.spec_name());
}

/// Which keys may be tried with which algorithm.
pub proof fn keys_are_measured(document: &str, algorithm: Algorithm, r: bool)
    requires
        call_ensures(may_be_tried, (document, algorithm), r),
    ensures
        !(algorithm is EdDSA) ==> r,
        algorithm is EdDSA ==> (r <==> (key_size(document@) matches Some(Some(size)) && size
            >= 32)),
{
    keys_may_be_tried(document@, algorithm.spec_name());
    crate::algorithm::algorithm_names_differ(algorithm, Algorithm::EdDSA);
}

/// What is done first to find an installation: nothing, where it is known.
pub proof fn known_installations_are_not_looked_up(
    cache: GithubCache,
    github_app: &str,
    target: InstallationTarget,
    r: LookupStep,
    id: u64,
    owner: Seq<char>,
)
    requires
        call_ensures(begin_lookup, (&cache, github_app, &target), r),
    ensures
        cache.ids().contains_key(installation_key(github_app@, target@)) ==> r
            == LookupStep::Found(cache.ids()[installation_key(github_app@, target@)]),
        !cache.ids().contains_key(installation_key(github_app@, target@)) ==> !(r is Found),
        !cache.ids().contains_key(installation_key(github_app@, target@)) && target@
            == TargetView::Owner(owner) ==> (r matches LookupStep::Ask { lookup, path } && lookup
            == Lookup::Organization && path@ == "orgs/"@ + owner + "/installation"@),
{
}

/// A kept token is found by its key and handed out while it lasts.
pub proof fn kept_tokens_are_found(
    cache: GithubCache,
    key: InstallationTokenCacheKey,
    now: u64,
    r: Option<InstallationTokenResponse>,
)
    requires
        call_ensures(GithubCache::cached_installation_token, (&cache, &key, now), r),
    ensures
        cache.kept(key@) is None ==> r is None,
        cache.kept(key@) matches Some(cached) ==> (r is Some <==> cached.refresh_after > now),
        r matches Some(token) ==> (cache.kept(key@) matches Some(cached) && cached.token
            == token@),
{
}

/// Which requests of Git are for GitHub by https.
pub proof fn git_asks_for_github(credential: StringMap<String>, r: bool)
    requires
        call_ensures(is_github_https_request, (&credential,), r),
    ensures
        r <==> {
            &&& credential@.contains_key("protocol"@) && credential@["protocol"@] == "https"@
            &&& credential@.contains_key("host"@) && credential@["host"@] == "github.com"@
        },
{
}

/// Which repository a request of Git is about.
pub proof fn git_asks_for_a_repository(
    credential: StringMap<String>,
    r: Option<Repo>,
    slashes: Seq<char>,
    owner: Seq<char>,
    name: Seq<char>,
)
    requires
        call_ensures(repo_from_credential, (&credential,), r),
        forall|i: int| 0 <= i < slashes.len() ==> slashes[i] == '/',
        owner.len() > 0 && name.len() > 0 && !owner.contains('/') && !name.contains('/'),
    ensures
        !credential@.contains_key("path"@) ==> r is None,
        credential@.contains_key("path"@) && credential@["path"@] == slashes + (owner + "/"@ + name
            + ".git"@) ==> (r matches Some(repo) && repo.owner@ == owner && repo.name@ == name),
        credential@.contains_key("path"@) && credential@["path"@] == slashes + (owner + "/"@ + name)
            && !".git"@.is_suffix_of(name) ==> (r matches Some(repo) && repo.owner@ == owner
            && repo.name@ == name),
        r matches Some(repo) ==> repo.owner@.len() > 0 && repo.name@.len() > 0
            && !repo.owner@.contains('/') && !repo.name@.contains('/'),
{
    if credential@.contains_key("path"@) {
        crate::laws::helper::paths_name_repositories(
            slashes,
            owner,
            name,
            credential@["path"@],
        );
    }
}

/// Which repositories the helper has a credential for.
pub proof fn the_helper_answers_for(configured: Option<&Repository>, requested: Repo, r: bool)
    requires
        call_ensures(answers_for, (configured, &requested), r),
    ensures
        configured is None ==> r,
        configured matches Some(repository) ==> (r <==> lower(repository.owner@) == lower(
            requested.owner@,
        ) && lower(repository.name@) == lower(requested.name@)),
{
    if let Some(repository) = configured {
        lower_case_is_of_ascii_letters(repository.owner@, requested.owner@, 0);
        lower_case_is_of_ascii_letters(repository.name@, requested.name@, 0);
    }
}

/// The token in what a program printed.
pub proof fn printed_tokens_are_trimmed(
    output: SourceOutput,
    source: &str,
    r: Result<String, TokenError>,
    token: Seq<char>,
)
    requires
        call_ensures(token_from_output, (output, source), r),
    ensures
        (r matches Ok(found) && found@ == token) <==> {
            &&& output.success
            &&& valid_utf8(output.bytes@)
            &&& token == trimmed(decode_utf8(output.bytes@))
            &&& token.len() > 0
        },
{
}

/// A token without the white space round it.
pub proof fn tokens_lose_white_space(
    token: &str,
    empty_message: &str,
    r: Result<String, TokenError>,
    printed: Result<String, String>,
    source: &str,
    s: Result<String, TokenError>,
)
    requires
        call_ensures(trim_token, (token, empty_message), r),
        call_ensures(token_from_text, (printed, source), s),
    ensures
        r is Ok <==> trimmed(token@).len() > 0,
        r matches Ok(found) ==> found@ == trimmed(token@),
        r matches Err(error) ==> error.message@ == empty_message@,
        printed matches Ok(text) ==> {
            &&& s is Ok <==> trimmed(text@).len() > 0
            &&& s matches Ok(found) ==> found@ == trimmed(text@)
        },
        printed matches Err(fault) ==> (s matches Err(error) && error.message@ == source@
            + " output was not UTF-8: "@ + fault@),
{
}

/// To trim a text is to cut the white space from its ends.
pub proof fn texts_are_trimmed(s: &str, r: &str)
    requires
        call_ensures(trim, (s,), r),
    ensures
        exists|i: int, j: int|
            {
                &&& 0 <= i <= j <= s@.len()
                &&& r@ == #[trigger] s@.subrange(i, j)
                &&& forall|k: int|
                    0 <= k < i || j <= k < s@.len() ==> crate::text::white_space(#[trigger] s@[k])
                &&& i < j ==> !crate::text::white_space(s@[i]) && !crate::text::white_space(
                    s@[j - 1],
                )
            },
{
    crate::laws::texts::trimming_cuts_white_space_from_the_ends(s@);
}

/// A validator is made for the issuer, the audience, the algorithms and the keys
/// that it is given.
pub proof fn validators_are_made_as_asked(
    issuer: &str,
    audience: &str,
    url: &str,
    jwks: KeySet,
    algorithms: Vec<Algorithm>,
    r: HumanTokenValidator,
    s: HumanTokenValidator,
)
    requires
        call_ensures(HumanTokenValidator::from_http, (issuer, audience, url, algorithms), r),
        call_ensures(
            HumanTokenValidator::from_static_jwks,
            (issuer, audience, jwks, algorithms),
            s,
        ),
    ensures
        r.issuer@ == issuer@ && r.audience@ == audience@ && r.algorithms == algorithms,
        r.source matches JwksSource::Http { url: from } && from@ == url@,
        r.cache is None,
        s.issuer@ == issuer@ && s.audience@ == audience@ && s.algorithms == algorithms,
        s.source == JwksSource::Static(jwks),
{
}

/// A percentile is the latency at that share of their number, or the last.
pub proof fn percentiles_are_at_their_share(sorted: Vec<u64>, share: usize, r: u64)
    requires
        sorted@.len() * share <= usize::MAX,
        sorted@.len() > 0,
        call_ensures(percentile, (&sorted, share), r),
    ensures
        sorted@.len() * share / 100 < sorted@.len() ==> r == sorted@[(sorted@.len() * share
            / 100) as int],
        sorted@.len() * share / 100 >= sorted@.len() ==> r == sorted@[sorted@.len() - 1],
{
}

/// Whether authorization is switched on, whether the helper is for one
/// repository, and whether it goes through a shell.
pub proof fn switches_are_told(
    validator: TokenValidator,
    config: HelperConfig,
    enabled: bool,
    scoped: bool,
    shell: bool,
)
    requires
        call_ensures(TokenValidator::auth_enabled, (&validator,), enabled),
        call_ensures(HelperConfig::is_scoped, (&config,), scoped),
        call_ensures(HelperConfig::uses_shell, (&config,), shell),
    ensures
        enabled <==> validator.roles() is Some,
        scoped <==> config.repository is Some,
        shell <==> config.token_source is ShellCommand,
{
}

/// Errors and targets are told as they are.
pub proof fn errors_and_targets_are_told(
    error: AppError,
    text: String,
    refused: HumanTokenError,
    why: String,
    target: InstallationTarget,
    label: String,
)
    requires
        call_ensures(AppError::to_text, (&error,), text),
        call_ensures(HumanTokenError::to_text, (&refused,), why),
        call_ensures(InstallationTarget::to_text, (&target,), label),
    ensures
        match error {
            AppError::BadRequest(own) => text@ == own@,
            AppError::Unauthorized(own) => text@ == own@,
            AppError::NotFound(own) => text@ == own@,
            AppError::Internal(own) => text@ == own@,
        },
        refused matches HumanTokenError::RoleNotHeld { claim, role } ==> why@ == "required role '"@
            + role@ + "' is not present in claim '"@ + claim@ + "'"@,
        refused matches HumanTokenError::ClaimMismatch { claim } ==> why@ == "claim '"@ + claim@
            + "' did not match the configured requirement"@,
        target matches InstallationTarget::Repository(repo) ==> label@ == "repository '"@ + repo@
            + "'"@,
        target matches InstallationTarget::Owner(owner) ==> label@ == "owner '"@ + owner@ + "'"@,
{
}

/// The claims of an accepted token are told as they are.
pub proof fn accepted_claims_are_told<'a>(
    claims: HumanClaims,
    claim: &str,
    subject: &'a str,
    text: Option<&'a str>,
)
    requires
        call_ensures(HumanClaims::subject, (&claims,), subject),
        call_ensures(HumanClaims::claim_str, (&claims, claim), text),
    ensures
        subject@ == claims@.subject,
        text matches Some(found) ==> claims@.claims.contains_key(claim@)
            && claims@.claims[claim@] == ClaimView::Text(found@),
        text is None ==> !(claims@.claims.contains_key(claim@) && claims@.claims[claim@] is Text),
{
}

/// Human roles and policies are checked with the rest of the configuration, or
/// by themselves.
pub proof fn human_parts_are_validated(
    config: Config,
    r: Result<(), ConfigError>,
    i: int,
    k: int,
    kms_supported: bool,
)
    requires
        call_ensures(Config::validate_human_config, (&config,), r),
    ensures
        config.problem(false, kms_supported) is None ==> r is Ok,
        r is Ok && 0 <= i < config.human_roles@.len() ==> {
            let role = config.human_roles@[i];
            &&& role.name@.len() > 0
            &&& role.issuer@.len() > 0
            &&& role.audience@.len() > 0
            &&& "https://"@.is_prefix_of(role.jwks_url@)
            &&& "/.well-known/jwks.json"@.is_suffix_of(role.jwks_url@)
            &&& role.teleport_role@.len() > 0
            &&& !role.teleport_role@.contains('*') && !role.teleport_role@.contains('?')
            &&& role.roles_claim@.len() > 0
            &&& role.algorithms@.len() > 0
        },
        r is Ok && 0 <= i < config.human_policies@.len() ==> {
            let policy = config.human_policies@[i];
            &&& !policy.repository@.contains('*') && !policy.repository@.contains('?')
            &&& crate::human_validation::is_owner_and_name(policy.repository@)
            &&& policy.permissions.pairs().len() > 0
            &&& exists|m: int|
                0 <= m < config.human_roles@.len() && (#[trigger] config.human_roles@[m]).name@
                    == policy.human_role@
            &&& 0 <= k < i ==> !(config.human_policies@[k].github_app@ == policy.github_app@
                && config.human_policies@[k].repository@ == policy.repository@)
        },
{
    if r is Ok {
        let check = |m: int| config.human_role_problem(m);
        no_problem(check, 0, config.human_roles@.len() as int);
        if 0 <= i < config.human_roles@.len() {
            assert(check(i) is None);
        }
        let policies = |m: int| config.human_policy_problem(m);
        no_problem(policies, 0, config.human_policies@.len() as int);
        if 0 <= i < config.human_policies@.len() {
            assert(policies(i) is None);
            if 0 <= k < i {
                assert(config.human_policies@.take(i)[k] == config.human_policies@[k]);
            }
        }
    }
}

} // verus!
