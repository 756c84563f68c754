//! Validation of the Teleport tokens that people present, as opposed to the
//! tokens of workloads.
//!
//! A person's roles come as an array, and a text of the same name is no
//! substitute for it. The keys come from a configured URL. The claims of a
//! validated token are kept, so that an issuance record can name the person. A
//! token is held against the one issuer that the configuration picks for it.
use crate::algorithm::{algorithm_names_differ, Algorithm};
use crate::claims::{
    claim_text, decode_header, is_alive_at, members, payload_claims, token_expiry, token_header,
    token_not_before, ClaimValue, ClaimView,
};
use crate::jwks::{
    key_is_usable, key_may_be_tried, may_be_tried, selected, KeySet, KeyStep, KeyStepView, KeyView,
    PublicKey, JWKS_CACHE_TTL, JWKS_REFETCH_FLOOR,
};
use crate::roles::{ClaimRequirement, RequirementView};
use crate::string_map::{map_of, StringMap};
use crate::text::{cat3, cat5, contains_text, text_of, texts};
use jsonwebtoken::{decode, DecodingKey, Validation};
use serde_json::Value;
use vstd::prelude::*;

verus! {

/// Why a person's token is refused.
#[derive(Debug, PartialEq, Eq)]
pub enum HumanTokenError {
    MalformedHeader,
    AlgorithmNotAllowed(Algorithm),
    UnknownKeyId,
    TokenRejected,
    RoleClaimNotAnArray { claim: String },
    RoleNotHeld { claim: String, role: String },
    ClaimMismatch { claim: String },
    KeysUnavailable,
}

/// The model of a `HumanTokenError`.
pub enum HumanErrorView {
    MalformedHeader,
    AlgorithmNotAllowed(Algorithm),
    UnknownKeyId,
    TokenRejected,
    RoleClaimNotAnArray { claim: Seq<char> },
    RoleNotHeld { claim: Seq<char>, role: Seq<char> },
    ClaimMismatch { claim: Seq<char> },
    KeysUnavailable,
}

impl View for HumanTokenError {
    type V = HumanErrorView;

    open spec fn view(&self) -> HumanErrorView {
        match self {
            HumanTokenError::MalformedHeader => HumanErrorView::MalformedHeader,
            HumanTokenError::AlgorithmNotAllowed(a) => HumanErrorView::AlgorithmNotAllowed(*a),
            HumanTokenError::UnknownKeyId => HumanErrorView::UnknownKeyId,
            HumanTokenError::TokenRejected => HumanErrorView::TokenRejected,
            HumanTokenError::RoleClaimNotAnArray { claim } => HumanErrorView::RoleClaimNotAnArray {
                claim: claim@,
            },
            HumanTokenError::RoleNotHeld { claim, role } => HumanErrorView::RoleNotHeld {
                claim: claim@,
                role: role@,
            },
            HumanTokenError::ClaimMismatch { claim } => HumanErrorView::ClaimMismatch {
                claim: claim@,
            },
            HumanTokenError::KeysUnavailable => HumanErrorView::KeysUnavailable,
        }
    }
}

impl HumanErrorView {
    /// The text of the error.
    pub open spec fn text(self) -> Seq<char> {
        match self {
            HumanErrorView::MalformedHeader => "token header could not be decoded"@,
            HumanErrorView::AlgorithmNotAllowed(algorithm) => "token algorithm "@
                + algorithm.spec_name() + " is not allowed for this issuer"@,
            HumanErrorView::UnknownKeyId => "no validation key matched the token's key id"@,
            HumanErrorView::TokenRejected =>
                "token signature, issuer, audience, expiry or not-before check failed"@,
            HumanErrorView::RoleClaimNotAnArray { claim } => "claim '"@ + claim
                + "' is not a JSON array of strings"@,
            HumanErrorView::RoleNotHeld { claim, role } => "required role '"@ + role
                + "' is not present in claim '"@ + claim + "'"@,
            HumanErrorView::ClaimMismatch { claim } => "claim '"@ + claim
                + "' did not match the configured requirement"@,
            HumanErrorView::KeysUnavailable => "validation keys could not be retrieved"@,
        }
    }
}

impl HumanTokenError {
    /// The text of the error.
    pub fn to_text(&self) -> (r: String)
        ensures
            r@ == self@.text(),
    {
        match self {
            HumanTokenError::MalformedHeader => "token header could not be decoded".to_owned(),
            HumanTokenError::AlgorithmNotAllowed(algorithm) => cat3(
                "token algorithm ",
                algorithm.name(),
                " is not allowed for this issuer",
            ),
            HumanTokenError::UnknownKeyId => "no validation key matched the token's key id".to_owned(),
            HumanTokenError::TokenRejected =>
                "token signature, issuer, audience, expiry or not-before check failed".to_owned(),
            HumanTokenError::RoleClaimNotAnArray { claim } => cat3(
                "claim '",
                claim.as_str(),
                "' is not a JSON array of strings",
            ),
            HumanTokenError::RoleNotHeld { claim, role } => cat5(
                "required role '",
                role.as_str(),
                "' is not present in claim '",
                claim.as_str(),
                "'",
            ),
            HumanTokenError::ClaimMismatch { claim } => cat3(
                "claim '",
                claim.as_str(),
                "' did not match the configured requirement",
            ),
            HumanTokenError::KeysUnavailable => "validation keys could not be retrieved".to_owned(),
        }
    }
}

/// The claims of a token that has passed every check.
#[derive(Debug, Clone)]
pub struct HumanClaims {
    subject: String,
    claims: StringMap<ClaimValue>,
}

/// The model of a `HumanClaims`: the subject, and the claims other than it.
pub struct HumanClaimsView {
    pub subject: Seq<char>,
    pub claims: Map<Seq<char>, ClaimView>,
}

impl View for HumanClaims {
    type V = HumanClaimsView;

    closed spec fn view(&self) -> HumanClaimsView {
        HumanClaimsView { subject: self.subject@, claims: self.claims@ }
    }
}

fn text_claim<'a>(claims: &'a StringMap<ClaimValue>, claim: &str) -> (r: Option<&'a str>)
    ensures
        r is Some <==> claim_text(claims@, claim@) is Some,
        r matches Some(text) ==> claim_text(claims@, claim@) == Some(text@),
{
    match claims.get(claim) {
        Some(ClaimValue::Text(text)) => Some(text.as_str()),
        _ => None,
    }
}

impl HumanClaims {
    /// The person.
    pub fn subject(&self) -> (r: &str)
        ensures
            r@ == self@.subject,
    {
        self.subject.as_str()
    }

    /// A claim's text, to join an issuance record to the Teleport access
    /// request or session behind it. There is none for a claim that is absent
    /// or is not text.
    pub fn claim_str(&self, claim: &str) -> (r: Option<&str>)
        ensures
            r is Some <==> claim_text(self@.claims, claim@) is Some,
            r matches Some(text) ==> claim_text(self@.claims, claim@) == Some(text@),
    {
        text_claim(&self.claims, claim)
    }
}

/// Whether every member of an array is text.
pub open spec fn all_text(list: Seq<Option<Seq<char>>>) -> bool {
    forall|i: int| 0 <= i < list.len() ==> (#[trigger] list[i]) is Some
}

/// The roles that a claim holds: the members of an array of texts. Any other
/// value holds none, not even a single text.
pub open spec fn held_roles(claims: Map<Seq<char>, ClaimView>, claim: Seq<char>) -> Option<
    Seq<Seq<char>>,
> {
    if claims.contains_key(claim) {
        match claims[claim] {
            ClaimView::List(list) => if all_text(list) {
                Some(list.map_values(|member: Option<Seq<char>>| member->Some_0))
            } else {
                None
            },
            _ => None,
        }
    } else {
        None
    }
}

/// Reads the claim that holds a person's roles. A single text is an error
/// rather than an array of one: to accept it would let a token of some other
/// issuer's shape satisfy a requirement for a Teleport role.
pub fn role_members(claims: &StringMap<ClaimValue>, roles_claim: &str) -> (r: Result<
    Vec<String>,
    HumanTokenError,
>)
    ensures
        match r {
            Ok(roles) => held_roles(claims@, roles_claim@) == Some(texts(roles@)),
            Err(error) => held_roles(claims@, roles_claim@) is None && error@
                == (HumanErrorView::RoleClaimNotAnArray { claim: roles_claim@ }),
        },
{
    let list = match claims.get(roles_claim) {
        Some(ClaimValue::List(list)) => list,
        _ => {
            return Err(HumanTokenError::RoleClaimNotAnArray { claim: roles_claim.to_owned() });
        },
    };
    let mut roles: Vec<String> = Vec::new();
    let mut i: usize = 0;
    while i < list.len()
        invariant
            i <= list@.len(),
            claims@.contains_key(roles_claim@),
            claims@[roles_claim@] == ClaimView::List(members(list@)),
            roles@.len() == i,
            forall|j: int| 0 <= j < i ==> #[trigger] members(list@)[j] == Some(roles@[j]@),
        decreases list@.len() - i,
    {
        match &list[i] {
            Some(role) => {
                roles.push(role.clone());
                i = i + 1;
            },
            None => {
                assert(members(list@)[i as int] is None);
                return Err(HumanTokenError::RoleClaimNotAnArray { claim: roles_claim.to_owned() });
            },
        }
    }
    assert(texts(roles@) =~= members(list@).map_values(
        |member: Option<Seq<char>>| member->Some_0,
    ));
    Ok(roles)
}

/// The first of the required claims that is not met.
pub open spec fn first_mismatch(
    claims: Map<Seq<char>, ClaimView>,
    required: Seq<(Seq<char>, RequirementView)>,
) -> Option<Seq<char>>
    decreases required.len(),
{
    if required.len() == 0 {
        None
    } else if !required[0].1.accepts(claim_text(claims, required[0].0)) {
        Some(required[0].0)
    } else {
        first_mismatch(claims, required.skip(1))
    }
}

/// What a person's token must show beside a valid signature, issuer, audience
/// and lifetime.
pub struct HumanRequirement {
    pub roles_claim: Seq<char>,
    pub role: Seq<char>,
    pub claims: Seq<(Seq<char>, RequirementView)>,
}

/// Why the payload of a valid token is refused, if it is: it names no subject,
/// does not hold the role, or fails a required claim. The subject itself is
/// not among the claims that roles and requirements are read from.
pub open spec fn payload_problem(
    payload: Map<Seq<char>, ClaimView>,
    requirement: HumanRequirement,
) -> Option<HumanErrorView> {
    let claims = payload.remove("sub"@);
    let roles = held_roles(claims, requirement.roles_claim);
    let mismatch = first_mismatch(claims, requirement.claims);
    if claim_text(payload, "sub"@) is None {
        Some(HumanErrorView::TokenRejected)
    } else if roles is None {
        Some(HumanErrorView::RoleClaimNotAnArray { claim: requirement.roles_claim })
    } else if !roles->Some_0.contains(requirement.role) {
        Some(
            HumanErrorView::RoleNotHeld {
                claim: requirement.roles_claim,
                role: requirement.role,
            },
        )
    } else if mismatch is Some {
        Some(HumanErrorView::ClaimMismatch { claim: mismatch->Some_0 })
    } else {
        None
    }
}

/// What is kept of the payload of an accepted token.
pub open spec fn accepted_claims(payload: Map<Seq<char>, ClaimView>) -> HumanClaimsView {
    HumanClaimsView {
        subject: claim_text(payload, "sub"@)->Some_0,
        claims: payload.remove("sub"@),
    }
}

/// Holds the payload of a token, whose signature, issuer, audience and lifetime
/// are valid, against the required role and claims.
pub fn accept_payload(
    payload: StringMap<ClaimValue>,
    roles_claim: &str,
    required_role: &str,
    required_claims: &StringMap<ClaimRequirement>,
) -> (r: Result<HumanClaims, HumanTokenError>)
    ensures
        ({
            let requirement = HumanRequirement {
                roles_claim: roles_claim@,
                role: required_role@,
                claims: required_claims.pairs(),
            };
            match r {
                Ok(claims) => payload_problem(payload@, requirement) is None && claims@
                    == accepted_claims(payload@),
                Err(error) => payload_problem(payload@, requirement) == Some(error@),
            }
        }),
{
    let subject = match text_claim(&payload, "sub") {
        Some(subject) => subject.to_owned(),
        None => {
            return Err(HumanTokenError::TokenRejected);
        },
    };
    let (_, claims) = payload.remove("sub");
    let roles = match role_members(&claims, roles_claim) {
        Ok(roles) => roles,
        Err(error) => {
            return Err(error);
        },
    };
    // Each member is compared whole: a role that merely contains the required name does not count.
    if !contains_text(&roles, required_role) {
        return Err(
            HumanTokenError::RoleNotHeld {
                claim: roles_claim.to_owned(),
                role: required_role.to_owned(),
            },
        );
    }
    let n: usize = required_claims.len();
    let mut i: usize = 0;
    let ghost required = required_claims.pairs();
    let ghost requirement = HumanRequirement {
        roles_claim: roles_claim@,
        role: required_role@,
        claims: required_claims.pairs(),
    };
    assert(required.skip(0) =~= required);
    while i < n
        invariant
            i <= n,
            n == required.len(),
            required == required_claims.pairs(),
            requirement.claims == required,
            claims@ == payload@.remove("sub"@),
            payload_problem(payload@, requirement) == (match first_mismatch(claims@, required) {
                Some(claim) => Some(HumanErrorView::ClaimMismatch { claim }),
                None => None,
            }),
            requirement == (HumanRequirement {
                roles_claim: roles_claim@,
                role: required_role@,
                claims: required_claims.pairs(),
            }),
            first_mismatch(claims@, required) == first_mismatch(claims@, required.skip(i as int)),
        decreases n - i,
    {
        proof {
            assert(required.skip(i as int)[0] == required[i as int]);
            assert(required.skip(i as int).skip(1) =~= required.skip(i + 1));
        }
        let claim = required_claims.key_at(i);
        let value = text_claim(&claims, claim.as_str());
        if !required_claims.value_at(i).matches(value) {
            return Err(HumanTokenError::ClaimMismatch { claim: claim.clone() });
        }
        i = i + 1;
    }
    Ok(HumanClaims { subject, claims })
}

/// Whether the signature of a token verifies under an algorithm with a key.
pub uninterp spec fn is_signed_with(
    token: Seq<char>,
    key_document: Seq<char>,
    algorithm: Seq<char>,
) -> bool;

/// Whether a claim names a text: it is the text, or an array that holds it.
pub open spec fn claim_names(
    claims: Map<Seq<char>, ClaimView>,
    claim: Seq<char>,
    text: Seq<char>,
) -> bool {
    claims.contains_key(claim) && match claims[claim] {
        ClaimView::Text(value) => value == text,
        ClaimView::List(list) => list.contains(Some(text)),
        ClaimView::Other => false,
    }
}

/// What holds, beside its signature, of every token that `jsonwebtoken::decode`
/// accepts: its header names the algorithm, and the registered claims that must
/// be there are of the right kind and name one of the issuers and one of the
/// audiences.
spec fn decodes(
    token: Seq<char>,
    key_document: Seq<char>,
    algorithm: Seq<char>,
    issuers: Seq<Seq<char>>,
    audiences: Seq<Seq<char>>,
    required: Seq<Seq<char>>,
) -> bool {
    let claims = payload_claims(token);
    &&& token_header(token) matches Some((name, _)) && name == algorithm
    &&& key_is_usable(key_document)
    &&& required.contains("sub"@) ==> claim_text(claims, "sub"@) is Some
    &&& required.contains("iss"@) ==> exists|i: int|
        0 <= i < issuers.len() && claim_names(claims, "iss"@, #[trigger] issuers[i])
    &&& required.contains("aud"@) ==> exists|i: int|
        0 <= i < audiences.len() && claim_names(claims, "aud"@, #[trigger] audiences[i])
    &&& required.contains("exp"@) ==> claims.contains_key("exp"@)
}

/// Whether `jsonwebtoken::decode` accepts a token, with the key that a document
/// holds and under these rules, at a time: in seconds since the Unix epoch, by
/// which it tells whether the token has expired or comes too early.
pub uninterp spec fn decodes_at(
    token: Seq<char>,
    key_document: Seq<char>,
    algorithm: Seq<char>,
    issuers: Seq<Seq<char>>,
    audiences: Seq<Seq<char>>,
    required: Seq<Seq<char>>,
    now: u64,
) -> bool;

/// A claim as it is read: its name, its text where it is text, and its members
/// where it is an array.
type ReadClaim = (String, Option<String>, Option<Vec<Option<String>>>);

/// The value of a claim as it is read.
spec fn read_value(claim: ReadClaim) -> ClaimView {
    match (claim.1, claim.2) {
        (Some(text), _) => ClaimView::Text(text@),
        (None, Some(list)) => ClaimView::List(members(list@)),
        (None, None) => ClaimView::Other,
    }
}

/// The names and the values of claims as they are read.
spec fn read_claims(claims: Seq<ReadClaim>) -> Seq<(Seq<char>, ClaimView)> {
    claims.map_values(|claim: ReadClaim| (claim.0@, read_value(claim)))
}

/// Whether a time is not after an expiry nor before a start, where there are
/// such.
spec fn is_current(expiry: Option<u64>, start: Option<u64>, now: u64) -> bool {
    &&& expiry matches Some(expiry) ==> now <= expiry
    &&& start matches Some(start) ==> start <= now
}

/// Calls `jsonwebtoken::decode` on a token, with the key that the document
/// holds. Of the registered claims the required ones must be there; where the
/// token names issuers or audiences, one of the given must be among them; and
/// it must not have expired nor come too early, to the second. The result is
/// the claims of the payload, each under its own name. Whether a token is
/// accepted is a function of what is handed over here and of the second at which
/// it is; which second that is is left open. An EdDSA key must have its full
/// length, of which `jsonwebtoken` takes a slice without a test, and the
/// machine's clock must not stand before the Unix epoch.
#[verifier::external_body]
fn decode_token(
    token: &str,
    key_document: &str,
    algorithm: &str,
    issuers: &Vec<String>,
    audiences: &Vec<String>,
    required: &Vec<String>,
    validate_exp: bool,
    validate_nbf: bool,
    leeway: u64,
) -> (r: Option<Vec<ReadClaim>>)
    requires
        key_may_be_tried(key_document@, algorithm@),
        validate_exp,
        validate_nbf,
        leeway == 0,
    ensures
        r is Some ==> is_signed_with(token@, key_document@, algorithm@),
        r is Some ==> decodes(
            token@,
            key_document@,
            algorithm@,
            texts(issuers@),
            texts(audiences@),
            texts(required@),
        ),
        r matches Some(claims) ==> map_of(read_claims(claims@)) == payload_claims(token@),
        r is Some && texts(required@).contains("exp"@) ==> token_expiry(token@) is Some,
        exists|now: u64|
            {
                &&& (r is Some) == #[trigger] decodes_at(
                    token@,
                    key_document@,
                    algorithm@,
                    texts(issuers@),
                    texts(audiences@),
                    texts(required@),
                    now,
                )
                &&& r is Some ==> is_current(token_expiry(token@), token_not_before(token@), now)
            },
{
    let mut validation = Validation::new(algorithm.parse().ok()?);
    validation.set_issuer(issuers);
    validation.set_audience(audiences);
    validation.set_required_spec_claims(required);
    validation.validate_exp = validate_exp;
    validation.validate_nbf = validate_nbf;
    validation.leeway = leeway;
    let decoded = decode::<serde_json::Map<String, Value>>(token,
        &DecodingKey::from_jwk(&serde_json::from_str(key_document).ok()?).ok()?, &validation);
    let text = |value: &Value| value.as_str().map(str::to_string);
    Some(decoded.ok()?.claims.iter().map(|(name, value)| (name.clone(), text(value),
        value.as_array().map(|list| list.iter().map(text).collect()))).collect())
}

/// The claims of a payload as they are read.
fn payload_of(claims: Vec<ReadClaim>) -> (r: StringMap<ClaimValue>)
    ensures
        r@ == map_of(read_claims(claims@)),
{
    let ghost wanted = read_claims(claims@);
    let mut payload: StringMap<ClaimValue> = StringMap::new();
    for claim in it: claims
        invariant
            read_claims(it.seq()) == wanted,
            payload@ == map_of(wanted.take(it.index() as int)),
    {
        let ghost k = it.index() as int;
        proof {
            assert(wanted.take(k + 1).drop_last() =~= wanted.take(k));
            assert(wanted[k] == (claim.0@, read_value(claim)));
        }
        let (name, text, list) = claim;
        let value = match (text, list) {
            (Some(text), _) => ClaimValue::Text(text),
            (None, Some(list)) => ClaimValue::List(list),
            (None, None) => ClaimValue::Other,
        };
        payload = payload.with(name, value);
    }
    assert(wanted.take(wanted.len() as int) =~= wanted);
    payload
}

/// The registered claims that a person's token must have.
pub open spec fn registered_claims() -> Seq<Seq<char>> {
    seq!["exp"@, "iss"@, "aud"@, "sub"@]
}

fn required_registered_claims() -> (r: Vec<String>)
    ensures
        texts(r@) == registered_claims(),
{
    let mut required: Vec<String> = Vec::new();
    required.push("exp".to_owned());
    required.push("iss".to_owned());
    required.push("aud".to_owned());
    required.push("sub".to_owned());
    assert(texts(required@) =~= registered_claims());
    required
}

/// Where an issuer's keys come from.
#[derive(Debug, Clone)]
pub enum JwksSource {
    /// Fetched from a URL and kept for a while.
    Http { url: String },
    /// Given once and for all.
    Static(KeySet),
}

/// Fetched keys, and when they were fetched: in nanoseconds of a clock that
/// never goes back.
#[derive(Debug, Clone)]
pub struct CachedJwks {
    pub jwks: KeySet,
    pub fetched_at: u64,
}

/// Validates the tokens of one issuer of people's tokens.
#[derive(Debug, Clone)]
pub struct HumanTokenValidator {
    pub issuer: String,
    pub audience: String,
    pub algorithms: Vec<Algorithm>,
    pub source: JwksSource,
    pub cache: Option<CachedJwks>,
}

/// What a token's header says: the algorithm, and the id of the key.
#[derive(Debug, PartialEq, Eq)]
pub struct TokenHeader {
    pub algorithm: Algorithm,
    pub kid: Option<String>,
}

/// What to do to have the keys of an issuer.
#[derive(Debug, PartialEq, Eq)]
pub enum JwksStep<'a> {
    /// Use these.
    Use(&'a KeySet),
    /// Fetch them from this URL.
    Fetch(&'a str),
}

/// The model of a `JwksStep`.
pub enum JwksStepView {
    Use(KeySet),
    Fetch(Seq<char>),
}

impl<'a> View for JwksStep<'a> {
    type V = JwksStepView;

    open spec fn view(&self) -> JwksStepView {
        match self {
            JwksStep::Use(keys) => JwksStepView::Use(**keys),
            JwksStep::Fetch(url) => JwksStepView::Fetch(url@),
        }
    }
}

impl HumanTokenValidator {
    /// Whether the kept keys may be used at a time: for a quarter of an hour
    /// or, where new ones are asked for, for a minute.
    pub open spec fn cache_is_usable(self, force: bool, now: u64) -> bool {
        self.cache matches Some(cached) && now - cached.fetched_at < (if force {
            JWKS_REFETCH_FLOOR
        } else {
            JWKS_CACHE_TTL
        })
    }

    /// The keys that are at hand at a time: fetched ones are so for a quarter of
    /// an hour.
    pub open spec fn keys_at_hand(self, now: u64) -> Option<Seq<KeyView>> {
        match self.source {
            JwksSource::Static(jwks) => Some(jwks@),
            JwksSource::Http { .. } => if self.cache_is_usable(false, now) {
                Some(self.cache->Some_0.jwks@)
            } else {
                None
            },
        }
    }

    /// A validator that fetches the issuer's keys from a URL.
    pub fn from_http(
        issuer: &str,
        audience: &str,
        jwks_url: &str,
        algorithms: Vec<Algorithm>,
    ) -> (r: Self)
        ensures
            r.issuer@ == issuer@,
            r.audience@ == audience@,
            r.algorithms == algorithms,
            r.source matches JwksSource::Http { url } && url@ == jwks_url@,
            r.cache is None,
    {
        HumanTokenValidator {
            issuer: issuer.to_owned(),
            audience: audience.to_owned(),
            algorithms,
            source: JwksSource::Http { url: jwks_url.to_owned() },
            cache: None,
        }
    }

    /// A validator that is given the issuer's keys.
    pub fn from_static_jwks(
        issuer: &str,
        audience: &str,
        jwks: KeySet,
        algorithms: Vec<Algorithm>,
    ) -> (r: Self)
        ensures
            r.issuer@ == issuer@,
            r.audience@ == audience@,
            r.algorithms == algorithms,
            r.source == JwksSource::Static(jwks),
            r.cache is None,
    {
        HumanTokenValidator {
            issuer: issuer.to_owned(),
            audience: audience.to_owned(),
            algorithms,
            source: JwksSource::Static(jwks),
            cache: None,
        }
    }

    /// What to do to have the keys at a time.
    pub open spec fn jwks_step(self, force: bool, now: u64) -> JwksStepView {
        match self.source {
            JwksSource::Static(jwks) => JwksStepView::Use(jwks),
            JwksSource::Http { url } => if self.cache_is_usable(force, now) {
                JwksStepView::Use(self.cache->Some_0.jwks)
            } else {
                JwksStepView::Fetch(url@)
            },
        }
    }

    /// What to do to have the keys at a time. With `force` new keys are asked
    /// for, because none of the kept ones fits a token.
    pub fn jwks(&self, force: bool, now: u64) -> (r: JwksStep<'_>)
        ensures
            r@ == self.jwks_step(force, now),
    {
        match &self.source {
            JwksSource::Static(jwks) => JwksStep::Use(jwks),
            JwksSource::Http { url } => {
                if let Some(cached) = &self.cache {
                    let age: u64 = if now > cached.fetched_at {
                        now - cached.fetched_at
                    } else {
                        0
                    };
                    let limit: u64 = if force {
                        JWKS_REFETCH_FLOOR
                    } else {
                        JWKS_CACHE_TTL
                    };
                    if age < limit {
                        return JwksStep::Use(&cached.jwks);
                    }
                }
                JwksStep::Fetch(url.as_str())
            },
        }
    }

    /// Keeps fetched keys.
    pub fn store_jwks(&mut self, jwks: KeySet, now: u64)
        ensures
            final(self).issuer == old(self).issuer,
            final(self).audience == old(self).audience,
            final(self).algorithms == old(self).algorithms,
            final(self).source == old(self).source,
            final(self).cache == Some(CachedJwks { jwks, fetched_at: now }),
    {
        self.cache = Some(CachedJwks { jwks, fetched_at: now });
    }

    fn held_jwks(&self, now: u64) -> (r: Option<&KeySet>)
        ensures
            r is Some <==> self.keys_at_hand(now) is Some,
            r matches Some(keys) ==> self.keys_at_hand(now) == Some(keys@),
    {
        match self.jwks(false, now) {
            JwksStep::Use(jwks) => Some(jwks),
            JwksStep::Fetch(_) => None,
        }
    }

    /// What follows from a token's header: the algorithm must be one that the
    /// issuer's tokens are signed with.
    pub fn check_header(&self, header: Option<(String, Option<String>)>) -> (r: Result<
        TokenHeader,
        HumanTokenError,
    >)
        ensures
            match r {
                Ok(checked) => header matches Some((name, kid)) && checked.algorithm.spec_name()
                    == name@ && checked.kid == kid && self.algorithms@.contains(checked.algorithm),
                Err(error) => match header {
                    Some((name, _)) => match error {
                        HumanTokenError::AlgorithmNotAllowed(algorithm) => algorithm.spec_name()
                            == name@ && !self.algorithms@.contains(algorithm),
                        _ => error is MalformedHeader && forall|algorithm: Algorithm|
                            #[trigger] algorithm.spec_name() != name@,
                    },
                    None => error is MalformedHeader,
                },
            },
    {
        let (name, kid) = match header {
            Some(header) => header,
            None => {
                return Err(HumanTokenError::MalformedHeader);
            },
        };
        let algorithm = match Algorithm::from_name(name.as_str()) {
            Some(algorithm) => algorithm,
            None => {
                return Err(HumanTokenError::MalformedHeader);
            },
        };
        let mut i: usize = 0;
        while i < self.algorithms.len()
            invariant
                i <= self.algorithms@.len(),
                algorithm.spec_name() == name@,
                header == Some((name, kid)),
                forall|j: int| 0 <= j < i ==> self.algorithms@[j] != algorithm,
            decreases self.algorithms@.len() - i,
        {
            if self.algorithms[i] == algorithm {
                return Ok(TokenHeader { algorithm, kid });
            }
            i = i + 1;
        }
        Err(HumanTokenError::AlgorithmNotAllowed(algorithm))
    }

    /// Reads a token's header and checks its algorithm.
    pub fn read_header(&self, token: &str) -> (r: Result<TokenHeader, HumanTokenError>)
        ensures
            match r {
                Ok(header) => token_header(token@) == Some(
                    (header.algorithm.spec_name(), text_of(header.kid)),
                ) && self.algorithms@.contains(header.algorithm),
                Err(error) => match token_header(token@) {
                    Some((name, _)) => error matches HumanTokenError::AlgorithmNotAllowed(algorithm)
                        && algorithm.spec_name() == name && !self.algorithms@.contains(algorithm),
                    None => error is MalformedHeader,
                },
            },
    {
        self.check_header(decode_header(token))
    }

    /// What to do about the key of a token at a time. Keys are fetched where
    /// none are at hand, and where none of those at hand fits unless they were
    /// fetched within the last minute.
    pub open spec fn key_step(
        self,
        kid: Option<Seq<char>>,
        algorithm: Algorithm,
        now: u64,
    ) -> KeyStepView {
        match self.source {
            JwksSource::Static(jwks) => match selected(jwks@, kid, algorithm) {
                Some(key) => KeyStepView::Use(key),
                None => KeyStepView::Refuse,
            },
            JwksSource::Http { url } => if !self.cache_is_usable(false, now) {
                KeyStepView::Fetch(url@)
            } else {
                match selected(self.cache->Some_0.jwks@, kid, algorithm) {
                    Some(key) => KeyStepView::Use(key),
                    None => if self.cache_is_usable(true, now) {
                        KeyStepView::Refuse
                    } else {
                        KeyStepView::Fetch(url@)
                    },
                }
            },
        }
    }

    /// What to do about the key of a token at a time.
    pub fn decoding_key(&self, header: &TokenHeader, now: u64) -> (r: KeyStep)
        ensures
            r@ == self.key_step(text_of(header.kid), header.algorithm, now),
    {
        let keys = match self.jwks(false, now) {
            JwksStep::Use(keys) => keys,
            JwksStep::Fetch(url) => {
                return KeyStep::Fetch(url.to_owned());
            },
        };
        match keys.select_key(&header.kid, header.algorithm) {
            Some(key) => KeyStep::Use(key.clone()),
            None => match self.jwks(true, now) {
                JwksStep::Use(_) => KeyStep::Refuse,
                JwksStep::Fetch(url) => KeyStep::Fetch(url.to_owned()),
            },
        }
    }

    /// Where the keys are to be fetched from before a token is validated, if
    /// they are to be. A token whose header cannot be read, or whose algorithm
    /// is not allowed, is refused without them.
    pub open spec fn awaited_url(self, token: Seq<char>, now: u64) -> Option<Seq<char>> {
        match token_header(token) {
            None => None,
            Some((name, kid)) => {
                let algorithm = choose|algorithm: Algorithm| #[trigger]
                    algorithm.spec_name() == name;
                if self.algorithms@.contains(algorithm) {
                    match self.key_step(kid, algorithm, now) {
                        KeyStepView::Fetch(url) => Some(url),
                        _ => None,
                    }
                } else {
                    None
                }
            },
        }
    }

    /// Where the keys are to be fetched from before a token is validated, if
    /// they are to be.
    pub fn awaited_keys(&self, token: &str, now: u64) -> (r: Option<String>)
        ensures
            text_of(r) == self.awaited_url(token@, now),
    {
        proof {
            if let Some((name, _)) = token_header(token@) {
                let chosen = choose|algorithm: Algorithm| #[trigger]
                    algorithm.spec_name() == name;
                assert forall|algorithm: Algorithm| #[trigger]
                    algorithm.spec_name() == name implies algorithm == chosen by {
                    algorithm_names_differ(algorithm, chosen);
                }
            }
        }
        match self.read_header(token) {
            Ok(header) => match self.decoding_key(&header, now) {
                KeyStep::Fetch(url) => Some(url),
                _ => None,
            },
            Err(_) => None,
        }
    }

    /// Whether this is a validator that has received the answer to a request
    /// for keys. Keys take the place of those that were kept; where the request
    /// failed, or its answer was no key set, nothing changes and the keys are
    /// unavailable.
    pub open spec fn has_received(
        self,
        before: HumanTokenValidator,
        fetched: Option<KeySet>,
        now: u64,
        outcome: Result<(), HumanTokenError>,
    ) -> bool {
        match fetched {
            Some(jwks) => outcome is Ok && self == (HumanTokenValidator {
                cache: Some(CachedJwks { jwks, fetched_at: now }),
                ..before
            }),
            None => outcome == Err::<(), HumanTokenError>(HumanTokenError::KeysUnavailable)
                && self == before,
        }
    }

    /// Receives the answer to a request for keys: the key set, or none where
    /// the request failed or its answer was no key set.
    pub fn receive_jwks(&mut self, fetched: Option<KeySet>, now: u64) -> (r: Result<
        (),
        HumanTokenError,
    >)
        ensures
            final(self).has_received(*old(self), fetched, now, r),
    {
        match fetched {
            Some(jwks) => {
                self.store_jwks(jwks, now);
                Ok(())
            },
            None => Err(HumanTokenError::KeysUnavailable),
        }
    }

    /// What holds of every token that is accepted with a key: the signature
    /// verifies, and the payload names the issuer, the audience, a subject and
    /// an expiry.
    pub open spec fn vouched_for(
        self,
        token: Seq<char>,
        key: KeyView,
        algorithm: Algorithm,
    ) -> bool {
        let claims = payload_claims(token);
        &&& is_signed_with(token, key.document, algorithm.spec_name())
        &&& claim_names(claims, "iss"@, self.issuer@)
        &&& claim_names(claims, "aud"@, self.audience@)
        &&& claim_text(claims, "sub"@) is Some
        &&& claims.contains_key("exp"@)
    }

    /// Whether `jsonwebtoken` accepts a token with a key, or does not, at some
    /// time. It is told the issuer, the audience and the claims that must be
    /// there. Nothing but the time is left open, and a token is accepted only
    /// within its lifetime.
    pub open spec fn is_decoding(
        self,
        accepted: bool,
        token: Seq<char>,
        key: KeyView,
        algorithm: Algorithm,
    ) -> bool {
        exists|now: u64|
            {
                &&& accepted == #[trigger] decodes_at(
                    token,
                    key.document,
                    algorithm.spec_name(),
                    seq![self.issuer@],
                    seq![self.audience@],
                    registered_claims(),
                    now,
                )
                &&& accepted ==> is_alive_at(token, now)
            }
    }

    /// What the check of a token with a key comes to: `TokenRejected` where the
    /// key is too short to be tried or `jsonwebtoken` does not accept the token,
    /// and otherwise what its payload comes to.
    pub open spec fn comes_to(
        self,
        token: Seq<char>,
        key: KeyView,
        algorithm: Algorithm,
        requirement: HumanRequirement,
        outcome: Result<HumanClaims, HumanTokenError>,
    ) -> bool {
        let payload = payload_claims(token);
        if !key_may_be_tried(key.document, algorithm.spec_name()) {
            outcome matches Err(error) && error is TokenRejected
        } else {
            exists|accepted: bool|
                {
                    &&& #[trigger] self.is_decoding(accepted, token, key, algorithm)
                    &&& accepted ==> self.vouched_for(token, key, algorithm)
                    &&& match outcome {
                        Ok(claims) => accepted && payload_problem(payload, requirement) is None
                            && claims@ == accepted_claims(payload),
                        Err(error) => if accepted {
                            payload_problem(payload, requirement) == Some(error@)
                        } else {
                            error is TokenRejected
                        },
                    }
                }
        }
    }

    /// Checks a token with a key, and holds its claims against the required
    /// role and claims.
    pub fn check_token(
        &self,
        token: &str,
        key: &PublicKey,
        algorithm: Algorithm,
        roles_claim: &str,
        required_role: &str,
        required_claims: &StringMap<ClaimRequirement>,
    ) -> (r: Result<HumanClaims, HumanTokenError>)
        ensures
            ({
                let requirement = HumanRequirement {
                    roles_claim: roles_claim@,
                    role: required_role@,
                    claims: required_claims.pairs(),
                };
                self.comes_to(token@, key@, algorithm, requirement, r)
            }),
    {
        if !may_be_tried(key.document.as_str(), algorithm) {
            return Err(HumanTokenError::TokenRejected);
        }
        let mut issuers: Vec<String> = Vec::new();
        issuers.push(self.issuer.clone());
        let mut audiences: Vec<String> = Vec::new();
        audiences.push(self.audience.clone());
        proof {
            assert(texts(issuers@) =~= seq![self.issuer@]);
            assert(texts(audiences@) =~= seq![self.audience@]);
        }
        let required = required_registered_claims();
        proof {
            let list = registered_claims();
            assert(list[0] == "exp"@ && list[1] == "iss"@ && list[2] == "aud"@ && list[3]
                == "sub"@);
        }
        // The approval behind a token lasts an hour; a leeway long enough to matter would eat into
        // it.
        let leeway: u64 = 0;
        let decoded = decode_token(
            token,
            key.document.as_str(),
            algorithm.name(),
            &issuers,
            &audiences,
            &required,
            true,
            true,
            leeway,
        );
        proof {
            let now = choose|now: u64|
                {
                    &&& (decoded is Some) == #[trigger] decodes_at(
                        token@,
                        key.document@,
                        algorithm.spec_name(),
                        texts(issuers@),
                        texts(audiences@),
                        texts(required@),
                        now,
                    )
                    &&& decoded is Some ==> is_current(
                        token_expiry(token@),
                        token_not_before(token@),
                        now,
                    )
                };
            assert((decoded is Some) == decodes_at(
                token@,
                key@.document,
                algorithm.spec_name(),
                seq![self.issuer@],
                seq![self.audience@],
                registered_claims(),
                now,
            ));
            assert(self.is_decoding(decoded is Some, token@, key@, algorithm));
        }
        match decoded {
            Some(claims) => accept_payload(
                payload_of(claims),
                roles_claim,
                required_role,
                required_claims,
            ),
            None => Err(HumanTokenError::TokenRejected),
        }
    }

    /// Validates a token with the keys that are at hand: signature, issuer,
    /// audience, expiry and not-before time, then the required role and claims.
    /// `now` is the time on the clock that the keys were fetched by.
    pub fn validate(
        &self,
        token: &str,
        roles_claim: &str,
        required_role: &str,
        required_claims: &StringMap<ClaimRequirement>,
        now: u64,
    ) -> (r: Result<HumanClaims, HumanTokenError>)
        ensures
            self.validates(
                token@,
                HumanRequirement {
                    roles_claim: roles_claim@,
                    role: required_role@,
                    claims: required_claims.pairs(),
                },
                now,
                r,
            ),
    {
        let header = match self.read_header(token) {
            Ok(header) => header,
            Err(error) => {
                return Err(error);
            },
        };
        let ghost known = header.algorithm;
        proof {
            assert forall|algorithm: Algorithm|
                algorithm.spec_name() == known.spec_name() implies algorithm == known by {
                algorithm_names_differ(algorithm, known);
            }
        }
        let keys = match self.held_jwks(now) {
            Some(keys) => keys,
            None => {
                return Err(HumanTokenError::KeysUnavailable);
            },
        };
        match keys.select_key(&header.kid, header.algorithm) {
            Some(key) => self.check_token(
                token,
                key,
                header.algorithm,
                roles_claim,
                required_role,
                required_claims,
            ),
            None => Err(HumanTokenError::UnknownKeyId),
        }
    }

    /// What a validation of a token comes to.
    pub open spec fn validates(
        self,
        token: Seq<char>,
        requirement: HumanRequirement,
        now: u64,
        outcome: Result<HumanClaims, HumanTokenError>,
    ) -> bool {
        match token_header(token) {
            None => outcome matches Err(error) && error is MalformedHeader,
            Some((name, kid)) => exists|algorithm: Algorithm| #[trigger]
                algorithm.spec_name() == name && self.validates_with(
                    token,
                    algorithm,
                    kid,
                    requirement,
                    now,
                    outcome,
                ),
        }
    }

    /// What a validation of a token comes to, whose header names the algorithm
    /// and the key id.
    pub open spec fn validates_with(
        self,
        token: Seq<char>,
        algorithm: Algorithm,
        kid: Option<Seq<char>>,
        requirement: HumanRequirement,
        now: u64,
        outcome: Result<HumanClaims, HumanTokenError>,
    ) -> bool {
        if !self.algorithms@.contains(algorithm) {
            outcome matches Err(error) && error == HumanTokenError::AlgorithmNotAllowed(algorithm)
        } else {
            match self.keys_at_hand(now) {
                None => outcome matches Err(error) && error is KeysUnavailable,
                Some(keys) => match selected(keys, kid, algorithm) {
                    None => outcome matches Err(error) && error is UnknownKeyId,
                    Some(key) => self.comes_to(token, key, algorithm, requirement, outcome),
                },
            }
        }
    }
}

} // verus!
