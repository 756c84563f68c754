//! Workload roles: which tokens stand for them, and the requirements that a
//! token's claims must meet.
use crate::algorithm::{Algorithm, ED_KEY_LENGTH};
use crate::checks::{first_problem, no_problem, reports, ConfigError};
use crate::claims::{claim_text, decode_header, payload_claims, token_header, ClaimView};
use crate::string_map::{map_of, sorted_by_key, Duplicate, StringMap};
use crate::text::{cat5, contains_text, copy_text, copy_texts, same, text_before, text_of, texts};
use authzoo::ClaimRequirement as AuthzooRequirement;
use authzoo::DetailedClaimRequirement;
use authzoo::RoleConfig as AuthzooRole;
use authzoo::TokenValidator as AuthzooValidator;
use vstd::prelude::*;

verus! {

/// What a claim's text must be.
#[derive(Debug, Clone, PartialEq, Eq)]
pub enum ClaimRequirement {
    /// This text.
    Equals(String),
    /// One of these texts.
    AnyOf(Vec<String>),
    /// One of these texts, written in the long form.
    Detailed(Vec<String>),
}

/// The model of a `ClaimRequirement`.
pub enum RequirementView {
    Equals(Seq<char>),
    AnyOf(Seq<Seq<char>>),
    Detailed(Seq<Seq<char>>),
}

impl View for ClaimRequirement {
    type V = RequirementView;

    open spec fn view(&self) -> RequirementView {
        match self {
            ClaimRequirement::Equals(value) => RequirementView::Equals(value@),
            ClaimRequirement::AnyOf(values) => RequirementView::AnyOf(texts(values@)),
            ClaimRequirement::Detailed(values) => RequirementView::Detailed(texts(values@)),
        }
    }
}

impl RequirementView {
    /// The texts that the requirement accepts.
    pub open spec fn acceptable(self) -> Seq<Seq<char>> {
        match self {
            RequirementView::Equals(value) => seq![value],
            RequirementView::AnyOf(values) => values,
            RequirementView::Detailed(values) => values,
        }
    }

    /// Whether a claim meets the requirement. A claim that is absent, or that
    /// is not text, meets none.
    pub open spec fn accepts(self, value: Option<Seq<char>>) -> bool {
        value matches Some(text) && self.acceptable().contains(text)
    }

    /// What is wrong with the requirement, where it is set for `claim` of
    /// `role`: it accepts nothing, or the empty text.
    pub open spec fn problem(self, role: Seq<char>, claim: Seq<char>) -> Option<Seq<char>> {
        if self.acceptable().len() == 0 || self.acceptable().contains(Seq::empty()) {
            Some(
                "role '"@ + role + "' claim '"@ + claim
                    + "' must define at least one acceptable value"@,
            )
        } else {
            None
        }
    }
}

fn contains_empty(values: &Vec<String>) -> (r: bool)
    ensures
        r == texts(values@).contains(Seq::<char>::empty()),
{
    let empty = String::new();
    contains_text(values, empty.as_str())
}

impl ClaimRequirement {
    /// The requirement that a claim be this text.
    pub fn equals(value: &str) -> (r: Self)
        ensures
            r@ == RequirementView::Equals(value@),
    {
        ClaimRequirement::Equals(value.to_owned())
    }

    /// Refuses a requirement that accepts nothing, or the empty text.
    pub fn validate(&self, role: &str, claim: &str) -> (r: Result<(), ConfigError>)
        ensures
            reports(r, self@.problem(role@, claim@)),
    {
        let is_empty = match self {
            ClaimRequirement::Equals(value) => {
                proof {
                    assert(seq![value@][0] == value@);
                    if value@.len() == 0 {
                        assert(value@ =~= Seq::empty());
                    }
                }
                value.as_str().is_empty()
            },
            ClaimRequirement::AnyOf(values) => values.is_empty() || contains_empty(values),
            ClaimRequirement::Detailed(values) => values.is_empty() || contains_empty(values),
        };
        if is_empty {
            return Err(
                ConfigError::new(
                    cat5(
                        "role '",
                        role,
                        "' claim '",
                        claim,
                        "' must define at least one acceptable value",
                    ),
                ),
            );
        }
        Ok(())
    }

    /// Whether a claim meets the requirement.
    pub fn matches(&self, value: Option<&str>) -> (r: bool)
        ensures
            r == self@.accepts(
                match value {
                    Some(text) => Some(text@),
                    None => None,
                },
            ),
    {
        match value {
            Some(text) => match self {
                ClaimRequirement::Equals(required) => {
                    assert(seq![required@][0] == required@);
                    same(required.as_str(), text)
                },
                ClaimRequirement::AnyOf(required) => contains_text(required, text),
                ClaimRequirement::Detailed(required) => contains_text(required, text),
            },
            None => false,
        }
    }
}

impl Duplicate for ClaimRequirement {
    fn duplicate(&self) -> (r: Self) {
        match self {
            ClaimRequirement::Equals(value) => ClaimRequirement::Equals(value.clone()),
            ClaimRequirement::AnyOf(values) => ClaimRequirement::AnyOf(copy_texts(values)),
            ClaimRequirement::Detailed(values) => ClaimRequirement::Detailed(copy_texts(values)),
        }
    }
}

/// A role that a workload's token can stand for.
#[derive(Debug, Clone)]
pub struct RoleConfig {
    pub name: String,
    pub audience: String,
    pub issuer: String,
    /// The key of the issuer's tokens; without one it is discovered from the
    /// issuer, but for EdDSA tokens, which then do not stand for the role.
    pub validation_key: Option<String>,
    pub algorithms: Vec<Algorithm>,
    pub claims: StringMap<ClaimRequirement>,
}

/// The model of a `RoleConfig`.
pub struct RoleView {
    pub name: Seq<char>,
    pub audience: Seq<char>,
    pub issuer: Seq<char>,
    pub validation_key: Option<Seq<char>>,
    pub algorithms: Seq<Algorithm>,
    /// The required claims, in the order of their names.
    pub claims: Seq<(Seq<char>, RequirementView)>,
}

impl View for RoleConfig {
    type V = RoleView;

    open spec fn view(&self) -> RoleView {
        RoleView {
            name: self.name@,
            audience: self.audience@,
            issuer: self.issuer@,
            validation_key: text_of(self.validation_key),
            algorithms: self.algorithms@,
            claims: self.claims.pairs(),
        }
    }
}

/// The views of a list of roles.
pub open spec fn role_views(roles: Seq<RoleConfig>) -> Seq<RoleView> {
    roles.map_values(|role: RoleConfig| role@)
}

impl RoleView {
    /// What the role requires of each claim.
    pub open spec fn required(self) -> Map<Seq<char>, RequirementView> {
        map_of(self.claims)
    }

    /// Whether this is a role with further requirements, each in place of the
    /// role's own for its claim. There is one such role.
    pub open spec fn is_strict_form_of(
        self,
        role: RoleView,
        further: Map<Seq<char>, RequirementView>,
    ) -> bool {
        &&& self == (RoleView { claims: self.claims, ..role })
        &&& sorted_by_key(self.claims)
        &&& self.required() == role.required().union_prefer_right(further)
    }

    /// What is wrong with the requirement at a position.
    pub open spec fn claim_problem(self, i: int) -> Option<Seq<char>> {
        if self.claims[i].0.len() == 0 {
            Some("role '"@ + self.name + "' claim names must not be empty"@)
        } else {
            self.claims[i].1.problem(self.name, self.claims[i].0)
        }
    }

    /// The first thing that is wrong with the role.
    pub open spec fn problem(self) -> Option<Seq<char>> {
        if self.name.len() == 0 {
            Some("role names must not be empty"@)
        } else if self.audience.len() == 0 {
            Some("role '"@ + self.name + "' audience must not be empty"@)
        } else if self.issuer.len() == 0 {
            Some("role '"@ + self.name + "' issuer must not be empty"@)
        } else if self.validation_key == Some(Seq::<char>::empty()) {
            Some("role '"@ + self.name + "' validation-key must not be empty"@)
        } else if self.algorithms.len() == 0 {
            Some("role '"@ + self.name + "' must allow at least one algorithm"@)
        } else {
            first_problem(|i: int| self.claim_problem(i), 0, self.claims.len() as int)
        }
    }

    /// What must hold of every token that the role's issuer vouches for: it is
    /// signed by one of the role's algorithms, and where the role has a key,
    /// with that; and where it names its issuer or its audience by a text, it
    /// is the role's.
    pub open spec fn vouches_for(self, token: Seq<char>) -> bool {
        let claims = payload_claims(token);
        &&& token_header(token) matches Some((name, _)) && exists|i: int|
            0 <= i < self.algorithms.len() && (#[trigger] self.algorithms[i]).spec_name() == name
        &&& self.validation_key matches Some(key) ==> is_signed_with_key(token, key)
        &&& claim_text(claims, "iss"@) matches Some(issuer) ==> issuer == self.issuer
        &&& claim_text(claims, "aud"@) matches Some(audience) ==> audience == self.audience
    }

    /// Whether a token may be held against the role. An EdDSA token may not be
    /// where the role allows that algorithm and its validation key is too short
    /// for it, nor where the role has none: what its issuer publishes cannot be
    /// looked at beforehand.
    pub open spec fn may_be_tried_on(self, token: Seq<char>) -> bool {
        (is_eddsa(token) && self.algorithms.contains(Algorithm::EdDSA)) ==> (
        self.validation_key matches Some(key) && (ed_key_size(key) matches Some(size) ==> size
            >= ED_KEY_LENGTH))
    }

    /// What must hold of every token that stands for the role: the issuer
    /// vouches for it, and its claims meet the requirements.
    pub open spec fn admits(self, token: Seq<char>) -> bool {
        self.vouches_for(token) && meets(self.required(), payload_claims(token))
    }

    /// What must hold of every token that stands for the role with further
    /// requirements, each in place of the role's own for its claim.
    pub open spec fn admits_with(
        self,
        further: Map<Seq<char>, RequirementView>,
        token: Seq<char>,
    ) -> bool {
        self.vouches_for(token) && meets(
            self.required().union_prefer_right(further),
            payload_claims(token),
        )
    }
}

/// Whether the claims meet every requirement.
pub open spec fn meets(
    required: Map<Seq<char>, RequirementView>,
    claims: Map<Seq<char>, ClaimView>,
) -> bool {
    forall|claim: Seq<char>| #[trigger]
        required.contains_key(claim) ==> required[claim].accepts(claim_text(claims, claim))
}

/// What is wrong with the role at a position of a list: the role itself, or
/// that an earlier one has its name.
pub open spec fn listed_role_problem(roles: Seq<RoleView>, i: int) -> Option<Seq<char>> {
    match roles[i].problem() {
        Some(text) => Some(text),
        None => if exists|j: int| 0 <= j < i && #[trigger] roles[j].name == roles[i].name {
            Some("duplicate role '"@ + roles[i].name + "'"@)
        } else {
            None
        },
    }
}

/// The first thing that is wrong with a list of roles.
pub open spec fn roles_problem(roles: Seq<RoleView>) -> Option<Seq<char>> {
    first_problem(|i: int| listed_role_problem(roles, i), 0, roles.len() as int)
}

/// The roles of a list by their names.
pub open spec fn roles_by_name(roles: Seq<RoleView>) -> Map<Seq<char>, RoleView> {
    map_of(roles.map_values(|role: RoleView| (role.name, role)))
}

/// Whether a token's header names the algorithm EdDSA.
pub open spec fn is_eddsa(token: Seq<char>) -> bool {
    token_header(token) matches Some((name, _)) && name == Algorithm::EdDSA.spec_name()
}

/// How many bytes `jsonwebtoken` reads of an EdDSA key in PEM form, where the
/// text is one.
pub uninterp spec fn ed_key_size(validation_key: Seq<char>) -> Option<usize>;

/// Calls `jsonwebtoken::DecodingKey::from_ed_pem`, and `try_get_as_bytes` on the
/// result. Whether they succeed, and how many bytes there are, is a function of
/// the text.
#[verifier::external_body]
fn read_ed_key(validation_key: &str) -> (r: Option<usize>)
    ensures
        r == ed_key_size(validation_key@),
{
    let key = jsonwebtoken::DecodingKey::from_ed_pem(validation_key.as_bytes()).ok()?;
    key.try_get_as_bytes().ok().map(|bytes| bytes.len())
}

fn names_eddsa(token: &str) -> (r: bool)
    ensures
        r == is_eddsa(token@),
{
    match decode_header(token) {
        Some((name, _)) => same(name.as_str(), Algorithm::EdDSA.name()),
        None => false,
    }
}

fn allows_eddsa(algorithms: &Vec<Algorithm>) -> (r: bool)
    ensures
        r == algorithms@.contains(Algorithm::EdDSA),
{
    let mut i: usize = 0;
    while i < algorithms.len()
        invariant
            i <= algorithms@.len(),
            forall|j: int| 0 <= j < i ==> #[trigger] algorithms@[j] != Algorithm::EdDSA,
        decreases algorithms@.len() - i,
    {
        if algorithms[i] == Algorithm::EdDSA {
            return true;
        }
        i = i + 1;
    }
    false
}

fn may_be_tried_on(role: &RoleConfig, token: &str) -> (r: bool)
    ensures
        r == role@.may_be_tried_on(token@),
{
    if !names_eddsa(token) || !allows_eddsa(&role.algorithms) {
        return true;
    }
    match &role.validation_key {
        Some(key) => match read_ed_key(key.as_str()) {
            Some(size) => size >= ED_KEY_LENGTH,
            None => true,
        },
        None => false,
    }
}

/// Whether the signature of a token verifies with a validation key, by the
/// algorithm of the token's header.
pub uninterp spec fn is_signed_with_key(token: Seq<char>, validation_key: Seq<char>) -> bool;

/// Whether `authzoo` takes a token to stand for a role that has a validation
/// key, at a time: in seconds since the Unix epoch, by which it tells whether
/// the token has expired.
pub uninterp spec fn accepts_at(role: RoleView, token: Seq<char>, now: u64) -> bool;

/// Whether a decision on a token and a role that has a validation key is the
/// one that `authzoo` takes at some time. Nothing but the time is left open.
pub open spec fn is_decision(accepted: bool, role: RoleView, token: Seq<char>) -> bool {
    exists|now: u64| accepted == #[trigger] accepts_at(role, token, now)
}

/// Whether a decision on a token and a role is the right one: a refusal where
/// the token may not be held against the role, and otherwise, where the role has
/// a validation key, what `authzoo` decides at some time.
pub open spec fn decides(accepted: bool, role: RoleView, token: Seq<char>) -> bool {
    if !role.may_be_tried_on(token) {
        !accepted
    } else {
        role.validation_key is Some ==> is_decision(accepted, role, token)
    }
}

/// Whether a decision on a token and a role with further requirements is the
/// right one: a refusal where something is wrong with the strict form of the
/// role, and otherwise the decision on that.
pub open spec fn decides_strictly(
    accepted: bool,
    role: RoleView,
    further: Map<Seq<char>, RequirementView>,
    token: Seq<char>,
) -> bool {
    exists|strict: RoleView|
        {
            &&& #[trigger] strict.is_strict_form_of(role, further)
            &&& if strict.problem() is Some {
                !accepted
            } else {
                decides(accepted, strict, token)
            }
        }
}

/// Calls `authzoo::TokenValidator::new` on the roles, whose algorithms it knows
/// by the same names, and, where a token is given, `validate` of the validator
/// on it. The first checks the roles one after another and stops at the first
/// that is incomplete, or whose name an earlier one has; the message is the error's text. The second returns the
/// names, in increasing order, of those roles that the token stands for.
/// Whether a role with a validation key is among them is a function of the role,
/// the token and the time at which it is held against the role. For a role
/// without one it also depends on what its issuer publishes; so of that it is
/// only said what holds of the token where the role is among them. To ask an
/// issuer blocks the thread, which must not be one that runs asynchronous tasks.
/// `authzoo` checks signatures by `jsonwebtoken`, which takes a slice of an EdDSA
/// key without a test of its length; so an EdDSA token must not be held against
/// a role that allows the algorithm unless its validation key is long enough or
/// no such key at all. The machine's clock must stand a minute or more after the
/// Unix epoch.
#[verifier::external_body]
fn authzoo_validate(roles: Vec<RoleConfig>, token: Option<&str>) -> (r: Result<
    Option<Vec<String>>,
    String,
>)
    requires
        token matches Some(token) ==> forall|i: int|
            0 <= i < roles@.len() ==> (#[trigger] roles@[i])@.may_be_tried_on(token@),
    ensures
        r is Ok <==> roles_problem(role_views(roles@)) is None,
        r matches Err(text) ==> roles_problem(role_views(roles@)) == Some(text@),
        r matches Ok(names) ==> (names is Some <==> token is Some),
        r matches Ok(Some(names)) ==> standing_for(
            texts(names@),
            roles_by_name(role_views(roles@)),
            token->Some_0@,
        ),
        r matches Ok(Some(names)) ==> forall|i: int|
            0 <= i < names@.len() ==> (roles_by_name(
                role_views(roles@),
            )[#[trigger] names@[i]@].validation_key matches Some(key) ==> is_signed_with_key(
                token->Some_0@,
                key,
            )),
        r matches Ok(Some(names)) ==> forall|name: Seq<char>| #[trigger]
            roles_by_name(role_views(roles@)).contains_key(name) && roles_by_name(
                role_views(roles@),
            )[name].validation_key is Some ==> exists|now: u64|
                texts(names@).contains(name) == #[trigger] accepts_at(
                    roles_by_name(role_views(roles@))[name],
                    token->Some_0@,
                    now,
                ),
{
    AuthzooValidator::new(roles.into_iter().map(|role| AuthzooRole {
        name: role.name,
        audience: role.audience,
        issuer: role.issuer,
        validation_key: role.validation_key,
        algorithms: role.algorithms.iter().map(
            |algorithm| serde_json::from_value(format!("{algorithm:?}").into()).unwrap()).collect(),
        claims: role.claims.entries.into_iter().map(|(claim, required)| (claim, match required {
            ClaimRequirement::Equals(value) => AuthzooRequirement::equals(value),
            ClaimRequirement::AnyOf(any_of) => AuthzooRequirement::any_of(any_of),
            ClaimRequirement::Detailed(any_of) => AuthzooRequirement::Detailed(
                DetailedClaimRequirement { any_of }),
        })).collect(),
    }).collect()).map(|validator| token.map(|token| validator.validate(token)))
        .map_err(|error| error.to_string())
}

/// What holds of the names of the roles that a token stands for: they come in
/// increasing order, and each is that of a role which admits the token.
pub open spec fn standing_for(
    names: Seq<Seq<char>>,
    roles: Map<Seq<char>, RoleView>,
    token: Seq<char>,
) -> bool {
    &&& forall|i: int, j: int|
        0 <= i < j < names.len() ==> text_before(#[trigger] names[i], #[trigger] names[j])
    &&& forall|i: int|
        0 <= i < names.len() ==> roles.contains_key(#[trigger] names[i])
            && roles[names[i]].admits(token)
}

fn copy_algorithms(algorithms: &Vec<Algorithm>) -> (r: Vec<Algorithm>)
    ensures
        r@ == algorithms@,
{
    let mut out: Vec<Algorithm> = Vec::new();
    let mut i: usize = 0;
    while i < algorithms.len()
        invariant
            i <= algorithms@.len(),
            out@ == algorithms@.take(i as int),
        decreases algorithms@.len() - i,
    {
        out.push(algorithms[i]);
        i = i + 1;
        assert(algorithms@.take(i as int).drop_last() =~= algorithms@.take(i - 1));
    }
    assert(algorithms@.take(i as int) =~= algorithms@);
    out
}

fn copy_role(role: &RoleConfig, claims: StringMap<ClaimRequirement>) -> (r: RoleConfig)
    ensures
        r.claims == claims,
        r@ == (RoleView { claims: claims.pairs(), ..role@ }),
{
    RoleConfig {
        name: role.name.clone(),
        audience: role.audience.clone(),
        issuer: role.issuer.clone(),
        validation_key: copy_text(&role.validation_key),
        algorithms: copy_algorithms(&role.algorithms),
        claims,
    }
}

fn copy_roles(roles: &Vec<RoleConfig>) -> (r: Vec<RoleConfig>)
    ensures
        role_views(r@) == role_views(roles@),
{
    let ghost wanted = role_views(roles@);
    let mut out: Vec<RoleConfig> = Vec::new();
    let mut i: usize = 0;
    while i < roles.len()
        invariant
            i <= roles@.len(),
            wanted == role_views(roles@),
            role_views(out@) == wanted.take(i as int),
        decreases roles@.len() - i,
    {
        let ghost before = role_views(out@);
        let role = copy_role(&roles[i], roles[i].claims.copy());
        let ghost copied = role@;
        out.push(role);
        i = i + 1;
        proof {
            assert(role_views(out@) =~= before.push(copied));
            assert(copied == wanted[i - 1]);
            assert(wanted.take(i as int) =~= wanted.take(i - 1).push(wanted[i - 1]));
        }
    }
    assert(wanted.take(i as int) =~= wanted);
    out
}

/// The roles that a token may be held against.
fn roles_to_try(roles: &Vec<RoleConfig>, token: &str) -> (r: Vec<RoleConfig>)
    ensures
        role_views(r@) == role_views(roles@).filter(
            |role: RoleView| role.may_be_tried_on(token@),
        ),
        forall|i: int| 0 <= i < r@.len() ==> (#[trigger] r@[i])@.may_be_tried_on(token@),
{
    let ghost all = role_views(roles@);
    let ghost may = |role: RoleView| role.may_be_tried_on(token@);
    let mut out: Vec<RoleConfig> = Vec::new();
    let mut i: usize = 0;
    proof {
        reveal(Seq::filter);
    }
    while i < roles.len()
        invariant
            i <= roles@.len(),
            all == role_views(roles@),
            may == (|role: RoleView| role.may_be_tried_on(token@)),
            role_views(out@) == all.take(i as int).filter(may),
            forall|j: int| 0 <= j < out@.len() ==> (#[trigger] out@[j])@.may_be_tried_on(token@),
        decreases roles@.len() - i,
    {
        let ghost before = role_views(out@);
        proof {
            reveal(Seq::filter);
            assert(all.take(i + 1).drop_last() =~= all.take(i as int));
            assert(all.take(i + 1).last() == roles@[i as int]@);
        }
        if may_be_tried_on(&roles[i], token) {
            let role = copy_role(&roles[i], roles[i].claims.copy());
            let ghost copied = role@;
            out.push(role);
            assert(copied == all[i as int]);
            assert(role_views(out@) =~= before.push(copied));
        }
        i = i + 1;
    }
    assert(all.take(i as int) =~= all);
    out
}

/// The roles of a part of a list: nothing is wrong with it where nothing is
/// wrong with the list, and it has the same roles by name, but for those that
/// are left out.
proof fn part_of_roles(roles: Seq<RoleView>, keep: spec_fn(RoleView) -> bool)
    requires
        roles_problem(roles) is None,
    ensures
        roles_problem(roles.filter(keep)) is None,
        forall|name: Seq<char>| #[trigger]
            roles_by_name(roles.filter(keep)).contains_key(name) <==> roles_by_name(
                roles,
            ).contains_key(name) && keep(roles_by_name(roles)[name]),
        forall|name: Seq<char>| #[trigger]
            roles_by_name(roles.filter(keep)).contains_key(name) ==> roles_by_name(
                roles.filter(keep),
            )[name] == roles_by_name(roles)[name],
        forall|name: Seq<char>| #[trigger]
            roles_by_name(roles).contains_key(name) ==> exists|i: int|
                0 <= i < roles.len() && (#[trigger] roles[i]).name == name,
        forall|i: int|
            0 <= i < roles.filter(keep).len() ==> roles.contains(#[trigger] roles.filter(keep)[i]),
    decreases roles.len(),
{
    reveal(Seq::filter);
    let kept = roles.filter(keep);
    let pair = |role: RoleView| (role.name, role);
    if roles.len() == 0 {
        assert(roles_by_name(roles) == Map::<Seq<char>, RoleView>::empty());
        assert(first_problem(|i: int| listed_role_problem(kept, i), 0, 0) is None);
    } else {
        let rest = roles.drop_last();
        let last = roles.last();
        let n = roles.len() as int;
        let check = |i: int| listed_role_problem(roles, i);
        let check_rest = |i: int| listed_role_problem(rest, i);
        no_problem(check, 0, n);
        no_problem(check_rest, 0, n - 1);
        assert forall|i: int| 0 <= i < n - 1 implies #[trigger] check_rest(i) is None by {
            assert(check(i) is None);
            assert(rest[i] == roles[i]);
            assert(forall|j: int| 0 <= j < i ==> rest[j] == roles[j]);
        }
        part_of_roles(rest, keep);
        assert(check(n - 1) is None);
        assert(roles.map_values(pair).drop_last() =~= rest.map_values(pair));
        assert(roles_by_name(roles) == roles_by_name(rest).insert(last.name, last));
        assert(!roles_by_name(rest).contains_key(last.name)) by {
            if roles_by_name(rest).contains_key(last.name) {
                let j = choose|j: int| 0 <= j < rest.len() && (#[trigger] rest[j]).name
                    == last.name;
                assert(roles[j].name == roles[n - 1].name);
            }
        }
        let kept_rest = rest.filter(keep);
        assert forall|i: int| 0 <= i < kept_rest.len() implies roles.contains(
            #[trigger] kept_rest[i],
        ) by {
            let j = choose|j: int| 0 <= j < rest.len() && rest[j] == kept_rest[i];
            assert(roles[j] == kept_rest[i]);
        }
        assert forall|name: Seq<char>| #[trigger]
            roles_by_name(roles).contains_key(name) implies exists|i: int|
            0 <= i < roles.len() && (#[trigger] roles[i]).name == name by {
            if name == last.name {
                assert(roles[n - 1].name == name);
            } else {
                assert(roles_by_name(rest).contains_key(name));
                let j = choose|j: int| 0 <= j < rest.len() && (#[trigger] rest[j]).name == name;
                assert(roles[j].name == name);
            }
        }
        if keep(last) {
            assert(kept == kept_rest.push(last));
            assert(kept.map_values(pair).drop_last() =~= kept_rest.map_values(pair));
            assert(roles_by_name(kept) == roles_by_name(kept_rest).insert(last.name, last));
            let m = kept_rest.len() as int;
            let check_kept = |i: int| listed_role_problem(kept, i);
            let check_kept_rest = |i: int| listed_role_problem(kept_rest, i);
            no_problem(check_kept, 0, m + 1);
            no_problem(check_kept_rest, 0, m);
            assert forall|i: int| 0 <= i < m + 1 implies #[trigger] check_kept(i) is None by {
                if i < m {
                    assert(check_kept_rest(i) is None);
                    assert(forall|j: int| 0 <= j <= i ==> kept[j] == kept_rest[j]);
                } else {
                    assert(last.problem() is None);
                    assert forall|j: int| 0 <= j < m implies (#[trigger] kept[j]).name
                        != last.name by {
                        let k = choose|k: int| 0 <= k < rest.len() && rest[k] == kept_rest[j];
                        assert(roles[k].name != roles[n - 1].name);
                    }
                }
            }
        } else {
            assert(kept == kept_rest);
        }
    }
}

/// The requirements of both maps, the second's in place of the first's.
fn merged(
    first: &StringMap<ClaimRequirement>,
    second: &StringMap<ClaimRequirement>,
) -> (r: StringMap<ClaimRequirement>)
    ensures
        r@ == first@.union_prefer_right(second@),
        sorted_by_key(r.pairs()),
{
    let mut out = first.copy();
    let n: usize = second.len();
    let mut i: usize = 0;
    assert(first@ =~= first@.union_prefer_right(map_of(second.pairs().take(0))));
    while i < n
        invariant
            i <= n,
            n == second.pairs().len(),
            sorted_by_key(out.pairs()),
            out@ == first@.union_prefer_right(map_of(second.pairs().take(i as int))),
        decreases n - i,
    {
        let ghost head = second.pairs().take(i + 1);
        out = out.with(second.key_at(i).clone(), second.value_at(i).duplicate());
        proof {
            assert(head.drop_last() =~= second.pairs().take(i as int));
            assert(out@ =~= first@.union_prefer_right(map_of(head)));
        }
        i = i + 1;
    }
    assert(second.pairs().take(i as int) =~= second.pairs());
    out
}

/// What holds the tokens of workloads against the configured roles, or against
/// nothing where authorization is switched off.
#[derive(Debug)]
pub struct TokenValidator {
    inner: Option<Vec<RoleConfig>>,
}

impl Clone for TokenValidator {
    fn clone(&self) -> (r: Self)
        ensures
            r.roles() == self.roles(),
    {
        proof {
            use_type_invariant(self);
        }
        match &self.inner {
            Some(roles) => TokenValidator { inner: Some(copy_roles(roles)) },
            None => TokenValidator { inner: None },
        }
    }
}

impl TokenValidator {
    #[verifier::type_invariant]
    closed spec fn well_formed(self) -> bool {
        self.inner matches Some(roles) ==> roles_problem(role_views(roles@)) is None
    }

    /// The roles by name, where authorization is switched on.
    pub closed spec fn roles(self) -> Option<Map<Seq<char>, RoleView>> {
        match self.inner {
            Some(roles) => Some(roles_by_name(role_views(roles@))),
            None => None,
        }
    }

    /// A validator for the roles. Where authorization is switched off the
    /// roles are not looked at.
    pub fn new(roles: Vec<RoleConfig>, disable_auth: bool) -> (r: Result<Self, ConfigError>)
        ensures
            disable_auth ==> r is Ok && r->Ok_0.roles() is None,
            !disable_auth ==> match r {
                Ok(validator) => {
                    &&& roles_problem(role_views(roles@)) is None
                    &&& validator.roles() == Some(roles_by_name(role_views(roles@)))
                },
                Err(error) => roles_problem(role_views(roles@)) == Some(error.message@),
            },
    {
        if disable_auth {
            return Ok(TokenValidator { inner: None });
        }
        match check_roles(&roles) {
            Ok(_) => Ok(TokenValidator { inner: Some(roles) }),
            Err(error) => Err(error),
        }
    }

    /// Whether authorization is switched on.
    pub fn auth_enabled(&self) -> (r: bool)
        ensures
            r == self.roles() is Some,
    {
        self.inner.is_some()
    }

    /// The names, in increasing order, of the roles that a token stands for. Of
    /// the roles that have a validation key these are all that it stands for at
    /// the time. An EdDSA token stands for no role that allows the algorithm and
    /// has no validation key, or too short a one.
    pub fn validate(&self, bearer_token: &str) -> (r: Vec<String>)
        ensures
            match self.roles() {
                Some(roles) => {
                    &&& standing_for(texts(r@), roles, bearer_token@)
                    &&& forall|name: Seq<char>| #[trigger]
                        roles.contains_key(name) ==> decides(
                            texts(r@).contains(name),
                            roles[name],
                            bearer_token@,
                        )
                },
                None => r@.len() == 0,
            },
    {
        proof {
            use_type_invariant(self);
        }
        match &self.inner {
            Some(roles) => {
                let tried = roles_to_try(roles, bearer_token);
                let ghost by_name = roles_by_name(role_views(roles@));
                let ghost part = roles_by_name(role_views(tried@));
                proof {
                    part_of_roles(
                        role_views(roles@),
                        |role: RoleView| role.may_be_tried_on(bearer_token@),
                    );
                }
                match authzoo_validate(tried, Some(bearer_token)) {
                    Ok(Some(names)) => {
                        proof {
                            let found = texts(names@);
                            assert(standing_for(found, part, bearer_token@));
                            assert forall|i: int| 0 <= i < found.len() implies by_name.contains_key(
                                #[trigger] found[i],
                            ) && by_name[found[i]].admits(bearer_token@) by {
                                assert(part.contains_key(found[i]));
                            }
                            assert forall|name: Seq<char>| #[trigger]
                                by_name.contains_key(name) implies decides(
                                found.contains(name),
                                by_name[name],
                                bearer_token@,
                            ) by {
                                if by_name[name].may_be_tried_on(bearer_token@) {
                                    assert(part.contains_key(name));
                                } else if found.contains(name) {
                                    let i = choose|i: int| 0 <= i < found.len() && found[i] == name;
                                    assert(part.contains_key(found[i]));
                                }
                            }
                        }
                        names
                    },
                    _ => Vec::new(),
                }
            },
            None => Vec::new(),
        }
    }

    /// Whether a token stands for a role with further requirements on its
    /// claims, each in place of the role's own for that claim.
    pub fn validate_role_with_claims(
        &self,
        role_name: &str,
        required_claims: &StringMap<ClaimRequirement>,
        bearer_token: &str,
    ) -> (r: bool)
        ensures
            r ==> {
                &&& self.roles() matches Some(roles)
                &&& roles.contains_key(role_name@)
                &&& roles[role_name@].admits_with(required_claims@, bearer_token@)
            },
            (self.roles() matches Some(roles) && roles.contains_key(role_name@)) ==> decides_strictly(
                r,
                self.roles()->Some_0[role_name@],
                required_claims@,
                bearer_token@,
            ),
    {
        let roles = match &self.inner {
            Some(roles) => roles,
            None => {
                return false;
            },
        };
        let role = match find_role(roles, role_name) {
            Some(role) => role,
            None => {
                return false;
            },
        };
        let strict = copy_role(role, merged(&role.claims, required_claims));
        let ghost view = strict@;
        assert(view.is_strict_form_of(self.roles()->Some_0[role_name@], required_claims@));
        if !may_be_tried_on(&strict, bearer_token) {
            return false;
        }
        let mut only: Vec<RoleConfig> = Vec::new();
        only.push(strict);
        let ghost listed = role_views(only@).map_values(|role: RoleView| (role.name, role));
        proof {
            assert(role_views(only@) =~= seq![view]);
            single_role_problem(view);
        }
        match authzoo_validate(only, Some(bearer_token)) {
            Ok(Some(names)) => {
                proof {
                    assert(listed =~= seq![(role_name@, view)]);
                    assert(listed.drop_last() =~= Seq::empty());
                    assert(map_of(listed.drop_last()) == Map::<Seq<char>, RoleView>::empty());
                    let by_name = roles_by_name(role_views(only@));
                    assert(by_name.contains_key(role_name@) && by_name[role_name@] == view);
                    assert(view.validation_key is Some ==> is_decision(
                        texts(names@).contains(role_name@),
                        view,
                        bearer_token@,
                    ));
                    if texts(names@).contains(role_name@) {
                        let k = choose|k: int|
                            0 <= k < texts(names@).len() && texts(names@)[k] == role_name@;
                        assert(view.admits(bearer_token@));
                    }
                }
                contains_text(&names, role_name)
            },
            _ => false,
        }
    }
}

/// What is wrong with a list of one role is what is wrong with the role.
proof fn single_role_problem(role: RoleView)
    ensures
        roles_problem(seq![role]) == role.problem(),
{
    let check = |i: int| listed_role_problem(seq![role], i);
    assert(first_problem(check, 1, 1) is None);
    assert(check(0) == role.problem());
}

/// Refuses a list of roles of which one is incomplete or has the name of an
/// earlier one.
pub fn check_roles(roles: &Vec<RoleConfig>) -> (r: Result<(), ConfigError>)
    ensures
        reports(r, roles_problem(role_views(roles@))),
{
    match authzoo_validate(copy_roles(roles), None) {
        Ok(_) => Ok(()),
        Err(text) => Err(ConfigError::new(text)),
    }
}

/// The role of a name, where there is one.
pub fn find_role<'a>(roles: &'a Vec<RoleConfig>, name: &str) -> (r: Option<&'a RoleConfig>)
    ensures
        r is Some <==> roles_by_name(role_views(roles@)).contains_key(name@),
        r matches Some(role) ==> role@ == roles_by_name(role_views(roles@))[name@]
            && role@.name == name@,
{
    let ghost named = role_views(roles@).map_values(|role: RoleView| (role.name, role));
    let mut i: usize = roles.len();
    assert(named.take(i as int) =~= named);
    while i > 0
        invariant
            i <= roles@.len(),
            named == role_views(roles@).map_values(|role: RoleView| (role.name, role)),
            map_of(named).contains_key(name@) == map_of(named.take(i as int)).contains_key(
                name@,
            ),
            map_of(named).contains_key(name@) ==> map_of(named)[name@] == map_of(
                named.take(i as int),
            )[name@],
        decreases i,
    {
        assert(named.take(i as int).drop_last() =~= named.take(i - 1));
        assert(named.take(i as int).last() == (roles@[i - 1].name@, roles@[i - 1]@));
        i = i - 1;
        if same(roles[i].name.as_str(), name) {
            return Some(&roles[i]);
        }
    }
    assert(named.take(0) =~= Seq::empty());
    None
}

} // verus!
