//! What the models of values show: every field, as it is.
use crate::audit::IssuanceRecord;
use crate::claims::{ClaimValue, ClaimView};
use crate::error::{AppError, AppErrorView};
use crate::github::{CreateInstallationTokenRequest, InstallationTarget, TargetView};
use crate::human::{HumanErrorView, HumanTokenError};
use crate::jwks::{KeySet, PublicKey};
use crate::lookup::{LookupReply, LookupStep, ReplyView, StepView};
use crate::minting::{MintStep, MintView};
use crate::proxy::Header;
use crate::roles::{ClaimRequirement, RequirementView, RoleConfig};
use crate::service::{HumanIdentity, Requester, RequesterView, TokenScope};
use crate::string_map::{map_of, StringMap};
use crate::text::{lower, text_of, texts};
use crate::token_cache::{InstallationTokenCacheKey, InstallationTokenResponse};
use vstd::prelude::*;

verus! {

/// A list of texts shows each text in its place.
pub proof fn lists_show_their_texts(list: Seq<String>, i: int, value: Option<String>)
    ensures
        texts(list).len() == list.len(),
        0 <= i < list.len() ==> texts(list)[i] == list[i]@,
        value is None ==> text_of(value) is None,
        value matches Some(text) ==> text_of(value) == Some(text@),
{
}

/// A map shows exactly its pairs.
pub proof fn maps_show_their_pairs(map: StringMap<String>, i: int)
    ensures
        map@ == map_of(map.pairs()),
        0 <= i < map.pairs().len() ==> map@.contains_key(map.pairs()[i].0),
{
    if 0 <= i < map.pairs().len() {
        crate::string_map::map_of_has_keys(map.pairs(), i);
    }
}

/// A workload role shows everything that is configured of it.
pub proof fn roles_show_what_is_configured(role: RoleConfig)
    ensures
        role@.name == role.name@,
        role@.audience == role.audience@,
        role@.issuer == role.issuer@,
        role@.validation_key == text_of(role.validation_key),
        role@.algorithms == role.algorithms@,
        role@.claims == role.claims.pairs(),
        role@.required() == role.claims@,
{
}

/// A requirement shows its texts.
pub proof fn requirements_show_their_texts(value: String, values: Vec<String>)
    ensures
        ClaimRequirement::Equals(value)@ == RequirementView::Equals(value@),
        ClaimRequirement::AnyOf(values)@ == RequirementView::AnyOf(texts(values@)),
        ClaimRequirement::Detailed(values)@ == RequirementView::Detailed(texts(values@)),
{
}

/// A claim shows its text, or its members with their texts.
pub proof fn claims_show_their_values(text: String, list: Vec<Option<String>>, i: int)
    ensures
        ClaimValue::Text(text)@ == ClaimView::Text(text@),
        ClaimValue::List(list)@ matches ClaimView::List(members) && members.len() == list@.len()
            && (0 <= i < list@.len() ==> members[i] == text_of(list@[i])),
        !(ClaimValue::Other@ is Text),
        !(ClaimValue::Other@ is List),
{
}

/// A scope shows its repositories and its permissions, and an identity who is
/// asking.
pub proof fn scopes_and_identities_show_their_fields(scope: TokenScope, identity: HumanIdentity)
    ensures
        scope@.repositories == scope.repositories,
        scope@.permissions == scope.permissions@,
        identity@.subject == identity.subject@,
        identity@.request_id == text_of(identity.request_id),
        identity@.human_role == identity.human_role@,
{
}

/// Requesters are the same only where both are workloads, or both are the same
/// person under the same access request.
pub proof fn requesters_show_who_is_asking(a: Requester, b: Requester)
    ensures
        a@ == b@ <==> match (a, b) {
            (Requester::Workload, Requester::Workload) => true,
            (
                Requester::Person { subject: s, request_id: x },
                Requester::Person { subject: t, request_id: y },
            ) => s@ == t@ && text_of(x) == text_of(y),
            _ => false,
        },
        a is Workload <==> a@ == RequesterView::Workload,
{
}

/// What a kept token is found by shows the GitHub App, the target, the scope
/// and the requester: two keys are the same only where all of them are.
pub proof fn token_keys_show_all_that_counts(
    a: InstallationTokenCacheKey,
    b: InstallationTokenCacheKey,
)
    ensures
        a@ == b@ <==> {
            &&& a.github_app@ == b.github_app@
            &&& a.target@ == b.target@
            &&& a.scope.repositories == b.scope.repositories
            &&& a.scope.permissions@ == b.scope.permissions@
            &&& a.requester@ == b.requester@
        },
        a.target@ == b.target@ <==> match (a.target, b.target) {
            (InstallationTarget::Repository(x), InstallationTarget::Repository(y)) => x@ == y@,
            (InstallationTarget::Owner(x), InstallationTarget::Owner(y)) => x@ == y@,
            _ => false,
        },
{
}

/// GitHub's answer, and what it is asked with, show what they hold.
pub proof fn tokens_and_requests_show_what_they_hold(
    token: InstallationTokenResponse,
    request: CreateInstallationTokenRequest,
    target: InstallationTarget,
)
    ensures
        token@.token == token.token@,
        token@.expires_at == token.expires_at@,
        token@.permissions == token.permissions@,
        token@.repository_selection == text_of(token.repository_selection),
        request.repositories is None <==> request@.repositories is None,
        request.repositories matches Some(names) ==> request@.repositories == Some(texts(names@)),
        request.permissions is None <==> request@.permissions is None,
        request.permissions matches Some(map) ==> request@.permissions == Some(map@),
        target matches InstallationTarget::Repository(repo) ==> target@ == TargetView::Repository(
            repo@,
        ),
        target matches InstallationTarget::Owner(owner) ==> target@ == TargetView::Owner(owner@),
{
}

/// Keys and headers show what they hold.
pub proof fn keys_and_headers_show_what_they_hold(
    key: PublicKey,
    set: KeySet,
    header: Header,
    i: int,
)
    ensures
        key@.key_id == text_of(key.key_id),
        key@.key_algorithm == text_of(key.key_algorithm),
        key@.document == key.document@,
        set@.len() == set.keys@.len(),
        0 <= i < set.keys@.len() ==> set@[i] == set.keys@[i]@,
        header@.name == lower(header.name@),
        header@.value == header.value@,
{
}

/// Errors show their kind and their text.
pub proof fn errors_show_their_kind(error: AppError, refused: HumanTokenError)
    ensures
        error matches AppError::BadRequest(text) ==> error@ == AppErrorView::BadRequest(text@),
        error matches AppError::Unauthorized(text) ==> error@ == AppErrorView::Unauthorized(text@),
        error matches AppError::NotFound(text) ==> error@ == AppErrorView::NotFound(text@),
        error matches AppError::Internal(text) ==> error@ == AppErrorView::Internal(text@),
        refused is KeysUnavailable <==> refused@ is KeysUnavailable,
        refused is TokenRejected <==> refused@ is TokenRejected,
        refused is UnknownKeyId <==> refused@ is UnknownKeyId,
        refused is MalformedHeader <==> refused@ is MalformedHeader,
        refused matches HumanTokenError::ClaimMismatch { claim } ==> refused@ == (
        HumanErrorView::ClaimMismatch { claim: claim@ }),
        refused matches HumanTokenError::RoleNotHeld { claim, role } ==> refused@ == (
        HumanErrorView::RoleNotHeld { claim: claim@, role: role@ }),
        refused matches HumanTokenError::RoleClaimNotAnArray { claim } ==> refused@ == (
        HumanErrorView::RoleClaimNotAnArray { claim: claim@ }),
{
}

/// Steps and replies show what they hold.
pub proof fn steps_show_what_they_hold(step: LookupStep, mint: MintStep, reply: LookupReply)
    ensures
        step matches LookupStep::Ask { lookup, path } ==> step@ == (StepView::Ask {
            lookup,
            path: path@,
        }),
        step matches LookupStep::Found(id) ==> step@ == StepView::Found(id),
        step matches LookupStep::Fail(error) ==> step@ == StepView::Fail(error.message@),
        mint matches MintStep::Serve(token) ==> mint@ == MintView::Serve(token@),
        mint matches MintStep::Request { url, request } ==> mint@ == (MintView::Request {
            url: url@,
            request: request@,
        }),
        mint matches MintStep::Ask { lookup, path } ==> mint@ == (MintView::Ask {
            lookup,
            path: path@,
        }),
        mint matches MintStep::Fail(error) ==> mint@ == MintView::Fail(error.message@),
        reply matches LookupReply::Unreached { cause } ==> reply@ == (ReplyView::Unreached {
            cause: cause@,
        }),
        reply matches LookupReply::Response { status, id } ==> reply@ == (ReplyView::Response {
            status,
            id: match id {
                Ok(id) => Ok(id),
                Err(cause) => Err(cause@),
            },
        }),
{
}

/// A record shows each of its fields.
pub proof fn records_show_their_fields(record: IssuanceRecord)
    ensures
        record@.event == record.event@,
        record@.decision == record.decision@,
        record@.subject == record.subject@,
        record@.teleport_request == record.teleport_request@,
        record@.human_role == record.human_role@,
        record@.github_app == record.github_app@,
        record@.repository == record.repository@,
        record@.permissions == record.permissions@,
        record@.expires_at == record.expires_at@,
        record@.token_fingerprint == record.token_fingerprint@,
{
}

} // verus!
