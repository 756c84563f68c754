//! What the calls that change a value make of it.
use crate::error::AppError;
use crate::github::InstallationTarget;
use crate::human::{HumanTokenError, HumanTokenValidator};
use crate::jwks::KeySet;
use crate::lookup::{Lookup, LookupReply, LookupStep};
use crate::minting::{after_lookup, continue_lookup, finish, MintStep};
use crate::service::{AppState, RepoScope};
use crate::text::decimal;
use crate::token_cache::{
    installation_key, GithubCache, InstallationTokenCacheKey, InstallationTokenResponse,
    TokenKeyView,
};
use vstd::prelude::*;

verus! {

/// A token that GitHub made is handed out and kept: its key gets it for fifty
/// minutes and no longer, every other key gets what it got before, and what is
/// known of installations stays.
pub proof fn finished_tokens_are_kept(
    key: InstallationTokenCacheKey,
    token: InstallationTokenResponse,
    now: u64,
    later: u64,
    other: TokenKeyView,
)
    ensures
        forall|cache: &mut GithubCache, r: InstallationTokenResponse| #[trigger]
            call_ensures(finish, (cache, key, token, now), r) ==> {
                &&& r@ == token@
                &&& later < now + 50 * 60 * 1_000_000_000 ==> final(cache).token_at(key@, later)
                    == Some(token@)
                &&& later >= now + 50 * 60 * 1_000_000_000 ==> final(cache).token_at(
                    key@,
                    later,
                ) is None
                &&& other != key@ ==> final(cache).token_at(other, later) == cache.token_at(
                    other,
                    later,
                )
                &&& final(cache).ids() == cache.ids()
            },
        forall|cache: &mut GithubCache, r: ()| #[trigger]
            call_ensures(
                GithubCache::cache_installation_token,
                (cache, key, token, now),
                r,
            ) ==> {
                &&& later < now + 50 * 60 * 1_000_000_000 ==> final(cache).token_at(key@, later)
                    == Some(token@)
                &&& later >= now + 50 * 60 * 1_000_000_000 ==> final(cache).token_at(
                    key@,
                    later,
                ) is None
                &&& other != key@ ==> final(cache).token_at(other, later) == cache.token_at(
                    other,
                    later,
                )
            },
{
}

/// A reply to a lookup that names an installation makes it known for that
/// GitHub App and target; any other changes nothing. Kept tokens stay.
pub proof fn found_installations_are_known(
    github_app: &str,
    target: InstallationTarget,
    lookup: Lookup,
    reply: LookupReply,
    other: TokenKeyView,
)
    ensures
        forall|cache: &mut GithubCache, r: LookupStep| #[trigger]
            call_ensures(
                continue_lookup,
                (cache, github_app, &target, lookup, reply),
                r,
            ) ==> {
                &&& r is Found <==> (reply matches LookupReply::Response { status, id: Ok(_) }
                    && !(400 <= status < 600))
                &&& r matches LookupStep::Found(id) ==> {
                    &&& reply->Response_id == Ok::<u64, String>(id)
                    &&& final(cache).ids() == cache.ids().insert(
                        installation_key(github_app@, target@),
                        id,
                    )
                }
                &&& !(r is Found) ==> final(cache).ids() == cache.ids()
                &&& r is Ask <==> target is Owner && lookup != Lookup::User && (
                reply matches LookupReply::Response { status, .. } && status == 404)
                &&& final(cache).kept(other) == cache.kept(other)
            },
        forall|cache: &mut GithubCache, id: u64, r: ()| #[trigger]
            call_ensures(
                GithubCache::cache_installation_id,
                (cache, github_app, &target, id),
                r,
            ) ==> {
                &&& final(cache).ids() == cache.ids().insert(
                    installation_key(github_app@, target@),
                    id,
                )
                &&& final(cache).kept(other) == cache.kept(other)
            },
{
}

/// What follows from a reply while a token is being had: the token is asked for
/// at the installation that the reply names, which is known from then on.
pub proof fn found_installations_are_asked(
    key: InstallationTokenCacheKey,
    api_url: &str,
    lookup: Lookup,
    status: u16,
    id: u64,
    other: TokenKeyView,
)
    requires
        !(400 <= status < 600),
        !(key.target is Owner && key.scope.repositories == RepoScope::OnlyRequested),
    ensures
        forall|cache: &mut GithubCache, r: MintStep| #[trigger]
            call_ensures(
                after_lookup,
                (cache, &key, api_url, lookup, LookupReply::Response { status, id: Ok(id) }),
                r,
            ) ==> {
                &&& r matches MintStep::Request { url, .. } && url@ == api_url@
                    + "/app/installations/"@ + decimal(id as nat) + "/access_tokens"@
                &&& final(cache).ids() == cache.ids().insert(
                    installation_key(key.github_app@, key.target@),
                    id,
                )
                &&& final(cache).kept(other) == cache.kept(other)
            },
{
}

/// The answer to a request for keys: a key set takes the place of what was kept,
/// with the time at which it came; no key set changes nothing, and the keys are
/// unavailable.
pub proof fn received_keys_are_kept(jwks: KeySet, now: u64)
    ensures
        forall|validator: &mut HumanTokenValidator, r: Result<(), HumanTokenError>| #[trigger]
            call_ensures(
                HumanTokenValidator::receive_jwks,
                (validator, Some(jwks), now),
                r,
            ) ==> {
                &&& r is Ok
                &&& final(validator).cache matches Some(cached) && cached.jwks == jwks
                    && cached.fetched_at == now
                &&& final(validator).source == validator.source
                &&& final(validator).issuer == validator.issuer
                &&& final(validator).audience == validator.audience
                &&& final(validator).algorithms == validator.algorithms
            },
        forall|validator: &mut HumanTokenValidator, r: Result<(), HumanTokenError>| #[trigger]
            call_ensures(
                HumanTokenValidator::receive_jwks,
                (validator, None, now),
                r,
            ) ==> {
                &&& r == Err::<(), HumanTokenError>(HumanTokenError::KeysUnavailable)
                &&& *final(validator) == *validator
            },
{
}

/// The same for the keys of a human role of the broker: that role alone
/// changes.
pub proof fn received_keys_are_kept_by_their_role(
    human_role: &str,
    fetched: Option<KeySet>,
    now: u64,
    other: Seq<char>,
)
    ensures
        forall|state: &mut AppState, r: Result<(), AppError>| #[trigger]
            call_ensures(
                AppState::receive_human_jwks,
                (state, human_role, fetched, now),
                r,
            ) ==> {
                &&& r is Ok <==> fetched is Some
                &&& r matches Err(error) ==> (error matches AppError::Internal(text) && text@
                    == "Teleport validation keys could not be retrieved"@)
                &&& final(state).github_apps == state.github_apps
                &&& final(state).installation_policies == state.installation_policies
                &&& final(state).human_policies == state.human_policies
                &&& final(state).token_validator == state.token_validator
                &&& final(state).human_roles@.contains_key(other)
                    == state.human_roles@.contains_key(other)
                &&& other != human_role@ && state.human_roles@.contains_key(other)
                    ==> final(state).human_roles@[other] == state.human_roles@[other]
                &&& fetched is None ==> final(state).human_roles@ == state.human_roles@
                &&& fetched matches Some(jwks) ==> (state.human_roles@.contains_key(human_role@)
                    ==> {
                    let role = final(state).human_roles@[human_role@];
                    &&& role.config == state.human_roles@[human_role@].config
                    &&& role.validator.issuer
                        == state.human_roles@[human_role@].validator.issuer
                    &&& role.validator.source
                        == state.human_roles@[human_role@].validator.source
                    &&& role.validator.cache matches Some(cached) && cached.jwks == jwks
                        && cached.fetched_at == now
                })
            },
{
    assert forall|state: &mut AppState, r: Result<(), AppError>| #[trigger]
        call_ensures(AppState::receive_human_jwks, (state, human_role, fetched, now), r) implies {
        &&& r matches Err(error) ==> (error matches AppError::Internal(text) && text@
            == "Teleport validation keys could not be retrieved"@)
        &&& fetched is None ==> final(state).human_roles@ == state.human_roles@
    } by {
        crate::laws::keys_are_received_by_one_role(
            *state,
            *final(state),
            human_role@,
            fetched,
            now,
        );
    }
}

} // verus!
