//! How an installation token is had: from what is kept, or else from GitHub,
//! after the installation is found. Each function takes what GitHub answered
//! and says what to do next.
use crate::github::{
    build_create_installation_token_request, name_of, requested_permissions,
    CreateInstallationTokenRequest, GithubError, InstallationTarget, TargetView, TokenRequestView,
    INSTALLATION_TOKEN_CACHE_TTL,
};
use crate::lookup::{
    access_tokens_url, first_lookup, first_step, next_lookup, next_step, replied_id, Lookup,
    LookupReply, LookupStep, ReplyView, StepView,
};
use crate::service::RepoScope;
use crate::text::decimal;
use crate::token_cache::{
    installation_key, GithubCache, InstallationTokenCacheKey, InstallationTokenResponse,
    TokenKeyView, TokenView,
};
use vstd::prelude::*;

verus! {

/// What to do to have an installation token.
#[derive(Debug, PartialEq, Eq)]
pub enum MintStep {
    /// Hand out this token, which was kept.
    Serve(InstallationTokenResponse),
    /// Ask GitHub for the installation at this path.
    Ask { lookup: Lookup, path: String },
    /// Ask GitHub for a token at this address.
    Request { url: String, request: CreateInstallationTokenRequest },
    /// Give up.
    Fail(GithubError),
}

/// The model of a `MintStep`.
pub enum MintView {
    Serve(TokenView),
    Ask { lookup: Lookup, path: Seq<char> },
    Request { url: Seq<char>, request: TokenRequestView },
    Fail(Seq<char>),
}

impl View for MintStep {
    type V = MintView;

    open spec fn view(&self) -> MintView {
        match self {
            MintStep::Serve(token) => MintView::Serve(token@),
            MintStep::Ask { lookup, path } => MintView::Ask { lookup: *lookup, path: path@ },
            MintStep::Request { url, request } => MintView::Request {
                url: url@,
                request: request@,
            },
            MintStep::Fail(error) => MintView::Fail(error.message@),
        }
    }
}

/// What GitHub is asked for at an installation: exactly the scope of the key.
/// The scope of a repository is refused where the target is none.
pub open spec fn request_of(key: TokenKeyView, api_url: Seq<char>, id: u64) -> MintView {
    match (key.scope.repositories, key.target) {
        (RepoScope::OnlyRequested, TargetView::Owner(owner)) => MintView::Fail(
            "cannot mint a repository-scoped token for owner '"@ + owner
                + "': no repository was requested"@,
        ),
        (repositories, target) => MintView::Request {
            url: api_url + "/app/installations/"@ + decimal(id as nat) + "/access_tokens"@,
            request: TokenRequestView {
                repositories: match (repositories, target) {
                    (RepoScope::OnlyRequested, TargetView::Repository(repo)) => Some(
                        seq![name_of(repo)],
                    ),
                    _ => None,
                },
                permissions: requested_permissions(key.scope.permissions),
            },
        },
    }
}

/// What follows from a step of the lookup.
pub open spec fn after_step(key: TokenKeyView, api_url: Seq<char>, step: StepView) -> MintView {
    match step {
        StepView::Ask { lookup, path } => MintView::Ask { lookup, path },
        StepView::Found(id) => request_of(key, api_url, id),
        StepView::Fail(text) => MintView::Fail(text),
    }
}

/// What to do first to find an installation, which may be known.
pub open spec fn first_lookup_step(
    cache: GithubCache,
    github_app: Seq<char>,
    target: TargetView,
) -> StepView {
    let place = installation_key(github_app, target);
    if cache.ids().contains_key(place) {
        StepView::Found(cache.ids()[place])
    } else {
        first_step(target)
    }
}

/// The installations that are known after a reply to a lookup.
pub open spec fn ids_after(
    cache: GithubCache,
    github_app: Seq<char>,
    target: TargetView,
    reply: ReplyView,
) -> Map<Seq<char>, u64> {
    match replied_id(reply) {
        Some(id) => cache.ids().insert(installation_key(github_app, target), id),
        None => cache.ids(),
    }
}

/// What to do first: hand out a kept token; or ask for one, where the
/// installation is known; or else find the installation.
pub open spec fn first_mint_step(
    cache: GithubCache,
    key: TokenKeyView,
    api_url: Seq<char>,
    now: u64,
) -> MintView {
    match cache.token_at(key, now) {
        Some(token) => MintView::Serve(token),
        None => after_step(key, api_url, first_lookup_step(cache, key.github_app, key.target)),
    }
}

/// What to do first to find the installation of a GitHub App at a target.
pub fn begin_lookup(cache: &GithubCache, github_app: &str, target: &InstallationTarget) -> (r:
    LookupStep)
    ensures
        r@ == first_lookup_step(*cache, github_app@, target@),
{
    match cache.cached_installation_id(github_app, target) {
        Some(id) => LookupStep::Found(id),
        None => first_lookup(target),
    }
}

/// What follows from GitHub's reply to a lookup. An installation that is found
/// is kept.
pub fn continue_lookup(
    cache: &mut GithubCache,
    github_app: &str,
    target: &InstallationTarget,
    lookup: Lookup,
    reply: LookupReply,
) -> (r: LookupStep)
    ensures
        r@ == next_step(target@, lookup, reply@),
        final(cache).ids() == ids_after(*old(cache), github_app@, target@, reply@),
        forall|other: TokenKeyView| #[trigger] final(cache).kept(other) == old(cache).kept(other),
{
    let step = next_lookup(target, lookup, reply);
    if let LookupStep::Found(id) = &step {
        cache.cache_installation_id(github_app, target, *id);
    }
    step
}

fn request_token(key: &InstallationTokenCacheKey, api_url: &str, installation_id: u64) -> (r:
    MintStep)
    ensures
        r@ == request_of(key@, api_url@, installation_id),
{
    match build_create_installation_token_request(&key.scope, &key.target) {
        Ok(request) => MintStep::Request {
            url: access_tokens_url(api_url, installation_id),
            request,
        },
        Err(error) => MintStep::Fail(error),
    }
}

fn after_lookup_step(key: &InstallationTokenCacheKey, api_url: &str, step: LookupStep) -> (r:
    MintStep)
    ensures
        r@ == after_step(key@, api_url@, step@),
{
    match step {
        LookupStep::Ask { lookup, path } => MintStep::Ask { lookup, path },
        LookupStep::Found(id) => request_token(key, api_url, id),
        LookupStep::Fail(error) => MintStep::Fail(error),
    }
}

/// What to do first to have the token of a key.
pub fn begin(cache: &GithubCache, key: &InstallationTokenCacheKey, api_url: &str, now: u64) -> (r:
    MintStep)
    ensures
        r@ == first_mint_step(*cache, key@, api_url@, now),
{
    if let Some(token) = cache.cached_installation_token(key, now) {
        return MintStep::Serve(token);
    }
    let step = begin_lookup(cache, key.github_app.as_str(), &key.target);
    after_lookup_step(key, api_url, step)
}

/// What follows from GitHub's reply to a lookup. An installation that is found
/// is kept.
pub fn after_lookup(
    cache: &mut GithubCache,
    key: &InstallationTokenCacheKey,
    api_url: &str,
    lookup: Lookup,
    reply: LookupReply,
) -> (r: MintStep)
    ensures
        r@ == after_step(key@, api_url@, next_step(key@.target, lookup, reply@)),
        final(cache).ids() == ids_after(*old(cache), key@.github_app, key@.target, reply@),
        forall|other: TokenKeyView| #[trigger] final(cache).kept(other) == old(cache).kept(other),
{
    let step = continue_lookup(cache, key.github_app.as_str(), &key.target, lookup, reply);
    after_lookup_step(key, api_url, step)
}

/// Keeps the token that GitHub made, and hands it out.
pub fn finish(
    cache: &mut GithubCache,
    key: InstallationTokenCacheKey,
    token: InstallationTokenResponse,
    now: u64,
) -> (r: InstallationTokenResponse)
    ensures
        r@ == token@,
        final(cache).keeps(*old(cache), key@, token@, now),
{
    let kept = token.clone();
    cache.cache_installation_token(key, kept, now);
    token
}

/// A token that was made for a key is handed out for that key again without
/// asking GitHub, for fifty minutes; after that a new one is asked for, as if
/// none had been kept.
pub proof fn finished_tokens_are_served(
    before: GithubCache,
    after: GithubCache,
    key: TokenKeyView,
    token: TokenView,
    api_url: Seq<char>,
    now: u64,
    later: u64,
)
    requires
        after.keeps(before, key, token, now),
    ensures
        later < now + INSTALLATION_TOKEN_CACHE_TTL ==> first_mint_step(after, key, api_url, later)
            == MintView::Serve(token),
        later >= now + INSTALLATION_TOKEN_CACHE_TTL ==> first_mint_step(after, key, api_url, later)
            == after_step(key, api_url, first_lookup_step(before, key.github_app, key.target)),
{
}

/// A token that was made for one key is not handed out for another: a requester
/// who has no token of their own kept gets a new one.
pub proof fn finished_tokens_are_not_shared(
    before: GithubCache,
    after: GithubCache,
    key: TokenKeyView,
    token: TokenView,
    other: TokenKeyView,
    api_url: Seq<char>,
    now: u64,
    later: u64,
)
    requires
        after.keeps(before, key, token, now),
        other != key,
    ensures
        first_mint_step(after, other, api_url, later) == first_mint_step(
            before,
            other,
            api_url,
            later,
        ),
        before.token_at(other, later) is None ==> !(first_mint_step(
            after,
            other,
            api_url,
            later,
        ) is Serve),
{
}

/// A token is never asked for with more repositories than the scope has: where
/// the scope is that of the requested repository, GitHub is asked for a token
/// of exactly that one.
pub proof fn narrow_scopes_stay_narrow(key: TokenKeyView, api_url: Seq<char>, id: u64)
    requires
        key.scope.repositories == RepoScope::OnlyRequested,
    ensures
        request_of(key, api_url, id) matches MintView::Request { request, .. } ==> (
        key.target matches TargetView::Repository(repo) && request.repositories == Some(
            seq![name_of(repo)],
        )),
{
}

} // verus!
