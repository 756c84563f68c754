//! What is asked of GitHub and passed through, call by call.
use crate::github::{
    build_create_installation_token_request, build_repositories_token_request,
    CreateInstallationTokenRequest, GithubError, InstallationTarget, TargetView,
};
use crate::laws::proxying::{
    all_other_headers_pass, proxied_requests_go_to_the_path, the_last_header_counts,
};
use crate::laws::tokens::{
    names_follow_their_owner, permissions_are_asked_for_whole, repositories_are_asked_at_their_path,
    tokens_are_asked_for_as_their_scope_says,
};
use crate::lookup::{access_tokens_url, first_lookup, next_lookup, Lookup, LookupReply, LookupStep};
use crate::minting::{begin, MintStep};
use crate::proxy::{
    header_views, proxy_headers, proxy_url, repository_path, returned_headers,
    should_forward_header, should_return_proxy_header, Header, HeaderView,
};
use crate::service::{RepoScope, TokenScope};
use crate::string_map::StringMap;
use crate::text::{decimal, lower, texts};
use crate::token_cache::{installation_key, GithubCache, InstallationTokenCacheKey};
use vstd::prelude::*;
use vstd::utf8::encode_utf8;

verus! {

/// What a token of a scope is asked for with: the whole installation or the one
/// repository of the target by its name, and every permission of the scope and no
/// other.
pub proof fn token_requests_are_built(
    scope: TokenScope,
    target: InstallationTarget,
    r: Result<CreateInstallationTokenRequest, GithubError>,
    owner: Seq<char>,
    name: Seq<char>,
    permission: Seq<char>,
)
    requires
        call_ensures(build_create_installation_token_request, (&scope, &target), r),
        !owner.contains('/'),
    ensures
        r is Err <==> scope.repositories == RepoScope::OnlyRequested && target is Owner,
        r matches Err(error) ==> (target matches InstallationTarget::Owner(account) && error.message@
            == "cannot mint a repository-scoped token for owner '"@ + account@
            + "': no repository was requested"@),
        r matches Ok(request) ==> {
            &&& scope.repositories == RepoScope::All ==> request.repositories is None
            &&& (scope.repositories == RepoScope::OnlyRequested && target@
                == TargetView::Repository(owner + "/"@ + name)) ==> (
            request.repositories matches Some(names) && names@.len() == 1 && names@[0]@ == name)
            &&& scope.permissions@.contains_key(permission) ==> (
            request.permissions matches Some(asked) && asked@.contains_key(permission)
                && asked@[permission] == scope.permissions@[permission])
            &&& request.permissions matches Some(asked) ==> (asked@.contains_key(permission)
                ==> scope.permissions@.contains_key(permission))
            &&& scope.permissions@ == Map::<Seq<char>, Seq<char>>::empty()
                ==> request.permissions is None
        },
{
    names_follow_their_owner(owner, name);
    permissions_are_asked_for_whole(scope.permissions@, permission);
    if let Ok(request) = r {
        if let Some(names) = request.repositories {
            if scope.repositories == RepoScope::OnlyRequested && target@ == TargetView::Repository(
                owner + "/"@ + name,
            ) {
                assert(request@.repositories == Some(seq![name]));
                assert(texts(names@) == seq![name]);
                assert(texts(names@).len() == names@.len());
                assert(texts(names@)[0] == names@[0]@);
            }
        }
    }
}

/// What a token for several repositories is asked for with: each of them by its
/// name, in their order, and every permission and no other.
pub proof fn several_repositories_are_asked_for(
    repositories: Vec<String>,
    permissions: StringMap<String>,
    r: CreateInstallationTokenRequest,
    i: int,
    owner: Seq<char>,
    name: Seq<char>,
    permission: Seq<char>,
)
    requires
        call_ensures(build_repositories_token_request, (&repositories, &permissions), r),
        !owner.contains('/'),
    ensures
        r.repositories matches Some(names) && {
            &&& names@.len() == repositories@.len()
            &&& 0 <= i < repositories@.len() && repositories@[i]@ == owner + "/"@ + name
                ==> names@[i]@ == name
        },
        permissions@.contains_key(permission) ==> (r.permissions matches Some(asked)
            && asked@.contains_key(permission) && asked@[permission] == permissions@[permission]),
        r.permissions matches Some(asked) ==> (asked@.contains_key(permission)
            ==> permissions@.contains_key(permission)),
        permissions@ == Map::<Seq<char>, Seq<char>>::empty() ==> r.permissions is None,
{
    names_follow_their_owner(owner, name);
    permissions_are_asked_for_whole(permissions@, permission);
    let wanted = texts(repositories@).map_values(
        |repo: Seq<char>| crate::github::name_of(repo),
    );
    let names = r.repositories->Some_0;
    assert(r@.repositories == Some(wanted));
    assert(texts(names@) == wanted);
    assert(texts(names@).len() == names@.len());
    assert(wanted.len() == texts(repositories@).len());
    if 0 <= i < repositories@.len() {
        assert(texts(names@)[i] == names@[i]@);
        assert(texts(repositories@)[i] == repositories@[i]@);
    }
}

/// What is done first to have a token: a kept one is handed out; where the
/// installation is known, a token is asked for there, for what the scope says.
pub proof fn tokens_are_begun(
    cache: GithubCache,
    key: InstallationTokenCacheKey,
    api_url: &str,
    now: u64,
    r: MintStep,
    id: u64,
    owner: Seq<char>,
    name: Seq<char>,
    permission: Seq<char>,
)
    requires
        call_ensures(begin, (&cache, &key, api_url, now), r),
        !owner.contains('/'),
    ensures
        cache.token_at(key@, now) matches Some(kept) ==> (r matches MintStep::Serve(token)
            && token@ == kept),
        cache.token_at(key@, now) is None ==> !(r is Serve),
        ({
            &&& cache.token_at(key@, now) is None
            &&& cache.ids().contains_key(installation_key(key.github_app@, key.target@))
            &&& cache.ids()[installation_key(key.github_app@, key.target@)] == id
            &&& !(key.target is Owner && key.scope.repositories == RepoScope::OnlyRequested)
        }) ==> (r matches MintStep::Request { url, request } && {
            &&& url@ == api_url@ + "/app/installations/"@ + decimal(id as nat) + "/access_tokens"@
            &&& key.scope.repositories == RepoScope::All ==> request.repositories is None
            &&& (key.scope.repositories == RepoScope::OnlyRequested && key.target@
                == TargetView::Repository(owner + "/"@ + name)) ==> (
            request.repositories matches Some(names) && names@.len() == 1 && names@[0]@ == name)
            &&& key.scope.permissions@.contains_key(permission) ==> (
            request.permissions matches Some(asked) && asked@.contains_key(permission)
                && asked@[permission] == key.scope.permissions@[permission])
            &&& request.permissions matches Some(asked) ==> (asked@.contains_key(permission)
                ==> key.scope.permissions@.contains_key(permission))
        }),
{
    if cache.token_at(key@, now) is None && cache.ids().contains_key(
        installation_key(key.github_app@, key.target@),
    ) && cache.ids()[installation_key(key.github_app@, key.target@)] == id {
        tokens_are_asked_for_as_their_scope_says(
            cache,
            key@,
            api_url@,
            now,
            id,
            owner,
            name,
            permission,
        );
        if let MintStep::Request { url, request } = r {
            if let Some(names) = request.repositories {
                assert(request@.repositories == Some(texts(names@)));
                assert(texts(names@).len() == names@.len());
                if names@.len() > 0 {
                    assert(texts(names@)[0] == names@[0]@);
                }
            }
        }
    }
}

/// Where GitHub is asked first for the installation of a target.
pub proof fn lookups_are_begun(
    target: InstallationTarget,
    r: LookupStep,
    owner: Seq<char>,
    name: Seq<char>,
)
    requires
        call_ensures(first_lookup, (&target,), r),
        !owner.contains('/'),
    ensures
        target@ == TargetView::Owner(owner) ==> (r matches LookupStep::Ask { lookup, path }
            && lookup == Lookup::Organization && path@ == "orgs/"@ + owner + "/installation"@),
        target@ == TargetView::Repository(owner + "/"@ + name) ==> (r matches LookupStep::Ask {
            lookup,
            path,
        } && lookup == Lookup::Repository && path@ == "repos/"@ + owner + "/"@ + name
            + "/installation"@),
{
    repositories_are_asked_at_their_path(owner, name, Lookup::User, 0, Ok(0), Seq::empty());
}

/// What follows from GitHub's reply to a lookup: an id in a response without an
/// error status is the installation; a 404 about an organization leads on to the
/// user; and everything else fails.
pub proof fn lookups_are_continued(
    target: InstallationTarget,
    lookup: Lookup,
    reply: LookupReply,
    r: LookupStep,
)
    requires
        call_ensures(next_lookup, (&target, lookup, reply), r),
    ensures
        (reply matches LookupReply::Response { status, id: Ok(id) } && !(400 <= status < 600)) ==> r
            == LookupStep::Found(reply->Response_id->Ok_0),
        r is Found ==> (reply matches LookupReply::Response { status, id: Ok(id) } && !(400
            <= status < 600)),
        r is Ask <==> target is Owner && lookup != Lookup::User && (
        reply matches LookupReply::Response { status, .. } && status == 404),
        r matches LookupStep::Ask { lookup: next, path } ==> next == Lookup::User && (
        target matches InstallationTarget::Owner(owner) && path@ == "users/"@ + owner@
            + "/installation"@),
{
}

/// The address at which a token is asked for.
pub proof fn tokens_are_asked_for_at_their_installation(api_url: &str, id: u64, r: String)
    requires
        call_ensures(access_tokens_url, (api_url, id), r),
    ensures
        r@ == api_url@ + "/app/installations/"@ + decimal(id as nat) + "/access_tokens"@,
{
}

/// Which headers of a response pass back: all but the seven of a connection, in
/// whatever case.
pub proof fn response_headers_pass(name: &str, r: bool)
    requires
        call_ensures(should_return_proxy_header, (name,), r),
    ensures
        r <==> {
            let lowered = lower(name@);
            &&& lowered != "connection"@
            &&& lowered != "proxy-authenticate"@
            &&& lowered != "proxy-authorization"@
            &&& lowered != "te"@
            &&& lowered != "trailer"@
            &&& lowered != "transfer-encoding"@
            &&& lowered != "upgrade"@
        },
{
    all_other_headers_pass(lower(name@));
}

/// Which headers of a request are forwarded: all but the seven of a connection,
/// the caller's credentials, the host and the length, in whatever case.
pub proof fn request_headers_pass(name: &str, r: bool)
    requires
        call_ensures(should_forward_header, (name,), r),
    ensures
        r <==> {
            let lowered = lower(name@);
            &&& lowered != "connection"@
            &&& lowered != "proxy-authenticate"@
            &&& lowered != "proxy-authorization"@
            &&& lowered != "te"@
            &&& lowered != "trailer"@
            &&& lowered != "transfer-encoding"@
            &&& lowered != "upgrade"@
            &&& lowered != "authorization"@
            &&& lowered != "host"@
            &&& lowered != "content-length"@
        },
{
    all_other_headers_pass(lower(name@));
}

/// What a proxied request carries: the installation token in place of the
/// caller's credentials, and nothing of the caller's that is held back; of every
/// other header the last value, under a name that stands once.
pub proof fn proxied_requests_carry_the_token(
    headers: Vec<Header>,
    token: &str,
    r: Result<Vec<Header>, GithubError>,
    i: int,
    j: int,
)
    requires
        call_ensures(proxy_headers, (&headers, token), r),
    ensures
        r matches Ok(proxied) ==> {
            &&& exists|k: int|
                0 <= k < proxied@.len() && lower((#[trigger] proxied@[k]).name@)
                    == "authorization"@
            &&& 0 <= i < proxied@.len() ==> {
                let name = lower(proxied@[i].name@);
                &&& name == "authorization"@ ==> proxied@[i].value@ == encode_utf8(
                    "Bearer "@ + token@,
                )
                &&& name == "authorization"@ || (name != "connection"@ && name
                    != "proxy-authenticate"@ && name != "proxy-authorization"@ && name != "te"@
                    && name != "trailer"@ && name != "transfer-encoding"@ && name != "upgrade"@
                    && name != "host"@ && name != "content-length"@)
                &&& 0 <= j < proxied@.len() && j != i ==> lower(proxied@[j].name@) != name
                &&& name != "authorization"@ ==> exists|k: int|
                    {
                        &&& 0 <= k < headers@.len()
                        &&& lower((#[trigger] headers@[k]).name@) == name
                        &&& headers@[k].value@ == proxied@[i].value@
                    }
            }
            &&& (0 <= j < headers@.len() && crate::proxy::is_forwarded(lower(headers@[j].name@)))
                ==> exists|k: int|
                0 <= k < proxied@.len() && lower((#[trigger] proxied@[k]).name@) == lower(
                    headers@[j].name@,
                )
        },
        r is Ok <==> forall|k: int|
            0 <= k < encode_utf8("Bearer "@ + token@).len() ==> ((#[trigger] encode_utf8(
                "Bearer "@ + token@,
            )[k] >= 32 && encode_utf8("Bearer "@ + token@)[k] != 127) || encode_utf8(
                "Bearer "@ + token@,
            )[k] == 9),
{
    if let Ok(proxied) = r {
        let sent = header_views(proxied@);
        let given = header_views(headers@);
        let credential = "authorization"@;
        the_last_header_counts(sent, credential, 0);
        let k = choose|k: int| 0 <= k < sent.len() && (#[trigger] sent[k]).name == credential;
        assert(lower(proxied@[k].name@) == credential);
        if 0 <= i < proxied@.len() {
            let name = sent[i].name;
            assert(name == lower(proxied@[i].name@));
            assert forall|m: int| i < m < sent.len() implies (#[trigger] sent[m]).name != name by {
                assert(sent[i].name != sent[m].name);
            }
            the_last_header_counts(sent, name, i);
            assert(crate::proxy::last_value(sent, name) == Some(sent[i].value));
            all_other_headers_pass(name);
            if 0 <= j < proxied@.len() && j != i {
                assert(sent[j].name != sent[i].name);
            }
            if name != credential {
                last_header_is_given(given, name);
                let m = choose|m: int|
                    0 <= m < given.len() && (#[trigger] given[m]).name == name && given[m].value
                        == crate::proxy::last_value(given, name)->Some_0;
                assert(lower(headers@[m].name@) == name);
            }
        }
        if 0 <= j < headers@.len() && crate::proxy::is_forwarded(lower(headers@[j].name@)) {
            let name = given[j].name;
            the_last_header_counts(given, name, j);
            assert(crate::proxy::last_value(given, name) is Some);
            the_last_header_counts(sent, name, 0);
            if name != credential {
                assert(crate::proxy::last_value(sent, name) is Some);
            }
            let m = choose|m: int| 0 <= m < sent.len() && (#[trigger] sent[m]).name == name;
            assert(lower(proxied@[m].name@) == name);
        }
    }
    crate::laws::proxying::control_characters_cannot_stand_in_headers("Bearer "@ + token@);
}

proof fn last_header_is_given(headers: Seq<HeaderView>, name: Seq<char>)
    requires
        crate::proxy::last_value(headers, name) is Some,
    ensures
        exists|m: int|
            0 <= m < headers.len() && (#[trigger] headers[m]).name == name && headers[m].value
                == crate::proxy::last_value(headers, name)->Some_0,
    decreases headers.len(),
{
    if headers.last().name == name {
        assert(headers[headers.len() - 1].name == name);
    } else {
        let rest = headers.drop_last();
        last_header_is_given(rest, name);
        let m = choose|m: int|
            0 <= m < rest.len() && (#[trigger] rest[m]).name == name && rest[m].value
                == crate::proxy::last_value(rest, name)->Some_0;
        assert(headers[m].name == name);
    }
}

/// What a caller gets back of GitHub's headers: every one but those of a
/// connection.
pub proof fn responses_keep_their_headers(headers: Vec<Header>, r: Vec<Header>, i: int)
    requires
        call_ensures(returned_headers, (&headers,), r),
    ensures
        r@.len() <= headers@.len(),
        0 <= i < headers@.len() && !crate::proxy::is_hop_by_hop(lower(headers@[i].name@))
            ==> exists|k: int|
            0 <= k < r@.len() && (#[trigger] r@[k])@ == headers@[i]@,
        0 <= i < r@.len() ==> {
            &&& !crate::proxy::is_hop_by_hop(lower(r@[i].name@))
            &&& exists|k: int| 0 <= k < headers@.len() && (#[trigger] headers@[k])@ == r@[i]@
        },
{
    let all = header_views(headers@);
    let passes = |header: HeaderView| !crate::proxy::is_hop_by_hop(header.name);
    let kept = header_views(r@);
    assert(kept == all.filter(passes));
    all.filter_lemma(passes);
    filtering_keeps_members(all, passes);
    if 0 <= i < headers@.len() && !crate::proxy::is_hop_by_hop(lower(headers@[i].name@)) {
        assert(all[i] == headers@[i]@);
        assert(passes(all[i]));
        assert(kept.contains(all[i]));
        let k = choose|k: int| 0 <= k < kept.len() && kept[k] == all[i];
        assert(r@[k]@ == headers@[i]@);
    }
    if 0 <= i < r@.len() {
        assert(kept[i] == r@[i]@);
        assert(passes(kept[i]));
        let k = choose|k: int| 0 <= k < all.len() && all[k] == kept[i];
        assert(headers@[k]@ == r@[i]@);
    }
}

proof fn filtering_keeps_members(all: Seq<HeaderView>, passes: spec_fn(HeaderView) -> bool)
    ensures
        all.filter(passes).len() <= all.len(),
        forall|i: int|
            0 <= i < all.filter(passes).len() ==> all.contains(#[trigger] all.filter(passes)[i]),
    decreases all.len(),
{
    reveal(Seq::filter);
    if all.len() > 0 {
        let rest = all.drop_last();
        let kept = all.filter(passes);
        filtering_keeps_members(rest, passes);
        assert forall|i: int| 0 <= i < kept.len() implies all.contains(#[trigger] kept[i]) by {
            if i < rest.filter(passes).len() {
                assert(kept[i] == rest.filter(passes)[i]);
                let k = choose|k: int| 0 <= k < rest.len() && rest[k] == kept[i];
                assert(all[k] == kept[i]);
            } else {
                assert(all[all.len() - 1] == kept[i]);
            }
        }
    }
}

/// Where a proxied request goes.
pub proof fn proxied_requests_are_addressed(
    api_url: &str,
    github_path: &str,
    query: Option<&str>,
    r: String,
    slashes: Seq<char>,
    path: Seq<char>,
)
    requires
        call_ensures(proxy_url, (api_url, github_path, query), r),
        github_path@ == slashes + path,
        path.len() == 0 || path[0] != '/',
        forall|i: int| 0 <= i < slashes.len() ==> slashes[i] == '/',
    ensures
        match query {
            Some(query) if query@.len() > 0 => r@ == api_url@ + "/"@ + path + "?"@ + query@,
            _ => r@ == api_url@ + "/"@ + path,
        },
{
    proxied_requests_go_to_the_path(
        api_url@,
        path,
        match query {
            Some(query) => query@,
            None => Seq::empty(),
        },
        slashes,
    );
}

/// The path of a repository in GitHub's API.
pub proof fn repositories_have_their_path(repo: &str, repo_path: Option<&str>, r: String)
    requires
        call_ensures(repository_path, (repo, repo_path), r),
    ensures
        repo_path is None ==> r@ == "repos/"@ + repo@,
        repo_path matches Some(path) ==> r@ == "repos/"@ + repo@ + "/"@ + path@,
{
}

} // verus!
