//! How installation tokens are had from GitHub, over what is asked and
//! answered.
use crate::github::{name_of, requested_permissions, TargetView, GITHUB_API_URL};
use crate::lookup::{first_step, next_step, Lookup, ReplyView, StepView};
use crate::minting::{after_step, first_lookup_step, first_mint_step, ids_after, MintView};
use crate::service::RepoScope;
use crate::text::{decimal, split_at_first_absent, split_at_first_index};
use crate::token_cache::{
    installation_key, installation_keys_differ, GithubCache, TokenKeyView, TokenView,
};
use vstd::prelude::*;

verus! {

/// The name of a repository is what follows the first slash of its full name,
/// and all of a name without one.
pub proof fn names_follow_their_owner(owner: Seq<char>, name: Seq<char>)
    ensures
        !owner.contains('/') ==> name_of(owner + "/"@ + name) == name,
        !name.contains('/') ==> name_of(name) == name,
{
    reveal_strlit("/");
    if !owner.contains('/') {
        let repo = owner + "/"@ + name;
        let n = owner.len() as int;
        assert(repo[n] == '/');
        assert forall|j: int| 0 <= j < n implies repo[j] != '/' by {
            assert(repo[j] == owner[j]);
            assert(owner.contains(owner[j]));
        }
        split_at_first_index(repo, '/', n);
        assert(repo.skip(n + 1) =~= name);
    }
    if !name.contains('/') {
        split_at_first_absent(name, '/');
    }
}

/// GitHub is asked for exactly the permissions of a scope: each of them at its
/// level and no other. Only for a scope without any is GitHub asked for none by
/// name.
pub proof fn permissions_are_asked_for_whole(
    permissions: Map<Seq<char>, Seq<char>>,
    name: Seq<char>,
)
    ensures
        (forall|other: Seq<char>| !#[trigger] permissions.contains_key(other))
            ==> requested_permissions(permissions) is None,
        permissions.contains_key(name) ==> requested_permissions(permissions) is Some,
        requested_permissions(permissions) matches Some(asked) ==> {
            &&& asked.contains_key(name) == permissions.contains_key(name)
            &&& permissions.contains_key(name) ==> asked[name] == permissions[name]
        },
{
    if forall|other: Seq<char>| !#[trigger] permissions.contains_key(other) {
        assert(permissions =~= Map::<Seq<char>, Seq<char>>::empty());
    }
}

/// What GitHub is asked for a token with, where the installation is known and
/// no token is kept: at that installation; for the one repository of the target,
/// by its name, where the scope is that of the requested repository, and for the
/// whole installation otherwise; with every permission of the scope and no
/// other. A scope of one repository is refused for an account.
pub proof fn tokens_are_asked_for_as_their_scope_says(
    cache: GithubCache,
    key: TokenKeyView,
    api_url: Seq<char>,
    now: u64,
    id: u64,
    owner: Seq<char>,
    name: Seq<char>,
    permission: Seq<char>,
)
    requires
        cache.token_at(key, now) is None,
        cache.ids().contains_key(installation_key(key.github_app, key.target)),
        cache.ids()[installation_key(key.github_app, key.target)] == id,
        !owner.contains('/'),
    ensures
        key.scope.repositories == RepoScope::OnlyRequested ==> (
        key.target matches TargetView::Owner(account) ==> first_mint_step(cache, key, api_url, now)
            == MintView::Fail(
            "cannot mint a repository-scoped token for owner '"@ + account
                + "': no repository was requested"@,
        )),
        !(key.target is Owner && key.scope.repositories == RepoScope::OnlyRequested) ==> (
        first_mint_step(cache, key, api_url, now) matches MintView::Request { url, request } && {
            &&& url == api_url + "/app/installations/"@ + decimal(id as nat) + "/access_tokens"@
            &&& key.scope.repositories == RepoScope::All ==> request.repositories is None
            &&& (key.scope.repositories == RepoScope::OnlyRequested && key.target
                == TargetView::Repository(owner + "/"@ + name)) ==> request.repositories == Some(
                seq![name],
            )
            &&& key.scope.permissions.contains_key(permission) ==> (
            request.permissions matches Some(asked) && asked.contains_key(permission)
                && asked[permission] == key.scope.permissions[permission])
            &&& request.permissions matches Some(asked) ==> (asked.contains_key(permission)
                ==> key.scope.permissions.contains_key(permission))
            &&& (forall|other: Seq<char>| !#[trigger] key.scope.permissions.contains_key(other))
                ==> request.permissions is None
        }),
{
    names_follow_their_owner(owner, name);
    permissions_are_asked_for_whole(key.scope.permissions, permission);
}

/// A token that GitHub made is handed out again, to the same requester for the
/// same GitHub App, target and scope, for fifty minutes from when it was kept,
/// without asking GitHub; from then on, and to anyone else, it is not.
pub proof fn tokens_are_kept_for_fifty_minutes(
    before: GithubCache,
    after: GithubCache,
    key: TokenKeyView,
    token: TokenView,
    api_url: Seq<char>,
    now: u64,
    later: u64,
    other: TokenKeyView,
)
    requires
        after.keeps(before, key, token, now),
    ensures
        later < now + 50 * 60 * 1_000_000_000 ==> first_mint_step(after, key, api_url, later)
            == MintView::Serve(token),
        later >= now + 50 * 60 * 1_000_000_000 ==> !(first_mint_step(
            after,
            key,
            api_url,
            later,
        ) is Serve),
        (other.requester != key.requester || other.scope.permissions != key.scope.permissions
            || other.scope.repositories != key.scope.repositories || other.target != key.target
            || other.github_app != key.github_app) && before.token_at(other, later) is None
            ==> !(first_mint_step(after, other, api_url, later) is Serve),
        first_lookup_step(after, other.github_app, other.target) == first_lookup_step(
            before,
            other.github_app,
            other.target,
        ),
{
}

/// An installation that GitHub named is known from then on for its GitHub App
/// and target, and for no other of them.
pub proof fn installations_are_remembered(
    before: GithubCache,
    after: GithubCache,
    app: Seq<char>,
    target: TargetView,
    status: u16,
    id: u64,
    other_app: Seq<char>,
    other_target: TargetView,
)
    requires
        200 <= status < 300,
        after.ids() == ids_after(before, app, target, ReplyView::Response { status, id: Ok(id) }),
        !app.contains('/'),
        !other_app.contains('/'),
    ensures
        first_lookup_step(after, app, target) == StepView::Found(id),
        other_app != app || other_target != target ==> first_lookup_step(
            after,
            other_app,
            other_target,
        ) == first_lookup_step(before, other_app, other_target),
{
    if other_app != app || other_target != target {
        if installation_key(app, target) == installation_key(other_app, other_target) {
            installation_keys_differ(app, target, other_app, other_target);
        }
    }
}

/// A reply that names no installation is not remembered.
pub proof fn failures_are_not_remembered(
    before: GithubCache,
    app: Seq<char>,
    target: TargetView,
    status: u16,
    id: Result<u64, Seq<char>>,
    cause: Seq<char>,
)
    ensures
        ids_after(before, app, target, ReplyView::Unreached { cause }) == before.ids(),
        id is Err || 400 <= status < 600 ==> ids_after(
            before,
            app,
            target,
            ReplyView::Response { status, id },
        ) == before.ids(),
{
}

/// How the installation of an account is found, reply by reply: at the
/// organization first; at the user where, and only where, GitHub answers 404
/// there; and what is found is the id that GitHub names, never one of a response
/// with an error status.
pub proof fn accounts_are_asked_at_two_paths(
    owner: Seq<char>,
    status: u16,
    id: Result<u64, Seq<char>>,
    cause: Seq<char>,
)
    ensures
        first_step(TargetView::Owner(owner)) == (StepView::Ask {
            lookup: Lookup::Organization,
            path: "orgs/"@ + owner + "/installation"@,
        }),
        ({
            let target = TargetView::Owner(owner);
            let reply = ReplyView::Response { status, id };
            let first = next_step(target, Lookup::Organization, reply);
            let second = next_step(target, Lookup::User, reply);
            &&& status == 404 ==> first == (StepView::Ask {
                lookup: Lookup::User,
                path: "users/"@ + owner + "/installation"@,
            })
            &&& status != 404 ==> !(first is Ask)
            &&& !(second is Ask)
            &&& 400 <= status < 600 ==> second is Fail && !(first is Found)
            &&& 400 <= status < 600 && status != 404 ==> first is Fail
            &&& !(400 <= status < 600) ==> match id {
                Ok(id) => first == StepView::Found(id) && second == StepView::Found(id),
                Err(_) => first is Fail && second is Fail,
            }
            &&& next_step(target, Lookup::Organization, ReplyView::Unreached { cause }) is Fail
            &&& next_step(target, Lookup::User, ReplyView::Unreached { cause }) is Fail
        }),
{
}

/// The installation of a repository is asked for at the repository, once: an id
/// in a response without an error status is it, and everything else fails.
pub proof fn repositories_are_asked_at_their_path(
    owner: Seq<char>,
    name: Seq<char>,
    lookup: Lookup,
    status: u16,
    id: Result<u64, Seq<char>>,
    cause: Seq<char>,
)
    requires
        !owner.contains('/'),
    ensures
        ({
            let target = TargetView::Repository(owner + "/"@ + name);
            &&& first_step(target) == (StepView::Ask {
                lookup: Lookup::Repository,
                path: "repos/"@ + owner + "/"@ + name + "/installation"@,
            })
            &&& match (id, 400 <= status < 600) {
                (Ok(id), false) => next_step(
                    target,
                    lookup,
                    ReplyView::Response { status, id: Ok(id) },
                ) == StepView::Found(id),
                _ => next_step(target, lookup, ReplyView::Response { status, id }) is Fail,
            }
            &&& next_step(target, lookup, ReplyView::Unreached { cause }) is Fail
        }),
        !name.contains('/') ==> first_step(TargetView::Repository(name)) is Fail,
{
    reveal_strlit("/");
    let repo = owner + "/"@ + name;
    let n = owner.len() as int;
    assert(repo[n] == '/');
    assert forall|j: int| 0 <= j < n implies repo[j] != '/' by {
        assert(repo[j] == owner[j]);
        assert(owner.contains(owner[j]));
    }
    split_at_first_index(repo, '/', n);
    assert(repo.skip(n + 1) =~= name);
    assert(repo.take(n) =~= owner);
    if !name.contains('/') {
        split_at_first_absent(name, '/');
    }
}

/// Where no token is kept and the installation is not known, GitHub is asked for
/// the installation first; a reply that names it leads to the request for the
/// token there, and one that ends the lookup ends it all.
pub proof fn installations_are_found_first(
    cache: GithubCache,
    key: TokenKeyView,
    api_url: Seq<char>,
    now: u64,
    owner: Seq<char>,
    name: Seq<char>,
    lookup: Lookup,
    path: Seq<char>,
    text: Seq<char>,
    id: u64,
)
    requires
        cache.token_at(key, now) is None,
        !cache.ids().contains_key(installation_key(key.github_app, key.target)),
        !owner.contains('/'),
    ensures
        key.target == TargetView::Owner(owner) ==> first_mint_step(cache, key, api_url, now) == (
        MintView::Ask {
            lookup: Lookup::Organization,
            path: "orgs/"@ + owner + "/installation"@,
        }),
        key.target == TargetView::Repository(owner + "/"@ + name) ==> first_mint_step(
            cache,
            key,
            api_url,
            now,
        ) == (MintView::Ask {
            lookup: Lookup::Repository,
            path: "repos/"@ + owner + "/"@ + name + "/installation"@,
        }),
        after_step(key, api_url, StepView::Ask { lookup, path }) == (MintView::Ask {
            lookup,
            path,
        }),
        after_step(key, api_url, StepView::Fail(text)) == MintView::Fail(text),
        after_step(key, api_url, StepView::Found(id)) matches MintView::Request { url, .. } ==> url
            == api_url + "/app/installations/"@ + decimal(id as nat) + "/access_tokens"@,
        after_step(key, api_url, StepView::Found(id)) is Fail <==> key.target is Owner
            && key.scope.repositories == RepoScope::OnlyRequested,
        !(after_step(key, api_url, StepView::Found(id)) is Serve),
        !(after_step(key, api_url, StepView::Found(id)) is Ask),
{
    repositories_are_asked_at_their_path(owner, name, lookup, 200, Ok(id), text);
}

/// A failed lookup is told by what was asked, and why it failed.
pub proof fn failed_lookups_say_why(
    owner: Seq<char>,
    repo: Seq<char>,
    lookup: Lookup,
    status: u16,
    cause: Seq<char>,
)
    ensures
        ({
            let repository = TargetView::Repository(repo);
            let account = TargetView::Owner(owner);
            let refused = ReplyView::Response { status, id: Err(cause) };
            let unreached = ReplyView::Unreached { cause };
            let org = "orgs/"@ + owner + "/installation"@;
            let user = "users/"@ + owner + "/installation"@;
            &&& next_step(repository, lookup, unreached) == StepView::Fail(
                "failed to resolve GitHub App installation for '"@ + repo + "'"@ + ": "@ + cause,
            )
            &&& 400 <= status < 600 ==> next_step(repository, lookup, refused) == StepView::Fail(
                "GitHub App installation lookup for '"@ + repo + "' returned an error status"@
                    + ": "@ + cause,
            )
            &&& next_step(account, Lookup::Organization, unreached) == StepView::Fail(
                "failed to resolve GitHub App installation via '"@ + org + "'"@ + ": "@ + cause,
            )
            &&& next_step(account, Lookup::User, unreached) == StepView::Fail(
                "failed to resolve GitHub App installation via '"@ + user + "'"@ + ": "@ + cause,
            )
            &&& 400 <= status < 600 && status != 404 ==> next_step(
                account,
                Lookup::Organization,
                refused,
            ) == StepView::Fail(
                "GitHub App installation lookup '"@ + org + "' returned an error status"@ + ": "@
                    + cause,
            )
            &&& status == 404 ==> next_step(account, Lookup::User, refused) == StepView::Fail(
                "no GitHub App installation found for owner '"@ + owner
                    + "' as an organization or a user"@,
            )
            &&& !(400 <= status < 600) ==> next_step(repository, lookup, refused)
                == StepView::Fail(
                "failed to parse GitHub App installation lookup response for '"@ + repo + "'"@
                    + ": "@ + cause,
            )
            &&& !(400 <= status < 600) ==> next_step(account, Lookup::Organization, refused)
                == StepView::Fail(
                "failed to parse GitHub App installation lookup response for '"@ + org + "'"@
                    + ": "@ + cause,
            )
        }),
        TargetView::Repository(repo).label() == "repository '"@ + repo + "'"@,
        TargetView::Owner(owner).label() == "owner '"@ + owner + "'"@,
{
}

/// The API is GitHub's own.
pub proof fn the_api_is_githubs()
    ensures
        GITHUB_API_URL@ == "https://api.github.com"@,
{
}

} // verus!
