//! What requests for several repositories may ask for, and what they get.
use crate::access::{decided, granted_scopes, owned};
use crate::checks::no_problem;
use crate::config::GithubAppConfig;
use crate::error::AppErrorView;
use crate::laws::workloads::apps_are_found_by_exact_name;
use crate::requests::{
    excess, excess_problem, first_restricted, is_restricted, level_at_most, repository_name_problem,
    repository_names_problem, selected_permissions,
};
use crate::service::{AppState, ScopeView};
use crate::string_map::{map_of_sorted, sorted_by_key};
use vstd::prelude::*;

verus! {

/// The levels of access are read, write and admin, each more than the one
/// before; any other level is no more than itself, and nothing else is no more
/// than it.
pub proof fn levels_go_from_read_to_admin(a: Seq<char>, b: Seq<char>)
    ensures
        level_at_most("read"@, "write"@),
        level_at_most("read"@, "admin"@),
        level_at_most("write"@, "admin"@),
        !level_at_most("write"@, "read"@),
        !level_at_most("admin"@, "read"@),
        !level_at_most("admin"@, "write"@),
        level_at_most(a, a),
        a != b && a != "read"@ && a != "write"@ && a != "admin"@ ==> !level_at_most(a, b)
            && !level_at_most(b, a),
{
    reveal_strlit("read");
    reveal_strlit("write");
    reveal_strlit("admin");
    assert("read"@[0] != "write"@[0]);
    assert("read"@[0] != "admin"@[0]);
    assert("write"@[0] != "admin"@[0]);
}

/// The repositories that one token is asked for are in order exactly where
/// there are one to five hundred of them, each is a name without a slash, and
/// none is named twice.
pub proof fn lists_of_repositories_in_order(names: Seq<Seq<char>>)
    ensures
        repository_names_problem(names) is None <==> {
            &&& 1 <= names.len() <= 500
            &&& forall|i: int|
                0 <= i < names.len() ==> (#[trigger] names[i]).len() > 0 && !names[i].contains('/')
            &&& forall|i: int, j: int|
                0 <= i < j < names.len() ==> #[trigger] names[i] != #[trigger] names[j]
        },
{
    let check = |i: int| repository_name_problem(names, i);
    no_problem(check, 0, names.len() as int);
    if repository_names_problem(names) is None {
        assert forall|i: int| 0 <= i < names.len() implies (#[trigger] names[i]).len() > 0
            && !names[i].contains('/') by {
            assert(check(i) is None);
        }
        assert forall|i: int, j: int| 0 <= i < j < names.len() implies #[trigger] names[i]
            != #[trigger] names[j] by {
            assert(check(j) is None);
            assert(names.take(j)[i] == names[i]);
        }
    }
    if 1 <= names.len() <= 500 && (forall|i: int|
        0 <= i < names.len() ==> (#[trigger] names[i]).len() > 0 && !names[i].contains('/')) && (
    forall|i: int, j: int|
        0 <= i < j < names.len() ==> #[trigger] names[i] != #[trigger] names[j]) {
        assert forall|i: int| 0 <= i < names.len() implies #[trigger] check(i) is None by {
            assert(names[i].len() > 0);
            if names.take(i).contains(names[i]) {
                let k = choose|k: int| 0 <= k < names.take(i).len() && names.take(i)[k] == names[i];
                assert(names[k] == names[i]);
            }
        }
    }
}

pub(crate) proof fn nothing_exceeds(
    pairs: Seq<(Seq<char>, Seq<char>)>,
    allowed: Map<Seq<char>, Seq<char>>,
)
    ensures
        excess_problem(pairs, allowed) is None <==> (allowed == Map::<
            Seq<char>,
            Seq<char>,
        >::empty() || forall|j: int|
            0 <= j < pairs.len() ==> allowed.contains_key((#[trigger] pairs[j]).0)
                && level_at_most(pairs[j].1, allowed[pairs[j].0])),
{
    let check = |j: int| excess(pairs[j], allowed);
    no_problem(check, 0, pairs.len() as int);
    if forall|j: int|
        0 <= j < pairs.len() ==> allowed.contains_key((#[trigger] pairs[j]).0) && level_at_most(
            pairs[j].1,
            allowed[pairs[j].0],
        ) {
        assert forall|j: int| 0 <= j < pairs.len() implies #[trigger] check(j) is None by {
            assert(allowed.contains_key(pairs[j].0));
        }
    }
    if allowed != Map::<Seq<char>, Seq<char>>::empty() && excess_problem(pairs, allowed) is None {
        assert forall|j: int| 0 <= j < pairs.len() implies allowed.contains_key(
            (#[trigger] pairs[j]).0,
        ) && level_at_most(pairs[j].1, allowed[pairs[j].0]) by {
            assert(check(j) is None);
        }
    }
}

/// Permissions that are asked for are granted as they are or not at all. They
/// are granted exactly where there are some and each is, at every repository
/// whose policy names permissions, among those and at most at the level there;
/// the grant then has every one of them at the level that was asked for, and no
/// other. Otherwise the request is bad, where it asks for none, or is not
/// authorized.
pub proof fn requested_permissions_are_granted_whole(
    pairs: Seq<(Seq<char>, Seq<char>)>,
    scopes: Seq<ScopeView>,
    name: Seq<char>,
    i: int,
)
    requires
        sorted_by_key(pairs),
    ensures
        selected_permissions(Some(pairs), scopes) is Ok <==> pairs.len() > 0 && forall|s: int, j: int|
            0 <= s < scopes.len() && 0 <= j < pairs.len() && (#[trigger] scopes[s]).permissions
                != Map::<Seq<char>, Seq<char>>::empty() ==> scopes[s].permissions.contains_key(
                (#[trigger] pairs[j]).0,
            ) && level_at_most(pairs[j].1, scopes[s].permissions[pairs[j].0]),
        selected_permissions(Some(pairs), scopes) matches Ok(granted) ==> {
            &&& granted.contains_key(name) <==> exists|j: int|
                0 <= j < pairs.len() && (#[trigger] pairs[j]).0 == name
            &&& 0 <= i < pairs.len() ==> granted.contains_key(pairs[i].0) && granted[pairs[i].0]
                == pairs[i].1
        },
        selected_permissions(Some(pairs), scopes) matches Err(error) ==> {
            &&& pairs.len() == 0 ==> error is BadRequest
            &&& pairs.len() > 0 ==> error is Unauthorized
        },
{
    map_of_sorted(pairs);
    let check = |s: int| excess_problem(pairs, scopes[s].permissions);
    no_problem(check, 0, scopes.len() as int);
    assert forall|s: int| 0 <= s < scopes.len() implies (#[trigger] check(s) is None <==> (
    scopes[s].permissions == Map::<Seq<char>, Seq<char>>::empty() || forall|j: int|
        0 <= j < pairs.len() ==> scopes[s].permissions.contains_key((#[trigger] pairs[j]).0)
            && level_at_most(pairs[j].1, scopes[s].permissions[pairs[j].0]))) by {
        nothing_exceeds(pairs, scopes[s].permissions);
    }
    if selected_permissions(Some(pairs), scopes) is Ok {
        assert forall|s: int, j: int|
            0 <= s < scopes.len() && 0 <= j < pairs.len() && (#[trigger] scopes[s]).permissions
                != Map::<Seq<char>, Seq<char>>::empty() implies scopes[s].permissions.contains_key(
            (#[trigger] pairs[j]).0,
        ) && level_at_most(pairs[j].1, scopes[s].permissions[pairs[j].0]) by {
            assert(check(s) is None);
        }
    } else if pairs.len() > 0 && forall|s: int, j: int|
        0 <= s < scopes.len() && 0 <= j < pairs.len() && (#[trigger] scopes[s]).permissions
            != Map::<Seq<char>, Seq<char>>::empty() ==> scopes[s].permissions.contains_key(
            (#[trigger] pairs[j]).0,
        ) && level_at_most(pairs[j].1, scopes[s].permissions[pairs[j].0]) {
        assert forall|s: int| 0 <= s < scopes.len() implies #[trigger] check(s) is None by {
            if scopes[s].permissions != Map::<Seq<char>, Seq<char>>::empty() {
                assert forall|j: int|
                    0 <= j < pairs.len() implies scopes[s].permissions.contains_key(
                    (#[trigger] pairs[j]).0,
                ) && level_at_most(pairs[j].1, scopes[s].permissions[pairs[j].0]) by {}
            }
        }
    }
}

proof fn first_restriction(scopes: Seq<ScopeView>)
    ensures
        match first_restricted(scopes) {
            Some(first) => exists|i: int|
                0 <= i < scopes.len() && is_restricted(scopes[i]) && (
                #[trigger] scopes[i]).permissions == first,
            None => forall|i: int| 0 <= i < scopes.len() ==> !is_restricted(#[trigger] scopes[i]),
        },
    decreases scopes.len(),
{
    if scopes.len() > 0 {
        let rest = scopes.skip(1);
        first_restriction(rest);
        if is_restricted(scopes[0]) {
            assert(scopes[0].permissions == first_restricted(scopes)->Some_0);
        } else {
            match first_restricted(rest) {
                Some(first) => {
                    let i = choose|i: int|
                        0 <= i < rest.len() && is_restricted(rest[i]) && (
                        #[trigger] rest[i]).permissions == first;
                    assert(scopes[i + 1] == rest[i]);
                },
                None => {
                    assert forall|i: int| 0 <= i < scopes.len() implies !is_restricted(
                        #[trigger] scopes[i],
                    ) by {
                        if i > 0 {
                            assert(rest[i - 1] == scopes[i]);
                        }
                    }
                },
            }
        }
    }
}

/// Where no permissions are asked for, the token gets those that the policies
/// of its repositories name, which must be the same wherever a policy names
/// some; where none does it is not restricted. Where two policies name different
/// ones the request is bad.
pub proof fn unrequested_permissions_are_those_of_the_policies(
    scopes: Seq<ScopeView>,
    i: int,
    j: int,
)
    ensures
        (forall|s: int|
            0 <= s < scopes.len() ==> (#[trigger] scopes[s]).permissions == Map::<
                Seq<char>,
                Seq<char>,
            >::empty()) ==> selected_permissions(None, scopes) == Ok::<
            Map<Seq<char>, Seq<char>>,
            AppErrorView,
        >(Map::empty()),
        (0 <= i < scopes.len() && scopes[i].permissions != Map::<Seq<char>, Seq<char>>::empty()
            && forall|s: int|
            0 <= s < scopes.len() ==> (#[trigger] scopes[s]).permissions == Map::<
                Seq<char>,
                Seq<char>,
            >::empty() || scopes[s].permissions == scopes[i].permissions) ==> selected_permissions(
            None,
            scopes,
        ) == Ok::<Map<Seq<char>, Seq<char>>, AppErrorView>(scopes[i].permissions),
        (0 <= i < scopes.len() && 0 <= j < scopes.len() && scopes[i].permissions != Map::<
            Seq<char>,
            Seq<char>,
        >::empty() && scopes[j].permissions != Map::<Seq<char>, Seq<char>>::empty()
            && scopes[i].permissions != scopes[j].permissions) ==> (selected_permissions(
            None,
            scopes,
        ) matches Err(error) && error is BadRequest),
{
    first_restriction(scopes);
    if 0 <= i < scopes.len() && scopes[i].permissions != Map::<Seq<char>, Seq<char>>::empty() {
        assert(is_restricted(scopes[i]));
    }
    if 0 <= j < scopes.len() && scopes[j].permissions != Map::<Seq<char>, Seq<char>>::empty() {
        assert(is_restricted(scopes[j]));
    }
}

/// A request for several repositories of one owner is granted for exactly
/// those, each under that owner and in the order of the request, each of them
/// authorized by itself for the GitHub App of the requested name, and with the
/// permissions that were asked for where any were. A list that is not in order
/// is a bad request.
pub proof fn several_repositories_are_granted_whole(
    state: AppState,
    app_name: Seq<char>,
    owner: Seq<char>,
    names: Seq<Seq<char>>,
    requested: Option<Seq<(Seq<char>, Seq<char>)>>,
    authorization: Option<Seq<u8>>,
    outcome: Result<(Seq<Seq<char>>, Map<Seq<char>, Seq<char>>), AppErrorView>,
    i: int,
    j: int,
)
    requires
        requested matches Some(pairs) ==> sorted_by_key(pairs),
        state.grants_repositories(
            app_name,
            owner,
            names,
            requested,
            authorization,
            outcome,
        ),
    ensures
        outcome matches Ok((repositories, permissions)) ==> {
            &&& repositories.len() == names.len()
            &&& 1 <= names.len() <= 500
            &&& 0 <= i < names.len() ==> {
                &&& repositories[i] == owner + "/"@ + names[i]
                &&& !names[i].contains('/')
                &&& exists|app: GithubAppConfig, token: Option<Seq<char>>, scope: ScopeView|
                    {
                        &&& app.name@ == app_name
                        &&& state.github_apps@.contains(app)
                        &&& #[trigger] state.authorizes(
                            app,
                            owner + "/"@ + names[i],
                            token,
                            Ok(scope),
                        )
                        &&& (requested is None && scope.permissions != Map::<
                            Seq<char>,
                            Seq<char>,
                        >::empty()) ==> permissions == scope.permissions
                    }
            }
            &&& requested matches Some(pairs) ==> {
                &&& 0 <= j < pairs.len() ==> permissions.contains_key(pairs[j].0)
                    && permissions[pairs[j].0] == pairs[j].1
                &&& forall|name: Seq<char>| #[trigger]
                    permissions.contains_key(name) ==> exists|k: int|
                        0 <= k < pairs.len() && (#[trigger] pairs[k]).0 == name
            }
        },
        (names.len() == 0 || names.len() > 500 || exists|k: int|
            0 <= k < names.len() && (#[trigger] names[k]).contains('/')) ==> (
        outcome matches Err(error) && error is BadRequest),
{
    lists_of_repositories_in_order(names);
    apps_are_found_by_exact_name(state.github_apps@, app_name, 0);
    if let Ok((repositories, permissions)) = outcome {
        let token = state.workload_token(authorization)->Ok_0;
        let app = crate::validation::first_app(state.github_apps@, app_name)->Some_0;
        let all = owned(owner, names);
        let decisions = choose|decisions: Seq<Result<ScopeView, AppErrorView>>|
            {
                &&& #[trigger] state.are_decisions(app, all, token, decisions)
                &&& outcome == decided(all, requested, decisions)
            };
        let scopes = granted_scopes(decisions);
        if 0 <= i < names.len() {
            assert(decisions.len() == all.len());
            assert(decisions[i] is Ok) by {
                if i == decisions.len() - 1 {
                    assert(decisions.last() == decisions[i]);
                }
            }
            let scope = decisions[i]->Ok_0;
            assert(scopes[i] == scope);
            assert(decisions[i] == Ok::<ScopeView, AppErrorView>(scope));
            assert(all[i] == owner + "/"@ + names[i]);
            assert(state.authorizes(app, all[i], token, decisions[i]));
            if requested is None && scope.permissions != Map::<Seq<char>, Seq<char>>::empty() {
                assert(is_restricted(scopes[i]));
                first_restriction(scopes);
            }
            assert(state.authorizes(app, owner + "/"@ + names[i], token, Ok(scope)));
        }
        if let Some(pairs) = requested {
            requested_permissions_are_granted_whole(pairs, scopes, Seq::empty(), j);
            assert forall|name: Seq<char>| #[trigger]
                permissions.contains_key(name) implies exists|k: int|
                0 <= k < pairs.len() && (#[trigger] pairs[k]).0 == name by {
                requested_permissions_are_granted_whole(pairs, scopes, name, j);
            }
        }
    } else if names.len() > 0 && names.len() <= 500 {
        if exists|k: int| 0 <= k < names.len() && (#[trigger] names[k]).contains('/') {
            assert(repository_names_problem(names) is Some);
        }
    }
}

/// What is wrong with a list of repositories is told by its first fault: that
/// it is empty or too long, or the first name that has an owner or came before.
pub proof fn faults_of_lists_name_the_repository(names: Seq<Seq<char>>, i: int)
    ensures
        names.len() == 0 ==> repository_names_problem(names) == Some(
            "repositories must contain at least one repository"@,
        ),
        names.len() > 500 ==> repository_names_problem(names) == Some(
            "repositories must contain no more than 500 repositories"@,
        ),
        ({
            &&& 0 < names.len() <= 500
            &&& 0 <= i < names.len()
            &&& forall|k: int|
                0 <= k < i ==> (#[trigger] names[k]).len() > 0 && !names[k].contains('/')
            &&& forall|k: int, m: int|
                0 <= k < m < i ==> #[trigger] names[k] != #[trigger] names[m]
        }) ==> {
            &&& names[i].len() == 0 || names[i].contains('/') ==> repository_names_problem(names)
                == Some(
                "repository '"@ + names[i] + "' must be a repository name without an owner"@,
            )
            &&& names[i].len() > 0 && !names[i].contains('/') && (exists|k: int|
                0 <= k < i && #[trigger] names[k] == names[i]) ==> repository_names_problem(names)
                == Some("repository '"@ + names[i] + "' is listed more than once"@)
        },
{
    let check = |j: int| repository_name_problem(names, j);
    if 0 < names.len() <= 500 && 0 <= i < names.len() && (forall|k: int|
        0 <= k < i ==> (#[trigger] names[k]).len() > 0 && !names[k].contains('/')) && (forall|
        k: int,
        m: int,
    |
        0 <= k < m < i ==> #[trigger] names[k] != #[trigger] names[m]) {
        assert forall|j: int| 0 <= j < i implies #[trigger] check(j) is None by {
            assert(names[j].len() > 0);
            if names.take(j).contains(names[j]) {
                let k = choose|k: int| 0 <= k < names.take(j).len() && names.take(j)[k] == names[j];
                assert(names[k] == names[j]);
            }
        }
        crate::laws::startup::the_first_problem_is_reported(check, 0, names.len() as int, i);
        if exists|k: int| 0 <= k < i && #[trigger] names[k] == names[i] {
            let k = choose|k: int| 0 <= k < i && #[trigger] names[k] == names[i];
            assert(names.take(i)[k] == names[i]);
            assert(names.take(i).contains(names[i]));
        }
    }
}

/// A permission that is asked for in vain is named, with the level that was
/// asked for and the one that is allowed.
pub proof fn excessive_permissions_are_named(
    name: Seq<char>,
    level: Seq<char>,
    allowed: Map<Seq<char>, Seq<char>>,
)
    ensures
        !allowed.contains_key(name) ==> excess((name, level), allowed) == Some(
            "permission '"@ + name + "' is not allowed by every matching installation policy"@,
        ),
        allowed.contains_key(name) && !level_at_most(level, allowed[name]) ==> excess(
            (name, level),
            allowed,
        ) == Some(
            "permission '"@ + name + "' level '"@ + level + "' exceeds allowed level '"@
                + allowed[name] + "'"@,
        ),
        allowed.contains_key(name) && level_at_most(level, allowed[name]) ==> excess(
            (name, level),
            allowed,
        ) is None,
{
}

/// A request for several repositories that is refused, once its names, its
/// token and its GitHub App are in order, is refused because one of the
/// repositories is, with that reason, or because of its permissions, where all of
/// the repositories are granted.
pub proof fn several_repositories_are_refused_for_a_reason(
    state: AppState,
    app: GithubAppConfig,
    repositories: Seq<Seq<char>>,
    token: Option<Seq<char>>,
    requested: Option<Seq<(Seq<char>, Seq<char>)>>,
    error: AppErrorView,
)
    requires
        state.grants_after(app, repositories, token, requested, Err(error)),
    ensures
        ({
            ||| exists|i: int|
                0 <= i < repositories.len() && state.authorizes(
                    app,
                    #[trigger] repositories[i],
                    token,
                    Err(error),
                )
            ||| exists|scopes: Seq<ScopeView>|
                {
                    &&& scopes.len() == repositories.len()
                    &&& forall|i: int|
                        0 <= i < scopes.len() ==> state.authorizes(
                            app,
                            repositories[i],
                            token,
                            Ok(#[trigger] scopes[i]),
                        )
                    &&& #[trigger] selected_permissions(requested, scopes) == Err::<
                        Map<Seq<char>, Seq<char>>,
                        AppErrorView,
                    >(error)
                }
        }),
{
    let outcome = Err::<(Seq<Seq<char>>, Map<Seq<char>, Seq<char>>), AppErrorView>(error);
    let decisions = choose|decisions: Seq<Result<ScopeView, AppErrorView>>|
        {
            &&& #[trigger] state.are_decisions(app, repositories, token, decisions)
            &&& outcome == decided(repositories, requested, decisions)
        };
    if decisions.len() > 0 && decisions.last() is Err {
        let n = decisions.len() - 1;
        assert(decisions[n] == decisions.last());
        assert(state.authorizes(app, repositories[n], token, decisions[n]));
        assert(decisions[n] == Err::<ScopeView, AppErrorView>(error));
    } else {
        let scopes = granted_scopes(decisions);
        assert forall|i: int| 0 <= i < scopes.len() implies state.authorizes(
            app,
            repositories[i],
            token,
            Ok(#[trigger] scopes[i]),
        ) by {
            assert(decisions[i] is Ok) by {
                if i == decisions.len() - 1 {
                    assert(decisions[i] == decisions.last());
                }
            }
            assert(state.authorizes(app, repositories[i], token, decisions[i]));
            assert(decisions[i] == Ok::<ScopeView, AppErrorView>(scopes[i]));
        }
        assert(selected_permissions(requested, scopes) == Err::<
            Map<Seq<char>, Seq<char>>,
            AppErrorView,
        >(error));
    }
}

/// A request for several repositories whose names, token and GitHub App are in
/// order is decided repository by repository, for the owner's repositories of
/// those names.
pub proof fn several_repositories_are_decided_one_by_one(
    state: AppState,
    app_name: Seq<char>,
    owner: Seq<char>,
    names: Seq<Seq<char>>,
    requested: Option<Seq<(Seq<char>, Seq<char>)>>,
    authorization: Option<Seq<u8>>,
    outcome: Result<(Seq<Seq<char>>, Map<Seq<char>, Seq<char>>), AppErrorView>,
    a: int,
)
    requires
        state.grants_repositories(
            app_name,
            owner,
            names,
            requested,
            authorization,
            outcome,
        ),
        1 <= names.len() <= 500,
        forall|i: int|
            0 <= i < names.len() ==> (#[trigger] names[i]).len() > 0 && !names[i].contains('/'),
        forall|i: int, j: int|
            0 <= i < j < names.len() ==> #[trigger] names[i] != #[trigger] names[j],
        crate::access::bearer_token_of(authorization) is Ok,
        0 <= a < state.github_apps@.len(),
        state.github_apps@[a].name@ == app_name,
        forall|k: int| 0 <= k < a ==> (#[trigger] state.github_apps@[k]).name@ != app_name,
    ensures
        exists|repositories: Seq<Seq<char>>|
            {
                &&& repositories.len() == names.len()
                &&& forall|i: int|
                    0 <= i < names.len() ==> #[trigger] repositories[i] == owner + "/"@ + names[i]
                &&& #[trigger] state.grants_after(
                    state.github_apps@[a],
                    repositories,
                    Some(crate::access::bearer_token_of(authorization)->Ok_0),
                    requested,
                    outcome,
                )
            },
{
    lists_of_repositories_in_order(names);
    apps_are_found_by_exact_name(state.github_apps@, app_name, a);
    let repositories = owned(owner, names);
    assert forall|i: int| 0 <= i < names.len() implies #[trigger] repositories[i] == owner + "/"@
        + names[i] by {}
    assert(state.grants_after(
        state.github_apps@[a],
        repositories,
        Some(crate::access::bearer_token_of(authorization)->Ok_0),
        requested,
        outcome,
    ));
}

} // verus!
