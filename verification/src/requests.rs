//! What requests for tokens ask for, and what they are answered.
use crate::checks::first_problem;
use crate::error::{AppError, AppErrorView};
use crate::service::{outcome_view, ScopeView, TokenScope};
use crate::string_map::{map_of, same_map, Duplicate, StringMap};
use crate::text::{cat3, cat7, contains_char, same, texts};
use vstd::prelude::*;

verus! {

/// How many repositories one token can be asked for.
pub const MAX_TOKEN_REPOSITORIES: usize = 500;

/// What is wrong with the name at a position of a list of repositories.
pub open spec fn repository_name_problem(names: Seq<Seq<char>>, i: int) -> Option<Seq<char>> {
    if names[i].len() == 0 || names[i].contains('/') {
        Some("repository '"@ + names[i] + "' must be a repository name without an owner"@)
    } else if names.take(i).contains(names[i]) {
        Some("repository '"@ + names[i] + "' is listed more than once"@)
    } else {
        None
    }
}

/// What is wrong with the repositories that a token is asked for.
pub open spec fn repository_names_problem(names: Seq<Seq<char>>) -> Option<Seq<char>> {
    if names.len() == 0 {
        Some("repositories must contain at least one repository"@)
    } else if names.len() > MAX_TOKEN_REPOSITORIES {
        Some("repositories must contain no more than 500 repositories"@)
    } else {
        first_problem(|i: int| repository_name_problem(names, i), 0, names.len() as int)
    }
}

fn is_among_first(names: &Vec<String>, n: usize, name: &str) -> (r: bool)
    requires
        n <= names@.len(),
    ensures
        r == texts(names@).take(n as int).contains(name@),
{
    let ghost head = texts(names@).take(n as int);
    let mut i: usize = 0;
    while i < n
        invariant
            i <= n <= names@.len(),
            head == texts(names@).take(n as int),
            forall|j: int| 0 <= j < i ==> head[j] != name@,
        decreases n - i,
    {
        if same(names[i].as_str(), name) {
            assert(head[i as int] == name@);
            return true;
        }
        i = i + 1;
    }
    false
}

/// Refuses a list of repositories that no token can be made for.
pub fn validate_repository_names(repositories: &Vec<String>) -> (r: Result<(), AppError>)
    ensures
        match r {
            Ok(_) => repository_names_problem(texts(repositories@)) is None,
            Err(error) => match repository_names_problem(texts(repositories@)) {
                Some(text) => error@ == AppErrorView::BadRequest(text),
                None => false,
            },
        },
{
    if repositories.len() == 0 {
        return Err(
            AppError::BadRequest("repositories must contain at least one repository".to_owned()),
        );
    }
    if repositories.len() > MAX_TOKEN_REPOSITORIES {
        return Err(
            AppError::BadRequest(
                "repositories must contain no more than 500 repositories".to_owned(),
            ),
        );
    }
    let ghost names = texts(repositories@);
    let ghost check = |i: int| repository_name_problem(names, i);
    let n: usize = repositories.len();
    let mut i: usize = 0;
    while i < n
        invariant
            i <= n,
            n == repositories@.len(),
            0 < n <= MAX_TOKEN_REPOSITORIES,
            names == texts(repositories@),
            check == (|i: int| repository_name_problem(names, i)),
            first_problem(check, 0, n as int) == first_problem(check, i as int, n as int),
        decreases n - i,
    {
        let name = repositories[i].as_str();
        if name.is_empty() || contains_char(name, '/') {
            return Err(
                AppError::BadRequest(
                    cat3("repository '", name, "' must be a repository name without an owner"),
                ),
            );
        }
        if is_among_first(repositories, i, name) {
            return Err(
                AppError::BadRequest(cat3("repository '", name, "' is listed more than once")),
            );
        }
        i = i + 1;
    }
    Ok(())
}

/// The rank of a level of access that GitHub knows.
pub open spec fn level_rank(level: Seq<char>) -> Option<nat> {
    if level == "read"@ {
        Some(1)
    } else if level == "write"@ {
        Some(2)
    } else if level == "admin"@ {
        Some(3)
    } else {
        None
    }
}

/// Whether one level of access is no more than another. A level that is not
/// known is no more than itself alone.
pub open spec fn level_at_most(requested: Seq<char>, allowed: Seq<char>) -> bool {
    match (level_rank(requested), level_rank(allowed)) {
        (Some(a), Some(b)) => a <= b,
        _ => requested == allowed,
    }
}

fn rank(level: &str) -> (r: Option<u8>)
    ensures
        match r {
            Some(n) => level_rank(level@) == Some(n as nat),
            None => level_rank(level@) is None,
        },
{
    if same(level, "read") {
        Some(1)
    } else if same(level, "write") {
        Some(2)
    } else if same(level, "admin") {
        Some(3)
    } else {
        None
    }
}

/// Whether one level of access is no more than another.
pub fn permission_level_is_at_most(requested: &str, allowed: &str) -> (r: bool)
    ensures
        r == level_at_most(requested@, allowed@),
{
    match (rank(requested), rank(allowed)) {
        (Some(a), Some(b)) => a <= b,
        _ => same(requested, allowed),
    }
}

/// Levels of access are ordered: each is no more than itself, of two that are
/// no more than one another each is the other, and the relation carries over.
pub proof fn levels_are_ordered(a: Seq<char>, b: Seq<char>, c: Seq<char>)
    ensures
        level_at_most(a, a),
        level_at_most(a, b) && level_at_most(b, a) ==> a == b,
        level_at_most(a, b) && level_at_most(b, c) ==> level_at_most(a, c),
{
}

/// Why a permission at a level is more than is allowed, where it is.
pub open spec fn excess(
    permission: (Seq<char>, Seq<char>),
    allowed: Map<Seq<char>, Seq<char>>,
) -> Option<Seq<char>> {
    let (name, level) = permission;
    if !allowed.contains_key(name) {
        Some("permission '"@ + name + "' is not allowed by every matching installation policy"@)
    } else if !level_at_most(level, allowed[name]) {
        Some(
            "permission '"@ + name + "' level '"@ + level + "' exceeds allowed level '"@
                + allowed[name] + "'"@,
        )
    } else {
        None
    }
}

/// Why requested permissions are more than is allowed, where they are. To allow
/// no permission by name is to allow all of them.
pub open spec fn excess_problem(
    requested: Seq<(Seq<char>, Seq<char>)>,
    allowed: Map<Seq<char>, Seq<char>>,
) -> Option<Seq<char>> {
    if allowed == Map::<Seq<char>, Seq<char>>::empty() {
        None
    } else {
        first_problem(|i: int| excess(requested[i], allowed), 0, requested.len() as int)
    }
}

/// Refuses permissions that are more than is allowed.
pub fn ensure_permissions_allowed(
    requested: &StringMap<String>,
    allowed: &StringMap<String>,
) -> (r: Result<(), AppError>)
    ensures
        match r {
            Ok(_) => excess_problem(requested.pairs(), allowed@) is None,
            Err(error) => match excess_problem(requested.pairs(), allowed@) {
                Some(text) => error@ == AppErrorView::Unauthorized(text),
                None => false,
            },
        },
{
    if allowed.is_empty() {
        return Ok(());
    }
    let ghost pairs = requested.pairs();
    let ghost limits = allowed@;
    let ghost check = |i: int| excess(pairs[i], limits);
    let n: usize = requested.len();
    let mut i: usize = 0;
    while i < n
        invariant
            i <= n,
            n == pairs.len(),
            pairs == requested.pairs(),
            limits == allowed@,
            limits != Map::<Seq<char>, Seq<char>>::empty(),
            check == (|i: int| excess(pairs[i], limits)),
            first_problem(check, 0, n as int) == first_problem(check, i as int, n as int),
        decreases n - i,
    {
        let name = requested.key_at(i).as_str();
        let level = requested.value_at(i).as_str();
        match allowed.get(name) {
            None => {
                return Err(
                    AppError::Unauthorized(
                        cat3(
                            "permission '",
                            name,
                            "' is not allowed by every matching installation policy",
                        ),
                    ),
                );
            },
            Some(limit) => {
                if !permission_level_is_at_most(level, limit.as_str()) {
                    return Err(
                        AppError::Unauthorized(
                            cat7(
                                "permission '",
                                name,
                                "' level '",
                                level,
                                "' exceeds allowed level '",
                                limit.as_str(),
                                "'",
                            ),
                        ),
                    );
                }
            },
        }
        i = i + 1;
    }
    Ok(())
}

/// The views of a list of scopes.
pub open spec fn scope_views(scopes: Seq<TokenScope>) -> Seq<ScopeView> {
    scopes.map_values(|scope: TokenScope| scope@)
}

/// Whether a scope has permissions of its own.
pub open spec fn is_restricted(scope: ScopeView) -> bool {
    scope.permissions != Map::<Seq<char>, Seq<char>>::empty()
}

/// The permissions of the first scope that has its own.
pub open spec fn first_restricted(scopes: Seq<ScopeView>) -> Option<Map<Seq<char>, Seq<char>>>
    decreases scopes.len(),
{
    if scopes.len() == 0 {
        None
    } else if is_restricted(scopes[0]) {
        Some(scopes[0].permissions)
    } else {
        first_restricted(scopes.skip(1))
    }
}

/// The permissions of a token for several repositories, given what is allowed
/// at each. Permissions that are asked for must be allowed at every one. Where
/// none are asked for, the repositories that restrict them must agree.
pub open spec fn selected_permissions(
    requested: Option<Seq<(Seq<char>, Seq<char>)>>,
    scopes: Seq<ScopeView>,
) -> Result<Map<Seq<char>, Seq<char>>, AppErrorView> {
    match requested {
        Some(pairs) => if pairs.len() == 0 {
            Err(AppErrorView::BadRequest("permissions must not be empty when specified"@))
        } else {
            match first_problem(
                |i: int| excess_problem(pairs, scopes[i].permissions),
                0,
                scopes.len() as int,
            ) {
                Some(text) => Err(AppErrorView::Unauthorized(text)),
                None => Ok(map_of(pairs)),
            }
        },
        None => match first_restricted(scopes) {
            None => Ok(Map::empty()),
            Some(first) => if forall|i: int|
                0 <= i < scopes.len() && is_restricted(#[trigger] scopes[i])
                    ==> scopes[i].permissions == first {
                Ok(first)
            } else {
                Err(
                    AppErrorView::BadRequest(
                        "repositories have different permission policies; specify permissions explicitly"@,
                    ),
                )
            },
        },
    }
}

/// The pairs of optional permissions.
pub open spec fn requested_pairs(requested: Option<StringMap<String>>) -> Option<
    Seq<(Seq<char>, Seq<char>)>,
> {
    match requested {
        Some(map) => Some(map.pairs()),
        None => None,
    }
}

fn select_shared(scopes: &Vec<TokenScope>) -> (r: Result<StringMap<String>, AppError>)
    ensures
        outcome_view(r) == selected_permissions(None, scope_views(scopes@)),
{
    let ghost views = scope_views(scopes@);
    let n: usize = scopes.len();
    let mut i: usize = 0;
    assert(views.skip(0) =~= views);
    while i < n && scopes[i].permissions.is_empty()
        invariant
            i <= n,
            n == scopes@.len(),
            views == scope_views(scopes@),
            forall|j: int| 0 <= j < i ==> !is_restricted(#[trigger] views[j]),
            first_restricted(views) == first_restricted(views.skip(i as int)),
        decreases n - i,
    {
        assert(views.skip(i as int)[0] == views[i as int]);
        assert(views.skip(i as int).skip(1) =~= views.skip(i + 1));
        i = i + 1;
    }
    if i >= n {
        return Ok(StringMap::new());
    }
    let first = &scopes[i].permissions;
    assert(views.skip(i as int)[0] == views[i as int]);
    assert(first_restricted(views) == Some(first@));
    let mut k: usize = i + 1;
    while k < n
        invariant
            i < k <= n,
            n == scopes@.len(),
            views == scope_views(scopes@),
            first@ == views[i as int].permissions,
            first_restricted(views) == Some(first@),
            forall|j: int|
                0 <= j < k && is_restricted(#[trigger] views[j]) ==> views[j].permissions == first@,
        decreases n - k,
    {
        let permissions = &scopes[k].permissions;
        assert(views[k as int].permissions == permissions@);
        if !permissions.is_empty() && !same_map(permissions, first) {
            assert(is_restricted(views[k as int]));
            return Err(
                AppError::BadRequest(
                    "repositories have different permission policies; specify permissions explicitly".to_owned(),
                ),
            );
        }
        k = k + 1;
    }
    Ok(first.duplicate())
}

/// The permissions of a token for several repositories, given what is allowed
/// at each.
pub fn select_multiple_repository_permissions(
    requested: Option<StringMap<String>>,
    scopes: &Vec<TokenScope>,
) -> (r: Result<StringMap<String>, AppError>)
    ensures
        outcome_view(r) == selected_permissions(requested_pairs(requested), scope_views(scopes@)),
{
    let wanted = match requested {
        Some(wanted) => wanted,
        None => {
            return select_shared(scopes);
        },
    };
    let count: usize = wanted.len();
    if count == 0 {
        return Err(
            AppError::BadRequest("permissions must not be empty when specified".to_owned()),
        );
    }
    let ghost pairs = wanted.pairs();
    let ghost views = scope_views(scopes@);
    let ghost check = |i: int| excess_problem(pairs, views[i].permissions);
    let n: usize = scopes.len();
    let mut i: usize = 0;
    while i < n
        invariant
            i <= n,
            n == scopes@.len(),
            pairs == wanted.pairs(),
            requested_pairs(requested) == Some(pairs),
            pairs.len() > 0,
            views == scope_views(scopes@),
            check == (|i: int| excess_problem(pairs, views[i].permissions)),
            first_problem(check, 0, n as int) == first_problem(check, i as int, n as int),
        decreases n - i,
    {
        match ensure_permissions_allowed(&wanted, &scopes[i].permissions) {
            Ok(_) => {},
            Err(error) => {
                return Err(error);
            },
        }
        i = i + 1;
    }
    Ok(wanted)
}

/// A granted token never has more than is allowed at any of its repositories:
/// each of its permissions is at most the one that the repository's policy
/// allows, where the policy restricts them.
pub proof fn selection_stays_within_policies(
    requested: Option<Seq<(Seq<char>, Seq<char>)>>,
    scopes: Seq<ScopeView>,
    i: int,
    permission: Seq<char>,
)
    requires
        requested matches Some(pairs) ==> crate::string_map::sorted_by_key(pairs),
        0 <= i < scopes.len(),
        is_restricted(scopes[i]),
        selected_permissions(requested, scopes) is Ok,
        selected_permissions(requested, scopes)->Ok_0.contains_key(permission),
    ensures
        scopes[i].permissions.contains_key(permission),
        level_at_most(
            selected_permissions(requested, scopes)->Ok_0[permission],
            scopes[i].permissions[permission],
        ),
{
    let granted = selected_permissions(requested, scopes)->Ok_0;
    match requested {
        Some(pairs) => {
            let check = |i: int| excess_problem(pairs, scopes[i].permissions);
            crate::checks::no_problem(check, 0, scopes.len() as int);
            assert(check(i) is None);
            let allowed = scopes[i].permissions;
            let inner = |j: int| excess(pairs[j], allowed);
            crate::checks::no_problem(inner, 0, pairs.len() as int);
            crate::string_map::map_of_sorted(pairs);
            let j = choose|j: int| 0 <= j < pairs.len() && #[trigger] pairs[j].0 == permission;
            assert(inner(j) is None);
        },
        None => {
            first_restricted_exists(scopes, i);
            levels_are_ordered(granted[permission], granted[permission], granted[permission]);
        },
    }
}

proof fn first_restricted_exists(scopes: Seq<ScopeView>, i: int)
    requires
        0 <= i < scopes.len(),
        is_restricted(scopes[i]),
    ensures
        first_restricted(scopes) is Some,
    decreases scopes.len(),
{
    if !is_restricted(scopes[0]) {
        assert(scopes.skip(1)[i - 1] == scopes[i]);
        first_restricted_exists(scopes.skip(1), i - 1);
    }
}

} // verus!
