//! Which configurations the broker starts with, over their fields.
use crate::checks::{first_problem, no_problem, reports, ConfigError};
use crate::config::{valid_repo_pattern, Config, KeySource};
use crate::human_validation::{human_claim_problem, human_permission_problem, is_owner_and_name};
use crate::laws::texts::the_last_pair_counts;
use crate::laws::workloads::apps_are_found_by_exact_name;
use crate::roles::{listed_role_problem, role_views, roles_problem, RequirementView, RoleView};
use crate::text::{has_part, split_at_first_index, split_at_first_parts, texts, white_space};
use crate::validation::{app_is_reachable, first_app, has_app, policy_claim_problem};
use vstd::prelude::*;

verus! {

/// A list of checks reports its first problem, and none only where no check has
/// one.
pub proof fn the_first_problem_is_reported(
    problem: spec_fn(int) -> Option<Seq<char>>,
    from: int,
    n: int,
    i: int,
)
    ensures
        first_problem(problem, from, n) is None <==> forall|k: int|
            from <= k < n ==> #[trigger] problem(k) is None,
        from <= i < n && problem(i) is Some && (forall|k: int|
            from <= k < i ==> #[trigger] problem(k) is None) ==> first_problem(problem, from, n)
            == problem(i),
    decreases n - from,
{
    no_problem(problem, from, n);
    if from < n {
        if from < i {
            if problem(from) is None {
                the_first_problem_is_reported(problem, from + 1, n, i);
            }
        }
    }
}

/// A check succeeds exactly where there is no problem, and otherwise fails with
/// the text of the problem.
pub proof fn problems_are_reported(
    outcome: Result<(), ConfigError>,
    problem: Option<Seq<char>>,
)
    requires
        reports(outcome, problem),
    ensures
        outcome is Ok <==> problem is None,
        outcome matches Err(error) ==> problem == Some(error.message@),
{
}

/// A requirement is in order where it accepts some text, and not the empty one.
pub proof fn requirements_accept_something(
    requirement: RequirementView,
    role: Seq<char>,
    claim: Seq<char>,
)
    ensures
        requirement.problem(role, claim) is None <==> {
            &&& exists|text: Seq<char>| #[trigger] requirement.accepts(Some(text))
            &&& !requirement.accepts(Some(Seq::empty()))
        },
{
    let list = requirement.acceptable();
    if list.len() > 0 {
        assert(list.contains(list[0]));
        assert(requirement.accepts(Some(list[0])));
    }
    if exists|text: Seq<char>| #[trigger] requirement.accepts(Some(text)) {
        let text = choose|text: Seq<char>| #[trigger] requirement.accepts(Some(text));
        assert(list.contains(text));
    }
}

/// The roles of a configuration are in order exactly where each has a name, an
/// audience, an issuer, an algorithm and no empty key, each claim that it
/// requires has a name and accepts something, and no two have one name.
pub proof fn roles_in_order(roles: Seq<RoleView>)
    ensures
        roles_problem(roles) is None <==> {
            &&& forall|i: int|
                0 <= i < roles.len() ==> (#[trigger] roles[i]).name.len() > 0
                    && roles[i].audience.len() > 0 && roles[i].issuer.len() > 0
                    && roles[i].validation_key != Some(Seq::<char>::empty())
                    && roles[i].algorithms.len() > 0
            &&& forall|i: int, k: int|
                0 <= i < roles.len() && 0 <= k < roles[i].claims.len() ==> (
                #[trigger] roles[i].claims[k]).0.len() > 0 && roles[i].claims[k].1.problem(
                    roles[i].name,
                    roles[i].claims[k].0,
                ) is None
            &&& forall|i: int, j: int|
                0 <= i < j < roles.len() ==> (#[trigger] roles[i]).name != (
                #[trigger] roles[j]).name
        },
{
    let check = |i: int| listed_role_problem(roles, i);
    no_problem(check, 0, roles.len() as int);
    if roles_problem(roles) is None {
        assert forall|i: int| 0 <= i < roles.len() implies (#[trigger] roles[i]).name.len() > 0
            && roles[i].audience.len() > 0 && roles[i].issuer.len() > 0 && roles[i].validation_key
            != Some(Seq::<char>::empty()) && roles[i].algorithms.len() > 0 by {
            assert(check(i) is None);
        }
        assert forall|i: int, k: int|
            0 <= i < roles.len() && 0 <= k < roles[i].claims.len() implies (
        #[trigger] roles[i].claims[k]).0.len() > 0 && roles[i].claims[k].1.problem(
            roles[i].name,
            roles[i].claims[k].0,
        ) is None by {
            assert(check(i) is None);
            let role = roles[i];
            let inner = |j: int| role.claim_problem(j);
            no_problem(inner, 0, role.claims.len() as int);
            assert(inner(k) is None);
        }
        assert forall|i: int, j: int| 0 <= i < j < roles.len() implies (#[trigger] roles[i]).name
            != (#[trigger] roles[j]).name by {
            assert(check(j) is None);
        }
    }
    if (forall|i: int|
        0 <= i < roles.len() ==> (#[trigger] roles[i]).name.len() > 0 && roles[i].audience.len() > 0
            && roles[i].issuer.len() > 0 && roles[i].validation_key != Some(Seq::<char>::empty())
            && roles[i].algorithms.len() > 0) && (forall|i: int, k: int|
        0 <= i < roles.len() && 0 <= k < roles[i].claims.len() ==> (
        #[trigger] roles[i].claims[k]).0.len() > 0 && roles[i].claims[k].1.problem(
            roles[i].name,
            roles[i].claims[k].0,
        ) is None) && (forall|i: int, j: int|
        0 <= i < j < roles.len() ==> (#[trigger] roles[i]).name != (#[trigger] roles[j]).name) {
        assert forall|i: int| 0 <= i < roles.len() implies #[trigger] check(i) is None by {
            let role = roles[i];
            assert(role.name.len() > 0);
            let inner = |j: int| role.claim_problem(j);
            no_problem(inner, 0, role.claims.len() as int);
            assert forall|k: int| 0 <= k < role.claims.len() implies #[trigger] inner(
                k,
            ) is None by {
                assert(roles[i].claims[k].0.len() > 0);
            }
            assert(role.problem() is None);
        }
    }
}

/// The roles of a configuration are known by their names, and by no others.
pub proof fn roles_are_named(config: Config, name: Seq<char>)
    ensures
        config.named_roles().contains_key(name) <==> exists|r: int|
            0 <= r < config.roles@.len() && (#[trigger] config.roles@[r]).name@ == name,
{
    let views = role_views(config.roles@);
    let named = views.map_values(|role: RoleView| (role.name, role));
    the_last_pair_counts(named, name, 0);
    if config.named_roles().contains_key(name) {
        let k = choose|k: int| 0 <= k < named.len() && (#[trigger] named[k]).0 == name;
        assert(config.roles@[k].name@ == name);
    }
    if exists|r: int| 0 <= r < config.roles@.len() && (#[trigger] config.roles@[r]).name@ == name {
        let r = choose|r: int|
            0 <= r < config.roles@.len() && (#[trigger] config.roles@[r]).name@ == name;
        assert(named[r].0 == name);
    }
}

/// Each role of a configuration in order is found by its name, as it is.
pub proof fn role_is_found(config: Config, r: int)
    requires
        roles_problem(role_views(config.roles@)) is None,
        0 <= r < config.roles@.len(),
    ensures
        config.named_roles()[config.roles@[r].name@] == config.roles@[r]@,
        config.named_roles()[config.roles@[r].name@].required() == config.roles@[r].claims@,
{
    let views = role_views(config.roles@);
    roles_in_order(views);
    let named = views.map_values(|role: RoleView| (role.name, role));
    let name = config.roles@[r].name@;
    assert(named[r] == (views[r].name, views[r]));
    assert forall|k: int| r < k < named.len() implies (#[trigger] named[k]).0 != name by {
        assert(views[r].name != views[k].name);
    }
    the_last_pair_counts(named, name, r);
}

/// The server part of a configuration that the broker starts with: an address
/// to listen at, certificate files that are named, a directory or a service for
/// the private keys, and a NATS server, properly described, where any GitHub App
/// publishes to one. There is a GitHub App and, unless authorization is switched
/// off, a role of some kind.
pub proof fn served_configurations_describe_the_server(
    config: Config,
    disable_auth: bool,
    kms_supported: bool,
    i: int,
)
    requires
        config.problem(disable_auth, kms_supported) is None,
    ensures
        config.bind_address@.len() > 0,
        config.tls matches Some(tls) ==> tls.certificate_file@.len() > 0
            && tls.private_key_file@.len() > 0,
        config.key_source == KeySource::Local ==> config.private_key_directory@.len() > 0,
        config.key_source == KeySource::Kms ==> kms_supported,
        0 <= i < config.github_apps@.len() && config.github_apps@[i].webhook_target is Some
            ==> config.nats is Some,
        config.nats matches Some(nats) ==> {
            &&& nats.endpoint@.len() > 0
            &&& nats.subject_base@.len() > 0
            &&& forall|k: int|
                0 <= k < nats.subject_base@.len() ==> !white_space(
                    #[trigger] nats.subject_base@[k],
                )
            &&& nats.token_path matches Some(path) ==> path@.len() > 0
        },
        disable_auth || config.roles@.len() > 0 || config.human_roles@.len() > 0,
        config.github_apps@.len() > 0,
        roles_problem(role_views(config.roles@)) is None,
{
    if let Some(nats) = config.nats {
        if let Some(path) = nats.token_path {
            if path@.len() == 0 {
                assert(path@ =~= Seq::<char>::empty());
            }
        }
    }
}

/// Every GitHub App of a configuration that the broker starts with has a name
/// of its own without a slash, an id and a key. A key in a file is a name below
/// the directory of keys. Unless authorization is switched off, the roles that
/// the GitHub App allows are configured, and someone can get at it.
pub proof fn served_apps_are_complete(
    config: Config,
    disable_auth: bool,
    kms_supported: bool,
    i: int,
    j: int,
)
    requires
        config.problem(disable_auth, kms_supported) is None,
        0 <= i < config.github_apps@.len(),
    ensures
        ({
            let app = config.github_apps@[i];
            &&& app.name@.len() > 0
            &&& !app.name@.contains('/')
            &&& app.app_id > 0
            &&& app.secret_key@.len() > 0
            &&& config.key_source == KeySource::Local ==> app.secret_key@[0] != '/' && !has_part(
                app.secret_key@,
                ".."@,
            )
            &&& app.webhook_validation_secret_file matches Some(file) ==> file@.len() > 0
            &&& 0 <= j < config.github_apps@.len() && j != i ==> config.github_apps@[j].name@
                != app.name@
            &&& !disable_auth && 0 <= j < app.allowed_roles@.len() ==> app.allowed_roles@[j]@.len()
                > 0 && exists|r: int|
                0 <= r < config.roles@.len() && (#[trigger] config.roles@[r]).name@
                    == app.allowed_roles@[j]@
            &&& !disable_auth ==> {
                ||| app.allowed_roles@.len() > 0
                ||| exists|k: int|
                    0 <= k < config.installation_policies@.len() && (
                    #[trigger] config.installation_policies@[k]).github_app@ == app.name@
                ||| exists|k: int|
                    0 <= k < config.human_policies@.len() && (
                    #[trigger] config.human_policies@[k]).github_app@ == app.name@
            }
        }),
{
    let n = config.github_apps@.len() as int;
    let app = config.github_apps@[i];
    let check = |k: int| config.app_problem(k, disable_auth);
    no_problem(check, 0, n);
    assert(check(i) is None);
    crate::laws::texts::double_dots_are_parts(app.secret_key@);
    if let Some(file) = app.webhook_validation_secret_file {
        if file@.len() == 0 {
            assert(file@ =~= Seq::<char>::empty());
        }
    }
    if 0 <= j < n && j != i {
        if j < i {
            assert(config.github_apps@.take(i)[j] == config.github_apps@[j]);
        } else {
            assert(check(j) is None);
            assert(config.github_apps@.take(j)[i] == config.github_apps@[i]);
        }
    }
    if !disable_auth {
        let names = texts(app.allowed_roles@);
        let roles = config.named_roles();
        let unknown = |k: int|
            if roles.contains_key(names[k]) {
                None
            } else {
                Some("unknown role '"@ + names[k] + "'"@)
            };
        no_problem(unknown, 0, names.len() as int);
        if 0 <= j < names.len() {
            assert(names[j] == app.allowed_roles@[j]@);
            assert(unknown(j) is None);
            roles_are_named(config, names[j]);
            if names[j].len() == 0 {
                assert(names[j] =~= Seq::<char>::empty());
                assert(names.contains(names[j]));
            }
        }
        let reach = |k: int| config.unreachable_app_problem(k);
        no_problem(reach, 0, n);
        assert(reach(i) is None);
    }
}

/// A pattern of repositories is `*` or an owner and a name, neither of them
/// empty, with one slash between them.
pub proof fn patterns_have_an_owner_and_a_name(
    pattern: Seq<char>,
    owner: Seq<char>,
    name: Seq<char>,
)
    ensures
        valid_repo_pattern("*"@),
        owner.len() > 0 && name.len() > 0 && !owner.contains('/') && !name.contains('/')
            ==> valid_repo_pattern(owner + "/"@ + name) && is_owner_and_name(
            owner + "/"@ + name,
        ),
        valid_repo_pattern(pattern) && pattern != "*"@ ==> is_owner_and_name(pattern),
        is_owner_and_name(pattern) ==> exists|k: int|
            {
                &&& 0 < k < pattern.len() - 1
                &&& pattern[k] == '/'
                &&& forall|m: int| 0 <= m < pattern.len() && m != k ==> #[trigger] pattern[m] != '/'
            },
{
    reveal_strlit("/");
    if owner.len() > 0 && name.len() > 0 && !owner.contains('/') && !name.contains('/') {
        let whole = owner + "/"@ + name;
        let n = owner.len() as int;
        assert(whole[n] == '/');
        assert forall|j: int| 0 <= j < n implies whole[j] != '/' by {
            assert(whole[j] == owner[j]);
            assert(owner.contains(owner[j]));
        }
        split_at_first_index(whole, '/', n);
        assert(whole.take(n) =~= owner);
        assert(whole.skip(n + 1) =~= name);
    }
    if is_owner_and_name(pattern) {
        split_at_first_parts(pattern, '/');
        let (before, after) = crate::text::split_at_first(pattern, '/')->Some_0;
        let k = before.len() as int;
        assert(pattern == before + seq!['/'] + after);
        assert(pattern[k] == '/');
        assert forall|m: int| 0 <= m < pattern.len() && m != k implies #[trigger] pattern[m]
            != '/' by {
            if m < k {
                assert(pattern[m] == before[m]);
                assert(before.contains(before[m]));
            } else {
                assert(pattern[m] == after[m - k - 1]);
                assert(after.contains(after[m - k - 1]));
            }
        }
    }
}

/// Every installation policy of a configuration that the broker starts with is
/// for a configured GitHub App, patterns of repositories in order and a
/// configured role. It narrows the role: it requires a claim or allows
/// self-access. What it requires has a name, accepts something, and is not among
/// what the role requires; and where it allows self-access, neither of them
/// requires the repository.
pub proof fn served_policies_narrow_their_role(
    config: Config,
    kms_supported: bool,
    i: int,
    k: int,
    r: int,
)
    requires
        config.problem(false, kms_supported) is None,
        0 <= i < config.installation_policies@.len(),
    ensures
        ({
            let policy = config.installation_policies@[i];
            let claims = policy.required_claims.pairs();
            &&& policy.github_app@.len() > 0
            &&& exists|a: int|
                0 <= a < config.github_apps@.len() && (#[trigger] config.github_apps@[a]).name@
                    == policy.github_app@
            &&& policy.repositories@.len() > 0
            &&& 0 <= k < policy.repositories@.len() ==> valid_repo_pattern(
                policy.repositories@[k]@,
            )
            &&& policy.role@.len() > 0
            &&& exists|m: int|
                0 <= m < config.roles@.len() && (#[trigger] config.roles@[m]).name@ == policy.role@
            &&& claims.len() > 0 || policy.allow_self_access
            &&& 0 <= k < claims.len() ==> claims[k].0.len() > 0 && claims[k].1.problem(
                policy.role@,
                claims[k].0,
            ) is None
            &&& 0 <= r < config.roles@.len() && config.roles@[r].name@ == policy.role@ ==> {
                &&& 0 <= k < claims.len() ==> !config.roles@[r].claims@.contains_key(claims[k].0)
                &&& policy.allow_self_access ==> !config.roles@[r].claims@.contains_key(
                    "repository"@,
                )
            }
            &&& policy.allow_self_access ==> !policy.required_claims@.contains_key("repository"@)
        }),
{
    let policy = config.installation_policies@[i];
    let check = |m: int| config.policy_problem(m);
    no_problem(check, 0, config.installation_policies@.len() as int);
    assert(check(i) is None);
    roles_are_named(config, policy.role@);
    let role_claims = config.named_roles()[policy.role@].required();
    let inner = |m: int| policy_claim_problem(policy, role_claims, m);
    no_problem(inner, 0, policy.required_claims.pairs().len() as int);
    if 0 <= k < policy.required_claims.pairs().len() {
        assert(inner(k) is None);
    }
    if 0 <= r < config.roles@.len() && config.roles@[r].name@ == policy.role@ {
        role_is_found(config, r);
    }
    assert(crate::validation::self_access_problem(policy, role_claims) is None);
}

/// Every human role of a configuration that the broker starts with has a name
/// that no other role of either kind has, an issuer, an audience, and an address
/// of keys under https at the path that Teleport serves them from. It asks for
/// one exact Teleport role in a claim that is named, allows an algorithm, and
/// what else it requires has a name, is not the claim of roles, and accepts
/// something.
pub proof fn served_human_roles_are_complete(
    config: Config,
    kms_supported: bool,
    i: int,
    j: int,
    k: int,
)
    requires
        config.problem(false, kms_supported) is None,
        0 <= i < config.human_roles@.len(),
    ensures
        ({
            let role = config.human_roles@[i];
            let claims = role.required_claims.pairs();
            &&& role.name@.len() > 0
            &&& 0 <= j < config.human_roles@.len() && j != i ==> config.human_roles@[j].name@
                != role.name@
            &&& 0 <= j < config.roles@.len() ==> config.roles@[j].name@ != role.name@
            &&& role.issuer@.len() > 0
            &&& role.audience@.len() > 0
            &&& "https://"@.is_prefix_of(role.jwks_url@)
            &&& "/.well-known/jwks.json"@.is_suffix_of(role.jwks_url@)
            &&& role.teleport_role@.len() > 0
            &&& !role.teleport_role@.contains('*')
            &&& !role.teleport_role@.contains('?')
            &&& role.roles_claim@.len() > 0
            &&& role.algorithms@.len() > 0
            &&& role.request_id_claim matches Some(claim) ==> claim@.len() > 0
            &&& 0 <= k < claims.len() ==> claims[k].0.len() > 0 && claims[k].0 != role.roles_claim@
                && claims[k].1.problem(role.name@, claims[k].0) is None
        }),
{
    let role = config.human_roles@[i];
    let n = config.human_roles@.len() as int;
    let check = |m: int| config.human_role_problem(m);
    no_problem(check, 0, n);
    assert(check(i) is None);
    let inner = |m: int| human_claim_problem(role, m);
    no_problem(inner, 0, role.required_claims.pairs().len() as int);
    if 0 <= k < role.required_claims.pairs().len() {
        assert(inner(k) is None);
    }
    if 0 <= j < n && j != i {
        if j < i {
            assert(config.human_roles@.take(i)[j] == config.human_roles@[j]);
        } else {
            assert(check(j) is None);
            assert(config.human_roles@.take(j)[i] == config.human_roles@[i]);
        }
    }
    if 0 <= j < config.roles@.len() {
        roles_are_named(config, role.name@);
    }
    if let Some(claim) = role.request_id_claim {
        if claim@.len() == 0 {
            assert(claim@ =~= Seq::<char>::empty());
        }
    }
}

/// Every human policy of a configuration that the broker starts with is for a
/// configured GitHub App, one exact repository and a configured human role, names
/// a permission, each with a level, is the only one for that GitHub App and
/// repository, and is the only way to the human role: the GitHub App does not
/// allow it.
pub proof fn served_human_policies_are_the_only_way(
    config: Config,
    kms_supported: bool,
    i: int,
    j: int,
    k: int,
)
    requires
        config.problem(false, kms_supported) is None,
        0 <= i < config.human_policies@.len(),
    ensures
        ({
            let policy = config.human_policies@[i];
            let permissions = policy.permissions.pairs();
            &&& exists|a: int|
                0 <= a < config.github_apps@.len() && (#[trigger] config.github_apps@[a]).name@
                    == policy.github_app@
            &&& !policy.repository@.contains('*')
            &&& !policy.repository@.contains('?')
            &&& is_owner_and_name(policy.repository@)
            &&& exists|m: int|
                0 <= m < config.human_roles@.len() && (#[trigger] config.human_roles@[m]).name@
                    == policy.human_role@
            &&& permissions.len() > 0
            &&& 0 <= k < permissions.len() ==> permissions[k].0.len() > 0 && permissions[k].1.len()
                > 0
            &&& 0 <= j < config.human_policies@.len() && j != i ==> !(
            config.human_policies@[j].github_app@ == policy.github_app@
                && config.human_policies@[j].repository@ == policy.repository@)
            &&& 0 <= j < config.github_apps@.len() && config.github_apps@[j].name@
                == policy.github_app@ && 0 <= k < config.github_apps@[j].allowed_roles@.len()
                ==> config.github_apps@[j].allowed_roles@[k]@ != policy.human_role@
        }),
{
    let policy = config.human_policies@[i];
    let n = config.human_policies@.len() as int;
    let check = |m: int| config.human_policy_problem(m);
    no_problem(check, 0, n);
    assert(check(i) is None);
    let inner = |m: int| human_permission_problem(policy, m);
    no_problem(inner, 0, policy.permissions.pairs().len() as int);
    if 0 <= k < policy.permissions.pairs().len() {
        assert(inner(k) is None);
    }
    if 0 <= j < n && j != i {
        if j < i {
            assert(config.human_policies@.take(i)[j] == config.human_policies@[j]);
        } else {
            assert(check(j) is None);
            assert(config.human_policies@.take(j)[i] == config.human_policies@[i]);
        }
    }
    if 0 <= j < config.github_apps@.len() && config.github_apps@[j].name@ == policy.github_app@
        && 0 <= k < config.github_apps@[j].allowed_roles@.len() {
        assert forall|m: int| 0 <= m < j implies (#[trigger] config.github_apps@[m]).name@
            != policy.github_app@ by {
            served_apps_are_complete(config, false, kms_supported, j, m);
        }
        apps_are_found_by_exact_name(config.github_apps@, policy.github_app@, j);
        let allowed = texts(config.github_apps@[j].allowed_roles@);
        assert(allowed[k] == config.github_apps@[j].allowed_roles@[k]@);
        assert(allowed.contains(allowed[k]));
    }
}

/// Nothing but what the laws of this module name keeps the broker from
/// starting where authorization is switched off.
pub proof fn complete_apps_are_served(config: Config, kms_supported: bool)
    requires
        config.bind_address@.len() > 0,
        config.tls matches Some(tls) ==> tls.certificate_file@.len() > 0
            && tls.private_key_file@.len() > 0,
        config.key_source == KeySource::Local ==> config.private_key_directory@.len() > 0,
        config.key_source == KeySource::Kms ==> kms_supported,
        forall|i: int|
            0 <= i < config.github_apps@.len() && (
            #[trigger] config.github_apps@[i]).webhook_target is Some ==> config.nats is Some,
        config.nats matches Some(nats) ==> nats.endpoint@.len() > 0 && nats.subject_base@.len() > 0
            && (forall|k: int|
            0 <= k < nats.subject_base@.len() ==> !white_space(#[trigger] nats.subject_base@[k]))
            && (nats.token_path matches Some(path) ==> path@.len() > 0),
        roles_problem(role_views(config.roles@)) is None,
        config.github_apps@.len() > 0,
        forall|i: int|
            0 <= i < config.github_apps@.len() ==> {
                let app = #[trigger] config.github_apps@[i];
                &&& app.name@.len() > 0
                &&& !app.name@.contains('/')
                &&& app.app_id > 0
                &&& app.secret_key@.len() > 0
                &&& config.key_source == KeySource::Local ==> app.secret_key@[0] != '/'
                    && !has_part(app.secret_key@, ".."@)
                &&& app.webhook_validation_secret_file matches Some(file) ==> file@.len() > 0
            },
        forall|i: int, j: int|
            0 <= i < j < config.github_apps@.len() ==> (#[trigger] config.github_apps@[i]).name@
                != (#[trigger] config.github_apps@[j]).name@,
    ensures
        config.problem(true, kms_supported) is None,
{
    complete_apps_have_no_problem(config, true);
}

proof fn complete_apps_have_no_problem(config: Config, disable_auth: bool)
    requires
        forall|i: int|
            0 <= i < config.github_apps@.len() ==> {
                let app = #[trigger] config.github_apps@[i];
                &&& app.name@.len() > 0
                &&& !app.name@.contains('/')
                &&& app.app_id > 0
                &&& app.secret_key@.len() > 0
                &&& config.key_source == KeySource::Local ==> app.secret_key@[0] != '/'
                    && !has_part(app.secret_key@, ".."@)
                &&& app.webhook_validation_secret_file matches Some(file) ==> file@.len() > 0
            },
        forall|i: int, j: int|
            0 <= i < j < config.github_apps@.len() ==> (#[trigger] config.github_apps@[i]).name@
                != (#[trigger] config.github_apps@[j]).name@,
        !disable_auth ==> forall|i: int, k: int|
            0 <= i < config.github_apps@.len() && 0 <= k
                < config.github_apps@[i].allowed_roles@.len() ==> (
            #[trigger] config.github_apps@[i].allowed_roles@[k])@.len() > 0 && exists|r: int|
                0 <= r < config.roles@.len() && (#[trigger] config.roles@[r]).name@
                    == config.github_apps@[i].allowed_roles@[k]@,
    ensures
        config.apps_problem(disable_auth) is None,
{
    let n = config.github_apps@.len() as int;
    let check = |m: int| config.app_problem(m, disable_auth);
    no_problem(check, 0, n);
    assert forall|m: int| 0 <= m < n implies #[trigger] check(m) is None by {
        let app = config.github_apps@[m];
        assert(app.name@.len() > 0);
        crate::laws::texts::double_dots_are_parts(app.secret_key@);
        let earlier = config.github_apps@.take(m);
        if has_app(earlier, app.name@) {
            let q = choose|q: int| 0 <= q < earlier.len() && (#[trigger] earlier[q]).name@
                == app.name@;
            assert(config.github_apps@[q].name@ == config.github_apps@[m].name@);
        }
        if !disable_auth {
            let names = texts(app.allowed_roles@);
            let roles = config.named_roles();
            let unknown = |k: int|
                if roles.contains_key(names[k]) {
                    None
                } else {
                    Some("unknown role '"@ + names[k] + "'"@)
                };
            no_problem(unknown, 0, names.len() as int);
            assert forall|k: int| 0 <= k < names.len() implies #[trigger] unknown(k) is None by {
                assert(config.github_apps@[m].allowed_roles@[k]@.len() > 0);
                roles_are_named(config, names[k]);
            }
            if names.contains(Seq::<char>::empty()) {
                let k = choose|k: int| 0 <= k < names.len() && names[k] == Seq::<char>::empty();
                assert(config.github_apps@[m].allowed_roles@[k]@.len() > 0);
            }
        }
    }
}

/// Nothing but what the laws of this module name keeps the broker from
/// starting where authorization is switched on.
pub proof fn complete_configurations_are_served(config: Config, kms_supported: bool)
    requires
        config.bind_address@.len() > 0,
        config.tls matches Some(tls) ==> tls.certificate_file@.len() > 0
            && tls.private_key_file@.len() > 0,
        config.key_source == KeySource::Local ==> config.private_key_directory@.len() > 0,
        config.key_source == KeySource::Kms ==> kms_supported,
        forall|i: int|
            0 <= i < config.github_apps@.len() && (
            #[trigger] config.github_apps@[i]).webhook_target is Some ==> config.nats is Some,
        config.nats matches Some(nats) ==> nats.endpoint@.len() > 0 && nats.subject_base@.len() > 0
            && (forall|k: int|
            0 <= k < nats.subject_base@.len() ==> !white_space(#[trigger] nats.subject_base@[k]))
            && (nats.token_path matches Some(path) ==> path@.len() > 0),
        roles_problem(role_views(config.roles@)) is None,
        config.roles@.len() > 0 || config.human_roles@.len() > 0,
        config.github_apps@.len() > 0,
        forall|i: int|
            0 <= i < config.github_apps@.len() ==> {
                let app = #[trigger] config.github_apps@[i];
                &&& app.name@.len() > 0
                &&& !app.name@.contains('/')
                &&& app.app_id > 0
                &&& app.secret_key@.len() > 0
                &&& config.key_source == KeySource::Local ==> app.secret_key@[0] != '/'
                    && !has_part(app.secret_key@, ".."@)
                &&& app.webhook_validation_secret_file matches Some(file) ==> file@.len() > 0
                &&& {
                    ||| app.allowed_roles@.len() > 0
                    ||| exists|k: int|
                        0 <= k < config.installation_policies@.len() && (
                        #[trigger] config.installation_policies@[k]).github_app@ == app.name@
                    ||| exists|k: int|
                        0 <= k < config.human_policies@.len() && (
                        #[trigger] config.human_policies@[k]).github_app@ == app.name@
                }
            },
        forall|i: int, j: int|
            0 <= i < j < config.github_apps@.len() ==> (#[trigger] config.github_apps@[i]).name@
                != (#[trigger] config.github_apps@[j]).name@,
        forall|i: int, k: int|
            0 <= i < config.github_apps@.len() && 0 <= k
                < config.github_apps@[i].allowed_roles@.len() ==> (
            #[trigger] config.github_apps@[i].allowed_roles@[k])@.len() > 0 && exists|r: int|
                0 <= r < config.roles@.len() && (#[trigger] config.roles@[r]).name@
                    == config.github_apps@[i].allowed_roles@[k]@,
        forall|i: int|
            0 <= i < config.installation_policies@.len() ==> {
                let policy = #[trigger] config.installation_policies@[i];
                &&& policy.github_app@.len() > 0
                &&& exists|a: int|
                    0 <= a < config.github_apps@.len() && (#[trigger] config.github_apps@[a]).name@
                        == policy.github_app@
                &&& policy.repositories@.len() > 0
                &&& forall|k: int|
                    0 <= k < policy.repositories@.len() ==> valid_repo_pattern(
                        #[trigger] policy.repositories@[k]@,
                    )
                &&& policy.role@.len() > 0
                &&& exists|r: int|
                    0 <= r < config.roles@.len() && (#[trigger] config.roles@[r]).name@
                        == policy.role@
                &&& policy.required_claims.pairs().len() > 0 || policy.allow_self_access
                &&& forall|k: int|
                    0 <= k < policy.required_claims.pairs().len() ==> (
                    #[trigger] policy.required_claims.pairs()[k]).0.len() > 0
                        && policy.required_claims.pairs()[k].1.problem(
                        policy.role@,
                        policy.required_claims.pairs()[k].0,
                    ) is None
                &&& policy.allow_self_access ==> !policy.required_claims@.contains_key(
                    "repository"@,
                )
            },
        forall|i: int, r: int|
            0 <= i < config.installation_policies@.len() && 0 <= r < config.roles@.len() && (
            #[trigger] config.roles@[r]).name@ == (
            #[trigger] config.installation_policies@[i]).role@ ==> {
                let policy = config.installation_policies@[i];
                &&& policy.allow_self_access ==> !config.roles@[r].claims@.contains_key(
                    "repository"@,
                )
                &&& forall|k: int|
                    0 <= k < policy.required_claims.pairs().len()
                        ==> !config.roles@[r].claims@.contains_key(
                        (#[trigger] policy.required_claims.pairs()[k]).0,
                    )
            },
        forall|i: int|
            0 <= i < config.human_roles@.len() ==> {
                let role = #[trigger] config.human_roles@[i];
                &&& role.name@.len() > 0
                &&& role.issuer@.len() > 0
                &&& role.audience@.len() > 0
                &&& "https://"@.is_prefix_of(role.jwks_url@)
                &&& "/.well-known/jwks.json"@.is_suffix_of(role.jwks_url@)
                &&& role.teleport_role@.len() > 0
                &&& !role.teleport_role@.contains('*')
                &&& !role.teleport_role@.contains('?')
                &&& role.roles_claim@.len() > 0
                &&& role.algorithms@.len() > 0
                &&& role.request_id_claim matches Some(claim) ==> claim@.len() > 0
                &&& forall|k: int|
                    0 <= k < role.required_claims.pairs().len() ==> (
                    #[trigger] role.required_claims.pairs()[k]).0.len() > 0
                        && role.required_claims.pairs()[k].0 != role.roles_claim@
                        && role.required_claims.pairs()[k].1.problem(
                        role.name@,
                        role.required_claims.pairs()[k].0,
                    ) is None
                &&& forall|r: int|
                    0 <= r < config.roles@.len() ==> (#[trigger] config.roles@[r]).name@
                        != role.name@
            },
        forall|i: int, j: int|
            0 <= i < j < config.human_roles@.len() ==> (#[trigger] config.human_roles@[i]).name@
                != (#[trigger] config.human_roles@[j]).name@,
        forall|i: int|
            0 <= i < config.human_policies@.len() ==> {
                let policy = #[trigger] config.human_policies@[i];
                &&& exists|a: int|
                    0 <= a < config.github_apps@.len() && (#[trigger] config.github_apps@[a]).name@
                        == policy.github_app@
                &&& !policy.repository@.contains('*')
                &&& !policy.repository@.contains('?')
                &&& is_owner_and_name(policy.repository@)
                &&& exists|m: int|
                    0 <= m < config.human_roles@.len() && (#[trigger] config.human_roles@[m]).name@
                        == policy.human_role@
                &&& policy.permissions.pairs().len() > 0
                &&& forall|k: int|
                    0 <= k < policy.permissions.pairs().len() ==> (
                    #[trigger] policy.permissions.pairs()[k]).0.len() > 0
                        && policy.permissions.pairs()[k].1.len() > 0
            },
        forall|i: int, j: int|
            0 <= i < j < config.human_policies@.len() && (
            #[trigger] config.human_policies@[i]).github_app@ == (
            #[trigger] config.human_policies@[j]).github_app@
                ==> config.human_policies@[i].repository@ != config.human_policies@[j].repository@,
        forall|i: int, a: int|
            0 <= i < config.human_policies@.len() && 0 <= a < config.github_apps@.len() && (
            #[trigger] config.github_apps@[a]).name@ == (
            #[trigger] config.human_policies@[i]).github_app@ ==> forall|k: int|
                0 <= k < config.github_apps@[a].allowed_roles@.len() ==> (
                #[trigger] config.github_apps@[a].allowed_roles@[k])@
                    != config.human_policies@[i].human_role@,
    ensures
        config.problem(false, kms_supported) is None,
{
    complete_apps_have_no_problem(config, false);
    let check_policy = |i: int| config.policy_problem(i);
    no_problem(check_policy, 0, config.installation_policies@.len() as int);
    assert forall|i: int|
        0 <= i < config.installation_policies@.len() implies #[trigger] check_policy(
        i,
    ) is None by {
        let policy = config.installation_policies@[i];
        assert(policy.github_app@.len() > 0);
        roles_are_named(config, policy.role@);
        let r = choose|r: int|
            0 <= r < config.roles@.len() && (#[trigger] config.roles@[r]).name@ == policy.role@;
        role_is_found(config, r);
        let role_claims = config.named_roles()[policy.role@].required();
        assert(role_claims == config.roles@[r].claims@);
        let inner = |m: int| policy_claim_problem(policy, role_claims, m);
        no_problem(inner, 0, policy.required_claims.pairs().len() as int);
        assert forall|m: int|
            0 <= m < policy.required_claims.pairs().len() implies #[trigger] inner(m) is None by {
            assert(policy.required_claims.pairs()[m].0.len() > 0);
        }
    }
    let check_role = |i: int| config.human_role_problem(i);
    no_problem(check_role, 0, config.human_roles@.len() as int);
    assert forall|i: int| 0 <= i < config.human_roles@.len() implies #[trigger] check_role(
        i,
    ) is None by {
        let role = config.human_roles@[i];
        assert(role.name@.len() > 0);
        roles_are_named(config, role.name@);
        let inner = |m: int| human_claim_problem(role, m);
        no_problem(inner, 0, role.required_claims.pairs().len() as int);
        assert forall|m: int|
            0 <= m < role.required_claims.pairs().len() implies #[trigger] inner(m) is None by {
            assert(role.required_claims.pairs()[m].0.len() > 0);
        }
        let earlier = config.human_roles@.take(i);
        if crate::human_validation::has_human_role(earlier, role.name@) {
            let q = choose|q: int| 0 <= q < earlier.len() && (#[trigger] earlier[q]).name@
                == role.name@;
            assert(config.human_roles@[q].name@ == config.human_roles@[i].name@);
        }
    }
    let check_human = |i: int| config.human_policy_problem(i);
    no_problem(check_human, 0, config.human_policies@.len() as int);
    assert forall|i: int| 0 <= i < config.human_policies@.len() implies #[trigger] check_human(
        i,
    ) is None by {
        let policy = config.human_policies@[i];
        assert(is_owner_and_name(policy.repository@));
        let inner = |m: int| human_permission_problem(policy, m);
        no_problem(inner, 0, policy.permissions.pairs().len() as int);
        assert forall|m: int|
            0 <= m < policy.permissions.pairs().len() implies #[trigger] inner(m) is None by {
            assert(policy.permissions.pairs()[m].0.len() > 0);
        }
        let earlier = config.human_policies@.take(i);
        if crate::human_validation::same_repository(earlier, policy) {
            let q = choose|q: int|
                0 <= q < earlier.len() && (#[trigger] earlier[q]).github_app@ == policy.github_app@
                    && earlier[q].repository@ == policy.repository@;
            assert(config.human_policies@[q].github_app@ == config.human_policies@[i].github_app@);
        }
        if crate::human_validation::same_mapping(earlier, policy) {
            let q = choose|q: int|
                0 <= q < earlier.len() && (#[trigger] earlier[q]).github_app@ == policy.github_app@
                    && earlier[q].repository@ == policy.repository@ && earlier[q].human_role@
                    == policy.human_role@;
            assert(config.human_policies@[q].github_app@ == config.human_policies@[i].github_app@);
        }
        apps_are_found_by_exact_name(config.github_apps@, policy.github_app@, 0);
        let app = first_app(config.github_apps@, policy.github_app@)->Some_0;
        let a = choose|a: int| 0 <= a < config.github_apps@.len() && config.github_apps@[a] == app;
        assert(config.github_apps@[a].name@ == policy.github_app@);
        if texts(app.allowed_roles@).contains(policy.human_role@) {
            let k = choose|k: int|
                0 <= k < texts(app.allowed_roles@).len() && texts(app.allowed_roles@)[k]
                    == policy.human_role@;
            assert(config.github_apps@[a].allowed_roles@[k]@ == policy.human_role@);
        }
    }
    let reach = |i: int| config.unreachable_app_problem(i);
    no_problem(reach, 0, config.github_apps@.len() as int);
    assert forall|i: int| 0 <= i < config.github_apps@.len() implies #[trigger] reach(i) is None by {
        assert(app_is_reachable(config, config.github_apps@[i]));
    }
}

} // verus!
