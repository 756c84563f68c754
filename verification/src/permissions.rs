//! The permissions that GitHub is known to have, and the warnings about others.
use crate::config::Config;
use crate::string_map::StringMap;
use crate::text::same;
use crate::validation::{any_nats_webhook_target, publishes_to_nats};
use vstd::prelude::*;

verus! {

/// The permissions of GitHub Apps on repositories, organizations and users.
pub open spec fn known_permissions() -> Seq<Seq<char>> {
    seq![
        "actions"@,
        "administration"@,
        "artifact_metadata"@,
        "attestations"@,
        "checks"@,
        "codespaces"@,
        "contents"@,
        "dependabot_secrets"@,
        "deployments"@,
        "discussions"@,
        "environments"@,
        "issues"@,
        "merge_queues"@,
        "metadata"@,
        "packages"@,
        "pages"@,
        "pull_requests"@,
        "repository_custom_properties"@,
        "repository_hooks"@,
        "repository_projects"@,
        "secret_scanning_alerts"@,
        "secrets"@,
        "security_events"@,
        "single_file"@,
        "statuses"@,
        "vulnerability_alerts"@,
        "workflows"@,
        "members"@,
        "organization_administration"@,
        "organization_announcement_banners"@,
        "organization_copilot_seat_management"@,
        "organization_custom_org_roles"@,
        "organization_custom_properties"@,
        "organization_custom_roles"@,
        "organization_events"@,
        "organization_hooks"@,
        "organization_packages"@,
        "organization_personal_access_token_requests"@,
        "organization_personal_access_tokens"@,
        "organization_plan"@,
        "organization_projects"@,
        "organization_secrets"@,
        "organization_self_hosted_runners"@,
        "organization_user_blocking"@,
        "team_discussions"@,
        "email_addresses"@,
        "followers"@,
        "git_ssh_keys"@,
        "gpg_keys"@,
        "interaction_limits"@,
        "profile"@,
        "starring"@,
    ]
}

/// The levels of access of a permission.
pub open spec fn is_known_level(level: Seq<char>) -> bool {
    level == "read"@ || level == "write"@ || level == "admin"@
}

/// The texts of a list of names.
pub open spec fn names_of(list: Seq<&'static str>) -> Seq<Seq<char>> {
    list.map_values(|name: &'static str| name@)
}

/// The permissions of GitHub Apps on repositories, organizations and users.
pub fn known_github_permissions() -> (r: Vec<&'static str>)
    ensures
        names_of(r@) == known_permissions(),
{
    let known = vec![
        "actions",
        "administration",
        "artifact_metadata",
        "attestations",
        "checks",
        "codespaces",
        "contents",
        "dependabot_secrets",
        "deployments",
        "discussions",
        "environments",
        "issues",
        "merge_queues",
        "metadata",
        "packages",
        "pages",
        "pull_requests",
        "repository_custom_properties",
        "repository_hooks",
        "repository_projects",
        "secret_scanning_alerts",
        "secrets",
        "security_events",
        "single_file",
        "statuses",
        "vulnerability_alerts",
        "workflows",
        "members",
        "organization_administration",
        "organization_announcement_banners",
        "organization_copilot_seat_management",
        "organization_custom_org_roles",
        "organization_custom_properties",
        "organization_custom_roles",
        "organization_events",
        "organization_hooks",
        "organization_packages",
        "organization_personal_access_token_requests",
        "organization_personal_access_tokens",
        "organization_plan",
        "organization_projects",
        "organization_secrets",
        "organization_self_hosted_runners",
        "organization_user_blocking",
        "team_discussions",
        "email_addresses",
        "followers",
        "git_ssh_keys",
        "gpg_keys",
        "interaction_limits",
        "profile",
        "starring",
    ];
    assert(names_of(known@) =~= known_permissions());
    known
}

fn is_known(known: &Vec<&'static str>, name: &str) -> (r: bool)
    ensures
        r == names_of(known@).contains(name@),
{
    let mut i: usize = 0;
    while i < known.len()
        invariant
            i <= known@.len(),
            forall|j: int| 0 <= j < i ==> names_of(known@)[j] != name@,
        decreases known@.len() - i,
    {
        if same(known[i], name) {
            assert(names_of(known@)[i as int] == name@);
            return true;
        }
        i = i + 1;
    }
    false
}

/// A permission that may be a mistake. It is passed on to GitHub all the same.
#[derive(Debug, Clone, PartialEq, Eq)]
pub enum PermissionWarning {
    /// No permission of this name is known.
    UnknownName { permission: String },
    /// The level is none of those that are known.
    UnknownLevel { permission: String, level: String },
}

/// The model of a `PermissionWarning`.
pub enum WarningView {
    UnknownName { permission: Seq<char> },
    UnknownLevel { permission: Seq<char>, level: Seq<char> },
}

impl View for PermissionWarning {
    type V = WarningView;

    open spec fn view(&self) -> WarningView {
        match self {
            PermissionWarning::UnknownName { permission } => WarningView::UnknownName {
                permission: permission@,
            },
            PermissionWarning::UnknownLevel { permission, level } => WarningView::UnknownLevel {
                permission: permission@,
                level: level@,
            },
        }
    }
}

/// The views of a list of warnings.
pub open spec fn warning_views(warnings: Seq<PermissionWarning>) -> Seq<WarningView> {
    warnings.map_values(|warning: PermissionWarning| warning@)
}

/// What there is to warn of in one permission.
pub open spec fn warnings_of(permission: (Seq<char>, Seq<char>)) -> Seq<WarningView> {
    let (name, level) = permission;
    (if known_permissions().contains(name) {
        Seq::empty()
    } else {
        seq![WarningView::UnknownName { permission: name }]
    }) + (if is_known_level(level) {
        Seq::empty()
    } else {
        seq![WarningView::UnknownLevel { permission: name, level }]
    })
}

/// What there is to warn of in permissions, one after another.
pub open spec fn all_warnings(pairs: Seq<(Seq<char>, Seq<char>)>) -> Seq<WarningView>
    decreases pairs.len(),
{
    if pairs.len() == 0 {
        Seq::empty()
    } else {
        all_warnings(pairs.drop_last()) + warnings_of(pairs.last())
    }
}

/// What there is to warn of in permissions, in the order of their names.
pub fn permission_warnings(permissions: &StringMap<String>) -> (r: Vec<PermissionWarning>)
    ensures
        warning_views(r@) == all_warnings(permissions.pairs()),
{
    let known = known_github_permissions();
    let mut warnings: Vec<PermissionWarning> = Vec::new();
    let n: usize = permissions.len();
    let ghost pairs = permissions.pairs();
    let mut i: usize = 0;
    while i < n
        invariant
            i <= n,
            n == pairs.len(),
            pairs == permissions.pairs(),
            names_of(known@) == known_permissions(),
            warning_views(warnings@) == all_warnings(pairs.take(i as int)),
        decreases n - i,
    {
        let name = permissions.key_at(i);
        let level = permissions.value_at(i);
        let ghost before = warning_views(warnings@);
        proof {
            assert(pairs.take(i + 1).drop_last() =~= pairs.take(i as int));
            assert(pairs.take(i + 1).last() == (name@, level@));
        }
        if !is_known(&known, name.as_str()) {
            let warning = PermissionWarning::UnknownName { permission: name.clone() };
            warnings.push(warning);
            assert(warning_views(warnings@) =~= before.push(warning@));
        }
        let ghost middle = warning_views(warnings@);
        if !(same(level.as_str(), "read") || same(level.as_str(), "write") || same(
            level.as_str(),
            "admin",
        )) {
            let warning = PermissionWarning::UnknownLevel {
                permission: name.clone(),
                level: level.clone(),
            };
            warnings.push(warning);
            assert(warning_views(warnings@) =~= middle.push(warning@));
        }
        assert(warning_views(warnings@) =~= before + warnings_of((name@, level@)));
        i = i + 1;
    }
    assert(pairs.take(i as int) =~= pairs);
    warnings
}

impl Config {
    /// Whether a NATS server is configured and no GitHub App publishes to it.
    pub fn nats_is_unused(&self) -> (r: bool)
        ensures
            r == (self.nats is Some && !publishes_to_nats(self.github_apps@)),
    {
        self.nats.is_some() && !any_nats_webhook_target(&self.github_apps)
    }
}

} // verus!
