//! What deliveries, records, warnings and load tests come to.
use crate::audit::{fingerprint, issuance, permissions_text, sha256};
use crate::checks::no_problem;
use crate::config::GithubAppConfig;
use crate::error::AppErrorView;
use crate::hexadecimal::{hex_bytes, hex_text, hex_value, is_hex};
use crate::laws::texts::joining_puts_the_separator_between;
use crate::load_test::{forbidden_markers, guard_problem, marker_problem, LoadTestBounds};
use crate::permissions::{all_warnings, is_known_level, known_permissions, warnings_of, WarningView};
use crate::service::IdentityView;
use crate::text::{has_part, lower, trimmed};
use crate::validation::publishes_to_nats;
use crate::webhook::{delivery_problem, hmac_sha256};
use vstd::prelude::*;
use vstd::utf8::encode_utf8;

verus! {

/// A delivery is accepted exactly where the secret could be read and is not
/// blank, and the signature header is `sha256=` and, in hexadecimal digits, the
/// code of the body under the secret without the white space round it.
/// Otherwise the fault is the server's where it lies with the secret, and the
/// delivery's where it lies with the signature.
pub proof fn deliveries_are_signed_with_the_secret(
    secret_file: Seq<char>,
    secret: Result<Seq<char>, Seq<char>>,
    signature: Option<Seq<u8>>,
    body: Seq<u8>,
)
    ensures
        delivery_problem(secret_file, secret, signature, body) is None <==> {
            &&& secret matches Ok(contents) && trimmed(contents).len() > 0 && (
            signature matches Some(value) && {
                let digits = Seq::new((value.len() - 7) as nat, |i: int| value[i + 7] as char);
                &&& value.len() >= 7
                &&& forall|i: int|
                    0 <= i < value.len() ==> (32 <= #[trigger] value[i] && value[i] <= 126)
                        || value[i] == 9
                &&& forall|i: int| 0 <= i < 7 ==> #[trigger] value[i] as char == "sha256="@[i]
                &&& is_hex(digits)
                &&& hex_bytes(digits) == hmac_sha256(encode_utf8(trimmed(contents)), body)
            })
        },
        delivery_problem(secret_file, secret, signature, body) matches Some(error) ==> {
            &&& secret is Err ==> error is Internal
            &&& secret matches Ok(contents) ==> (if trimmed(contents).len() == 0 {
                error is Internal
            } else {
                error is Unauthorized
            })
        },
{
    reveal_strlit("sha256=");
    if let Some(value) = signature {
        let text = crate::access::ascii_text(value);
        let digits = Seq::new((value.len() - 7) as nat, |i: int| value[i + 7] as char);
        assert(text.len() == value.len());
        assert(forall|i: int| 0 <= i < value.len() ==> text[i] == #[trigger] value[i] as char);
        if value.len() >= 7 {
            assert(text.skip(7) =~= digits);
            if forall|i: int| 0 <= i < 7 ==> #[trigger] value[i] as char == "sha256="@[i] {
                assert("sha256="@ =~= text.take(7));
                assert("sha256="@.is_prefix_of(text));
            }
            if "sha256="@.is_prefix_of(text) {
                assert forall|i: int| 0 <= i < 7 implies #[trigger] value[i] as char
                    == "sha256="@[i] by {
                    assert(text[i] == value[i] as char);
                }
            }
        }
        if forall|i: int|
            0 <= i < value.len() ==> (32 <= #[trigger] value[i] && value[i] <= 126) || value[i]
                == 9 {
            assert(forall|i: int|
                0 <= i < value.len() ==> crate::access::is_visible(#[trigger] value[i]));
        }
        if forall|i: int| 0 <= i < value.len() ==> crate::access::is_visible(#[trigger] value[i]) {
            assert(forall|i: int|
                0 <= i < value.len() ==> (32 <= #[trigger] value[i] && value[i] <= 126)
                    || value[i] == 9);
        }
    }
}

/// Hexadecimal digits stand for what they always do, in either case, and two of
/// them for a byte, the first counting sixteen times.
pub proof fn hexadecimal_digits_count_to_fifteen(text: Seq<char>, i: int)
    ensures
        hex_value('0') == Some(0int),
        hex_value('9') == Some(9int),
        hex_value('a') == Some(10int) && hex_value('A') == Some(10int),
        hex_value('f') == Some(15int) && hex_value('F') == Some(15int),
        hex_value('g') is None && hex_value('G') is None && hex_value(' ') is None,
        is_hex(text) && 0 <= i < text.len() / 2 ==> hex_bytes(text)[i] as int == 16 * hex_value(
            text[2 * i],
        )->Some_0 + hex_value(text[2 * i + 1])->Some_0,
        hex_bytes(text).len() == text.len() / 2,
        is_hex(text) ==> text.len() % 2 == 0,
{
    if is_hex(text) && 0 <= i < text.len() / 2 {
        assert(hex_value(text[2 * i]) is Some);
        assert(hex_value(text[2 * i + 1]) is Some);
    }
}

/// The fingerprint of a token is the first sixteen hexadecimal digits of the
/// digest of its bytes.
pub proof fn fingerprints_are_sixteen_digits_of_the_digest(token: Seq<char>, i: int)
    requires
        sha256(encode_utf8(token)).len() == 32,
    ensures
        fingerprint(token).len() == 16,
        0 <= i < 16 ==> fingerprint(token)[i] == hex_text(sha256(encode_utf8(token)))[i],
{
}

/// The record of an issued token says who got it, by which access request and
/// human role, for which GitHub App and repository, with which permissions, until
/// when, and which token it was, each in its own field.
pub proof fn issuance_records_say_who_got_what(
    identity: IdentityView,
    github_app: Seq<char>,
    repository: Seq<char>,
    permissions: Seq<(Seq<char>, Seq<char>)>,
    expires_at: Seq<char>,
    token: Seq<char>,
)
    ensures
        ({
            let record = issuance(
                identity,
                github_app,
                repository,
                permissions,
                expires_at,
                token,
            );
            &&& record.event == "human_installation_token"@
            &&& record.decision == "allow"@
            &&& record.subject == identity.subject
            &&& identity.request_id matches Some(request) ==> record.teleport_request == request
            &&& identity.request_id is None ==> record.teleport_request == "unknown"@
            &&& record.human_role == identity.human_role
            &&& record.github_app == github_app
            &&& record.repository == repository
            &&& record.permissions == permissions_text(permissions)
            &&& record.expires_at == expires_at
            &&& record.token_fingerprint == hex_text(sha256(encode_utf8(token))).take(16)
        }),
{
}

/// Permissions are recorded one after another, each as its name and its level
/// with `=` between, and `,` between any two.
pub proof fn permissions_are_recorded_in_full(
    a: Seq<(Seq<char>, Seq<char>)>,
    b: Seq<(Seq<char>, Seq<char>)>,
    name: Seq<char>,
    level: Seq<char>,
)
    ensures
        permissions_text(Seq::empty()) == Seq::<char>::empty(),
        permissions_text(seq![(name, level)]) == name + "="@ + level,
        a.len() > 0 && b.len() > 0 ==> permissions_text(a + b) == permissions_text(a) + ","@
            + permissions_text(b),
{
    let write = |pair: (Seq<char>, Seq<char>)| crate::audit::permission_text(pair);
    let one = seq![(name, level)];
    assert(one.map_values(write) =~= seq![name + "="@ + level]);
    let none = Seq::<(Seq<char>, Seq<char>)>::empty();
    assert(none.map_values(write) =~= Seq::empty());
    assert((a + b).map_values(write) =~= a.map_values(write) + b.map_values(write));
    joining_puts_the_separator_between(
        a.map_values(write),
        b.map_values(write),
        name + "="@ + level,
        ","@,
    );
}

/// A load test may run exactly where its named owner runs it, for some time and
/// with some requests a second, and neither the environment nor either target
/// has `prod`, `live`, `production` or `public` in its name, in whatever case.
pub proof fn load_tests_keep_clear_of_production(bounds: LoadTestBounds)
    ensures
        guard_problem(bounds) is None <==> {
            &&& bounds.is_named_owner
            &&& bounds.requests_per_second > 0
            &&& bounds.duration_seconds > 0
            &&& !has_part(lower(bounds.environment@), "prod"@)
            &&& !has_part(lower(bounds.environment@), "live"@)
            &&& !has_part(lower(bounds.environment@), "production"@)
            &&& !has_part(lower(bounds.environment@), "public"@)
            &&& !has_part(lower(bounds.human_url@), "prod"@)
            &&& !has_part(lower(bounds.human_url@), "live"@)
            &&& !has_part(lower(bounds.human_url@), "production"@)
            &&& !has_part(lower(bounds.human_url@), "public"@)
            &&& !has_part(lower(bounds.workload_url@), "prod"@)
            &&& !has_part(lower(bounds.workload_url@), "live"@)
            &&& !has_part(lower(bounds.workload_url@), "production"@)
            &&& !has_part(lower(bounds.workload_url@), "public"@)
        },
{
    let check = |i: int| marker_problem(bounds, i);
    no_problem(check, 0, 4);
    let markers = forbidden_markers();
    assert(markers[0] == "prod"@ && markers[1] == "live"@ && markers[2] == "production"@
        && markers[3] == "public"@);
    if guard_problem(bounds) is None {
        assert(check(0) is None && check(1) is None && check(2) is None && check(3) is None);
    }
    if bounds.is_named_owner && bounds.requests_per_second > 0 && bounds.duration_seconds > 0
        && forall|i: int| 0 <= i < 4 ==> #[trigger] check(i) is None {
        assert(guard_problem(bounds) is None);
    }
}

/// Every permission whose name or level is not known is warned of, and no
/// other. The known levels are read, write and admin.
pub proof fn unknown_permissions_are_warned_of(
    pairs: Seq<(Seq<char>, Seq<char>)>,
    name: Seq<char>,
    level: Seq<char>,
)
    ensures
        all_warnings(pairs).contains(WarningView::UnknownName { permission: name })
            <==> !known_permissions().contains(name) && exists|i: int|
            0 <= i < pairs.len() && (#[trigger] pairs[i]).0 == name,
        all_warnings(pairs).contains(WarningView::UnknownLevel { permission: name, level })
            <==> level != "read"@ && level != "write"@ && level != "admin"@ && exists|i: int|
            0 <= i < pairs.len() && #[trigger] pairs[i] == (name, level),
    decreases pairs.len(),
{
    let unknown = WarningView::UnknownName { permission: name };
    let odd = WarningView::UnknownLevel { permission: name, level };
    if pairs.len() > 0 {
        let rest = pairs.drop_last();
        let last = pairs.last();
        let n = pairs.len() - 1;
        unknown_permissions_are_warned_of(rest, name, level);
        let before = all_warnings(rest);
        let added = warnings_of(last);
        let all = all_warnings(pairs);
        assert(all == before + added);
        appended_lists_contain(before, added, unknown);
        appended_lists_contain(before, added, odd);
        warnings_of_one(last, name, level);
        assert(pairs[n] == last);
        if exists|i: int| 0 <= i < rest.len() && (#[trigger] rest[i]).0 == name {
            let i = choose|i: int| 0 <= i < rest.len() && (#[trigger] rest[i]).0 == name;
            assert(pairs[i].0 == name);
        }
        if exists|i: int| 0 <= i < rest.len() && #[trigger] rest[i] == (name, level) {
            let i = choose|i: int| 0 <= i < rest.len() && #[trigger] rest[i] == (name, level);
            assert(pairs[i] == (name, level));
        }
        if last.0 != name && (exists|i: int| 0 <= i < pairs.len() && (#[trigger] pairs[i]).0
            == name) {
            let i = choose|i: int| 0 <= i < pairs.len() && (#[trigger] pairs[i]).0 == name;
            assert(rest[i].0 == name);
        }
        if last != (name, level) && (exists|i: int|
            0 <= i < pairs.len() && #[trigger] pairs[i] == (name, level)) {
            let i = choose|i: int| 0 <= i < pairs.len() && #[trigger] pairs[i] == (name, level);
            assert(rest[i] == (name, level));
        }
    }
}

proof fn appended_lists_contain(a: Seq<WarningView>, b: Seq<WarningView>, warning: WarningView)
    ensures
        (a + b).contains(warning) <==> a.contains(warning) || b.contains(warning),
{
    if a.contains(warning) {
        let i = choose|i: int| 0 <= i < a.len() && a[i] == warning;
        assert((a + b)[i] == warning);
    }
    if b.contains(warning) {
        let i = choose|i: int| 0 <= i < b.len() && b[i] == warning;
        assert((a + b)[i + a.len()] == warning);
    }
    if (a + b).contains(warning) {
        let i = choose|i: int| 0 <= i < (a + b).len() && (a + b)[i] == warning;
        if i < a.len() {
            assert(a[i] == warning);
        } else {
            assert(b[i - a.len()] == warning);
        }
    }
}

proof fn warnings_of_one(pair: (Seq<char>, Seq<char>), name: Seq<char>, level: Seq<char>)
    ensures
        warnings_of(pair).contains(WarningView::UnknownName { permission: name }) <==> pair.0
            == name && !known_permissions().contains(name),
        warnings_of(pair).contains(WarningView::UnknownLevel { permission: name, level })
            <==> pair == (name, level) && level != "read"@ && level != "write"@ && level
            != "admin"@,
{
    let names: Seq<WarningView> = if known_permissions().contains(pair.0) {
        Seq::empty()
    } else {
        seq![WarningView::UnknownName { permission: pair.0 }]
    };
    let levels: Seq<WarningView> = if is_known_level(pair.1) {
        Seq::empty()
    } else {
        seq![WarningView::UnknownLevel { permission: pair.0, level: pair.1 }]
    };
    let unknown = WarningView::UnknownName { permission: name };
    let odd = WarningView::UnknownLevel { permission: name, level };
    assert(warnings_of(pair) == names + levels);
    appended_lists_contain(names, levels, unknown);
    appended_lists_contain(names, levels, odd);
    if !known_permissions().contains(pair.0) {
        assert(names[0] == WarningView::UnknownName { permission: pair.0 });
    }
    if !is_known_level(pair.1) {
        assert(levels[0] == WarningView::UnknownLevel { permission: pair.0, level: pair.1 });
    }
}

/// What is wrong with a delivery is told, with the file of the secret where it
/// lies with that.
pub proof fn refused_deliveries_are_told_why(
    secret_file: Seq<char>,
    reason: Seq<char>,
    contents: Seq<char>,
    signature: Option<Seq<u8>>,
    body: Seq<u8>,
)
    ensures
        delivery_problem(secret_file, Err(reason), signature, body) == Some(
            AppErrorView::Internal(
                "failed to read webhook validation secret from '"@ + secret_file + "': "@ + reason,
            ),
        ),
        trimmed(contents).len() == 0 ==> delivery_problem(
            secret_file,
            Ok(contents),
            signature,
            body,
        ) == Some(
            AppErrorView::Internal(
                "webhook validation secret file '"@ + secret_file + "' is empty"@,
            ),
        ),
        trimmed(contents).len() > 0 && signature is None ==> delivery_problem(
            secret_file,
            Ok(contents),
            signature,
            body,
        ) == Some(AppErrorView::Unauthorized("missing x-hub-signature-256 header"@)),
{
}

/// The error of a request is told by its own text.
pub proof fn errors_are_told_by_their_text(text: Seq<char>)
    ensures
        AppErrorView::BadRequest(text).text() == text,
        AppErrorView::Unauthorized(text).text() == text,
        AppErrorView::NotFound(text).text() == text,
        AppErrorView::Internal(text).text() == text,
{
}

/// Deliveries are published to NATS where, and only where, some GitHub App says
/// so.
pub proof fn apps_publish_where_they_say_so(apps: Seq<GithubAppConfig>, i: int)
    ensures
        0 <= i < apps.len() && apps[i].webhook_target is Some ==> publishes_to_nats(apps),
        (forall|k: int| 0 <= k < apps.len() ==> (#[trigger] apps[k]).webhook_target is None)
            ==> !publishes_to_nats(apps),
{
}

/// The known permissions are those of GitHub Apps on repositories, organizations
/// and users, each by the name that GitHub gives it, and no others.
pub proof fn permissions_of_github_are_known(name: Seq<char>)
    ensures
        known_permissions().contains(name) <==> {
            ||| name == "actions"@
            ||| name == "administration"@
            ||| name == "artifact_metadata"@
            ||| name == "attestations"@
            ||| name == "checks"@
            ||| name == "codespaces"@
            ||| name == "contents"@
            ||| name == "dependabot_secrets"@
            ||| name == "deployments"@
            ||| name == "discussions"@
            ||| name == "environments"@
            ||| name == "issues"@
            ||| name == "merge_queues"@
            ||| name == "metadata"@
            ||| name == "packages"@
            ||| name == "pages"@
            ||| name == "pull_requests"@
            ||| name == "repository_custom_properties"@
            ||| name == "repository_hooks"@
            ||| name == "repository_projects"@
            ||| name == "secret_scanning_alerts"@
            ||| name == "secrets"@
            ||| name == "security_events"@
            ||| name == "single_file"@
            ||| name == "statuses"@
            ||| name == "vulnerability_alerts"@
            ||| name == "workflows"@
            ||| name == "members"@
            ||| name == "organization_administration"@
            ||| name == "organization_announcement_banners"@
            ||| name == "organization_copilot_seat_management"@
            ||| name == "organization_custom_org_roles"@
            ||| name == "organization_custom_properties"@
            ||| name == "organization_custom_roles"@
            ||| name == "organization_events"@
            ||| name == "organization_hooks"@
            ||| name == "organization_packages"@
            ||| name == "organization_personal_access_token_requests"@
            ||| name == "organization_personal_access_tokens"@
            ||| name == "organization_plan"@
            ||| name == "organization_projects"@
            ||| name == "organization_secrets"@
            ||| name == "organization_self_hosted_runners"@
            ||| name == "organization_user_blocking"@
            ||| name == "team_discussions"@
            ||| name == "email_addresses"@
            ||| name == "followers"@
            ||| name == "git_ssh_keys"@
            ||| name == "gpg_keys"@
            ||| name == "interaction_limits"@
            ||| name == "profile"@
            ||| name == "starring"@
        },
{
    let known = known_permissions();
    assert(known.len() == 52);
    assert(known[0] == "actions"@);
    assert(known[1] == "administration"@);
    assert(known[2] == "artifact_metadata"@);
    assert(known[3] == "attestations"@);
    assert(known[4] == "checks"@);
    assert(known[5] == "codespaces"@);
    assert(known[6] == "contents"@);
    assert(known[7] == "dependabot_secrets"@);
    assert(known[8] == "deployments"@);
    assert(known[9] == "discussions"@);
    assert(known[10] == "environments"@);
    assert(known[11] == "issues"@);
    assert(known[12] == "merge_queues"@);
    assert(known[13] == "metadata"@);
    assert(known[14] == "packages"@);
    assert(known[15] == "pages"@);
    assert(known[16] == "pull_requests"@);
    assert(known[17] == "repository_custom_properties"@);
    assert(known[18] == "repository_hooks"@);
    assert(known[19] == "repository_projects"@);
    assert(known[20] == "secret_scanning_alerts"@);
    assert(known[21] == "secrets"@);
    assert(known[22] == "security_events"@);
    assert(known[23] == "single_file"@);
    assert(known[24] == "statuses"@);
    assert(known[25] == "vulnerability_alerts"@);
    assert(known[26] == "workflows"@);
    assert(known[27] == "members"@);
    assert(known[28] == "organization_administration"@);
    assert(known[29] == "organization_announcement_banners"@);
    assert(known[30] == "organization_copilot_seat_management"@);
    assert(known[31] == "organization_custom_org_roles"@);
    assert(known[32] == "organization_custom_properties"@);
    assert(known[33] == "organization_custom_roles"@);
    assert(known[34] == "organization_events"@);
    assert(known[35] == "organization_hooks"@);
    assert(known[36] == "organization_packages"@);
    assert(known[37] == "organization_personal_access_token_requests"@);
    assert(known[38] == "organization_personal_access_tokens"@);
    assert(known[39] == "organization_plan"@);
    assert(known[40] == "organization_projects"@);
    assert(known[41] == "organization_secrets"@);
    assert(known[42] == "organization_self_hosted_runners"@);
    assert(known[43] == "organization_user_blocking"@);
    assert(known[44] == "team_discussions"@);
    assert(known[45] == "email_addresses"@);
    assert(known[46] == "followers"@);
    assert(known[47] == "git_ssh_keys"@);
    assert(known[48] == "gpg_keys"@);
    assert(known[49] == "interaction_limits"@);
    assert(known[50] == "profile"@);
    assert(known[51] == "starring"@);
    if known.contains(name) {
        let k = choose|k: int| 0 <= k < known.len() && known[k] == name;
        assert(0 <= k < 52);
    }
}

} // verus!
