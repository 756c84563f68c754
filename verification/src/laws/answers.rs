//! What the credential helper, the webhook, the records and the checks return,
//! call by call.
use crate::audit::{
    permissions_label, record_denial, record_issuance, sha256, token_fingerprint, DenialRecord,
    IssuanceRecord,
};
use crate::checks::ConfigError;
use crate::config::policy_repositories;
use crate::error::AppError;
use crate::helper::config::Config as HelperConfig;
use crate::helper::config::{parse_repository, RawConfig, Repository, TokenSource};
use crate::helper::credential::{
    credential_output, installation_token_url, parse_credential, plan_answer, Action, Repo,
};
use crate::helper::token_source::{read_token, token_action, SourceOutput, TokenAction, TokenError};
use crate::hexadecimal::{hex_bytes, hex_text, is_hex};
use crate::laws::helper::{
    answers_are_for_github_repositories, one_source_of_tokens_is_configured,
    requests_are_read_line_by_line, tokens_are_what_the_source_gave,
};
use crate::laws::records::{
    deliveries_are_signed_with_the_secret, load_tests_keep_clear_of_production,
    permissions_are_recorded_in_full, unknown_permissions_are_warned_of,
};
use crate::laws::workloads::apps_are_found_by_exact_name;
use crate::load_test::{guard, latency_increase, percentile, LoadTestBounds};
use crate::permissions::{permission_warnings, PermissionWarning};
use crate::service::{AppState, HumanIdentity};
use crate::string_map::StringMap;
use crate::text::{has_part, lower, texts, trimmed};
use crate::webhook::{hmac_sha256, validate_delivery, verify_signature, DeliveryPlan};
use vstd::prelude::*;
use vstd::utf8::{decode_utf8, encode_utf8, valid_utf8};

verus! {

/// A signature verifies exactly where it is `sha256=` and the code of the body
/// under the secret in hexadecimal digits.
pub proof fn signatures_are_verified(
    secret: &[u8],
    body: &[u8],
    header: &str,
    r: bool,
    tag: Seq<u8>,
)
    requires
        call_ensures(verify_signature, (secret, body, header), r),
    ensures
        header@ == "sha256="@ + hex_text(tag) ==> r == (tag == hmac_sha256(secret@, body@)),
        !"sha256="@.is_prefix_of(header@) ==> !r,
        r ==> is_hex(header@.skip("sha256="@.len() as int)) && hex_bytes(
            header@.skip("sha256="@.len() as int),
        ) == hmac_sha256(secret@, body@),
{
    crate::webhook::signature_is_of_one_tag(tag, hmac_sha256(secret@, body@));
}

/// Which deliveries are accepted.
pub proof fn deliveries_are_validated(
    secret_file: &str,
    secret: Result<&str, &str>,
    signature: Option<&[u8]>,
    body: &[u8],
    r: Result<(), AppError>,
)
    requires
        call_ensures(validate_delivery, (secret_file, secret, signature, body), r),
    ensures
        secret is Err ==> (r matches Err(error) && error is Internal),
        secret matches Ok(contents) ==> {
            &&& trimmed(contents@).len() == 0 ==> (r matches Err(error) && error is Internal)
            &&& trimmed(contents@).len() > 0 ==> (r is Ok || (r matches Err(error)
                && error is Unauthorized))
            &&& signature is None ==> r is Err
            &&& r is Ok ==> (signature matches Some(value) && {
                let digits = Seq::new((value@.len() - 7) as nat, |i: int| value@[i + 7] as char);
                &&& value@.len() >= 7
                &&& forall|i: int| 0 <= i < 7 ==> #[trigger] value@[i] as char == "sha256="@[i]
                &&& hex_bytes(digits) == hmac_sha256(encode_utf8(trimmed(contents@)), body@)
            })
        },
        ({
            &&& secret matches Ok(contents) && trimmed(contents@).len() > 0 && (
            signature matches Some(value) && {
                let digits = Seq::new((value@.len() - 7) as nat, |i: int| value@[i + 7] as char);
                &&& value@.len() >= 7
                &&& forall|i: int|
                    0 <= i < value@.len() ==> (32 <= #[trigger] value@[i] && value@[i] <= 126)
                        || value@[i] == 9
                &&& forall|i: int| 0 <= i < 7 ==> #[trigger] value@[i] as char == "sha256="@[i]
                &&& is_hex(digits)
                &&& hex_bytes(digits) == hmac_sha256(encode_utf8(trimmed(contents@)), body@)
            })
        }) ==> r is Ok,
{
    let contents = match secret {
        Ok(text) => Ok::<Seq<char>, Seq<char>>(text@),
        Err(reason) => Err(reason@),
    };
    deliveries_are_signed_with_the_secret(
        secret_file@,
        contents,
        crate::access::header_bytes(signature),
        body@,
    );
}

/// What is done with the deliveries of a GitHub App: they are validated with the
/// secret that it names, and published where it says so.
pub proof fn deliveries_are_planned(
    state: AppState,
    name: &str,
    r: Result<DeliveryPlan<'_>, AppError>,
    i: int,
)
    requires
        call_ensures(AppState::plan_delivery, (&state, name), r),
    ensures
        ({
            &&& 0 <= i < state.github_apps@.len()
            &&& state.github_apps@[i].name@ == name@
            &&& forall|k: int| 0 <= k < i ==> (#[trigger] state.github_apps@[k]).name@ != name@
        }) ==> (r matches Ok(plan) && {
            let app = state.github_apps@[i];
            &&& plan.publish == (app.webhook_target is Some)
            &&& app.webhook_validation_secret_file matches Some(file) ==> (
            plan.secret_file matches Some(chosen) && chosen@ == file@)
            &&& app.webhook_validation_secret_file is None ==> plan.secret_file is None
        }),
        (forall|k: int|
            0 <= k < state.github_apps@.len() ==> (#[trigger] state.github_apps@[k]).name@
                != name@) ==> (r matches Err(error) && error is NotFound),
{
    apps_are_found_by_exact_name(state.github_apps@, name@, i);
}

/// The record of an issued token holds its own facts, and of the token only the
/// fingerprint.
pub proof fn issuances_are_recorded(
    identity: HumanIdentity,
    github_app: &str,
    repository: &str,
    permissions: StringMap<String>,
    expires_at: &str,
    token: &str,
    r: IssuanceRecord,
)
    requires
        call_ensures(
            record_issuance,
            (&identity, github_app, repository, &permissions, expires_at, token),
            r,
        ),
    ensures
        r.event@ == "human_installation_token"@,
        r.decision@ == "allow"@,
        r.subject@ == identity.subject@,
        identity.request_id matches Some(request) ==> r.teleport_request@ == request@,
        identity.request_id is None ==> r.teleport_request@ == "unknown"@,
        r.human_role@ == identity.human_role@,
        r.github_app@ == github_app@,
        r.repository@ == repository@,
        r.expires_at@ == expires_at@,
        r.token_fingerprint@ == hex_text(sha256(encode_utf8(token@))).take(16),
        permissions.pairs().len() == 0 ==> r.permissions@.len() == 0,
        permissions.pairs().len() == 1 ==> r.permissions@ == permissions.pairs()[0].0 + "="@
            + permissions.pairs()[0].1,
{
    let pairs = permissions.pairs();
    assert(r@.permissions == crate::audit::permissions_text(pairs));
    assert(r@.subject == r.subject@ && r@.teleport_request == r.teleport_request@);
    if pairs.len() == 1 {
        permissions_are_recorded_in_full(pairs, pairs, pairs[0].0, pairs[0].1);
        assert(pairs =~= seq![(pairs[0].0, pairs[0].1)]);
    }
    if pairs.len() == 0 {
        assert(pairs =~= Seq::empty());
        permissions_are_recorded_in_full(pairs, pairs, Seq::empty(), Seq::empty());
    }
}

/// The record of a refusal says who was refused what, and why.
pub proof fn denials_are_recorded(
    subject: Option<&str>,
    github_app: &str,
    repository: &str,
    reason: &str,
    r: DenialRecord,
)
    requires
        call_ensures(record_denial, (subject, github_app, repository, reason), r),
    ensures
        r.event@ == "human_installation_token"@,
        r.decision@ == "deny"@,
        subject matches Some(subject) ==> r.subject@ == subject@,
        subject is None ==> r.subject@ == "unauthenticated"@,
        r.github_app@ == github_app@,
        r.repository@ == repository@,
        r.reason@ == reason@,
{
}

/// The fingerprint of a token, and the label of its permissions.
pub proof fn tokens_are_fingerprinted(token: &str, r: String)
    requires
        call_ensures(token_fingerprint, (token,), r),
    ensures
        r@ == hex_text(sha256(encode_utf8(token@))).take(16),
        r@.len() == 16,
{
}

/// Permissions are labelled in full.
pub proof fn permissions_are_labelled(
    permissions: StringMap<String>,
    r: String,
    name: Seq<char>,
    level: Seq<char>,
)
    requires
        call_ensures(permissions_label, (&permissions,), r),
        permissions.pairs().len() > 1,
        permissions.pairs().last() == (name, level),
    ensures
        r@ == crate::audit::permissions_text(permissions.pairs().drop_last()) + ","@ + name + "="@
            + level,
{
    let pairs = permissions.pairs();
    let last = seq![(name, level)];
    permissions_are_recorded_in_full(pairs.drop_last(), last, name, level);
    assert(pairs =~= pairs.drop_last() + last);
    assert(r@ =~= crate::audit::permissions_text(pairs.drop_last()) + ","@ + name + "="@ + level);
}

/// Which permissions are warned of.
pub proof fn permissions_are_warned_of(
    permissions: StringMap<String>,
    r: Vec<PermissionWarning>,
    name: String,
    level: String,
)
    requires
        call_ensures(permission_warnings, (&permissions,), r),
    ensures
        (exists|k: int|
            0 <= k < r@.len() && (#[trigger] r@[k])@ == (
            crate::permissions::WarningView::UnknownName { permission: name@ }))
            <==> !crate::permissions::known_permissions().contains(name@) && exists|i: int|
            0 <= i < permissions.pairs().len() && (#[trigger] permissions.pairs()[i]).0 == name@,
        (exists|k: int|
            0 <= k < r@.len() && (#[trigger] r@[k])@ == (
            crate::permissions::WarningView::UnknownLevel { permission: name@, level: level@ }))
            <==> level@ != "read"@ && level@ != "write"@ && level@ != "admin"@ && exists|i: int|
            0 <= i < permissions.pairs().len() && #[trigger] permissions.pairs()[i] == (
                name@,
                level@,
            ),
{
    unknown_permissions_are_warned_of(permissions.pairs(), name@, level@);
    let all = crate::permissions::warning_views(r@);
    let unknown = crate::permissions::WarningView::UnknownName { permission: name@ };
    let odd = crate::permissions::WarningView::UnknownLevel { permission: name@, level: level@ };
    assert(all.len() == r@.len());
    assert(forall|k: int| 0 <= k < all.len() ==> all[k] == (#[trigger] r@[k])@);
    if all.contains(unknown) {
        let k = choose|k: int| 0 <= k < all.len() && all[k] == unknown;
        assert(r@[k]@ == unknown);
    }
    if all.contains(odd) {
        let k = choose|k: int| 0 <= k < all.len() && all[k] == odd;
        assert(r@[k]@ == odd);
    }
    if exists|k: int| 0 <= k < r@.len() && (#[trigger] r@[k])@ == unknown {
        let k = choose|k: int| 0 <= k < r@.len() && (#[trigger] r@[k])@ == unknown;
        assert(all[k] == unknown);
    }
    if exists|k: int| 0 <= k < r@.len() && (#[trigger] r@[k])@ == odd {
        let k = choose|k: int| 0 <= k < r@.len() && (#[trigger] r@[k])@ == odd;
        assert(all[k] == odd);
    }
}

/// Which load tests may run.
pub proof fn load_tests_are_guarded(bounds: LoadTestBounds, r: Result<(), ConfigError>)
    requires
        call_ensures(guard, (&bounds,), r),
    ensures
        r is Ok ==> {
            &&& bounds.is_named_owner
            &&& bounds.requests_per_second > 0
            &&& bounds.duration_seconds > 0
            &&& !has_part(lower(bounds.environment@), "prod"@)
            &&& !has_part(lower(bounds.environment@), "live"@)
            &&& !has_part(lower(bounds.environment@), "public"@)
            &&& !has_part(lower(bounds.human_url@), "prod"@)
            &&& !has_part(lower(bounds.human_url@), "live"@)
            &&& !has_part(lower(bounds.human_url@), "public"@)
            &&& !has_part(lower(bounds.workload_url@), "prod"@)
            &&& !has_part(lower(bounds.workload_url@), "live"@)
            &&& !has_part(lower(bounds.workload_url@), "public"@)
        },
        r is Ok <==> crate::load_test::guard_problem(bounds) is None,
{
    load_tests_keep_clear_of_production(bounds);
}

/// A percentile is one of the latencies: the one that the share of them comes
/// before, or the largest; it does not fall as the share grows.
pub proof fn percentiles_are_latencies(
    sorted: Vec<u64>,
    share: usize,
    other: usize,
    r: u64,
    s: u64,
)
    requires
        sorted@.len() * share <= usize::MAX,
        sorted@.len() * other <= usize::MAX,
        call_ensures(percentile, (&sorted, share), r),
        call_ensures(percentile, (&sorted, other), s),
        share <= other,
        forall|i: int, j: int| 0 <= i <= j < sorted@.len() ==> sorted@[i] <= sorted@[j],
    ensures
        sorted@.len() == 0 ==> r == 0,
        sorted@.len() > 0 ==> sorted@.contains(r),
        r <= s,
        share >= 100 && sorted@.len() > 0 ==> r == sorted@.last(),
        share == 0 && sorted@.len() > 0 ==> r == sorted@[0],
        share == 50 && sorted@.len() > 0 ==> r == sorted@[sorted@.len() as int / 2],
{
    if sorted@.len() > 0 {
        let n = sorted@.len() as int;
        let a = n * share / 100;
        let b = n * other / 100;
        assert(a <= b) by (nonlinear_arith)
            requires
                a == n * share / 100,
                b == n * other / 100,
                share <= other,
                n > 0,
        ;
        assert(0 <= a) by (nonlinear_arith)
            requires
                a == n * share / 100,
                n > 0,
                share >= 0,
        ;
        if share >= 100 {
            assert(a >= n) by (nonlinear_arith)
                requires
                    a == n * share / 100,
                    share >= 100,
                    n > 0,
            ;
        }
        if share == 50 {
            assert(a == n / 2);
        }
        assert(sorted@.last() == sorted@[n - 1]);
        assert(sorted@.contains(sorted@.last()));
        if a < n {
            assert(sorted@.contains(sorted@[a]));
        }
    }
}

/// By how much a latency has grown, and whether that is too much.
pub proof fn latencies_are_compared(
    baseline: u64,
    under_load: u64,
    permitted_ms: u64,
    r: (u64, bool),
)
    requires
        call_ensures(latency_increase, (baseline, under_load, permitted_ms), r),
    ensures
        under_load <= baseline ==> r.0 == 0 && !r.1,
        under_load > baseline ==> baseline + r.0 == under_load,
        r.1 <==> under_load > baseline + permitted_ms * 1_000_000,
{
}

/// The helper's own configuration.
pub proof fn helper_configurations_are_read(raw: RawConfig, r: Result<HelperConfig, ConfigError>)
    requires
        call_ensures(HelperConfig::try_from, (raw,), r),
    ensures
        r matches Ok(config) ==> {
            &&& config.github_app == raw.github_app
            &&& config.idcat_endpoint == raw.idcat_endpoint
            &&& match config.token_source {
                TokenSource::Path(path) => raw.token_path == Some(path),
                TokenSource::Program { executable, args } => raw.token_executable == Some(
                    executable,
                ) && raw.token_args == args,
                TokenSource::ShellCommand(command) => raw.token_command == Some(command),
            }
            &&& raw.repository is Some <==> config.repository is Some
            &&& raw.repository matches Some(text) ==> text@ == config.repository->Some_0.owner@
                + "/"@ + config.repository->Some_0.name@
            &&& config.repository matches Some(repository) ==> repository.owner@.len() > 0
                && repository.name@.len() > 0 && !repository.owner@.contains('/')
                && !repository.name@.contains('/')
        },
        r is Ok <==> crate::helper::config::raw_problem(raw) is None,
{
    if let Ok(config) = r {
        one_source_of_tokens_is_configured(raw, config.token_source);
        if let Some(text) = raw.repository {
            reveal_strlit("/");
            crate::text::split_at_first_parts(text@, '/');
            let repository = config.repository->Some_0;
            assert(text@ =~= repository.owner@ + "/"@ + repository.name@);
        }
    }
}

/// Which repositories the helper can be configured for.
pub proof fn configured_repositories_are_parsed(text: &str, r: Result<Repository, ConfigError>)
    requires
        call_ensures(parse_repository, (text,), r),
    ensures
        r matches Ok(repository) ==> {
            &&& text@ == repository.owner@ + "/"@ + repository.name@
            &&& repository.owner@.len() > 0
            &&& repository.name@.len() > 0
            &&& !repository.owner@.contains('/')
            &&& !repository.name@.contains('/')
            &&& !text@.contains('*')
            &&& !text@.contains('?')
        },
{
    if let Ok(repository) = r {
        reveal_strlit("/");
        crate::text::split_at_first_parts(text@, '/');
        assert(text@ =~= repository.owner@ + "/"@ + repository.name@);
    }
}

/// A request of Git is read field by field.
pub proof fn git_requests_are_read(
    input: &str,
    r: StringMap<String>,
    name: Seq<char>,
    value: Seq<char>,
    other: Seq<char>,
    more: Seq<char>,
)
    requires
        call_ensures(parse_credential, (input,), r),
        !name.contains('=') && !name.contains('\n') && !value.contains('\n'),
        !other.contains('=') && !other.contains('\n') && !more.contains('\n'),
        input@ == name + "="@ + value + "\n"@ + (other + "="@ + more + "\n"@ + Seq::empty()),
    ensures
        r@ == Map::<Seq<char>, Seq<char>>::empty().insert(name, value).insert(other, more),
{
    let none = Map::<Seq<char>, Seq<char>>::empty();
    requests_are_read_line_by_line(
        name,
        value,
        Seq::empty(),
        other + "="@ + more + "\n"@ + Seq::empty(),
        none,
    );
    requests_are_read_line_by_line(
        other,
        more,
        Seq::empty(),
        Seq::empty(),
        none.insert(name, value),
    );
    requests_are_read_line_by_line(
        other,
        more,
        Seq::empty(),
        Seq::empty(),
        none.insert(name, value).insert(other, more),
    );
}

/// Which requests of Git the helper answers, and for which repository.
pub proof fn git_is_answered(
    config: HelperConfig,
    action: Action,
    credential: StringMap<String>,
    r: Option<Repo>,
    owner: Seq<char>,
    name: Seq<char>,
)
    requires
        call_ensures(plan_answer, (&config, action, &credential), r),
    ensures
        (r matches Some(repo) && repo.owner@ == owner && repo.name@ == name) <==> {
            let fields = credential@;
            &&& action == Action::Get
            &&& fields.contains_key("protocol"@) && fields["protocol"@] == "https"@
            &&& fields.contains_key("host"@) && fields["host"@] == "github.com"@
            &&& fields.contains_key("path"@) && crate::helper::credential::repo_at(
                fields["path"@],
            ) == Some((owner, name))
            &&& config.repository matches Some(repository) ==> lower(repository.owner@) == lower(
                owner,
            ) && lower(repository.name@) == lower(name)
        },
{
    answers_are_for_github_repositories(action, config.repository, credential@, owner, name);
}

/// Where the helper asks for a token, and what it tells Git.
pub proof fn the_helper_asks_and_answers(
    config: HelperConfig,
    repo: Repo,
    token: &str,
    url: String,
    answer: String,
)
    requires
        call_ensures(installation_token_url, (&config, &repo), url),
        call_ensures(credential_output, (token,), answer),
    ensures
        url@ == config.idcat_endpoint@ + "/installation-token/"@ + config.github_app@ + "/"@
            + repo.owner@ + "/"@ + repo.name@,
        answer@ == "username=x-access-token\npassword="@ + token@ + "\n\n"@,
{
}

/// What is done to have the helper's own token: exactly what is configured.
pub proof fn token_sources_are_used(source: TokenSource, r: TokenAction)
    requires
        call_ensures(token_action, (&source,), r),
    ensures
        source matches TokenSource::Path(path) ==> r == (TokenAction::ReadFile { path }),
        source matches TokenSource::Program { executable, args } ==> (r matches TokenAction::Run {
            executable: program,
            args: list,
        } && program == executable && list@ == args@),
        source matches TokenSource::ShellCommand(command) ==> (r matches TokenAction::Run {
            executable: program,
            args: list,
        } && program@ == "/bin/sh"@ && list@.len() == 2 && list@[0]@ == "-c"@ && list@[1]@
            == command@),
{
    if let TokenAction::Run { args, .. } = r {
        assert(texts(args@).len() == args@.len());
        if args@.len() == 2 {
            assert(texts(args@)[0] == args@[0]@);
            assert(texts(args@)[1] == args@[1]@);
        }
        if source is ShellCommand {
            assert(texts(args@).len() == 2);
        }
    }
}

/// The helper's own token.
pub proof fn helper_tokens_are_read(
    source: TokenSource,
    outcome: Result<SourceOutput, String>,
    r: Result<String, TokenError>,
    token: Seq<char>,
)
    requires
        call_ensures(read_token, (&source, outcome), r),
    ensures
        (r matches Ok(found) && found@ == token) <==> (outcome matches Ok(output) && {
            &&& source is Path || output.success
            &&& valid_utf8(output.bytes@)
            &&& token == trimmed(decode_utf8(output.bytes@))
            &&& token.len() > 0
        }),
{
    tokens_are_what_the_source_gave(source, outcome, token);
}

/// The repositories of a policy are given one way or the other.
pub proof fn policies_name_their_repositories(
    repository: Option<String>,
    repositories: Option<Vec<String>>,
    r: Result<Vec<String>, ConfigError>,
)
    requires
        call_ensures(policy_repositories, (repository, repositories), r),
    ensures
        r is Ok <==> (repository is Some) != (repositories is Some),
        r matches Ok(list) ==> {
            &&& repository matches Some(one) ==> list@.len() == 1 && list@[0] == one
            &&& repositories matches Some(several) ==> list == several
        },
{
}

} // verus!
