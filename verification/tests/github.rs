use idcat::github::{
    build_create_installation_token_request, build_repositories_token_request,
    CreateInstallationTokenRequest, InstallationTarget, GITHUB_API_URL,
    INSTALLATION_TOKEN_CACHE_TTL,
};
use idcat::lookup::{access_tokens_url, first_lookup, next_lookup, Lookup, LookupReply, LookupStep};
use idcat::minting::{after_lookup, begin, finish, MintStep};
use idcat::proxy::{
    proxy_headers, proxy_url, repository_path, returned_headers, should_forward_header,
    should_return_proxy_header, Header,
};
use idcat::service::{HumanIdentity, RepoScope, Requester, TokenScope};
use idcat::string_map::{from_entries, StringMap};
use idcat::token_cache::{GithubCache, InstallationTokenCacheKey, InstallationTokenResponse};

fn permissions(entries: &[(&str, &str)]) -> StringMap<String> {
    from_entries(
        entries
            .iter()
            .map(|(name, level)| (name.to_string(), level.to_string()))
            .collect(),
    )
}

fn broad_scope() -> TokenScope {
    TokenScope {
        repositories: RepoScope::All,
        permissions: StringMap::new(),
    }
}

fn narrow_scope(entries: &[(&str, &str)]) -> TokenScope {
    TokenScope {
        repositories: RepoScope::OnlyRequested,
        permissions: permissions(entries),
    }
}

fn repository_target() -> InstallationTarget {
    InstallationTarget::Repository("myorg/alfa".to_string())
}

fn owner_target() -> InstallationTarget {
    InstallationTarget::Owner("myorg".to_string())
}

const STUB_REPOSITORY_INSTALLATION_ID: u64 = 123;
const STUB_ORGANIZATION_INSTALLATION_ID: u64 = 456;
const STUB_USER_INSTALLATION_ID: u64 = 789;

/// Stands for GitHub: it resolves installations, and makes a numbered token for each request.
/// `organizations` names the accounts that are organizations; any other account is a user.
struct StubGithubApi {
    organizations: Vec<String>,
    token_requests: Vec<(String, CreateInstallationTokenRequest)>,
}

fn spawn_stub_github_api(organizations: &[&str]) -> StubGithubApi {
    StubGithubApi {
        organizations: organizations.iter().map(|name| name.to_string()).collect(),
        token_requests: Vec::new(),
    }
}

impl StubGithubApi {
    fn installation(&self, path: &str) -> LookupReply {
        let parts: Vec<&str> = path.split('/').collect();
        let id = match parts.as_slice() {
            ["repos", _, _, "installation"] => Some(STUB_REPOSITORY_INSTALLATION_ID),
            ["orgs", name, "installation"] => self
                .organizations
                .iter()
                .any(|organization| organization == name)
                .then_some(STUB_ORGANIZATION_INSTALLATION_ID),
            ["users", _, "installation"] => Some(STUB_USER_INSTALLATION_ID),
            other => panic!("unexpected path {other:?}"),
        };
        match id {
            Some(id) => named(id),
            None => refused(404),
        }
    }
}

fn named(id: u64) -> LookupReply {
    LookupReply::Response { status: 200, id: Ok(id) }
}

fn refused(status: u16) -> LookupReply {
    LookupReply::Response { status, id: Err(format!("status {status}")) }
}

fn create_installation_token(
    stub: &mut StubGithubApi,
    cache: &mut GithubCache,
    target: &InstallationTarget,
    scope: TokenScope,
    requester: Requester,
    now: u64,
) -> Result<InstallationTokenResponse, String> {
    let key = InstallationTokenCacheKey {
        github_app: "default".to_string(),
        target: target.clone(),
        scope,
        requester,
    };
    let mut step = begin(cache, &key, "https://stub", now);
    loop {
        step = match step {
            MintStep::Serve(token) => return Ok(token),
            MintStep::Fail(error) => return Err(error.to_text()),
            MintStep::Ask { lookup, path } => {
                let reply = stub.installation(&path);
                after_lookup(cache, &key, "https://stub", lookup, reply)
            }
            MintStep::Request { url, request } => {
                stub.token_requests.push((url, request));
                let token = InstallationTokenResponse {
                    token: format!("token-{}", stub.token_requests.len()),
                    expires_at: "2099-01-01T00:00:00Z".to_string(),
                    permissions: StringMap::new(),
                    repository_selection: None,
                };
                return Ok(finish(cache, key, token, now));
            }
        };
    }
}

fn token_url(id: u64) -> String {
    format!("https://stub/app/installations/{id}/access_tokens")
}

#[test]
fn narrow_caller_is_not_served_a_cached_broad_token() {
    let mut stub = spawn_stub_github_api(&["myorg"]);
    let mut cache = GithubCache::new();

    // A caller with a broad scope has a token made and kept for the repository first.
    let broad = create_installation_token(
        &mut stub,
        &mut cache,
        &repository_target(),
        broad_scope(),
        Requester::Workload,
        0,
    )
    .unwrap();
    // A caller that may only have the requested repository must get a token of its own.
    let narrow = create_installation_token(
        &mut stub,
        &mut cache,
        &repository_target(),
        narrow_scope(&[]),
        Requester::Workload,
        0,
    )
    .unwrap();

    assert_ne!(
        broad.token, narrow.token,
        "narrow caller received the cached broad-scoped token"
    );
    assert_eq!(
        stub.token_requests.len(),
        2,
        "each scope must mint its own token rather than share a cache entry"
    );
}

#[test]
fn caller_is_not_served_a_cached_token_with_different_permissions() {
    let mut stub = spawn_stub_github_api(&["myorg"]);
    let mut cache = GithubCache::new();

    let read = create_installation_token(
        &mut stub,
        &mut cache,
        &repository_target(),
        narrow_scope(&[("contents", "read")]),
        Requester::Workload,
        0,
    )
    .unwrap();
    let write = create_installation_token(
        &mut stub,
        &mut cache,
        &repository_target(),
        narrow_scope(&[("contents", "write")]),
        Requester::Workload,
        0,
    )
    .unwrap();

    assert_ne!(
        read.token, write.token,
        "write caller received the cached read-only token"
    );
    assert_eq!(
        stub.token_requests.len(),
        2,
        "each permission set must mint its own token rather than share a cache entry"
    );
}

#[test]
fn owner_target_resolves_the_organization_installation() {
    let mut stub = spawn_stub_github_api(&["myorg"]);
    let mut cache = GithubCache::new();

    create_installation_token(
        &mut stub,
        &mut cache,
        &owner_target(),
        TokenScope {
            repositories: RepoScope::All,
            permissions: permissions(&[("packages", "read")]),
        },
        Requester::Workload,
        0,
    )
    .unwrap();

    assert_eq!(stub.token_requests.len(), 1);
    assert_eq!(
        stub.token_requests[0].0,
        token_url(STUB_ORGANIZATION_INSTALLATION_ID),
        "an owner target must resolve the installation through the account, not a repository"
    );
    assert_eq!(
        stub.token_requests[0].1,
        CreateInstallationTokenRequest {
            repositories: None,
            permissions: Some(permissions(&[("packages", "read")])),
        },
        "an owner token must omit repositories and carry only the policy's permissions"
    );
}

#[test]
fn owner_target_falls_back_to_the_user_installation() {
    // `noa` is not an organization.
    let mut stub = spawn_stub_github_api(&["myorg"]);
    let mut cache = GithubCache::new();

    create_installation_token(
        &mut stub,
        &mut cache,
        &InstallationTarget::Owner("noa".to_string()),
        broad_scope(),
        Requester::Workload,
        0,
    )
    .unwrap();

    assert_eq!(stub.token_requests.len(), 1);
    assert_eq!(
        stub.token_requests[0].0,
        token_url(STUB_USER_INSTALLATION_ID),
        "a user-owned account must fall back to the user installation lookup"
    );
}

#[test]
fn owner_and_repository_targets_do_not_share_a_cache_entry() {
    let mut stub = spawn_stub_github_api(&["myorg"]);
    let mut cache = GithubCache::new();

    let repo_wide = create_installation_token(
        &mut stub,
        &mut cache,
        &repository_target(),
        broad_scope(),
        Requester::Workload,
        0,
    )
    .unwrap();
    let owner_wide = create_installation_token(
        &mut stub,
        &mut cache,
        &owner_target(),
        broad_scope(),
        Requester::Workload,
        0,
    )
    .unwrap();

    assert_ne!(repo_wide.token, owner_wide.token);
    assert_eq!(
        stub.token_requests.len(),
        2,
        "an owner request must not be served a token cached for a repository request"
    );
}

#[test]
fn build_create_installation_token_request_broad_omits_repositories() {
    let request =
        build_create_installation_token_request(&broad_scope(), &repository_target()).unwrap();
    assert_eq!(
        request,
        CreateInstallationTokenRequest { repositories: None, permissions: None }
    );
}

#[test]
fn build_create_installation_token_request_narrow_sets_repository_by_name() {
    let request =
        build_create_installation_token_request(&narrow_scope(&[]), &repository_target()).unwrap();
    assert_eq!(
        request,
        CreateInstallationTokenRequest {
            repositories: Some(vec!["alfa".to_string()]),
            permissions: None,
        }
    );
}

#[test]
fn build_create_installation_token_request_narrow_includes_permissions() {
    let request = build_create_installation_token_request(
        &narrow_scope(&[("contents", "read")]),
        &repository_target(),
    )
    .unwrap();
    assert_eq!(
        request,
        CreateInstallationTokenRequest {
            repositories: Some(vec!["alfa".to_string()]),
            permissions: Some(permissions(&[("contents", "read")])),
        }
    );
}

#[test]
fn build_create_installation_token_request_rejects_a_repo_scope_on_an_owner_target() {
    // To widen the token to the whole installation is the confusion that owner requests avoid.
    let error =
        build_create_installation_token_request(&narrow_scope(&[]), &owner_target()).unwrap_err();
    assert!(
        error.to_text().contains("no repository was requested"),
        "unexpected error: {error:?}"
    );
}

#[test]
fn kept_tokens_are_served_for_fifty_minutes() {
    let mut stub = spawn_stub_github_api(&[]);
    let mut cache = GithubCache::new();
    let mut mint = |now: u64| {
        create_installation_token(
            &mut stub,
            &mut cache,
            &repository_target(),
            narrow_scope(&[("contents", "read")]),
            Requester::Workload,
            now,
        )
        .unwrap()
        .token
    };
    assert_eq!(INSTALLATION_TOKEN_CACHE_TTL, 50 * 60 * 1_000_000_000);
    assert_eq!(mint(7), "token-1");
    assert_eq!(mint(7 + INSTALLATION_TOKEN_CACHE_TTL - 1), "token-1");
    assert_eq!(mint(7 + INSTALLATION_TOKEN_CACHE_TTL), "token-2");
    assert_eq!(mint(u64::MAX), "token-3");
    assert_eq!(mint(u64::MAX), "token-3");
}

#[test]
fn kept_tokens_stay_with_their_requester() {
    let mut stub = spawn_stub_github_api(&[]);
    let mut cache = GithubCache::new();
    let person = |subject: &str, request_id: Option<&str>| {
        Requester::person(&HumanIdentity {
            subject: subject.to_string(),
            request_id: request_id.map(str::to_string),
            human_role: "pilot-repo-reader".to_string(),
        })
    };
    let mut mint = |requester: Requester| {
        create_installation_token(
            &mut stub,
            &mut cache,
            &repository_target(),
            narrow_scope(&[("contents", "read")]),
            requester,
            0,
        )
        .unwrap()
        .token
    };
    assert_eq!(mint(person("alex", Some("req-1"))), "token-1");
    assert_eq!(mint(person("sam", Some("req-1"))), "token-2");
    assert_eq!(mint(person("alex", Some("req-2"))), "token-3");
    assert_eq!(mint(person("alex", None)), "token-4");
    assert_eq!(mint(Requester::Workload), "token-5");
    assert_eq!(mint(person("alex", Some("req-1"))), "token-1");
    assert_eq!(mint(Requester::Workload), "token-5");
}

#[test]
fn installations_are_kept_by_app_and_target() {
    let mut cache = GithubCache::new();
    let owner = InstallationTarget::Owner("alfa".to_string());
    let repository = InstallationTarget::Repository("alfa".to_string());
    assert_eq!(owner.cache_key(), "owner:alfa");
    assert_eq!(repository.cache_key(), "repo:alfa");
    assert_eq!(owner.to_text(), "owner 'alfa'");
    assert_eq!(repository.to_text(), "repository 'alfa'");

    cache.cache_installation_id("app", &owner, 1);
    cache.cache_installation_id("app", &repository, 2);
    cache.cache_installation_id("other", &owner, 3);
    assert_eq!(cache.cached_installation_id("app", &owner), Some(1));
    assert_eq!(cache.cached_installation_id("app", &repository), Some(2));
    assert_eq!(cache.cached_installation_id("other", &owner), Some(3));
    assert_eq!(cache.cached_installation_id("other", &repository), None);
    cache.cache_installation_id("app", &owner, 4);
    assert_eq!(cache.cached_installation_id("app", &owner), Some(4));
}

#[test]
fn known_installations_are_not_looked_up_again() {
    let mut stub = spawn_stub_github_api(&["myorg"]);
    let mut cache = GithubCache::new();
    for scope in [broad_scope(), narrow_scope(&[])] {
        create_installation_token(
            &mut stub,
            &mut cache,
            &repository_target(),
            scope,
            Requester::Workload,
            0,
        )
        .unwrap();
    }
    let key = InstallationTokenCacheKey {
        github_app: "default".to_string(),
        target: repository_target(),
        scope: narrow_scope(&[("issues", "read")]),
        requester: Requester::Workload,
    };
    assert_eq!(
        begin(&cache, &key, "https://stub", 0),
        MintStep::Request {
            url: token_url(STUB_REPOSITORY_INSTALLATION_ID),
            request: CreateInstallationTokenRequest {
                repositories: Some(vec!["alfa".to_string()]),
                permissions: Some(permissions(&[("issues", "read")])),
            },
        }
    );
}

#[test]
fn lookups_go_from_organization_to_user() {
    let owner = InstallationTarget::Owner("noa".to_string());
    assert_eq!(
        first_lookup(&owner),
        LookupStep::Ask {
            lookup: Lookup::Organization,
            path: "orgs/noa/installation".to_string()
        }
    );
    assert_eq!(
        next_lookup(&owner, Lookup::Organization, refused(404)),
        LookupStep::Ask {
            lookup: Lookup::User,
            path: "users/noa/installation".to_string()
        }
    );
    assert_eq!(next_lookup(&owner, Lookup::Organization, named(9)), LookupStep::Found(9));
    assert_eq!(next_lookup(&owner, Lookup::User, named(9)), LookupStep::Found(9));
    match next_lookup(&owner, Lookup::User, refused(404)) {
        LookupStep::Fail(error) => assert_eq!(
            error.to_text(),
            "no GitHub App installation found for owner 'noa' as an organization or a user"
        ),
        other => panic!("unexpected step {other:?}"),
    }

    let repository = repository_target();
    assert_eq!(
        first_lookup(&repository),
        LookupStep::Ask {
            lookup: Lookup::Repository,
            path: "repos/myorg/alfa/installation".to_string()
        }
    );
    match next_lookup(&repository, Lookup::Repository, refused(404)) {
        LookupStep::Fail(error) => assert_eq!(
            error.to_text(),
            "GitHub App installation lookup for 'myorg/alfa' returned an error status: status 404"
        ),
        other => panic!("unexpected step {other:?}"),
    }
    match first_lookup(&InstallationTarget::Repository("alfa".to_string())) {
        LookupStep::Fail(error) => {
            assert_eq!(error.to_text(), "repo 'alfa' must use owner/repo format")
        }
        other => panic!("unexpected step {other:?}"),
    }
}

#[test]
fn failed_lookups_do_not_go_on_to_the_user() {
    let owner = InstallationTarget::Owner("noa".to_string());
    let repository = repository_target();
    let text = |target: &InstallationTarget, lookup: Lookup, reply: LookupReply| {
        match next_lookup(target, lookup, reply) {
            LookupStep::Fail(error) => error.to_text(),
            other => panic!("unexpected step {other:?}"),
        }
    };
    let unreached = || LookupReply::Unreached { cause: "timed out".to_string() };
    let unreadable = || LookupReply::Response { status: 200, id: Err("no id".to_string()) };
    for status in [400, 401, 403, 405, 500, 599] {
        assert_eq!(
            text(&owner, Lookup::Organization, refused(status)),
            format!(
                "GitHub App installation lookup 'orgs/noa/installation' returned an error \
                 status: status {status}"
            )
        );
    }
    assert_eq!(
        text(&owner, Lookup::Organization, LookupReply::Response { status: 500, id: Ok(1) }),
        "GitHub App installation lookup 'orgs/noa/installation' returned an error status: \
         the response is an error"
    );
    assert_eq!(
        text(&owner, Lookup::Organization, unreached()),
        "failed to resolve GitHub App installation via 'orgs/noa/installation': timed out"
    );
    assert_eq!(
        text(&owner, Lookup::User, unreadable()),
        "failed to parse GitHub App installation lookup response for \
         'users/noa/installation': no id"
    );
    assert_eq!(
        text(&repository, Lookup::Repository, unreached()),
        "failed to resolve GitHub App installation for 'myorg/alfa': timed out"
    );
    assert_eq!(
        text(&repository, Lookup::Repository, unreadable()),
        "failed to parse GitHub App installation lookup response for 'myorg/alfa': no id"
    );
}

#[test]
fn addresses_hold_the_installation_id() {
    assert_eq!(
        access_tokens_url(GITHUB_API_URL, 0),
        "https://api.github.com/app/installations/0/access_tokens"
    );
    assert_eq!(
        access_tokens_url("x", u64::MAX),
        "x/app/installations/18446744073709551615/access_tokens"
    );
    assert_eq!(
        access_tokens_url("x", 1050),
        "x/app/installations/1050/access_tokens"
    );
}

#[test]
fn tokens_for_several_repositories_name_each_of_them() {
    let request = build_repositories_token_request(
        &vec!["myorg/alfa".to_string(), "myorg/bravo".to_string()],
        &permissions(&[("contents", "read")]),
    );
    assert_eq!(
        request,
        CreateInstallationTokenRequest {
            repositories: Some(vec!["alfa".to_string(), "bravo".to_string()]),
            permissions: Some(permissions(&[("contents", "read")])),
        }
    );
    assert_eq!(
        build_repositories_token_request(&vec!["a/b".to_string()], &permissions(&[])).permissions,
        None
    );
}

fn header(name: &str, value: &str) -> Header {
    Header {
        name: name.to_string(),
        value: value.as_bytes().to_vec(),
    }
}

#[test]
fn proxied_requests_carry_the_installation_token() {
    let headers = vec![
        header("authorization", "Bearer source-token"),
        header("Authorization", "Bearer source-token"),
        header("accept", "a"),
        header("host", "idcat.example.test"),
        header("connection", "keep-alive"),
        header("X-Custom", "one"),
        header("x-custom", "two"),
    ];
    assert_eq!(
        proxy_headers(&headers, "installation-token").unwrap(),
        vec![
            header("accept", "a"),
            header("x-custom", "two"),
            header("authorization", "Bearer installation-token"),
        ]
    );
    assert_eq!(
        proxy_headers(&headers, "line\nbreak").unwrap_err().to_text(),
        "failed to build proxied GitHub Authorization header"
    );
    assert!(proxy_headers(&headers, "caf\u{e9}\t").is_ok());
    assert!(proxy_headers(&headers, "\u{7f}").is_err());
}

#[test]
fn connection_headers_do_not_pass() {
    for name in [
        "connection",
        "proxy-authenticate",
        "proxy-authorization",
        "te",
        "trailer",
        "transfer-encoding",
        "upgrade",
    ] {
        assert!(!should_forward_header(name), "{name}");
        assert!(!should_return_proxy_header(name), "{name}");
    }
    for name in ["authorization", "host", "content-length"] {
        assert!(!should_forward_header(name), "{name}");
        assert!(should_return_proxy_header(name), "{name}");
    }
    for name in ["Authorization", "AUTHORIZATION", "Host", "Transfer-Encoding", "TE"] {
        assert!(!should_forward_header(name), "{name}");
    }
    assert!(!should_return_proxy_header("Connection"));
    for name in ["accept", "Accept", "x-github-request-id", ""] {
        assert!(should_forward_header(name), "{name}");
        assert!(should_return_proxy_header(name), "{name}");
    }
    assert_eq!(
        returned_headers(&vec![
            header("link", "a"),
            header("te", "b"),
            header("link", "c"),
            header("upgrade", "d"),
        ]),
        vec![header("link", "a"), header("link", "c")]
    );
}

#[test]
fn proxied_addresses_have_one_slash_and_the_query() {
    let url = |path: &str, query: Option<&str>| proxy_url("https://api.github.com", path, query);
    assert_eq!(url("repos/a/b", None), "https://api.github.com/repos/a/b");
    assert_eq!(url("//repos/a/b", Some("")), "https://api.github.com/repos/a/b");
    assert_eq!(
        url("repos/a/b", Some("page=2&q=x")),
        "https://api.github.com/repos/a/b?page=2&q=x"
    );
    assert_eq!(repository_path("a/b", None), "repos/a/b");
    assert_eq!(repository_path("a/b", Some("pulls/1")), "repos/a/b/pulls/1");
}
