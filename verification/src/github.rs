//! Requests to GitHub: what is asked for, which answers are kept, and what a
//! proxied request carries.
use crate::service::{RepoScope, TokenScope};
use crate::string_map::{Duplicate, StringMap};
use crate::text::{cat2, cat3, same, split_at_first, split_once, texts};
use vstd::prelude::*;

verus! {

/// The address of GitHub's API.
pub const GITHUB_API_URL: &'static str = "https://api.github.com";

/// How long an installation token is handed out again: fifty minutes of the
/// hour that it lives, in nanoseconds.
pub const INSTALLATION_TOKEN_CACHE_TTL: u64 = 3_000_000_000_000;

/// Why a request to GitHub cannot be made, or came to nothing.
#[derive(Debug, Clone, PartialEq, Eq)]
pub struct GithubError {
    pub message: String,
}

impl GithubError {
    /// The text of the error.
    pub fn to_text(&self) -> (r: String)
        ensures
            r@ == self.message@,
    {
        self.message.clone()
    }
}

/// What a token request is aimed at. A repository resolves the installation
/// through the repository and can be scoped down to it; an owner resolves it
/// through the account and has no repository to scope to.
#[derive(Debug, Clone, PartialEq, Eq)]
pub enum InstallationTarget {
    /// A repository, as `owner/name`.
    Repository(String),
    /// An account, of an organization or a user.
    Owner(String),
}

/// The model of an `InstallationTarget`.
pub enum TargetView {
    Repository(Seq<char>),
    Owner(Seq<char>),
}

impl View for InstallationTarget {
    type V = TargetView;

    open spec fn view(&self) -> TargetView {
        match self {
            InstallationTarget::Repository(repo) => TargetView::Repository(repo@),
            InstallationTarget::Owner(owner) => TargetView::Owner(owner@),
        }
    }
}

impl TargetView {
    /// The target's part of the key of kept installation ids.
    pub open spec fn cache_key(self) -> Seq<char> {
        match self {
            TargetView::Repository(repo) => "repo:"@ + repo,
            TargetView::Owner(owner) => "owner:"@ + owner,
        }
    }

    /// How messages name the target.
    pub open spec fn label(self) -> Seq<char> {
        match self {
            TargetView::Repository(repo) => "repository '"@ + repo + "'"@,
            TargetView::Owner(owner) => "owner '"@ + owner + "'"@,
        }
    }
}

/// No two targets have one key: an owner never shares an entry with a
/// repository, whatever their names.
pub proof fn target_keys_differ(a: TargetView, b: TargetView)
    ensures
        a.cache_key() == b.cache_key() ==> a == b,
{
    reveal_strlit("repo:");
    reveal_strlit("owner:");
    let x = a.cache_key();
    let y = b.cache_key();
    if x == y {
        assert(x[0] == y[0]);
        match (a, b) {
            (TargetView::Repository(s), TargetView::Repository(t)) => {
                assert(s =~= x.skip(5));
                assert(t =~= y.skip(5));
            },
            (TargetView::Owner(s), TargetView::Owner(t)) => {
                assert(s =~= x.skip(6));
                assert(t =~= y.skip(6));
            },
            _ => {},
        }
    }
}

impl InstallationTarget {
    /// The target's part of the key of kept installation ids.
    pub fn cache_key(&self) -> (r: String)
        ensures
            r@ == self@.cache_key(),
    {
        match self {
            InstallationTarget::Repository(repo) => cat2("repo:", repo.as_str()),
            InstallationTarget::Owner(owner) => cat2("owner:", owner.as_str()),
        }
    }

    /// How messages name the target.
    pub fn to_text(&self) -> (r: String)
        ensures
            r@ == self@.label(),
    {
        match self {
            InstallationTarget::Repository(repo) => cat3("repository '", repo.as_str(), "'"),
            InstallationTarget::Owner(owner) => cat3("owner '", owner.as_str(), "'"),
        }
    }

    pub(crate) fn is(&self, other: &InstallationTarget) -> (r: bool)
        ensures
            r == (self@ == other@),
    {
        match (self, other) {
            (InstallationTarget::Repository(a), InstallationTarget::Repository(b)) => same(
                a.as_str(),
                b.as_str(),
            ),
            (InstallationTarget::Owner(a), InstallationTarget::Owner(b)) => same(
                a.as_str(),
                b.as_str(),
            ),
            _ => false,
        }
    }
}

/// What an installation token is asked for with. What is left out is not
/// restricted.
#[derive(Debug, Clone, PartialEq, Eq)]
pub struct CreateInstallationTokenRequest {
    pub repositories: Option<Vec<String>>,
    pub permissions: Option<StringMap<String>>,
}

/// The model of a `CreateInstallationTokenRequest`.
pub struct TokenRequestView {
    pub repositories: Option<Seq<Seq<char>>>,
    pub permissions: Option<Map<Seq<char>, Seq<char>>>,
}

impl View for CreateInstallationTokenRequest {
    type V = TokenRequestView;

    open spec fn view(&self) -> TokenRequestView {
        TokenRequestView {
            repositories: match self.repositories {
                Some(names) => Some(texts(names@)),
                None => None,
            },
            permissions: match self.permissions {
                Some(permissions) => Some(permissions@),
                None => None,
            },
        }
    }
}

/// The name of a repository without its owner.
pub open spec fn name_of(repo: Seq<char>) -> Seq<char> {
    match split_at_first(repo, '/') {
        Some((_, name)) => name,
        None => repo,
    }
}

/// The permissions to ask for: those of the scope, and nothing where it has
/// none.
pub open spec fn requested_permissions(permissions: Map<Seq<char>, Seq<char>>) -> Option<
    Map<Seq<char>, Seq<char>>,
> {
    if permissions == Map::<Seq<char>, Seq<char>>::empty() {
        None
    } else {
        Some(permissions)
    }
}

fn permissions_to_request(permissions: &StringMap<String>) -> (r: Option<StringMap<String>>)
    ensures
        (match r {
            Some(map) => Some(map@),
            None => None,
        }) == requested_permissions(permissions@),
{
    if permissions.is_empty() {
        None
    } else {
        Some(permissions.duplicate())
    }
}

/// What a token of a scope is asked for with. An owner names no repository, and
/// to fall back to the whole installation would hand out more than the caller
/// may have, so a repository's scope is refused there.
pub fn build_create_installation_token_request(
    scope: &TokenScope,
    target: &InstallationTarget,
) -> (r: Result<CreateInstallationTokenRequest, GithubError>)
    ensures
        match (scope.repositories, target@) {
            (RepoScope::All, _) => r matches Ok(request) && request@ == (TokenRequestView {
                repositories: None,
                permissions: requested_permissions(scope.permissions@),
            }),
            (RepoScope::OnlyRequested, TargetView::Repository(repo)) => r matches Ok(request)
                && request@ == (TokenRequestView {
                repositories: Some(seq![name_of(repo)]),
                permissions: requested_permissions(scope.permissions@),
            }),
            (RepoScope::OnlyRequested, TargetView::Owner(owner)) => r matches Err(error)
                && error.message@ == "cannot mint a repository-scoped token for owner '"@ + owner
                + "': no repository was requested"@,
        },
{
    let repositories = match scope.repositories {
        RepoScope::All => None,
        RepoScope::OnlyRequested => match target {
            InstallationTarget::Repository(repo) => {
                let name = match split_once(repo.as_str(), '/') {
                    Some((_, name)) => name,
                    None => repo.as_str(),
                };
                let mut names: Vec<String> = Vec::new();
                names.push(name.to_owned());
                assert(texts(names@) =~= seq![name_of(repo@)]);
                Some(names)
            },
            InstallationTarget::Owner(owner) => {
                return Err(
                    GithubError {
                        message: cat3(
                            "cannot mint a repository-scoped token for owner '",
                            owner.as_str(),
                            "': no repository was requested",
                        ),
                    },
                );
            },
        },
    };
    Ok(
        CreateInstallationTokenRequest {
            repositories,
            permissions: permissions_to_request(&scope.permissions),
        },
    )
}

/// What a token for several repositories of one owner is asked for with.
pub fn build_repositories_token_request(
    repositories: &Vec<String>,
    permissions: &StringMap<String>,
) -> (r: CreateInstallationTokenRequest)
    ensures
        r@ == (TokenRequestView {
            repositories: Some(texts(repositories@).map_values(|repo: Seq<char>| name_of(repo))),
            permissions: requested_permissions(permissions@),
        }),
{
    let ghost wanted = texts(repositories@).map_values(|repo: Seq<char>| name_of(repo));
    let mut names: Vec<String> = Vec::new();
    let mut i: usize = 0;
    while i < repositories.len()
        invariant
            i <= repositories@.len(),
            wanted == texts(repositories@).map_values(|repo: Seq<char>| name_of(repo)),
            texts(names@) == wanted.take(i as int),
        decreases repositories@.len() - i,
    {
        let repo = repositories[i].as_str();
        let name = match split_once(repo, '/') {
            Some((_, name)) => name,
            None => repo,
        };
        let ghost before = texts(names@);
        names.push(name.to_owned());
        i = i + 1;
        proof {
            assert(texts(names@) =~= before.push(name@));
            assert(wanted.take(i as int) =~= wanted.take(i - 1).push(wanted[i - 1]));
        }
    }
    assert(wanted.take(i as int) =~= wanted);
    CreateInstallationTokenRequest {
        repositories: Some(names),
        permissions: permissions_to_request(permissions),
    }
}

} // verus!
