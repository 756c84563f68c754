//! The requests for tokens, from the `Authorization` header to the decision.
use crate::config::GithubAppConfig;
use crate::error::{AppError, AppErrorView};
use crate::requests::{
    repository_names_problem, requested_pairs, scope_views, select_multiple_repository_permissions,
    selected_permissions, validate_repository_names,
};
use crate::service::{AppState, ScopeView, TokenScope};
use crate::string_map::StringMap;
use crate::text::{cat3, strip_prefix, texts};
use crate::validation::first_app;
use vstd::prelude::*;

verus! {

/// Whether a byte is a visible ASCII character, a space or a tab.
pub open spec fn is_visible(b: u8) -> bool {
    (32 <= b && b < 127) || b == 9
}

/// The characters of ASCII bytes.
pub open spec fn ascii_text(bytes: Seq<u8>) -> Seq<char> {
    bytes.map_values(|b: u8| b as char)
}

/// Calls `reqwest::header::HeaderValue::from_bytes` and `to_str` of the value:
/// the text of a header's value, where every byte is visible ASCII, a space or
/// a tab.
#[verifier::external_body]
pub(crate) fn header_text(value: &[u8]) -> (r: Option<String>)
    ensures
        r is Some <==> forall|i: int| 0 <= i < value@.len() ==> is_visible(#[trigger] value@[i]),
        r matches Some(text) ==> text@ == ascii_text(value@),
{
    let value = reqwest::header::HeaderValue::from_bytes(value).ok()?;
    value.to_str().ok().map(str::to_string)
}

/// The bearer token of an `Authorization` header, or what is wrong with it.
pub open spec fn bearer_token_of(authorization: Option<Seq<u8>>) -> Result<Seq<char>, Seq<char>> {
    match authorization {
        None => Err("missing Authorization header"@),
        Some(value) => {
            let text = ascii_text(value);
            if !(forall|i: int| 0 <= i < value.len() ==> is_visible(#[trigger] value[i])) {
                Err("invalid Authorization header"@)
            } else if !"Bearer "@.is_prefix_of(text) {
                Err("expected a Bearer token"@)
            } else if text.len() == "Bearer "@.len() {
                Err("empty bearer token"@)
            } else {
                Ok(text.skip("Bearer "@.len() as int))
            }
        },
    }
}

/// The view of an optional header.
pub open spec fn header_bytes(authorization: Option<&[u8]>) -> Option<Seq<u8>> {
    match authorization {
        Some(value) => Some(value@),
        None => None,
    }
}

/// The bearer token of an `Authorization` header.
pub fn extract_bearer_token(authorization: Option<&[u8]>) -> (r: Result<String, AppError>)
    ensures
        match r {
            Ok(token) => bearer_token_of(header_bytes(authorization)) == Ok::<
                Seq<char>,
                Seq<char>,
            >(token@),
            Err(error) => match bearer_token_of(header_bytes(authorization)) {
                Err(text) => error@ == AppErrorView::Unauthorized(text),
                Ok(_) => false,
            },
        },
{
    let value = match authorization {
        Some(value) => value,
        None => {
            return Err(AppError::Unauthorized("missing Authorization header".to_owned()));
        },
    };
    let text = match header_text(value) {
        Some(text) => text,
        None => {
            return Err(AppError::Unauthorized("invalid Authorization header".to_owned()));
        },
    };
    match strip_prefix(text.as_str(), "Bearer ") {
        None => Err(AppError::Unauthorized("expected a Bearer token".to_owned())),
        Some(token) => {
            if token.is_empty() {
                return Err(AppError::Unauthorized("empty bearer token".to_owned()));
            }
            Ok(token.to_owned())
        },
    }
}

/// The views of a GitHub App and a scope.
pub open spec fn repository_access(outcome: Result<(&GithubAppConfig, TokenScope), AppError>) -> Result<
    (GithubAppConfig, ScopeView),
    AppErrorView,
> {
    match outcome {
        Ok((app, scope)) => Ok((*app, scope@)),
        Err(error) => Err(error@),
    }
}

/// What a request for several repositories of one owner is granted.
#[derive(Debug, PartialEq, Eq)]
pub struct RepositoriesGrant {
    /// The repositories, each with its owner.
    pub repositories: Vec<String>,
    pub permissions: StringMap<String>,
}

/// The repositories of one owner, each with its owner.
pub open spec fn owned(owner: Seq<char>, names: Seq<Seq<char>>) -> Seq<Seq<char>> {
    names.map_values(|name: Seq<char>| owner + "/"@ + name)
}

fn with_owner(owner: &str, names: &Vec<String>) -> (r: Vec<String>)
    ensures
        texts(r@) == owned(owner@, texts(names@)),
{
    let ghost wanted = owned(owner@, texts(names@));
    let mut out: Vec<String> = Vec::new();
    let mut i: usize = 0;
    while i < names.len()
        invariant
            i <= names@.len(),
            wanted == owned(owner@, texts(names@)),
            texts(out@) == wanted.take(i as int),
        decreases names@.len() - i,
    {
        let ghost before = texts(out@);
        let repo = cat3(owner, "/", names[i].as_str());
        out.push(repo);
        i = i + 1;
        proof {
            assert(texts(out@) =~= before.push(repo@));
            assert(wanted.take(i as int) =~= wanted.take(i - 1).push(wanted[i - 1]));
        }
    }
    assert(wanted.take(i as int) =~= wanted);
    out
}

impl AppState {
    /// The bearer token that a workload's request is decided by. Where
    /// authorization is switched off it need not have one.
    pub open spec fn workload_token(self, authorization: Option<Seq<u8>>) -> Result<
        Option<Seq<char>>,
        AppErrorView,
    > {
        match bearer_token_of(authorization) {
            Ok(token) => Ok(Some(token)),
            Err(text) => if self.token_validator.roles() is None {
                Ok(None)
            } else {
                Err(AppErrorView::Unauthorized(text))
            },
        }
    }

    /// The bearer token that a workload's request is decided by.
    pub fn request_bearer_token(&self, authorization: Option<&[u8]>) -> (r: Result<
        Option<String>,
        AppError,
    >)
        ensures
            match r {
                Ok(token) => self.workload_token(header_bytes(authorization)) == Ok::<
                    Option<Seq<char>>,
                    AppErrorView,
                >(crate::text::text_of(token)),
                Err(error) => self.workload_token(header_bytes(authorization)) == Err::<
                    Option<Seq<char>>,
                    AppErrorView,
                >(error@),
            },
    {
        match extract_bearer_token(authorization) {
            Ok(token) => Ok(Some(token)),
            Err(error) => if self.token_validator.auth_enabled() {
                Err(error)
            } else {
                Ok(None)
            },
        }
    }

    /// What a workload's request for one repository comes to.
    pub open spec fn grants_repository(
        self,
        app_name: Seq<char>,
        repo: Seq<char>,
        authorization: Option<Seq<u8>>,
        outcome: Result<(GithubAppConfig, ScopeView), AppErrorView>,
    ) -> bool {
        match self.workload_token(authorization) {
            Err(error) => outcome == Err::<(GithubAppConfig, ScopeView), AppErrorView>(error),
            Ok(token) => match first_app(self.github_apps@, app_name) {
                None => outcome == Err::<(GithubAppConfig, ScopeView), AppErrorView>(
                    AppErrorView::NotFound("unknown github_app '"@ + app_name + "'"@),
                ),
                Some(app) => match outcome {
                    Ok((chosen, scope)) => chosen == app && self.authorizes(
                        app,
                        repo,
                        token,
                        Ok(scope),
                    ),
                    Err(error) => self.authorizes(app, repo, token, Err(error)),
                },
            },
        }
    }

    /// Decides a workload's request for one repository.
    pub fn authorize_repository(
        &self,
        github_app_name: &str,
        repo: &str,
        authorization: Option<&[u8]>,
    ) -> (r: Result<(&GithubAppConfig, TokenScope), AppError>)
        ensures
            self.grants_repository(
                github_app_name@,
                repo@,
                header_bytes(authorization),
                repository_access(r),
            ),
    {
        let token = match self.request_bearer_token(authorization) {
            Ok(token) => token,
            Err(error) => {
                return Err(error);
            },
        };
        let app = match self.github_app(github_app_name) {
            Ok(app) => app,
            Err(error) => {
                return Err(error);
            },
        };
        let bearer = match &token {
            Some(token) => Some(token.as_str()),
            None => None,
        };
        match self.authorize_github_app(app, repo, bearer) {
            Ok(scope) => Ok((app, scope)),
            Err(error) => Err(error),
        }
    }

    /// Whether these are the decisions on the repositories, one after another,
    /// up to the first that is refused.
    pub open spec fn are_decisions(
        self,
        app: GithubAppConfig,
        repositories: Seq<Seq<char>>,
        token: Option<Seq<char>>,
        decisions: Seq<Result<ScopeView, AppErrorView>>,
    ) -> bool {
        &&& decisions.len() <= repositories.len()
        &&& forall|i: int|
            0 <= i < decisions.len() ==> self.authorizes(
                app,
                repositories[i],
                token,
                #[trigger] decisions[i],
            )
        &&& forall|i: int| 0 <= i < decisions.len() - 1 ==> (#[trigger] decisions[i]) is Ok
        &&& decisions.len() < repositories.len() ==> decisions.len() > 0 && decisions.last() is Err
    }

    /// What a workload's request for several repositories comes to, once its
    /// names, its token and its GitHub App are found in order.
    pub open spec fn grants_after(
        self,
        app: GithubAppConfig,
        repositories: Seq<Seq<char>>,
        token: Option<Seq<char>>,
        requested: Option<Seq<(Seq<char>, Seq<char>)>>,
        outcome: Result<(Seq<Seq<char>>, Map<Seq<char>, Seq<char>>), AppErrorView>,
    ) -> bool {
        exists|decisions: Seq<Result<ScopeView, AppErrorView>>|
            {
                &&& #[trigger] self.are_decisions(app, repositories, token, decisions)
                &&& outcome == decided(repositories, requested, decisions)
            }
    }

    /// What a workload's request for several repositories of one owner comes
    /// to.
    pub open spec fn grants_repositories(
        self,
        app_name: Seq<char>,
        owner: Seq<char>,
        names: Seq<Seq<char>>,
        requested: Option<Seq<(Seq<char>, Seq<char>)>>,
        authorization: Option<Seq<u8>>,
        outcome: Result<(Seq<Seq<char>>, Map<Seq<char>, Seq<char>>), AppErrorView>,
    ) -> bool {
        match repository_names_problem(names) {
            Some(text) => outcome == Err::<
                (Seq<Seq<char>>, Map<Seq<char>, Seq<char>>),
                AppErrorView,
            >(AppErrorView::BadRequest(text)),
            None => match self.workload_token(authorization) {
                Err(error) => outcome == Err::<
                    (Seq<Seq<char>>, Map<Seq<char>, Seq<char>>),
                    AppErrorView,
                >(error),
                Ok(token) => match first_app(self.github_apps@, app_name) {
                    None => outcome == Err::<
                        (Seq<Seq<char>>, Map<Seq<char>, Seq<char>>),
                        AppErrorView,
                    >(AppErrorView::NotFound("unknown github_app '"@ + app_name + "'"@)),
                    Some(app) => self.grants_after(
                        app,
                        owned(owner, names),
                        token,
                        requested,
                        outcome,
                    ),
                },
            },
        }
    }

    /// Decides a workload's request for several repositories of one owner.
    pub fn authorize_repositories(
        &self,
        github_app_name: &str,
        owner: &str,
        names: &Vec<String>,
        permissions: Option<StringMap<String>>,
        authorization: Option<&[u8]>,
    ) -> (r: Result<RepositoriesGrant, AppError>)
        ensures
            self.grants_repositories(
                github_app_name@,
                owner@,
                texts(names@),
                requested_pairs(permissions),
                header_bytes(authorization),
                match r {
                    Ok(grant) => Ok((texts(grant.repositories@), grant.permissions@)),
                    Err(error) => Err(error@),
                },
            ),
    {
        if let Err(error) = validate_repository_names(names) {
            return Err(error);
        }
        let token = match self.request_bearer_token(authorization) {
            Ok(token) => token,
            Err(error) => {
                return Err(error);
            },
        };
        let app = match self.github_app(github_app_name) {
            Ok(app) => app,
            Err(error) => {
                return Err(error);
            },
        };
        let bearer = match &token {
            Some(token) => Some(token.as_str()),
            None => None,
        };
        let ghost known = crate::text::text_of(token);
        let repositories = with_owner(owner, names);
        let ghost wanted = requested_pairs(permissions);
        let mut scopes: Vec<TokenScope> = Vec::new();
        let ghost decisions: Seq<Result<ScopeView, AppErrorView>> = Seq::empty();
        let mut i: usize = 0;
        while i < repositories.len()
            invariant
                i <= repositories@.len(),
                texts(repositories@) == owned(owner@, texts(names@)),
                repository_names_problem(texts(names@)) is None,
                self.workload_token(header_bytes(authorization)) == Ok::<
                    Option<Seq<char>>,
                    AppErrorView,
                >(known),
                first_app(self.github_apps@, github_app_name@) == Some(*app),
                known == (match bearer {
                    Some(token) => Some(token@),
                    None => None,
                }),
                wanted == requested_pairs(permissions),
                decisions.len() == i,
                scope_views(scopes@).len() == i,
                forall|j: int|
                    0 <= j < i ==> #[trigger] decisions[j] == Ok::<ScopeView, AppErrorView>(
                        scope_views(scopes@)[j],
                    ),
                forall|j: int|
                    0 <= j < i ==> self.authorizes(
                        *app,
                        texts(repositories@)[j],
                        known,
                        #[trigger] decisions[j],
                    ),
            decreases repositories@.len() - i,
        {
            match self.authorize_github_app(app, repositories[i].as_str(), bearer) {
                Ok(scope) => {
                    let ghost before = scope_views(scopes@);
                    let ghost granted = scope@;
                    scopes.push(scope);
                    proof {
                        assert(scope_views(scopes@) =~= before.push(granted));
                        decisions = decisions.push(Ok(granted));
                    }
                },
                Err(error) => {
                    proof {
                        let ended = decisions.push(Err(error@));
                        assert(self.are_decisions(*app, texts(repositories@), known, ended));
                        assert(decided(texts(repositories@), wanted, ended) == Err::<
                            (Seq<Seq<char>>, Map<Seq<char>, Seq<char>>),
                            AppErrorView,
                        >(error@));
                    }
                    return Err(error);
                },
            }
            i = i + 1;
        }
        proof {
            assert(self.are_decisions(*app, texts(repositories@), known, decisions));
            assert(granted_scopes(decisions) =~= scope_views(scopes@));
        }
        match select_multiple_repository_permissions(permissions, &scopes) {
            Ok(permissions) => Ok(RepositoriesGrant { repositories, permissions }),
            Err(error) => Err(error),
        }
    }
}

/// The scopes of decisions that grant.
pub open spec fn granted_scopes(decisions: Seq<Result<ScopeView, AppErrorView>>) -> Seq<ScopeView> {
    decisions.map_values(|decision: Result<ScopeView, AppErrorView>| decision->Ok_0)
}

/// What decisions on repositories, up to the first that is refused, come to.
pub open spec fn decided(
    repositories: Seq<Seq<char>>,
    requested: Option<Seq<(Seq<char>, Seq<char>)>>,
    decisions: Seq<Result<ScopeView, AppErrorView>>,
) -> Result<(Seq<Seq<char>>, Map<Seq<char>, Seq<char>>), AppErrorView> {
    if decisions.len() > 0 && decisions.last() is Err {
        Err(decisions.last()->Err_0)
    } else {
        match selected_permissions(requested, granted_scopes(decisions)) {
            Ok(permissions) => Ok((repositories, permissions)),
            Err(error) => Err(error),
        }
    }
}

} // verus!
