//! Git's requests for credentials, and the answers to them.
use crate::helper::config::{Config, Repository};
use crate::string_map::StringMap;
use crate::text::{
    cat3, cat7, contains_char, ends_with, equal_ignoring_ascii_case, same,
    same_ignoring_ascii_case, split_at_first, split_once, trim_start_char, without_leading,
};
use vstd::prelude::*;

verus! {

/// What Git wants of the helper.
#[derive(Debug, Clone, Copy, PartialEq, Eq, Structural)]
pub enum Action {
    /// A credential.
    Get,
    /// That it keep a credential.
    Store,
    /// That it forget a credential.
    Erase,
}

/// The repository that a credential is asked for.
#[derive(Debug, Clone, PartialEq, Eq)]
pub struct Repo {
    pub owner: String,
    pub name: String,
}

/// The first line of a text, and what follows it.
pub open spec fn first_line(input: Seq<char>) -> (Seq<char>, Seq<char>) {
    match split_at_first(input, '\n') {
        Some((line, rest)) => (line, rest),
        None => (input, Seq::empty()),
    }
}

proof fn first_line_is_shorter(input: Seq<char>)
    requires
        input.len() > 0,
    ensures
        first_line(input).1.len() < input.len(),
{
    crate::text::split_at_first_parts(input, '\n');
}

/// The fields of a request: lines of a name, `=` and a value, up to an empty
/// line. A later value takes the place of an earlier one, and a line without
/// `=` counts for nothing.
pub open spec fn request_fields(
    input: Seq<char>,
    before: Map<Seq<char>, Seq<char>>,
) -> Map<Seq<char>, Seq<char>>
    decreases input.len(),
    via request_fields_decreases
{
    let (line, rest) = first_line(input);
    if line.len() == 0 {
        before
    } else {
        request_fields(
            rest,
            match split_at_first(line, '=') {
                Some((name, value)) => before.insert(name, value),
                None => before,
            },
        )
    }
}

#[via_fn]
proof fn request_fields_decreases(input: Seq<char>, before: Map<Seq<char>, Seq<char>>) {
    if input.len() > 0 {
        first_line_is_shorter(input);
    }
}

/// Reads the fields of a request.
pub fn parse_credential(input: &str) -> (r: StringMap<String>)
    ensures
        r@ == request_fields(input@, Map::empty()),
{
    let mut fields: StringMap<String> = StringMap::new();
    let mut rest: &str = input;
    loop
        invariant
            request_fields(input@, Map::empty()) == request_fields(rest@, fields@),
        decreases rest@.len(),
    {
        let (line, after) = match split_once(rest, '\n') {
            Some((line, after)) => (line, after),
            None => (rest, ""),
        };
        proof {
            reveal_strlit("");
            assert(""@ =~= Seq::empty());
            if rest@.len() > 0 {
                first_line_is_shorter(rest@);
            }
        }
        if line.is_empty() {
            return fields;
        }
        assert(rest@.len() > 0);
        if let Some((name, value)) = split_once(line, '=') {
            fields = fields.with(name.to_owned(), value.to_owned());
        }
        rest = after;
    }
}

/// Whether a field of a request has a value.
pub open spec fn field_is(
    fields: Map<Seq<char>, Seq<char>>,
    name: Seq<char>,
    value: Seq<char>,
) -> bool {
    fields.contains_key(name) && fields[name] == value
}

fn has_field(credential: &StringMap<String>, name: &str, value: &str) -> (r: bool)
    ensures
        r == field_is(credential@, name@, value@),
{
    match credential.get(name) {
        Some(text) => same(text.as_str(), value),
        None => false,
    }
}

/// A request for GitHub over HTTPS.
pub open spec fn is_github_request(fields: Map<Seq<char>, Seq<char>>) -> bool {
    field_is(fields, "protocol"@, "https"@) && field_is(fields, "host"@, "github.com"@)
}

/// Whether a request is for GitHub over HTTPS.
pub fn is_github_https_request(credential: &StringMap<String>) -> (r: bool)
    ensures
        r == is_github_request(credential@),
{
    has_field(credential, "protocol", "https") && has_field(credential, "host", "github.com")
}

/// A path without a leading `/` and without `.git` at its end.
pub open spec fn bare_path(path: Seq<char>) -> Seq<char> {
    let path = without_leading(path, '/');
    if ".git"@.is_suffix_of(path) {
        path.take(path.len() - ".git"@.len())
    } else {
        path
    }
}

/// The owner and the name of the repository at a path, where the path is that
/// of a repository.
pub open spec fn repo_at(path: Seq<char>) -> Option<(Seq<char>, Seq<char>)> {
    match split_at_first(bare_path(path), '/') {
        Some((owner, name)) => if owner.len() > 0 && name.len() > 0 && !name.contains('/') {
            Some((owner, name))
        } else {
            None
        },
        None => None,
    }
}

fn strip_path<'a>(path: &'a str) -> (r: &'a str)
    ensures
        r@ == bare_path(path@),
{
    let path = trim_start_char(path, '/');
    if ends_with(path, ".git") {
        let suffix = ".git";
        let n: usize = path.unicode_len() - suffix.unicode_len();
        let bare = path.substring_char(0, n);
        assert(bare@ =~= path@.take(path@.len() - ".git"@.len()));
        bare
    } else {
        path
    }
}

/// The repository of a request.
pub open spec fn requested_repo(fields: Map<Seq<char>, Seq<char>>) -> Option<
    (Seq<char>, Seq<char>),
> {
    if fields.contains_key("path"@) {
        repo_at(fields["path"@])
    } else {
        None
    }
}

/// The repository of a request.
pub fn repo_from_credential(credential: &StringMap<String>) -> (r: Option<Repo>)
    ensures
        match r {
            Some(repo) => requested_repo(credential@) == Some((repo.owner@, repo.name@)),
            None => requested_repo(credential@) is None,
        },
{
    match credential.get("path") {
        Some(path) => match split_once(strip_path(path.as_str()), '/') {
            Some((owner, name)) => if !owner.is_empty() && !name.is_empty() && !contains_char(
                name,
                '/',
            ) {
                Some(Repo { owner: owner.to_owned(), name: name.to_owned() })
            } else {
                None
            },
            None => None,
        },
        None => None,
    }
}

/// Whether the helper has a credential for a repository. A configured
/// repository is a hard boundary. GitHub does not tell upper from lower case in
/// the names of owners and repositories.
pub open spec fn is_answered(
    configured: Option<Repository>,
    owner: Seq<char>,
    name: Seq<char>,
) -> bool {
    match configured {
        None => true,
        Some(repository) => equal_ignoring_ascii_case(repository.owner@, owner)
            && equal_ignoring_ascii_case(repository.name@, name),
    }
}

/// Whether the helper has a credential for a repository.
pub fn answers_for(configured: Option<&Repository>, requested: &Repo) -> (r: bool)
    ensures
        r == is_answered(
            match configured {
                Some(repository) => Some(*repository),
                None => None,
            },
            requested.owner@,
            requested.name@,
        ),
{
    match configured {
        None => true,
        Some(configured) => same_ignoring_ascii_case(
            configured.owner.as_str(),
            requested.owner.as_str(),
        ) && same_ignoring_ascii_case(configured.name.as_str(), requested.name.as_str()),
    }
}

/// The repository that a request of Git is answered for, if it is: one for a
/// credential of a repository that the helper has a credential for.
pub open spec fn answered_repo(
    action: Action,
    configured: Option<Repository>,
    fields: Map<Seq<char>, Seq<char>>,
) -> Option<(Seq<char>, Seq<char>)> {
    if action != Action::Get || !is_github_request(fields) {
        None
    } else {
        match requested_repo(fields) {
            Some((owner, name)) => if is_answered(configured, owner, name) {
                Some((owner, name))
            } else {
                None
            },
            None => None,
        }
    }
}

/// The repository that a request of Git is answered for. Where there is none,
/// nothing is printed, and Git goes on to other helpers.
pub fn plan_answer(config: &Config, action: Action, credential: &StringMap<String>) -> (r: Option<
    Repo,
>)
    ensures
        match r {
            Some(repo) => answered_repo(action, config.repository, credential@) == Some(
                (repo.owner@, repo.name@),
            ),
            None => answered_repo(action, config.repository, credential@) is None,
        },
{
    if action != Action::Get || !is_github_https_request(credential) {
        return None;
    }
    match repo_from_credential(credential) {
        Some(repo) => if answers_for(config.repository.as_ref(), &repo) {
            Some(repo)
        } else {
            None
        },
        None => None,
    }
}

/// Where an installation token for a repository is asked for.
pub fn installation_token_url(config: &Config, repo: &Repo) -> (r: String)
    ensures
        r@ == config.idcat_endpoint@ + "/installation-token/"@ + config.github_app@ + "/"@
            + repo.owner@ + "/"@ + repo.name@,
{
    cat7(
        config.idcat_endpoint.as_str(),
        "/installation-token/",
        config.github_app.as_str(),
        "/",
        repo.owner.as_str(),
        "/",
        repo.name.as_str(),
    )
}

/// What is printed for Git: the user name of tokens, and the token as the
/// password.
pub fn credential_output(installation_token: &str) -> (r: String)
    ensures
        r@ == "username=x-access-token\npassword="@ + installation_token@ + "\n\n"@,
{
    cat3("username=x-access-token\npassword=", installation_token, "\n\n")
}

/// A helper that is configured for one repository answers for no other, and
/// requests to keep or to forget a credential are not answered at all.
pub proof fn configured_repository_is_a_boundary(
    action: Action,
    repository: Repository,
    fields: Map<Seq<char>, Seq<char>>,
)
    ensures
        answered_repo(action, Some(repository), fields) matches Some((owner, name)) ==> action
            == Action::Get && equal_ignoring_ascii_case(repository.owner@, owner)
            && equal_ignoring_ascii_case(repository.name@, name),
{
}

} // verus!
