//! Which installation of a GitHub App a target belongs to: where GitHub is
//! asked, and what follows from its answers.
use crate::github::{GithubError, InstallationTarget, TargetView};
use crate::text::{cat3, cat4, cat5, decimal, decimal_text, split_at_first, split_once};
use vstd::prelude::*;

verus! {

/// The status by which GitHub says that there is nothing at a path.
pub const NOT_FOUND: u16 = 404;

/// Where GitHub is asked for an installation.
#[derive(Debug, Clone, Copy, PartialEq, Eq, Structural)]
pub enum Lookup {
    /// At a repository.
    Repository,
    /// At an organization.
    Organization,
    /// At a user.
    User,
}

/// What to do about the installation of a target.
#[derive(Debug, PartialEq, Eq)]
pub enum LookupStep {
    /// Ask GitHub at this path.
    Ask { lookup: Lookup, path: String },
    /// This is the installation.
    Found(u64),
    /// There is none.
    Fail(GithubError),
}

/// The model of a `LookupStep`.
pub enum StepView {
    Ask { lookup: Lookup, path: Seq<char> },
    Found(u64),
    Fail(Seq<char>),
}

impl View for LookupStep {
    type V = StepView;

    open spec fn view(&self) -> StepView {
        match self {
            LookupStep::Ask { lookup, path } => StepView::Ask { lookup: *lookup, path: path@ },
            LookupStep::Found(id) => StepView::Found(*id),
            LookupStep::Fail(error) => StepView::Fail(error.message@),
        }
    }
}

/// Where GitHub is asked first. An account may be an organization or a user,
/// which GitHub serves from different paths; the organization's comes first.
pub open spec fn first_step(target: TargetView) -> StepView {
    match target {
        TargetView::Repository(repo) => match split_at_first(repo, '/') {
            Some((owner, name)) => StepView::Ask {
                lookup: Lookup::Repository,
                path: "repos/"@ + owner + "/"@ + name + "/installation"@,
            },
            None => StepView::Fail("repo '"@ + repo + "' must use owner/repo format"@),
        },
        TargetView::Owner(owner) => StepView::Ask {
            lookup: Lookup::Organization,
            path: account_path(owner, Lookup::Organization),
        },
    }
}

/// What came of asking GitHub at a path.
#[derive(Debug, PartialEq, Eq)]
pub enum LookupReply {
    /// No response, and why.
    Unreached { cause: String },
    /// A response with a status, and the id of the installation or why the
    /// response names none.
    Response { status: u16, id: Result<u64, String> },
}

/// The model of a `LookupReply`.
pub enum ReplyView {
    Unreached { cause: Seq<char> },
    Response { status: u16, id: Result<u64, Seq<char>> },
}

impl View for LookupReply {
    type V = ReplyView;

    open spec fn view(&self) -> ReplyView {
        match self {
            LookupReply::Unreached { cause } => ReplyView::Unreached { cause: cause@ },
            LookupReply::Response { status, id } => ReplyView::Response {
                status: *status,
                id: match id {
                    Ok(id) => Ok(*id),
                    Err(cause) => Err(cause@),
                },
            },
        }
    }
}

/// Whether a status says that a request failed.
pub open spec fn is_error_status(status: u16) -> bool {
    400 <= status && status < 600
}

/// The installation that a reply names.
pub open spec fn replied_id(reply: ReplyView) -> Option<u64> {
    match reply {
        ReplyView::Response { status, id: Ok(id) } => if is_error_status(status) {
            None
        } else {
            Some(id)
        },
        _ => None,
    }
}

/// Where GitHub is asked for the installation at an account.
pub open spec fn account_path(owner: Seq<char>, lookup: Lookup) -> Seq<char> {
    if lookup == Lookup::User {
        "users/"@ + owner + "/installation"@
    } else {
        "orgs/"@ + owner + "/installation"@
    }
}

/// What follows from a reply that is not an id: what failed, and why.
pub open spec fn failed_step(what: Seq<char>, cause: Seq<char>) -> StepView {
    StepView::Fail(what + ": "@ + cause)
}

/// Why a response names no installation.
pub open spec fn response_cause(id: Result<u64, Seq<char>>) -> Seq<char> {
    match id {
        Ok(_) => "the response is an error"@,
        Err(cause) => cause,
    }
}

/// What follows from a reply about a repository: only an id will do.
pub open spec fn repository_step(repo: Seq<char>, reply: ReplyView) -> StepView {
    match reply {
        ReplyView::Unreached { cause } => failed_step(
            "failed to resolve GitHub App installation for '"@ + repo + "'"@,
            cause,
        ),
        ReplyView::Response { status, id } => if is_error_status(status) {
            failed_step(
                "GitHub App installation lookup for '"@ + repo + "' returned an error status"@,
                response_cause(id),
            )
        } else {
            match id {
                Ok(id) => StepView::Found(id),
                Err(cause) => failed_step(
                    "failed to parse GitHub App installation lookup response for '"@ + repo
                        + "'"@,
                    cause,
                ),
            }
        },
    }
}

/// What follows from a reply about an account. Where no organization is found
/// by that name, the user is asked for; any other failure ends the lookup.
pub open spec fn account_step(owner: Seq<char>, lookup: Lookup, reply: ReplyView) -> StepView {
    let path = account_path(owner, lookup);
    match reply {
        ReplyView::Unreached { cause } => failed_step(
            "failed to resolve GitHub App installation via '"@ + path + "'"@,
            cause,
        ),
        ReplyView::Response { status, id } => if status == NOT_FOUND {
            if lookup == Lookup::User {
                StepView::Fail(
                    "no GitHub App installation found for owner '"@ + owner
                        + "' as an organization or a user"@,
                )
            } else {
                StepView::Ask { lookup: Lookup::User, path: account_path(owner, Lookup::User) }
            }
        } else if is_error_status(status) {
            failed_step(
                "GitHub App installation lookup '"@ + path + "' returned an error status"@,
                response_cause(id),
            )
        } else {
            match id {
                Ok(id) => StepView::Found(id),
                Err(cause) => failed_step(
                    "failed to parse GitHub App installation lookup response for '"@ + path
                        + "'"@,
                    cause,
                ),
            }
        },
    }
}

/// What follows from a reply.
pub open spec fn next_step(target: TargetView, lookup: Lookup, reply: ReplyView) -> StepView {
    match target {
        TargetView::Repository(repo) => repository_step(repo, reply),
        TargetView::Owner(owner) => account_step(owner, lookup, reply),
    }
}

/// Where GitHub is asked first for the installation of a target.
pub fn first_lookup(target: &InstallationTarget) -> (r: LookupStep)
    ensures
        r@ == first_step(target@),
{
    match target {
        InstallationTarget::Repository(repo) => match split_once(repo.as_str(), '/') {
            Some((owner, name)) => LookupStep::Ask {
                lookup: Lookup::Repository,
                path: cat5("repos/", owner, "/", name, "/installation"),
            },
            None => LookupStep::Fail(
                GithubError {
                    message: cat3("repo '", repo.as_str(), "' must use owner/repo format"),
                },
            ),
        },
        InstallationTarget::Owner(owner) => LookupStep::Ask {
            lookup: Lookup::Organization,
            path: path_of_account(owner.as_str(), Lookup::Organization),
        },
    }
}

fn failure(before: &str, what: &str, after: &str, cause: &str) -> (r: LookupStep)
    ensures
        r@ == failed_step(before@ + what@ + after@, cause@),
{
    let failed = cat3(before, what, after);
    LookupStep::Fail(GithubError { message: cat3(failed.as_str(), ": ", cause) })
}

fn cause_of(id: Result<u64, String>) -> (r: String)
    ensures
        r@ == response_cause(
            match id {
                Ok(id) => Ok(id),
                Err(cause) => Err(cause@),
            },
        ),
{
    match id {
        Ok(_) => "the response is an error".to_owned(),
        Err(cause) => cause,
    }
}

fn after_repository(repo: &str, reply: LookupReply) -> (r: LookupStep)
    ensures
        r@ == repository_step(repo@, reply@),
{
    match reply {
        LookupReply::Unreached { cause } => failure(
            "failed to resolve GitHub App installation for '",
            repo,
            "'",
            cause.as_str(),
        ),
        LookupReply::Response { status, id } => if 400 <= status && status < 600 {
            failure(
                "GitHub App installation lookup for '",
                repo,
                "' returned an error status",
                cause_of(id).as_str(),
            )
        } else {
            match id {
                Ok(id) => LookupStep::Found(id),
                Err(cause) => failure(
                    "failed to parse GitHub App installation lookup response for '",
                    repo,
                    "'",
                    cause.as_str(),
                ),
            }
        },
    }
}

fn path_of_account(owner: &str, lookup: Lookup) -> (r: String)
    ensures
        r@ == account_path(owner@, lookup),
{
    if lookup == Lookup::User {
        cat3("users/", owner, "/installation")
    } else {
        cat3("orgs/", owner, "/installation")
    }
}

fn after_account(owner: &str, lookup: Lookup, reply: LookupReply) -> (r: LookupStep)
    ensures
        r@ == account_step(owner@, lookup, reply@),
{
    let path = path_of_account(owner, lookup);
    match reply {
        LookupReply::Unreached { cause } => failure(
            "failed to resolve GitHub App installation via '",
            path.as_str(),
            "'",
            cause.as_str(),
        ),
        LookupReply::Response { status, id } => if status == NOT_FOUND {
            if lookup == Lookup::User {
                LookupStep::Fail(
                    GithubError {
                        message: cat3(
                            "no GitHub App installation found for owner '",
                            owner,
                            "' as an organization or a user",
                        ),
                    },
                )
            } else {
                LookupStep::Ask {
                    lookup: Lookup::User,
                    path: path_of_account(owner, Lookup::User),
                }
            }
        } else if 400 <= status && status < 600 {
            failure(
                "GitHub App installation lookup '",
                path.as_str(),
                "' returned an error status",
                cause_of(id).as_str(),
            )
        } else {
            match id {
                Ok(id) => LookupStep::Found(id),
                Err(cause) => failure(
                    "failed to parse GitHub App installation lookup response for '",
                    path.as_str(),
                    "'",
                    cause.as_str(),
                ),
            }
        },
    }
}

/// What follows from GitHub's reply to a lookup.
pub fn next_lookup(target: &InstallationTarget, lookup: Lookup, reply: LookupReply) -> (r:
    LookupStep)
    ensures
        r@ == next_step(target@, lookup, reply@),
{
    match target {
        InstallationTarget::Repository(repo) => after_repository(repo.as_str(), reply),
        InstallationTarget::Owner(owner) => after_account(owner.as_str(), lookup, reply),
    }
}

/// GitHub is asked at most twice: whatever it replies, the second reply ends
/// the lookup.
pub proof fn lookup_ends(target: TargetView, first: ReplyView, second: ReplyView)
    ensures
        match first_step(target) {
            StepView::Ask { lookup, .. } => match next_step(target, lookup, first) {
                StepView::Ask { lookup: again, .. } => !(next_step(
                    target,
                    again,
                    second,
                ) is Ask),
                _ => true,
            },
            _ => true,
        },
{
}

/// How an account is looked up. The organization of its name is asked for
/// first: an id settles it, and so does every failure but one. Only where GitHub
/// finds no organization is the user of its name asked for, and that reply
/// settles it: an id or a failure.
pub proof fn accounts_are_looked_up(owner: Seq<char>, first: ReplyView, second: ReplyView)
    ensures
        ({
            let target = TargetView::Owner(owner);
            let after_first = next_step(target, Lookup::Organization, first);
            let after_second = next_step(target, Lookup::User, second);
            let missing = first matches ReplyView::Response { status, .. } && status
                == NOT_FOUND;
            &&& first_step(target) == (StepView::Ask {
                lookup: Lookup::Organization,
                path: "orgs/"@ + owner + "/installation"@,
            })
            &&& missing ==> after_first == (StepView::Ask {
                lookup: Lookup::User,
                path: "users/"@ + owner + "/installation"@,
            })
            &&& !missing ==> match replied_id(first) {
                Some(id) => after_first == StepView::Found(id),
                None => after_first is Fail,
            }
            &&& match replied_id(second) {
                Some(id) => after_second == StepView::Found(id),
                None => after_second is Fail,
            }
        }),
{
}

/// The address at which a token of an installation is asked for.
pub fn access_tokens_url(api_url: &str, installation_id: u64) -> (r: String)
    ensures
        r@ == api_url@ + "/app/installations/"@ + decimal(installation_id as nat)
            + "/access_tokens"@,
{
    let id = decimal_text(installation_id);
    cat4(api_url, "/app/installations/", id.as_str(), "/access_tokens")
}

} // verus!
