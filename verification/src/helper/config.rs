//! The configuration of the credential helper.
use crate::checks::ConfigError;
use crate::text::{cat3, contains_char, split_at_first, split_once, text_of};
use vstd::prelude::*;

verus! {

/// The configuration as it is written.
#[derive(Debug)]
pub struct RawConfig {
    pub github_app: String,
    pub idcat_endpoint: String,
    /// The one repository that the helper has a credential for, as
    /// `owner/name`. Without it the helper answers for every repository; where
    /// tokens are made for a person it must be set.
    pub repository: Option<String>,
    pub token_path: Option<String>,
    /// Runs through a shell. Deprecated: `token_executable` and `token_args`
    /// take its place.
    pub token_command: Option<String>,
    pub token_executable: Option<String>,
    pub token_args: Vec<String>,
}

/// The configuration of the credential helper.
#[derive(Debug, PartialEq, Eq)]
pub struct Config {
    pub github_app: String,
    pub idcat_endpoint: String,
    pub repository: Option<Repository>,
    pub token_source: TokenSource,
}

/// A repository of an owner.
#[derive(Debug, Clone, PartialEq, Eq)]
pub struct Repository {
    pub owner: String,
    pub name: String,
}

/// Where the helper has its bearer token from.
#[derive(Debug, Clone, PartialEq, Eq)]
pub enum TokenSource {
    /// A file.
    Path(String),
    /// A fixed program with its arguments. No shell is involved, so nothing in
    /// them is split, globbed or substituted.
    Program { executable: String, args: Vec<String> },
    /// A command for a shell. Deprecated.
    ShellCommand(String),
}

/// The number of optional texts that are set.
pub open spec fn count_set(a: Option<String>, b: Option<String>, c: Option<String>) -> int {
    (if a is Some { 1int } else { 0 }) + (if b is Some { 1int } else { 0 }) + (if c is Some {
        1int
    } else {
        0
    })
}

/// What is wrong with the source of tokens that a configuration sets.
pub open spec fn token_source_problem(raw: RawConfig) -> Option<Seq<char>> {
    let set = count_set(raw.token_path, raw.token_command, raw.token_executable);
    if set == 0 {
        Some("configuration must set one of token-path, token-executable or token-command"@)
    } else if set > 1 {
        Some("configuration must set only one of token-path, token-executable or token-command"@)
    } else if raw.token_args@.len() > 0 && raw.token_executable is None {
        Some("token-args requires token-executable"@)
    } else if text_of(raw.token_executable) == Some(Seq::<char>::empty()) {
        Some("token-executable must not be empty"@)
    } else if text_of(raw.token_command) == Some(Seq::<char>::empty()) {
        Some("token-command must not be empty"@)
    } else {
        None
    }
}

/// The source of tokens that a configuration sets, where nothing is wrong with
/// it.
pub open spec fn is_token_source(source: TokenSource, raw: RawConfig) -> bool {
    match source {
        TokenSource::Path(path) => raw.token_path == Some(path),
        TokenSource::Program { executable, args } => raw.token_executable == Some(executable)
            && args == raw.token_args,
        TokenSource::ShellCommand(command) => raw.token_command == Some(command),
    }
}

/// What is wrong with the text of a repository.
pub open spec fn repository_problem(repository: Seq<char>) -> Option<Seq<char>> {
    match split_at_first(repository, '/') {
        Some((owner, name)) => if owner.len() == 0 || name.len() == 0 || name.contains('/') {
            Some("repository must be in owner/name form, got '"@ + repository + "'"@)
        } else if repository.contains('*') || repository.contains('?') {
            Some("repository must name one exact repository, got '"@ + repository + "'"@)
        } else {
            None
        },
        None => Some("repository must be in owner/name form, got '"@ + repository + "'"@),
    }
}

/// Reads a repository: exactly one `/`, with text on both sides, and no
/// pattern.
pub fn parse_repository(repository: &str) -> (r: Result<Repository, ConfigError>)
    ensures
        match r {
            Ok(parsed) => repository_problem(repository@) is None && split_at_first(
                repository@,
                '/',
            ) == Some((parsed.owner@, parsed.name@)),
            Err(error) => repository_problem(repository@) == Some(error.message@),
        },
{
    match split_once(repository, '/') {
        None => Err(
            ConfigError::new(
                cat3("repository must be in owner/name form, got '", repository, "'"),
            ),
        ),
        Some((owner, name)) => {
            if owner.is_empty() || name.is_empty() || contains_char(name, '/') {
                return Err(
                    ConfigError::new(
                        cat3("repository must be in owner/name form, got '", repository, "'"),
                    ),
                );
            }
            if contains_char(repository, '*') || contains_char(repository, '?') {
                return Err(
                    ConfigError::new(
                        cat3("repository must name one exact repository, got '", repository, "'"),
                    ),
                );
            }
            Ok(Repository { owner: owner.to_owned(), name: name.to_owned() })
        },
    }
}

/// The first thing that is wrong with a configuration.
pub open spec fn raw_problem(raw: RawConfig) -> Option<Seq<char>> {
    match token_source_problem(raw) {
        Some(text) => Some(text),
        None => match raw.repository {
            Some(repository) => repository_problem(repository@),
            None => None,
        },
    }
}

fn is_empty_text(text: &String) -> (r: bool)
    ensures
        r == (text@ == Seq::<char>::empty()),
{
    proof {
        if text@.len() == 0 {
            assert(text@ =~= Seq::empty());
        }
    }
    text.as_str().is_empty()
}

impl RawConfig {
    fn token_source(self) -> (r: Result<TokenSource, ConfigError>)
        ensures
            match r {
                Ok(source) => token_source_problem(self) is None && is_token_source(source, self),
                Err(error) => token_source_problem(self) == Some(error.message@),
            },
    {
        if self.token_args.len() > 0 && self.token_executable.is_none() && (
        self.token_path.is_some() != self.token_command.is_some()) {
            return Err(ConfigError::new("token-args requires token-executable".to_owned()));
        }
        match (self.token_path, self.token_executable, self.token_command) {
            (Some(path), None, None) => Ok(TokenSource::Path(path)),
            (None, Some(executable), None) => {
                if is_empty_text(&executable) {
                    return Err(ConfigError::new("token-executable must not be empty".to_owned()));
                }
                Ok(TokenSource::Program { executable, args: self.token_args })
            },
            (None, None, Some(command)) => {
                if is_empty_text(&command) {
                    return Err(ConfigError::new("token-command must not be empty".to_owned()));
                }
                Ok(TokenSource::ShellCommand(command))
            },
            (None, None, None) => Err(
                ConfigError::new(
                    "configuration must set one of token-path, token-executable or token-command".to_owned(),
                ),
            ),
            _ => Err(
                ConfigError::new(
                    "configuration must set only one of token-path, token-executable or token-command".to_owned(),
                ),
            ),
        }
    }
}

impl Config {
    /// Checks a configuration: exactly one source of tokens, and at most one
    /// repository.
    pub fn try_from(raw: RawConfig) -> (r: Result<Config, ConfigError>)
        ensures
            match r {
                Ok(config) => {
                    &&& raw_problem(raw) is None
                    &&& config.github_app == raw.github_app
                    &&& config.idcat_endpoint == raw.idcat_endpoint
                    &&& is_token_source(config.token_source, raw)
                    &&& match config.repository {
                        Some(repository) => raw.repository is Some && split_at_first(
                            raw.repository->Some_0@,
                            '/',
                        ) == Some((repository.owner@, repository.name@)),
                        None => raw.repository is None,
                    }
                },
                Err(error) => raw_problem(raw) == Some(error.message@),
            },
    {
        let RawConfig {
            github_app,
            idcat_endpoint,
            repository,
            token_path,
            token_command,
            token_executable,
            token_args,
        } = raw;
        let sources = RawConfig {
            github_app: String::new(),
            idcat_endpoint: String::new(),
            repository: None,
            token_path,
            token_command,
            token_executable,
            token_args,
        };
        let token_source = match sources.token_source() {
            Ok(source) => source,
            Err(error) => {
                return Err(error);
            },
        };
        let repository = match repository {
            Some(text) => match parse_repository(text.as_str()) {
                Ok(parsed) => Some(parsed),
                Err(error) => {
                    return Err(error);
                },
            },
            None => None,
        };
        Ok(Config { github_app, idcat_endpoint, repository, token_source })
    }

    /// Whether the helper has a credential for one repository only. Where
    /// tokens are made for a person it must.
    pub fn is_scoped(&self) -> (r: bool)
        ensures
            r == self.repository is Some,
    {
        self.repository.is_some()
    }

    /// Whether the deprecated source of tokens is in use.
    pub fn uses_shell(&self) -> (r: bool)
        ensures
            r == self.token_source is ShellCommand,
    {
        match &self.token_source {
            TokenSource::ShellCommand(_) => true,
            _ => false,
        }
    }
}

} // verus!
