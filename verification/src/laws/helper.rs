//! What the Git credential helper answers, over what it is configured with and
//! asked.
use crate::helper::config::{is_token_source, raw_problem, RawConfig, Repository, TokenSource};
use crate::helper::credential::{
    answered_repo, bare_path, first_line, repo_at, request_fields, Action,
};
use crate::helper::token_source::{signed_decimal, token_of, SourceOutput};
use crate::laws::texts::leading_characters_are_cut;
use crate::text::{
    decimal, lower, split_at_first, split_at_first_absent, split_at_first_index,
    split_at_first_parts, trimmed, without_leading,
};
use vstd::prelude::*;
use vstd::utf8::{decode_utf8, valid_utf8};

verus! {

proof fn line_is_cut(line: Seq<char>, rest: Seq<char>)
    requires
        !line.contains('\n'),
    ensures
        first_line(line + "\n"@ + rest) == (line, rest),
        first_line(line) == (line, Seq::<char>::empty()),
{
    reveal_strlit("\n");
    let input = line + "\n"@ + rest;
    let n = line.len() as int;
    assert(input[n] == '\n');
    assert forall|j: int| 0 <= j < n implies input[j] != '\n' by {
        assert(input[j] == line[j]);
        assert(line.contains(line[j]));
    }
    split_at_first_index(input, '\n', n);
    assert(input.take(n) =~= line);
    assert(input.skip(n + 1) =~= rest);
    split_at_first_absent(line, '\n');
}

/// A request is read line by line up to the first empty one. A line is a
/// field's name, `=` and its value, in which `=` may stand again; a line without
/// `=` says nothing, and a field that comes again replaces the earlier one.
pub proof fn requests_are_read_line_by_line(
    name: Seq<char>,
    value: Seq<char>,
    line: Seq<char>,
    rest: Seq<char>,
    before: Map<Seq<char>, Seq<char>>,
)
    ensures
        request_fields(Seq::empty(), before) == before,
        request_fields("\n"@ + rest, before) == before,
        !name.contains('=') && !name.contains('\n') && !value.contains('\n') ==> {
            &&& request_fields(name + "="@ + value + "\n"@ + rest, before) == request_fields(
                rest,
                before.insert(name, value),
            )
            &&& request_fields(name + "="@ + value, before) == before.insert(name, value)
        },
        line.len() > 0 && !line.contains('=') && !line.contains('\n') ==> request_fields(
            line + "\n"@ + rest,
            before,
        ) == request_fields(rest, before),
{
    reveal_strlit("=");
    reveal_strlit("\n");
    let none = Seq::<char>::empty();
    line_is_cut(none, rest);
    assert(none + "\n"@ + rest =~= "\n"@ + rest);
    if !name.contains('=') && !name.contains('\n') && !value.contains('\n') {
        let field = name + "="@ + value;
        let n = name.len() as int;
        assert(field[n] == '=');
        assert forall|j: int| 0 <= j < n implies field[j] != '=' by {
            assert(field[j] == name[j]);
            assert(name.contains(name[j]));
        }
        split_at_first_index(field, '=', n);
        assert(field.take(n) =~= name);
        assert(field.skip(n + 1) =~= value);
        if field.contains('\n') {
            let k = choose|k: int| 0 <= k < field.len() && field[k] == '\n';
            if k < n {
                assert(name[k] == '\n');
            } else if k > n {
                assert(value[k - n - 1] == '\n');
            }
        }
        line_is_cut(field, rest);
        assert(request_fields(none, before.insert(name, value)) == before.insert(name, value));
    }
    if line.len() > 0 && !line.contains('=') && !line.contains('\n') {
        line_is_cut(line, rest);
        split_at_first_absent(line, '=');
    }
}

proof fn slashes_are_cut(slashes: Seq<char>, path: Seq<char>)
    requires
        path.len() == 0 || path[0] != '/',
        forall|i: int| 0 <= i < slashes.len() ==> slashes[i] == '/',
    ensures
        without_leading(slashes + path, '/') == path,
{
    let whole = slashes + path;
    leading_characters_are_cut(whole, '/');
    let k = choose|k: int|
        {
            &&& 0 <= k <= whole.len()
            &&& without_leading(whole, '/') == #[trigger] whole.skip(k)
            &&& forall|j: int| 0 <= j < k ==> whole[j] == '/'
            &&& k < whole.len() ==> whole[k] != '/'
        };
    if k > slashes.len() {
        assert(whole[slashes.len() as int] == path[0]);
    }
    if k < slashes.len() {
        assert(whole[k] == slashes[k]);
    }
    assert(whole.skip(k) =~= path);
}

/// A path names a repository where it is, but for slashes in front and `.git`
/// behind, an owner and a name with one slash between them. What it names has
/// neither part empty nor a slash in it.
pub proof fn paths_name_repositories(
    slashes: Seq<char>,
    owner: Seq<char>,
    name: Seq<char>,
    path: Seq<char>,
)
    requires
        forall|i: int| 0 <= i < slashes.len() ==> slashes[i] == '/',
    ensures
        owner.len() > 0 && name.len() > 0 && !owner.contains('/') && !name.contains('/') ==> {
            &&& !".git"@.is_suffix_of(name) ==> repo_at(slashes + (owner + "/"@ + name)) == Some(
                (owner, name),
            )
            &&& repo_at(slashes + (owner + "/"@ + name + ".git"@)) == Some((owner, name))
        },
        repo_at(path) matches Some((o, n)) ==> {
            &&& o.len() > 0
            &&& n.len() > 0
            &&& !o.contains('/')
            &&& !n.contains('/')
            &&& bare_path(path) == o + "/"@ + n
        },
        !path.contains('/') ==> repo_at(path) is None,
{
    reveal_strlit("/");
    reveal_strlit(".git");
    if owner.len() > 0 && name.len() > 0 && !owner.contains('/') && !name.contains('/') {
        let plain = owner + "/"@ + name;
        let n = owner.len() as int;
        assert(plain[0] == owner[0]);
        assert(owner.contains(owner[0]));
        assert(plain[n] == '/');
        assert forall|j: int| 0 <= j < n implies plain[j] != '/' by {
            assert(plain[j] == owner[j]);
            assert(owner.contains(owner[j]));
        }
        split_at_first_index(plain, '/', n);
        assert(plain.take(n) =~= owner);
        assert(plain.skip(n + 1) =~= name);
        slashes_are_cut(slashes, plain);
        if !".git"@.is_suffix_of(name) && ".git"@.is_suffix_of(plain) {
            let m = plain.len() as int;
            assert(plain.subrange(m - 4, m) =~= ".git"@);
            if name.len() >= 4 {
                let w = name.len() as int;
                assert(name.subrange(w - 4, w) =~= plain.subrange(m - 4, m));
                assert(".git"@.is_suffix_of(name));
            } else {
                // The slash stands within the last four characters.
                let at = n - (m - 4);
                assert(0 <= at < 4);
                assert(plain.subrange(m - 4, m)[at] == '/');
                assert(".git"@[at] == '/');
            }
        }
        let dotted = plain + ".git"@;
        assert(owner + "/"@ + name + ".git"@ =~= dotted);
        assert(dotted[0] == plain[0]);
        slashes_are_cut(slashes, dotted);
        assert(dotted.take(dotted.len() - 4) =~= plain);
        assert(dotted.subrange(dotted.len() - 4, dotted.len() as int) =~= ".git"@);
        assert(".git"@.is_suffix_of(dotted));
    }
    if let Some((o, n)) = repo_at(path) {
        split_at_first_parts(bare_path(path), '/');
        assert(bare_path(path) =~= o + "/"@ + n);
    }
    if !path.contains('/') {
        leading_characters_are_cut(path, '/');
        let k = choose|k: int|
            {
                &&& 0 <= k <= path.len()
                &&& without_leading(path, '/') == #[trigger] path.skip(k)
                &&& forall|j: int| 0 <= j < k ==> path[j] == '/'
                &&& k < path.len() ==> path[k] != '/'
            };
        let bare = bare_path(path);
        assert forall|j: int| 0 <= j < bare.len() implies bare[j] != '/' by {
            assert(bare[j] == path[j + k]);
            assert(path.contains(path[j + k]));
        }
        split_at_first_parts(bare, '/');
    }
}

/// The helper answers exactly where it is asked for a credential, for
/// github.com by https, at a path that names a repository, and, where it is
/// configured for one repository, for that one, in whatever case. It answers for
/// the repository that was asked for.
pub proof fn answers_are_for_github_repositories(
    action: Action,
    configured: Option<Repository>,
    fields: Map<Seq<char>, Seq<char>>,
    owner: Seq<char>,
    name: Seq<char>,
)
    ensures
        answered_repo(action, configured, fields) == Some((owner, name)) <==> {
            &&& action == Action::Get
            &&& fields.contains_key("protocol"@) && fields["protocol"@] == "https"@
            &&& fields.contains_key("host"@) && fields["host"@] == "github.com"@
            &&& fields.contains_key("path"@) && repo_at(fields["path"@]) == Some((owner, name))
            &&& configured matches Some(repository) ==> lower(repository.owner@) == lower(owner)
                && lower(repository.name@) == lower(name)
        },
{
    if let Some(repository) = configured {
        crate::laws::texts::lower_case_is_of_ascii_letters(repository.owner@, owner, 0);
        crate::laws::texts::lower_case_is_of_ascii_letters(repository.name@, name, 0);
    }
}

/// The helper's configuration is in order exactly where it sets one of a token
/// file, a program and a command, not an empty one of the latter two, arguments
/// only beside a program, and, if any, one repository by owner and name, without
/// wildcards. The token's source is then the one that is set.
pub proof fn one_source_of_tokens_is_configured(raw: RawConfig, source: TokenSource)
    ensures
        raw_problem(raw) is None <==> {
            &&& {
                ||| raw.token_path is Some && raw.token_command is None
                    && raw.token_executable is None
                ||| raw.token_path is None && raw.token_command is Some
                    && raw.token_executable is None
                ||| raw.token_path is None && raw.token_command is None
                    && raw.token_executable is Some
            }
            &&& raw.token_executable is None ==> raw.token_args@.len() == 0
            &&& raw.token_executable matches Some(executable) ==> executable@.len() > 0
            &&& raw.token_command matches Some(command) ==> command@.len() > 0
            &&& raw.repository matches Some(repository) ==> {
                &&& split_at_first(repository@, '/') matches Some((owner, name)) && owner.len() > 0
                    && name.len() > 0 && !name.contains('/')
                &&& !repository@.contains('*')
                &&& !repository@.contains('?')
            }
        },
        is_token_source(source, raw) ==> match source {
            TokenSource::Path(path) => raw.token_path == Some(path),
            TokenSource::Program { executable, args } => raw.token_executable == Some(executable)
                && raw.token_args == args,
            TokenSource::ShellCommand(command) => raw.token_command == Some(command),
        },
{
    if let Some(executable) = raw.token_executable {
        if executable@.len() == 0 {
            assert(executable@ =~= Seq::<char>::empty());
        }
    }
    if let Some(command) = raw.token_command {
        if command@.len() == 0 {
            assert(command@ =~= Seq::<char>::empty());
        }
    }
}

/// A token is what a file holds, or what a program that succeeded printed, as
/// text without the white space round it. There is none exactly where the action
/// failed, the program did, the bytes are not text, or nothing is left.
pub proof fn tokens_are_what_the_source_gave(
    source: TokenSource,
    outcome: Result<SourceOutput, String>,
    token: Seq<char>,
)
    ensures
        token_of(source, outcome) == Ok::<Seq<char>, Seq<char>>(token) <==> (
        outcome matches Ok(output) && {
            &&& source is Path || output.success
            &&& valid_utf8(output.bytes@)
            &&& token == trimmed(decode_utf8(output.bytes@))
            &&& token.len() > 0
        }),
{
}

/// The error of a program that failed names its exit status, and nothing that
/// the program printed.
pub proof fn failed_programs_are_reported_by_status(
    source: TokenSource,
    output: SourceOutput,
    code: i32,
)
    requires
        !output.success,
        output.code == Some(code),
    ensures
        source is Program ==> token_of(source, Ok(output)) == Err::<Seq<char>, Seq<char>>(
            "token-executable"@ + " exited with status "@ + signed_decimal(code as int),
        ),
        source is ShellCommand ==> token_of(source, Ok(output)) == Err::<Seq<char>, Seq<char>>(
            "token-command"@ + " exited with status "@ + signed_decimal(code as int),
        ),
        code >= 0 ==> signed_decimal(code as int) == decimal(code as nat),
        code < 0 ==> signed_decimal(code as int) == "-"@ + decimal((-code) as nat),
{
}

/// What is wrong with the helper's configuration is told.
pub proof fn faults_of_the_configuration_are_told(raw: RawConfig)
    ensures
        raw.token_path is None && raw.token_command is None && raw.token_executable is None
            ==> raw_problem(raw) == Some(
            "configuration must set one of token-path, token-executable or token-command"@,
        ),
        (raw.token_path is Some && raw.token_command is Some) || (raw.token_path is Some
            && raw.token_executable is Some) || (raw.token_command is Some
            && raw.token_executable is Some) ==> raw_problem(raw) == Some(
            "configuration must set only one of token-path, token-executable or token-command"@,
        ),
        raw.token_path is Some && raw.token_command is None && raw.token_executable is None
            && raw.token_args@.len() > 0 ==> raw_problem(raw) == Some(
            "token-args requires token-executable"@,
        ),
{
}

/// Why there is no token is told: what was done in vain and why, or that what
/// came of it is no token.
pub proof fn missing_tokens_are_explained(
    path: String,
    executable: String,
    args: Vec<String>,
    command: String,
    reason: String,
    output: SourceOutput,
)
    requires
        output.success,
        valid_utf8(output.bytes@),
        trimmed(decode_utf8(output.bytes@)).len() == 0,
    ensures
        token_of(TokenSource::Path(path), Err(reason)) == Err::<Seq<char>, Seq<char>>(
            "failed to read token-path: "@ + path@ + ": "@ + reason@,
        ),
        token_of(TokenSource::Program { executable, args }, Err(reason)) == Err::<
            Seq<char>,
            Seq<char>,
        >("failed to execute token-executable: "@ + executable@ + ": "@ + reason@),
        token_of(TokenSource::ShellCommand(command), Err(reason)) == Err::<Seq<char>, Seq<char>>(
            "failed to execute token-command: "@ + command@ + ": "@ + reason@,
        ),
        token_of(TokenSource::Path(path), Ok(output)) == Err::<Seq<char>, Seq<char>>(
            "token-path produced an empty token"@,
        ),
        token_of(TokenSource::Program { executable, args }, Ok(output)) == Err::<
            Seq<char>,
            Seq<char>,
        >("token-executable"@ + " produced an empty token"@),
        token_of(TokenSource::ShellCommand(command), Ok(output)) == Err::<Seq<char>, Seq<char>>(
            "token-command"@ + " produced an empty token"@,
        ),
{
}

} // verus!
