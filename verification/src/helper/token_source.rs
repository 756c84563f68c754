//! The helper's own bearer token: what is done to have it, and what comes of
//! that.
use crate::helper::config::TokenSource;
use crate::text::{cat2, cat3, cat4, copy_texts, decimal, decimal_text, texts, trim, trimmed};
use vstd::prelude::*;
use vstd::utf8::{decode_utf8, encode_utf8, valid_utf8};

verus! {

/// What is done to have a token.
#[derive(Debug, PartialEq, Eq)]
pub enum TokenAction {
    /// Read this file.
    ReadFile { path: String },
    /// Run this program with exactly these arguments, and take what it prints.
    Run { executable: String, args: Vec<String> },
}

/// What came of it: the bytes of the file, or what the program printed and how
/// it ended.
#[derive(Debug)]
pub struct SourceOutput {
    pub success: bool,
    /// The exit status, where the program ended with one.
    pub code: Option<i32>,
    pub bytes: Vec<u8>,
}

/// Why there is no token.
#[derive(Debug, Clone, PartialEq, Eq)]
pub struct TokenError {
    pub message: String,
}

impl TokenError {
    /// The text of the error.
    pub fn to_text(&self) -> (r: String)
        ensures
            r@ == self.message@,
    {
        self.message.clone()
    }
}

/// What is done to have a token from a source. A program gets each argument as
/// it is written; a deprecated command goes through a shell.
pub fn token_action(source: &TokenSource) -> (r: TokenAction)
    ensures
        match *source {
            TokenSource::Path(path) => r == (TokenAction::ReadFile { path }),
            TokenSource::Program { executable, args } => r matches TokenAction::Run {
                executable: program,
                args: list,
            } && program == executable && list@ == args@,
            TokenSource::ShellCommand(command) => r matches TokenAction::Run {
                executable: program,
                args: list,
            } && program@ == "/bin/sh"@ && texts(list@) == seq!["-c"@, command@],
        },
{
    match source {
        TokenSource::Path(path) => TokenAction::ReadFile { path: path.clone() },
        TokenSource::Program { executable, args } => TokenAction::Run {
            executable: executable.clone(),
            args: copy_texts(args),
        },
        TokenSource::ShellCommand(command) => {
            let mut args: Vec<String> = Vec::new();
            args.push("-c".to_owned());
            args.push(command.clone());
            assert(texts(args@) =~= seq!["-c"@, command@]);
            TokenAction::Run { executable: "/bin/sh".to_owned(), args }
        },
    }
}

/// What `String::from_utf8` says is wrong with bytes that are not UTF-8.
pub uninterp spec fn utf8_fault(bytes: Seq<u8>) -> Seq<char>;

/// Calls `String::from_utf8`: the text that the bytes encode, where they are
/// UTF-8; otherwise the text of the error, which depends on the bytes alone.
#[verifier::external_body]
fn from_utf8(bytes: Vec<u8>) -> (r: Result<String, String>)
    ensures
        r is Ok <==> valid_utf8(bytes@),
        r matches Ok(text) ==> encode_utf8(text@) == bytes@,
        r matches Err(fault) ==> fault@ == utf8_fault(bytes@),
{
    match String::from_utf8(bytes) {
        Ok(text) => Ok(text),
        Err(error) => Err(error.to_string()),
    }
}

/// A whole number in decimal digits, with its sign where it is negative.
pub open spec fn signed_decimal(n: int) -> Seq<char> {
    if n < 0 {
        "-"@ + decimal((-n) as nat)
    } else {
        decimal(n as nat)
    }
}

fn signed_decimal_text(n: i32) -> (r: String)
    ensures
        r@ == signed_decimal(n as int),
{
    if n < 0 {
        let digits = decimal_text((-(n as i64)) as u64);
        cat2("-", digits.as_str())
    } else {
        decimal_text(n as u64)
    }
}

/// A token without the white space round it, unless nothing is left.
pub open spec fn trimmed_token(token: Seq<char>, empty_message: Seq<char>) -> Result<
    Seq<char>,
    Seq<char>,
> {
    if trimmed(token).len() == 0 {
        Err(empty_message)
    } else {
        Ok(trimmed(token))
    }
}

/// The view of an outcome.
pub open spec fn token_outcome(outcome: Result<String, TokenError>) -> Result<
    Seq<char>,
    Seq<char>,
> {
    match outcome {
        Ok(token) => Ok(token@),
        Err(error) => Err(error.message@),
    }
}

/// A token without the white space round it, unless nothing is left.
pub fn trim_token(token: &str, empty_message: &str) -> (r: Result<String, TokenError>)
    ensures
        token_outcome(r) == trimmed_token(token@, empty_message@),
{
    let token = trim(token);
    if token.is_empty() {
        return Err(TokenError { message: empty_message.to_owned() });
    }
    Ok(token.to_owned())
}

/// The token in a program's output. A failure is reported by the exit status
/// alone: a program may print a usable token and fail after that, and such a
/// token must not come to light.
pub open spec fn token_in_output(output: SourceOutput, source: Seq<char>) -> Result<
    Seq<char>,
    Seq<char>,
> {
    if !output.success {
        Err(
            source + " exited with status "@ + match output.code {
                Some(code) => signed_decimal(code as int),
                None => "unknown"@,
            },
        )
    } else if !valid_utf8(output.bytes@) {
        Err(source + " output was not UTF-8: "@ + utf8_fault(output.bytes@))
    } else {
        trimmed_token(decode_utf8(output.bytes@), source + " produced an empty token"@)
    }
}

/// The token in what a program printed: the text, or what is wrong with its
/// encoding.
pub fn token_from_text(printed: Result<String, String>, source: &str) -> (r: Result<
    String,
    TokenError,
>)
    ensures
        token_outcome(r) == match printed {
            Ok(text) => trimmed_token(text@, source@ + " produced an empty token"@),
            Err(fault) => Err(source@ + " output was not UTF-8: "@ + fault@),
        },
{
    match printed {
        Ok(text) => {
            let empty = cat2(source, " produced an empty token");
            trim_token(text.as_str(), empty.as_str())
        },
        Err(fault) => Err(
            TokenError { message: cat3(source, " output was not UTF-8: ", fault.as_str()) },
        ),
    }
}

/// The token in a program's output.
pub fn token_from_output(output: SourceOutput, source: &str) -> (r: Result<String, TokenError>)
    ensures
        token_outcome(r) == token_in_output(output, source@),
{
    if !output.success {
        let status = match output.code {
            Some(code) => signed_decimal_text(code),
            None => "unknown".to_owned(),
        };
        return Err(
            TokenError { message: cat3(source, " exited with status ", status.as_str()) },
        );
    }
    let printed = from_utf8(output.bytes);
    proof {
        if printed is Ok {
            vstd::utf8::encode_utf8_decode_utf8(printed->Ok_0@);
        }
    }
    token_from_text(printed, source)
}

/// The token of a source, given what came of its action: the output, or the
/// reason why there is none.
pub open spec fn token_of(source: TokenSource, outcome: Result<SourceOutput, String>) -> Result<
    Seq<char>,
    Seq<char>,
> {
    match (source, outcome) {
        (TokenSource::Path(path), Ok(output)) => if valid_utf8(output.bytes@) {
            trimmed_token(decode_utf8(output.bytes@), "token-path produced an empty token"@)
        } else {
            Err(
                "failed to read token-path: "@ + path@
                    + ": stream did not contain valid UTF-8"@,
            )
        },
        (TokenSource::Path(path), Err(reason)) => Err(
            "failed to read token-path: "@ + path@ + ": "@ + reason@,
        ),
        (TokenSource::Program { .. }, Ok(output)) => token_in_output(output, "token-executable"@),
        (TokenSource::Program { executable, .. }, Err(reason)) => Err(
            "failed to execute token-executable: "@ + executable@ + ": "@ + reason@,
        ),
        (TokenSource::ShellCommand(_), Ok(output)) => token_in_output(output, "token-command"@),
        (TokenSource::ShellCommand(command), Err(reason)) => Err(
            "failed to execute token-command: "@ + command@ + ": "@ + reason@,
        ),
    }
}

fn token_from_file(path: &str, bytes: Vec<u8>) -> (r: Result<String, TokenError>)
    ensures
        token_outcome(r) == (if valid_utf8(bytes@) {
            trimmed_token(decode_utf8(bytes@), "token-path produced an empty token"@)
        } else {
            Err("failed to read token-path: "@ + path@ + ": stream did not contain valid UTF-8"@)
        }),
{
    match from_utf8(bytes) {
        Err(_) => Err(
            TokenError {
                message: cat3(
                    "failed to read token-path: ",
                    path,
                    ": stream did not contain valid UTF-8",
                ),
            },
        ),
        Ok(text) => {
            proof {
                vstd::utf8::encode_utf8_decode_utf8(text@);
            }
            trim_token(text.as_str(), "token-path produced an empty token")
        },
    }
}

/// The token of a source, given what came of its action: the output, or the
/// reason why there is none.
pub fn read_token(source: &TokenSource, outcome: Result<SourceOutput, String>) -> (r: Result<
    String,
    TokenError,
>)
    ensures
        token_outcome(r) == token_of(*source, outcome),
{
    match source {
        TokenSource::Path(path) => match outcome {
            Ok(output) => token_from_file(path.as_str(), output.bytes),
            Err(reason) => Err(
                TokenError {
                    message: cat4(
                        "failed to read token-path: ",
                        path.as_str(),
                        ": ",
                        reason.as_str(),
                    ),
                },
            ),
        },
        TokenSource::Program { executable, .. } => match outcome {
            Ok(output) => token_from_output(output, "token-executable"),
            Err(reason) => Err(
                TokenError {
                    message: cat4(
                        "failed to execute token-executable: ",
                        executable.as_str(),
                        ": ",
                        reason.as_str(),
                    ),
                },
            ),
        },
        TokenSource::ShellCommand(command) => match outcome {
            Ok(output) => token_from_output(output, "token-command"),
            Err(reason) => Err(
                TokenError {
                    message: cat4(
                        "failed to execute token-command: ",
                        command.as_str(),
                        ": ",
                        reason.as_str(),
                    ),
                },
            ),
        },
    }
}

/// A failing program's output does not come to light: the error depends on the
/// exit status alone, whatever was printed.
pub proof fn failure_hides_the_output(
    source: TokenSource,
    output: SourceOutput,
    other: SourceOutput,
)
    requires
        !(source is Path),
        !output.success,
        !other.success,
        output.code == other.code,
    ensures
        token_of(source, Ok(output)) == token_of(source, Ok(other)),
        token_of(source, Ok(output)) is Err,
{
}

/// A token never has white space at either end, and is never empty.
pub proof fn tokens_are_trimmed(source: TokenSource, outcome: Result<SourceOutput, String>)
    ensures
        token_of(source, outcome) matches Ok(token) ==> token.len() > 0
            && !crate::text::white_space(token[0]) && !crate::text::white_space(token.last()),
{
    match outcome {
        Ok(output) => {
            crate::text::trimmed_has_no_white_space_at_its_ends(decode_utf8(output.bytes@));
        },
        Err(_) => {},
    }
}

} // verus!
