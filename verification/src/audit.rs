//! The record of who was issued a token.
//!
//! GitHub's own record shows that a GitHub App made a token; it cannot show
//! which person asked for it. These records are the only place where that link
//! is made, for refusals as well as for grants. The only thing in them that
//! comes from a token is the beginning of its digest, by which two records of
//! one token can be joined and from which the token cannot be recovered.
use crate::hexadecimal::hex_text;
use crate::service::{HumanIdentity, IdentityView};
use crate::string_map::StringMap;
use crate::text::{cat3, join, joined, texts};
use sha2::Digest;
use vstd::prelude::*;
use vstd::utf8::encode_utf8;

verus! {

/// How many digits of a token's digest are recorded: enough to join records,
/// and useless for recovering the token.
pub const FINGERPRINT_LENGTH: usize = 16;

/// The SHA-256 digest of bytes.
pub uninterp spec fn sha256(bytes: Seq<u8>) -> Seq<u8>;

/// Calls `sha2::Sha256::digest`: a function of the bytes, thirty-two bytes long.
#[verifier::external_body]
fn digest(bytes: &[u8]) -> (r: Vec<u8>)
    ensures
        r@ == sha256(bytes@),
        r@.len() == 32,
{
    sha2::Sha256::digest(bytes).to_vec()
}

/// What is recorded of a token: the first digits of its digest.
pub open spec fn fingerprint(token: Seq<char>) -> Seq<char> {
    hex_text(sha256(encode_utf8(token))).take(FINGERPRINT_LENGTH as int)
}

/// The first digits of a digest.
pub fn abbreviate(digest: &Vec<u8>) -> (r: String)
    requires
        digest@.len() >= 8,
    ensures
        r@ == hex_text(digest@).take(FINGERPRINT_LENGTH as int),
{
    let digits = crate::hexadecimal::encode(digest.as_slice());
    let r = digits.as_str().substring_char(0, FINGERPRINT_LENGTH).to_owned();
    assert(r@ =~= hex_text(digest@).take(FINGERPRINT_LENGTH as int));
    r
}

/// A stable identifier of a token that does not disclose it.
pub fn token_fingerprint(token: &str) -> (r: String)
    ensures
        r@ == fingerprint(token@),
        r@.len() == FINGERPRINT_LENGTH,
{
    let digest = digest(token.as_bytes());
    abbreviate(&digest)
}

/// A permission and its level, as records show them.
pub open spec fn permission_text(permission: (Seq<char>, Seq<char>)) -> Seq<char> {
    permission.0 + "="@ + permission.1
}

/// Permissions as records show them, in the order of their names.
pub open spec fn permissions_text(pairs: Seq<(Seq<char>, Seq<char>)>) -> Seq<char> {
    joined(pairs.map_values(|pair: (Seq<char>, Seq<char>)| permission_text(pair)), ","@)
}

/// Permissions as records show them, in the order of their names.
pub fn permissions_label(permissions: &StringMap<String>) -> (r: String)
    ensures
        r@ == permissions_text(permissions.pairs()),
{
    let ghost wanted = permissions.pairs().map_values(
        |pair: (Seq<char>, Seq<char>)| permission_text(pair),
    );
    let mut parts: Vec<String> = Vec::new();
    let n: usize = permissions.len();
    let mut i: usize = 0;
    while i < n
        invariant
            i <= n,
            n == permissions.pairs().len(),
            wanted == permissions.pairs().map_values(
                |pair: (Seq<char>, Seq<char>)| permission_text(pair),
            ),
            texts(parts@) == wanted.take(i as int),
        decreases n - i,
    {
        let ghost before = texts(parts@);
        let part = cat3(permissions.key_at(i).as_str(), "=", permissions.value_at(i).as_str());
        parts.push(part);
        i = i + 1;
        proof {
            assert(texts(parts@) =~= before.push(part@));
            assert(wanted.take(i as int) =~= wanted.take(i - 1).push(wanted[i - 1]));
        }
    }
    assert(wanted.take(i as int) =~= wanted);
    join(&parts, ",")
}

/// That a person was issued a token for one repository.
#[derive(Debug, Clone, PartialEq, Eq)]
pub struct IssuanceRecord {
    pub event: &'static str,
    pub decision: &'static str,
    pub subject: String,
    pub teleport_request: String,
    pub human_role: String,
    pub github_app: String,
    pub repository: String,
    pub permissions: String,
    pub expires_at: String,
    pub token_fingerprint: String,
}

/// The model of an `IssuanceRecord`.
pub struct IssuanceView {
    pub event: Seq<char>,
    pub decision: Seq<char>,
    pub subject: Seq<char>,
    pub teleport_request: Seq<char>,
    pub human_role: Seq<char>,
    pub github_app: Seq<char>,
    pub repository: Seq<char>,
    pub permissions: Seq<char>,
    pub expires_at: Seq<char>,
    pub token_fingerprint: Seq<char>,
}

impl View for IssuanceRecord {
    type V = IssuanceView;

    open spec fn view(&self) -> IssuanceView {
        IssuanceView {
            event: self.event@,
            decision: self.decision@,
            subject: self.subject@,
            teleport_request: self.teleport_request@,
            human_role: self.human_role@,
            github_app: self.github_app@,
            repository: self.repository@,
            permissions: self.permissions@,
            expires_at: self.expires_at@,
            token_fingerprint: self.token_fingerprint@,
        }
    }
}

/// What is recorded of an issuance.
pub open spec fn issuance(
    identity: IdentityView,
    github_app: Seq<char>,
    repository: Seq<char>,
    permissions: Seq<(Seq<char>, Seq<char>)>,
    expires_at: Seq<char>,
    token: Seq<char>,
) -> IssuanceView {
    IssuanceView {
        event: "human_installation_token"@,
        decision: "allow"@,
        subject: identity.subject,
        teleport_request: match identity.request_id {
            Some(request) => request,
            None => "unknown"@,
        },
        human_role: identity.human_role,
        github_app,
        repository,
        permissions: permissions_text(permissions),
        expires_at,
        token_fingerprint: fingerprint(token),
    }
}

/// Records that a person was issued a token for exactly one repository.
pub fn record_issuance(
    identity: &HumanIdentity,
    github_app: &str,
    repository: &str,
    permissions: &StringMap<String>,
    expires_at: &str,
    token: &str,
) -> (r: IssuanceRecord)
    ensures
        r@ == issuance(
            identity@,
            github_app@,
            repository@,
            permissions.pairs(),
            expires_at@,
            token@,
        ),
{
    let teleport_request = match &identity.request_id {
        Some(request) => request.clone(),
        None => "unknown".to_owned(),
    };
    IssuanceRecord {
        event: "human_installation_token",
        decision: "allow",
        subject: identity.subject.clone(),
        teleport_request,
        human_role: identity.human_role.clone(),
        github_app: github_app.to_owned(),
        repository: repository.to_owned(),
        permissions: permissions_label(permissions),
        expires_at: expires_at.to_owned(),
        token_fingerprint: token_fingerprint(token),
    }
}

/// A record shows nothing of a token but its fingerprint: two tokens with one
/// fingerprint make one record.
pub proof fn issuance_shows_only_the_fingerprint(
    identity: IdentityView,
    github_app: Seq<char>,
    repository: Seq<char>,
    permissions: Seq<(Seq<char>, Seq<char>)>,
    expires_at: Seq<char>,
    token: Seq<char>,
    other: Seq<char>,
)
    requires
        fingerprint(token) == fingerprint(other),
    ensures
        issuance(identity, github_app, repository, permissions, expires_at, token) == issuance(
            identity,
            github_app,
            repository,
            permissions,
            expires_at,
            other,
        ),
{
}

/// That a person's request was refused.
#[derive(Debug, Clone, PartialEq, Eq)]
pub struct DenialRecord {
    pub event: &'static str,
    pub decision: &'static str,
    pub subject: String,
    pub github_app: String,
    pub repository: String,
    pub reason: String,
}

/// Records that a person's request was refused. There is no subject where the
/// token itself failed validation, since nothing in such a token may be taken
/// for an identity.
pub fn record_denial(
    subject: Option<&str>,
    github_app: &str,
    repository: &str,
    reason: &str,
) -> (r: DenialRecord)
    ensures
        r.event@ == "human_installation_token"@,
        r.decision@ == "deny"@,
        r.subject@ == match subject {
            Some(subject) => subject@,
            None => "unauthenticated"@,
        },
        r.github_app@ == github_app@,
        r.repository@ == repository@,
        r.reason@ == reason@,
{
    let subject = match subject {
        Some(subject) => subject.to_owned(),
        None => "unauthenticated".to_owned(),
    };
    DenialRecord {
        event: "human_installation_token",
        decision: "deny",
        subject,
        github_app: github_app.to_owned(),
        repository: repository.to_owned(),
        reason: reason.to_owned(),
    }
}

} // verus!
