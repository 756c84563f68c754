//! Webhook deliveries: whether GitHub signed them, and where they go.
use crate::access::{ascii_text, header_text, is_visible};
use crate::config::WebhookTarget;
use crate::error::{AppError, AppErrorView};
use crate::hexadecimal::{hex_bytes, hex_round_trip, hex_text, is_hex};
use crate::service::AppState;
use crate::text::{cat3, strip_prefix, trim, trimmed};
use crate::validation::first_app;
use hmac::{KeyInit, Mac};
use vstd::prelude::*;
use vstd::utf8::encode_utf8;

verus! {

/// The HMAC-SHA-256 of a message under a key.
pub uninterp spec fn hmac_sha256(key: Seq<u8>, message: Seq<u8>) -> Seq<u8>;

/// Computes the HMAC-SHA-256 of a message with `hmac::Hmac` over
/// `sha2::Sha256`, whose key may have any length, and compares it with the tag
/// by `verify_slice`, which takes as long for every tag of the right length.
#[verifier::external_body]
fn hmac_matches(key: &[u8], message: &[u8], tag: &[u8]) -> (r: bool)
    ensures
        r == (tag@ == hmac_sha256(key@, message@)),
{
    let mac = hmac::Hmac::<sha2::Sha256>::new_from_slice(key);
    mac.map(|mac| mac.chain_update(message).verify_slice(tag).is_ok()).unwrap_or(false)
}

/// Whether a signature header is `sha256=` and the digits of a tag.
pub open spec fn signature_is(header: Seq<char>, tag: Seq<u8>) -> bool {
    let digits = header.skip("sha256="@.len() as int);
    "sha256="@.is_prefix_of(header) && is_hex(digits) && hex_bytes(digits) == tag
}

/// Whether a signature header is that of a delivery's body under a secret.
pub fn verify_signature(secret: &[u8], body: &[u8], signature_header: &str) -> (r: bool)
    ensures
        r == signature_is(signature_header@, hmac_sha256(secret@, body@)),
{
    match strip_prefix(signature_header, "sha256=") {
        Some(digits) => match crate::hexadecimal::decode(digits) {
            Some(tag) => hmac_matches(secret, body, tag.as_slice()),
            None => false,
        },
        None => false,
    }
}

/// The signature header that GitHub computes for a body, `sha256=` and the
/// digits of the tag, is accepted, and a header is accepted for no other tag.
pub proof fn signature_is_of_one_tag(tag: Seq<u8>, other: Seq<u8>)
    ensures
        signature_is("sha256="@ + hex_text(tag), other) <==> tag == other,
{
    let header = "sha256="@ + hex_text(tag);
    let n = "sha256="@.len() as int;
    assert(header.skip(n) =~= hex_text(tag));
    assert("sha256="@ =~= header.subrange(0, n));
    hex_round_trip(tag);
}

/// The text of a signature header, where it has one.
pub open spec fn signature_text(signature: Option<Seq<u8>>) -> Option<Seq<char>> {
    match signature {
        Some(value) => if forall|i: int| 0 <= i < value.len() ==> is_visible(#[trigger] value[i]) {
            Some(ascii_text(value))
        } else {
            None
        },
        None => None,
    }
}

/// Why a delivery is refused, if it is. White space round the secret is not
/// part of it.
pub open spec fn delivery_problem(
    secret_file: Seq<char>,
    secret: Result<Seq<char>, Seq<char>>,
    signature: Option<Seq<u8>>,
    body: Seq<u8>,
) -> Option<AppErrorView> {
    match secret {
        Err(reason) => Some(
            AppErrorView::Internal(
                "failed to read webhook validation secret from '"@ + secret_file + "': "@ + reason,
            ),
        ),
        Ok(contents) => if trimmed(contents).len() == 0 {
            Some(
                AppErrorView::Internal(
                    "webhook validation secret file '"@ + secret_file + "' is empty"@,
                ),
            )
        } else {
            match signature_text(signature) {
                None => Some(AppErrorView::Unauthorized("missing x-hub-signature-256 header"@)),
                Some(header) => if signature_is(
                    header,
                    hmac_sha256(encode_utf8(trimmed(contents)), body),
                ) {
                    None
                } else {
                    Some(AppErrorView::Unauthorized("webhook signature validation failed"@))
                },
            }
        },
    }
}

/// Refuses a delivery that was not signed with the secret: the contents of the
/// secret file, or the reason why it could not be read. The file is read for
/// every delivery, so that the secret can be changed at any time.
pub fn validate_delivery(
    secret_file: &str,
    secret: Result<&str, &str>,
    signature: Option<&[u8]>,
    body: &[u8],
) -> (r: Result<(), AppError>)
    ensures
        ({
            let contents = match secret {
                Ok(text) => Ok(text@),
                Err(reason) => Err(reason@),
            };
            let header = crate::access::header_bytes(signature);
            match r {
                Ok(_) => delivery_problem(secret_file@, contents, header, body@) is None,
                Err(error) => delivery_problem(secret_file@, contents, header, body@) == Some(
                    error@,
                ),
            }
        }),
{
    let contents = match secret {
        Ok(contents) => contents,
        Err(reason) => {
            return Err(
                AppError::Internal(
                    crate::text::cat4(
                        "failed to read webhook validation secret from '",
                        secret_file,
                        "': ",
                        reason,
                    ),
                ),
            );
        },
    };
    let key = trim(contents);
    if key.is_empty() {
        return Err(
            AppError::Internal(
                cat3("webhook validation secret file '", secret_file, "' is empty"),
            ),
        );
    }
    let header = match signature {
        Some(value) => header_text(value),
        None => None,
    };
    match header {
        None => Err(AppError::Unauthorized("missing x-hub-signature-256 header".to_owned())),
        Some(header) => if verify_signature(key.as_bytes(), body, header.as_str()) {
            Ok(())
        } else {
            Err(AppError::Unauthorized("webhook signature validation failed".to_owned()))
        },
    }
}

/// What is to be done with the deliveries of a GitHub App.
#[derive(Debug, PartialEq, Eq)]
pub struct DeliveryPlan<'a> {
    /// The file that holds the secret to validate them with; without one they
    /// are not validated.
    pub secret_file: Option<&'a str>,
    /// Whether they are published to NATS.
    pub publish: bool,
}

impl AppState {
    /// What is to be done with a delivery for a GitHub App.
    pub fn plan_delivery(&self, github_app_name: &str) -> (r: Result<DeliveryPlan<'_>, AppError>)
        ensures
            match first_app(self.github_apps@, github_app_name@) {
                Some(app) => {
                    &&& r matches Ok(plan)
                    &&& plan.publish == (app.webhook_target is Some)
                    &&& match plan.secret_file {
                        Some(file) => crate::text::text_of(app.webhook_validation_secret_file)
                            == Some(file@),
                        None => app.webhook_validation_secret_file is None,
                    }
                },
                None => r matches Err(error) && error@ == AppErrorView::NotFound(
                    "unknown github_app '"@ + github_app_name@ + "'"@,
                ),
            },
    {
        match self.github_app(github_app_name) {
            Ok(app) => {
                let secret_file = match &app.webhook_validation_secret_file {
                    Some(file) => Some(file.as_str()),
                    None => None,
                };
                let publish = match app.webhook_target {
                    Some(WebhookTarget::Nats) => true,
                    None => false,
                };
                Ok(DeliveryPlan { secret_file, publish })
            },
            Err(error) => Err(error),
        }
    }
}

} // verus!
