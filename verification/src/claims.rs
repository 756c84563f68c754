//! The claims of a token's payload.
use crate::algorithm::Algorithm;
use crate::string_map::Duplicate;
use crate::text::{copy_text, text_of};
use vstd::prelude::*;

verus! {

/// The value of a claim, as far as this library looks at it.
#[derive(Debug, Clone, PartialEq, Eq)]
pub enum ClaimValue {
    /// A JSON string.
    Text(String),
    /// A JSON array: its strings, and `None` for each member that is none.
    List(Vec<Option<String>>),
    /// Any other JSON value.
    Other,
}

/// The model of a `ClaimValue`.
pub enum ClaimView {
    Text(Seq<char>),
    List(Seq<Option<Seq<char>>>),
    Other,
}

/// The views of the members of an array claim.
pub open spec fn members(list: Seq<Option<String>>) -> Seq<Option<Seq<char>>> {
    list.map_values(|member: Option<String>| text_of(member))
}

impl View for ClaimValue {
    type V = ClaimView;

    open spec fn view(&self) -> ClaimView {
        match self {
            ClaimValue::Text(text) => ClaimView::Text(text@),
            ClaimValue::List(list) => ClaimView::List(members(list@)),
            ClaimValue::Other => ClaimView::Other,
        }
    }
}

impl Duplicate for ClaimValue {
    fn duplicate(&self) -> (r: Self) {
        match self {
            ClaimValue::Text(text) => ClaimValue::Text(text.clone()),
            ClaimValue::List(list) => {
                let mut out: Vec<Option<String>> = Vec::new();
                let mut i: usize = 0;
                while i < list.len()
                    invariant
                        i <= list@.len(),
                        out@ == list@.take(i as int),
                    decreases list@.len() - i,
                {
                    out.push(copy_text(&list[i]));
                    i = i + 1;
                    assert(list@.take(i as int).drop_last() =~= list@.take(i - 1));
                }
                assert(list@.take(i as int) =~= list@);
                ClaimValue::List(out)
            },
            ClaimValue::Other => ClaimValue::Other,
        }
    }
}

/// A claim's text, where the claim is there and is text.
pub open spec fn claim_text(claims: Map<Seq<char>, ClaimView>, claim: Seq<char>) -> Option<
    Seq<char>,
> {
    if claims.contains_key(claim) {
        match claims[claim] {
            ClaimView::Text(text) => Some(text),
            _ => None,
        }
    } else {
        None
    }
}

/// The claims that `jsonwebtoken::decode` reads from the payload of a token:
/// the members of the JSON object that the payload holds.
pub uninterp spec fn payload_claims(token: Seq<char>) -> Map<Seq<char>, ClaimView>;

/// The header that `jsonwebtoken::decode_header` reads from a token, where it
/// has one: the algorithm's name, and the key id.
pub uninterp spec fn token_header(token: Seq<char>) -> Option<(Seq<char>, Option<Seq<char>>)>;

/// Calls `jsonwebtoken::decode_header`. The result is a function of the token;
/// the algorithm is one of `jsonwebtoken::Algorithm`, by its name.
#[verifier::external_body]
pub(crate) fn decode_header(token: &str) -> (r: Option<(String, Option<String>)>)
    ensures
        r is Some <==> token_header(token@) is Some,
        r matches Some((name, kid)) ==> token_header(token@) == Some((name@, text_of(kid))),
        r matches Some((name, _)) ==> exists|algorithm: Algorithm|
            #[trigger] algorithm.spec_name() == name@,
{
    let header = jsonwebtoken::decode_header(token).ok()?;
    Some((format!("{:?}", header.alg), header.kid))
}

/// When a token expires, in seconds since the Unix epoch: the number that
/// `jsonwebtoken` reads from its claim `exp`, rounded, where there is one.
pub uninterp spec fn token_expiry(token: Seq<char>) -> Option<u64>;

/// From when on a token is valid, in seconds since the Unix epoch: the number
/// that `jsonwebtoken` reads from its claim `nbf`, rounded, where there is one.
pub uninterp spec fn token_not_before(token: Seq<char>) -> Option<u64>;

/// Whether a time is within the lifetime of a token, which ends at some time.
pub open spec fn is_alive_at(token: Seq<char>, now: u64) -> bool {
    &&& token_expiry(token) matches Some(expiry) && now <= expiry
    &&& token_not_before(token) matches Some(start) ==> start <= now
}

} // verus!
