//! The keys that an issuer of people's tokens publishes, and how long they are
//! kept.
use crate::algorithm::{algorithm_names_differ, Algorithm, ED_KEY_LENGTH};
use crate::text::{copy_text, same, text_of};
use vstd::prelude::*;

verus! {

/// How long fetched keys are reused before they are fetched again: a quarter of
/// an hour, in nanoseconds.
pub const JWKS_CACHE_TTL: u64 = 900_000_000_000;

/// The shortest interval between two fetches that an unknown key id provokes: a
/// minute, in nanoseconds. Without this floor a stream of tokens with junk key
/// ids would turn into a stream of fetches.
pub const JWKS_REFETCH_FLOOR: u64 = 60_000_000_000;

/// A key that an issuer publishes.
#[derive(Debug, PartialEq, Eq)]
pub struct PublicKey {
    pub key_id: Option<String>,
    /// The name of the one algorithm that the key is for, where it says so.
    pub key_algorithm: Option<String>,
    /// The key itself, as a JSON Web Key.
    pub document: String,
}

/// The model of a `PublicKey`.
pub struct KeyView {
    pub key_id: Option<Seq<char>>,
    pub key_algorithm: Option<Seq<char>>,
    pub document: Seq<char>,
}

impl View for PublicKey {
    type V = KeyView;

    open spec fn view(&self) -> KeyView {
        KeyView {
            key_id: text_of(self.key_id),
            key_algorithm: text_of(self.key_algorithm),
            document: self.document@,
        }
    }
}

impl Clone for PublicKey {
    fn clone(&self) -> (r: Self)
        ensures
            r@ == self@,
    {
        PublicKey {
            key_id: copy_text(&self.key_id),
            key_algorithm: copy_text(&self.key_algorithm),
            document: self.document.clone(),
        }
    }
}

/// The views of a list of keys.
pub open spec fn key_views(keys: Seq<PublicKey>) -> Seq<KeyView> {
    keys.map_values(|key: PublicKey| key@)
}

/// The keys that an issuer publishes.
#[derive(Debug, Clone, PartialEq, Eq)]
pub struct KeySet {
    pub keys: Vec<PublicKey>,
}

impl View for KeySet {
    type V = Seq<KeyView>;

    open spec fn view(&self) -> Seq<KeyView> {
        key_views(self.keys@)
    }
}

/// The keys that `serde_json` reads from the bytes of a JSON Web Key Set, where
/// they are one.
pub uninterp spec fn key_set_of_json(body: Seq<u8>) -> Option<Seq<KeyView>>;

/// Calls `serde_json::from_slice` for a `jsonwebtoken::jwk::JwkSet`. The result
/// is a function of the bytes; there is none where they are no key set.
#[verifier::external_body]
fn parse_key_set(body: &[u8]) -> (r: Option<Vec<PublicKey>>)
    ensures
        r is Some <==> key_set_of_json(body@) is Some,
        r matches Some(keys) ==> key_set_of_json(body@) == Some(key_views(keys@)),
{
    let set: jsonwebtoken::jwk::JwkSet = serde_json::from_slice(body).ok()?;
    Some(set.keys.iter().map(|jwk| PublicKey {
        key_id: jwk.common.key_id.clone(),
        key_algorithm: jwk.common.key_algorithm.as_ref().map(|name| name.to_string()),
        document: serde_json::to_string(jwk).unwrap_or_default(),
    }).collect())
}

/// What `jsonwebtoken` makes of a key: nothing, where it cannot check signatures
/// with it; otherwise how many bytes it holds of it. An RSA key is held as two
/// numbers and not as bytes.
pub uninterp spec fn key_size(document: Seq<char>) -> Option<Option<usize>>;

/// Calls `jsonwebtoken::DecodingKey::from_jwk` on the key that the document
/// holds, and `try_get_as_bytes` on the result. Whether they succeed, and how
/// many bytes there are, is a function of the document.
#[verifier::external_body]
fn read_key(document: &str) -> (r: Option<Option<usize>>)
    ensures
        r == key_size(document@),
{
    let jwk = serde_json::from_str::<jsonwebtoken::jwk::Jwk>(document).ok()?;
    let key = jsonwebtoken::DecodingKey::from_jwk(&jwk).ok()?;
    Some(key.try_get_as_bytes().ok().map(|bytes| bytes.len()))
}

/// Whether `jsonwebtoken` can check signatures with a key.
pub open spec fn key_is_usable(document: Seq<char>) -> bool {
    key_size(document) is Some
}

/// Whether a key may be tried with an algorithm: an EdDSA key must be long
/// enough.
pub open spec fn key_may_be_tried(document: Seq<char>, algorithm: Seq<char>) -> bool {
    algorithm == Algorithm::EdDSA.spec_name() ==> (key_size(document) matches Some(Some(size))
        && size >= ED_KEY_LENGTH)
}

/// Whether a key may be tried with an algorithm.
pub fn may_be_tried(document: &str, algorithm: Algorithm) -> (r: bool)
    ensures
        r == key_may_be_tried(document@, algorithm.spec_name()),
{
    proof {
        algorithm_names_differ(algorithm, Algorithm::EdDSA);
    }
    if algorithm == Algorithm::EdDSA {
        match read_key(document) {
            Some(Some(size)) => size >= ED_KEY_LENGTH,
            _ => false,
        }
    } else {
        true
    }
}

/// The first key with a key id.
pub open spec fn key_with_id(keys: Seq<KeyView>, kid: Seq<char>) -> Option<KeyView>
    decreases keys.len(),
{
    if keys.len() == 0 {
        None
    } else if keys[0].key_id == Some(kid) {
        Some(keys[0])
    } else {
        key_with_id(keys.skip(1), kid)
    }
}

/// The key that a token's header points to: the first with the header's key id
/// or, without one, the only key. A key that says which algorithm it is for
/// must name the header's.
pub open spec fn candidate(
    keys: Seq<KeyView>,
    kid: Option<Seq<char>>,
    algorithm: Algorithm,
) -> Option<KeyView> {
    let found = match kid {
        Some(kid) => key_with_id(keys, kid),
        None => if keys.len() == 1 {
            Some(keys[0])
        } else {
            None
        },
    };
    match found {
        Some(key) => if key.key_algorithm is None || key.key_algorithm == Some(
            algorithm.spec_name(),
        ) {
            Some(key)
        } else {
            None
        },
        None => None,
    }
}

/// The key that a token is checked with: the candidate, where it is usable.
pub open spec fn selected(
    keys: Seq<KeyView>,
    kid: Option<Seq<char>>,
    algorithm: Algorithm,
) -> Option<KeyView> {
    match candidate(keys, kid, algorithm) {
        Some(key) => if key_is_usable(key.document) {
            Some(key)
        } else {
            None
        },
        None => None,
    }
}

impl KeySet {
    /// Reads a JSON Web Key Set.
    pub fn parse(body: &[u8]) -> (r: Option<Self>)
        ensures
            r is Some <==> key_set_of_json(body@) is Some,
            r matches Some(set) ==> key_set_of_json(body@) == Some(set@),
    {
        match parse_key_set(body) {
            Some(keys) => Some(KeySet { keys }),
            None => None,
        }
    }

    fn find(&self, kid: &str) -> (r: Option<&PublicKey>)
        ensures
            r is Some <==> key_with_id(self@, kid@) is Some,
            r matches Some(key) ==> key_with_id(self@, kid@) == Some(key@),
    {
        let mut i: usize = 0;
        assert(self@.skip(0) =~= self@);
        while i < self.keys.len()
            invariant
                i <= self.keys@.len(),
                key_with_id(self@, kid@) == key_with_id(self@.skip(i as int), kid@),
            decreases self.keys@.len() - i,
        {
            proof {
                assert(self@.skip(i as int)[0] == self.keys@[i as int]@);
                assert(self@.skip(i as int).skip(1) =~= self@.skip(i + 1));
            }
            let key = &self.keys[i];
            let found = match &key.key_id {
                Some(id) => same(id.as_str(), kid),
                None => false,
            };
            if found {
                return Some(key);
            }
            i = i + 1;
        }
        None
    }

    /// The key that a token's header points to.
    pub fn candidate_key(&self, kid: &Option<String>, algorithm: Algorithm) -> (r: Option<
        &PublicKey,
    >)
        ensures
            r is Some <==> candidate(self@, text_of(*kid), algorithm) is Some,
            r matches Some(key) ==> candidate(self@, text_of(*kid), algorithm) == Some(key@),
    {
        let found = match kid {
            Some(kid) => self.find(kid.as_str()),
            None => if self.keys.len() == 1 {
                Some(&self.keys[0])
            } else {
                None
            },
        };
        match found {
            Some(key) => {
                let fits = match &key.key_algorithm {
                    Some(name) => same(name.as_str(), algorithm.name()),
                    None => true,
                };
                if fits {
                    Some(key)
                } else {
                    None
                }
            },
            None => None,
        }
    }

    /// The key that a token is checked with.
    pub fn select_key(&self, kid: &Option<String>, algorithm: Algorithm) -> (r: Option<&PublicKey>)
        ensures
            r is Some <==> selected(self@, text_of(*kid), algorithm) is Some,
            r matches Some(key) ==> selected(self@, text_of(*kid), algorithm) == Some(key@),
    {
        match self.candidate_key(kid, algorithm) {
            Some(key) => if read_key(key.document.as_str()).is_some() {
                Some(key)
            } else {
                None
            },
            None => None,
        }
    }
}

/// What to do about the key of a token.
#[derive(Debug, PartialEq, Eq)]
pub enum KeyStep {
    /// Check the token with this key.
    Use(PublicKey),
    /// Fetch the keys from this URL first. None are kept, or they are too old,
    /// or none of them fits; an unknown key id most often means that the issuer
    /// has changed its keys.
    Fetch(String),
    /// Refuse the token: no key fits.
    Refuse,
}

/// The model of a `KeyStep`.
pub enum KeyStepView {
    Use(KeyView),
    Fetch(Seq<char>),
    Refuse,
}

impl View for KeyStep {
    type V = KeyStepView;

    open spec fn view(&self) -> KeyStepView {
        match self {
            KeyStep::Use(key) => KeyStepView::Use(key@),
            KeyStep::Fetch(url) => KeyStepView::Fetch(url@),
            KeyStep::Refuse => KeyStepView::Refuse,
        }
    }
}

} // verus!
