//! The signature algorithms of tokens.
use crate::text::same;
use vstd::prelude::*;

verus! {

/// The number of bytes of an EdDSA key.
pub const ED_KEY_LENGTH: usize = 32;

/// A signature algorithm, by its name in a token's header.
#[derive(Debug, Clone, Copy, PartialEq, Eq, Structural)]
pub enum Algorithm {
    HS256,
    HS384,
    HS512,
    RS256,
    RS384,
    RS512,
    PS256,
    PS384,
    PS512,
    ES256,
    ES384,
    EdDSA,
}

impl Algorithm {
    /// The algorithm's name.
    pub open spec fn spec_name(self) -> Seq<char> {
        match self {
            Algorithm::HS256 => "HS256"@,
            Algorithm::HS384 => "HS384"@,
            Algorithm::HS512 => "HS512"@,
            Algorithm::RS256 => "RS256"@,
            Algorithm::RS384 => "RS384"@,
            Algorithm::RS512 => "RS512"@,
            Algorithm::PS256 => "PS256"@,
            Algorithm::PS384 => "PS384"@,
            Algorithm::PS512 => "PS512"@,
            Algorithm::ES256 => "ES256"@,
            Algorithm::ES384 => "ES384"@,
            Algorithm::EdDSA => "EdDSA"@,
        }
    }

    /// Whether a token is signed with the key that it is checked with.
    pub open spec fn shares_its_key(self) -> bool {
        self is HS256 || self is HS384 || self is HS512
    }

    /// The algorithm's name.
    pub fn name(self) -> (r: &'static str)
        ensures
            r@ == self.spec_name(),
    {
        match self {
            Algorithm::HS256 => "HS256",
            Algorithm::HS384 => "HS384",
            Algorithm::HS512 => "HS512",
            Algorithm::RS256 => "RS256",
            Algorithm::RS384 => "RS384",
            Algorithm::RS512 => "RS512",
            Algorithm::PS256 => "PS256",
            Algorithm::PS384 => "PS384",
            Algorithm::PS512 => "PS512",
            Algorithm::ES256 => "ES256",
            Algorithm::ES384 => "ES384",
            Algorithm::EdDSA => "EdDSA",
        }
    }

    /// The algorithm of a name, where there is one.
    pub fn from_name(name: &str) -> (r: Option<Self>)
        ensures
            r matches Some(algorithm) ==> algorithm.spec_name() == name@,
            r is None ==> forall|algorithm: Algorithm|
                #[trigger] algorithm.spec_name() != name@,
    {
        if same(name, "HS256") {
            Some(Algorithm::HS256)
        } else if same(name, "HS384") {
            Some(Algorithm::HS384)
        } else if same(name, "HS512") {
            Some(Algorithm::HS512)
        } else if same(name, "RS256") {
            Some(Algorithm::RS256)
        } else if same(name, "RS384") {
            Some(Algorithm::RS384)
        } else if same(name, "RS512") {
            Some(Algorithm::RS512)
        } else if same(name, "PS256") {
            Some(Algorithm::PS256)
        } else if same(name, "PS384") {
            Some(Algorithm::PS384)
        } else if same(name, "PS512") {
            Some(Algorithm::PS512)
        } else if same(name, "ES256") {
            Some(Algorithm::ES256)
        } else if same(name, "ES384") {
            Some(Algorithm::ES384)
        } else if same(name, "EdDSA") {
            Some(Algorithm::EdDSA)
        } else {
            None
        }
    }
}

/// No two algorithms have one name.
pub proof fn algorithm_names_differ(a: Algorithm, b: Algorithm)
    ensures
        a.spec_name() == b.spec_name() ==> a == b,
{
    reveal_strlit("HS256");
    reveal_strlit("HS384");
    reveal_strlit("HS512");
    reveal_strlit("RS256");
    reveal_strlit("RS384");
    reveal_strlit("RS512");
    reveal_strlit("PS256");
    reveal_strlit("PS384");
    reveal_strlit("PS512");
    reveal_strlit("ES256");
    reveal_strlit("ES384");
    reveal_strlit("EdDSA");
    let x = a.spec_name();
    let y = b.spec_name();
    if x == y {
        assert(x[0] == y[0] && x[2] == y[2]);
    }
}

} // verus!
