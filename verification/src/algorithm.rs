//! Signature algorithms of JSON Web Tokens and of JSON Web Keys.

use crate::error::{viewed, OidcError, OidcErrorView};
use crate::external::jwt::{jwk_algorithm, jwk_key_algorithm};
use jsonwebtoken::jwk::Jwk;
use vstd::prelude::*;

verus! {

/// The signature algorithms that a token header can name.
#[derive(Clone, Copy, Debug, PartialEq, Eq, Structural)]
pub enum Algorithm {
    /// HMAC using SHA-256.
    HS256,
    /// HMAC using SHA-384.
    HS384,
    /// HMAC using SHA-512.
    HS512,
    /// ECDSA on P-256 using SHA-256.
    ES256,
    /// ECDSA on P-384 using SHA-384.
    ES384,
    /// RSASSA-PKCS1-v1_5 using SHA-256.
    RS256,
    /// RSASSA-PKCS1-v1_5 using SHA-384.
    RS384,
    /// RSASSA-PKCS1-v1_5 using SHA-512.
    RS512,
    /// RSASSA-PSS using SHA-256.
    PS256,
    /// RSASSA-PSS using SHA-384.
    PS384,
    /// RSASSA-PSS using SHA-512.
    PS512,
    /// Edwards-curve signatures.
    EdDSA,
}

impl Algorithm {
    /// The number of bytes of one integer of a raw ECDSA signature, for the
    /// two ECDSA algorithms.
    pub open spec fn component_len(self) -> Option<nat> {
        match self {
            Algorithm::ES256 => Some(32),
            Algorithm::ES384 => Some(48),
            _ => None,
        }
    }
}

/// The algorithms that a JSON Web Key can name.
#[derive(Clone, Copy, Debug, PartialEq, Eq, Structural)]
pub enum KeyAlgorithm {
    /// HMAC using SHA-256.
    HS256,
    /// HMAC using SHA-384.
    HS384,
    /// HMAC using SHA-512.
    HS512,
    /// ECDSA on P-256 using SHA-256.
    ES256,
    /// ECDSA on P-384 using SHA-384.
    ES384,
    /// RSASSA-PKCS1-v1_5 using SHA-256.
    RS256,
    /// RSASSA-PKCS1-v1_5 using SHA-384.
    RS384,
    /// RSASSA-PKCS1-v1_5 using SHA-512.
    RS512,
    /// RSASSA-PSS using SHA-256.
    PS256,
    /// RSASSA-PSS using SHA-384.
    PS384,
    /// RSASSA-PSS using SHA-512.
    PS512,
    /// Edwards-curve signatures.
    EdDSA,
    /// RSAES-PKCS1-v1_5 encryption.
    Rsa15,
    /// RSAES-OAEP encryption using SHA-1.
    RsaOaep,
    /// RSAES-OAEP encryption using SHA-256.
    RsaOaep256,
    /// A name that stands for none of the others.
    Unknown,
}

impl KeyAlgorithm {
    /// The signature algorithm of the same name, for those that sign with a
    /// key pair: shared secrets and encryption do not sign tokens here.
    pub open spec fn signing(self) -> Option<Algorithm> {
        match self {
            KeyAlgorithm::ES256 => Some(Algorithm::ES256),
            KeyAlgorithm::ES384 => Some(Algorithm::ES384),
            KeyAlgorithm::RS256 => Some(Algorithm::RS256),
            KeyAlgorithm::RS384 => Some(Algorithm::RS384),
            KeyAlgorithm::RS512 => Some(Algorithm::RS512),
            KeyAlgorithm::PS256 => Some(Algorithm::PS256),
            KeyAlgorithm::PS384 => Some(Algorithm::PS384),
            KeyAlgorithm::PS512 => Some(Algorithm::PS512),
            KeyAlgorithm::EdDSA => Some(Algorithm::EdDSA),
            _ => None,
        }
    }

    /// The name that error reports use.
    pub open spec fn name(self) -> Seq<char> {
        match self {
            KeyAlgorithm::HS256 => "HS256"@,
            KeyAlgorithm::HS384 => "HS384"@,
            KeyAlgorithm::HS512 => "HS512"@,
            KeyAlgorithm::ES256 => "ES256"@,
            KeyAlgorithm::ES384 => "ES384"@,
            KeyAlgorithm::RS256 => "RS256"@,
            KeyAlgorithm::RS384 => "RS384"@,
            KeyAlgorithm::RS512 => "RS512"@,
            KeyAlgorithm::PS256 => "PS256"@,
            KeyAlgorithm::PS384 => "PS384"@,
            KeyAlgorithm::PS512 => "PS512"@,
            KeyAlgorithm::EdDSA => "EdDSA"@,
            KeyAlgorithm::Rsa15 => "RSA1_5"@,
            KeyAlgorithm::RsaOaep => "RSA_OAEP"@,
            KeyAlgorithm::RsaOaep256 => "RSA_OAEP_256"@,
            KeyAlgorithm::Unknown => "UNKNOWN_ALGORITHM"@,
        }
    }

    /// The name that error reports use.
    pub fn to_name(self) -> (text: String)
        ensures
            text@ == self.name(),
    {
        let text = match self {
            KeyAlgorithm::HS256 => "HS256",
            KeyAlgorithm::HS384 => "HS384",
            KeyAlgorithm::HS512 => "HS512",
            KeyAlgorithm::ES256 => "ES256",
            KeyAlgorithm::ES384 => "ES384",
            KeyAlgorithm::RS256 => "RS256",
            KeyAlgorithm::RS384 => "RS384",
            KeyAlgorithm::RS512 => "RS512",
            KeyAlgorithm::PS256 => "PS256",
            KeyAlgorithm::PS384 => "PS384",
            KeyAlgorithm::PS512 => "PS512",
            KeyAlgorithm::EdDSA => "EdDSA",
            KeyAlgorithm::Rsa15 => "RSA1_5",
            KeyAlgorithm::RsaOaep => "RSA_OAEP",
            KeyAlgorithm::RsaOaep256 => "RSA_OAEP_256",
            KeyAlgorithm::Unknown => "UNKNOWN_ALGORITHM",
        };
        text.to_owned()
    }
}

/// The signature algorithm of a key that names `alg`.
pub open spec fn resolved(alg: Option<KeyAlgorithm>) -> Result<Algorithm, OidcErrorView> {
    match alg {
        Some(named) => match named.signing() {
            Some(signing) => Ok(signing),
            None => Err(OidcErrorView::UnsupportedAlgorithm(named.name())),
        },
        None => Err(OidcErrorView::UnsupportedAlgorithm("missing alg in JWK"@)),
    }
}

/// The signature algorithm of a key that names `alg`.
pub fn resolve_key_algorithm(alg: Option<KeyAlgorithm>) -> (result: Result<Algorithm, OidcError>)
    ensures
        viewed(result) == resolved(alg),
{
    match alg {
        Some(KeyAlgorithm::ES256) => Ok(Algorithm::ES256),
        Some(KeyAlgorithm::ES384) => Ok(Algorithm::ES384),
        Some(KeyAlgorithm::RS256) => Ok(Algorithm::RS256),
        Some(KeyAlgorithm::RS384) => Ok(Algorithm::RS384),
        Some(KeyAlgorithm::RS512) => Ok(Algorithm::RS512),
        Some(KeyAlgorithm::PS256) => Ok(Algorithm::PS256),
        Some(KeyAlgorithm::PS384) => Ok(Algorithm::PS384),
        Some(KeyAlgorithm::PS512) => Ok(Algorithm::PS512),
        Some(KeyAlgorithm::EdDSA) => Ok(Algorithm::EdDSA),
        Some(other) => Err(OidcError::UnsupportedAlgorithm(other.to_name())),
        None => Err(OidcError::UnsupportedAlgorithm("missing alg in JWK".to_owned())),
    }
}

/// The signature algorithm of a JSON Web Key.
pub fn resolve_algorithm(jwk: &Jwk) -> (result: Result<Algorithm, OidcError>)
    ensures
        viewed(result) == resolved(jwk_key_algorithm(*jwk)),
{
    resolve_key_algorithm(jwk_algorithm(jwk))
}


/// A key is for the signature algorithm that it names. A key that names none, or
/// a shared secret, or encryption, is for none, and the report says what it
/// named.
pub proof fn law_key_algorithm_is_resolved(named: KeyAlgorithm)
    ensures
        resolved(None) == Err::<Algorithm, OidcErrorView>(
            OidcErrorView::UnsupportedAlgorithm("missing alg in JWK"@),
        ),
        match named {
            KeyAlgorithm::ES256 => resolved(Some(named)) == Ok::<Algorithm, OidcErrorView>(
                Algorithm::ES256,
            ),
            KeyAlgorithm::ES384 => resolved(Some(named)) == Ok::<Algorithm, OidcErrorView>(
                Algorithm::ES384,
            ),
            KeyAlgorithm::RS256 => resolved(Some(named)) == Ok::<Algorithm, OidcErrorView>(
                Algorithm::RS256,
            ),
            KeyAlgorithm::RS384 => resolved(Some(named)) == Ok::<Algorithm, OidcErrorView>(
                Algorithm::RS384,
            ),
            KeyAlgorithm::RS512 => resolved(Some(named)) == Ok::<Algorithm, OidcErrorView>(
                Algorithm::RS512,
            ),
            KeyAlgorithm::PS256 => resolved(Some(named)) == Ok::<Algorithm, OidcErrorView>(
                Algorithm::PS256,
            ),
            KeyAlgorithm::PS384 => resolved(Some(named)) == Ok::<Algorithm, OidcErrorView>(
                Algorithm::PS384,
            ),
            KeyAlgorithm::PS512 => resolved(Some(named)) == Ok::<Algorithm, OidcErrorView>(
                Algorithm::PS512,
            ),
            KeyAlgorithm::EdDSA => resolved(Some(named)) == Ok::<Algorithm, OidcErrorView>(
                Algorithm::EdDSA,
            ),
            _ => resolved(Some(named)) == Err::<Algorithm, OidcErrorView>(
                OidcErrorView::UnsupportedAlgorithm(
                    match named {
                        KeyAlgorithm::HS256 => "HS256"@,
                        KeyAlgorithm::HS384 => "HS384"@,
                        KeyAlgorithm::HS512 => "HS512"@,
                        KeyAlgorithm::Rsa15 => "RSA1_5"@,
                        KeyAlgorithm::RsaOaep => "RSA_OAEP"@,
                        KeyAlgorithm::RsaOaep256 => "RSA_OAEP_256"@,
                        _ => "UNKNOWN_ALGORITHM"@,
                    },
                ),
            ),
        },
{
}

} // verus!
