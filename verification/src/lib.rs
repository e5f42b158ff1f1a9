//! Authentication for a web gateway.
//!
//! A request is let through where it presents the gateway's token as a bearer
//! token, else where it carries an OIDC token that a configured provider
//! signed, else, on streaming endpoints, where it presents the gateway's token
//! in its query string. `auth` decides; it rests on these modules:
//!
//! - `oidc`: the steps of validating an OIDC token, with its signing key cached,
//! - `keys`: where signing keys are found and how they are read,
//! - `key_cache`: the cache,
//! - `jwt`: normalization, signature and claims of a token,
//! - `claims`: what the claims say,
//! - `base64url`, `der`: the encodings of a signature,
//! - `algorithm`, `config`, `error`: plain types,
//! - `text`: operations on text,
//! - `external`: calls into other libraries, the trusted part.
//!
//! The crate does no input or output. Where a key has to be fetched, a step
//! says from where, and the caller resumes with what came back. Time is a
//! reading of a monotonic clock that the caller passes in.

pub mod algorithm;
pub mod auth;
pub mod base64url;
pub mod claims;
pub mod config;
pub mod der;
pub mod error;
pub mod external;
pub mod jwt;
pub mod key_cache;
pub mod keys;
pub mod oidc;
pub mod text;

pub use algorithm::{Algorithm, KeyAlgorithm};
pub use auth::{auth_middleware, resume_auth, AuthOutcome, AuthState, AuthStep, Refusal};
pub use config::GatewayOidcConfig;
pub use der::{strip_der_leading_zero, try_der_to_raw};
pub use error::OidcError;
pub use jwt::{normalize_b64_segment, normalize_jwt_for_claims, verify_signature};
pub use key_cache::KeyCache;
pub use keys::{FetchFailure, KeyLocation};
pub use oidc::{OidcState, PendingKey};
