//! Configuration of OIDC authentication.

use crate::external::jwt::optional_text;
use vstd::prelude::*;

verus! {

/// How the gateway authenticates requests that carry an OIDC token.
#[derive(Debug, PartialEq, Eq)]
pub struct GatewayOidcConfig {
    /// Name of the header that carries the token.
    pub header: String,
    /// Where signing keys are found. With `{kid}` in it, one key per URL;
    /// without, a set of keys.
    pub jwks_url: String,
    /// The issuer that tokens must name, if one is configured.
    pub issuer: Option<String>,
    /// The audience that tokens must name, if one is configured.
    pub audience: Option<String>,
}

/// A `GatewayOidcConfig` with its texts as sequences of characters.
#[verifier::ext_equal]
pub struct OidcConfigView {
    pub header: Seq<char>,
    pub jwks_url: Seq<char>,
    pub issuer: Option<Seq<char>>,
    pub audience: Option<Seq<char>>,
}

impl View for GatewayOidcConfig {
    type V = OidcConfigView;

    open spec fn view(&self) -> OidcConfigView {
        OidcConfigView {
            header: self.header@,
            jwks_url: self.jwks_url@,
            issuer: optional_text(self.issuer),
            audience: optional_text(self.audience),
        }
    }
}

impl Clone for GatewayOidcConfig {
    fn clone(&self) -> (copy: GatewayOidcConfig)
        ensures
            copy == *self,
    {
        GatewayOidcConfig {
            header: self.header.clone(),
            jwks_url: self.jwks_url.clone(),
            issuer: match &self.issuer {
                Some(issuer) => Some(issuer.clone()),
                None => None,
            },
            audience: match &self.audience {
                Some(audience) => Some(audience.clone()),
                None => None,
            },
        }
    }
}


/// The view of a configuration holds its texts as they are.
pub proof fn law_configuration_view(config: GatewayOidcConfig)
    ensures
        config@.header == config.header@,
        config@.jwks_url == config.jwks_url@,
        config.issuer matches Some(issuer) ==> config@.issuer == Some(issuer@),
        config.issuer is None ==> config@.issuer is None,
        config.audience matches Some(audience) ==> config@.audience == Some(audience@),
        config.audience is None ==> config@.audience is None,
{
}

} // verus!
