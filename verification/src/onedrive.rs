//! The OneDrive-specific values and pure computations: the authorization
//! URL a user must visit, the grant types the token endpoint accepts, and
//! the shape of a token built from the endpoint's reply.  The network calls
//! themselves live with the surrounding binary.

use vstd::prelude::*;

use crate::Token;

verus! {

/// The characters of the OneDrive authorization URL: the common Microsoft
/// login endpoint with this application's client id, the native-client
/// redirect, and the read-write-files scopes.
pub open spec fn oauth_url_chars() -> Seq<char> {
    "https://login.microsoftonline.com/common/oauth2/v2.0/authorize?client_id=3dceca68-abd4-46a1-9e72-9dda8a80d9c1&response_type=code&redirect_uri=https://login.microsoftonline.com/common/oauth2/nativeclient&scope=User.Read%20Files.ReadWrite.All%20offline_access"@
}

/// The URL to print for a user to authorize this application.
pub fn get_oauth_url() -> (r: String)
    ensures
        r@ == oauth_url_chars(),
{
    "https://login.microsoftonline.com/common/oauth2/v2.0/authorize?client_id=3dceca68-abd4-46a1-9e72-9dda8a80d9c1&response_type=code&redirect_uri=https://login.microsoftonline.com/common/oauth2/nativeclient&scope=User.Read%20Files.ReadWrite.All%20offline_access".to_owned()
}

/// Whether the token endpoint accepts this grant type: an initial
/// authorization code, or a refresh.
pub fn valid_grant_type(grant_type: &str) -> (r: bool)
    ensures
        r == (grant_type@ == "authorization_code"@ || grant_type@ == "refresh_token"@),
{
    crate::keyed::str_eq(grant_type, "authorization_code") || crate::keyed::str_eq(
        grant_type,
        "refresh_token",
    )
}

/// Builds the token the rest of the system keeps from the endpoint's
/// reply: the two tokens as returned, valid until `now` plus the reported
/// lifetime (clamped at the top of the range).
pub fn token_from_response(
    access_token: String,
    refresh_token: String,
    expires_in: u64,
    now: u64,
) -> (r: Token)
    ensures
        r.access_token == access_token,
        r.refresh_token == refresh_token,
        r.valid_till == if now + expires_in <= u64::MAX {
            (now + expires_in) as u64
        } else {
            u64::MAX
        },
{
    let valid_till = match now.checked_add(expires_in) {
        Some(t) => t,
        None => u64::MAX,
    };
    Token { access_token, refresh_token, valid_till }
}

} // verus!
