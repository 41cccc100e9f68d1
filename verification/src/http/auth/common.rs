//! Xbox Live, XSTS and Minecraft sign-in: the answers and the tokens sent.
use vstd::prelude::*;
use vstd::string::StringExecFns;

use crate::http::NetworkError;

verus! {

/// The answer of Xbox Live and of XSTS.
pub struct XboxAuthResponse {
    pub issue_instant: String,
    pub not_after: String,
    pub token: String,
    pub display_claims: DisplayClaims,
}

/// The claims of an Xbox answer.
pub struct DisplayClaims {
    pub xui: Vec<Xui>,
}

/// One user's claim: the user hash.
pub struct Xui {
    pub uhs: String,
}

/// The answer of the Minecraft sign-in.
pub struct MinecraftTokenResponse {
    pub username: String,
    pub roles: Vec<String>,
    pub access_token: String,
    pub token_type: String,
    pub expires_in: u32,
}

/// What a sign-in answer's status says: a 2xx status goes on to the body;
/// any other fails with the status's text.
pub fn check_sign_in_status(code: u16, status_text: String) -> (r: Result<(), NetworkError>)
    ensures
        200 <= code < 300 ==> r is Ok,
        !(200 <= code < 300) ==> (r matches Err(NetworkError::Other(m)) && m@ == status_text@),
{
    if 200 <= code && code < 300 {
        Ok(())
    } else {
        Err(NetworkError::Other(status_text))
    }
}

/// The ticket Xbox Live is given for a Microsoft access token.
pub fn rps_ticket(access_token: &str) -> (r: String)
    ensures
        r@ == "d="@ + access_token@,
{
    let mut s = "d=".to_owned();
    s.append(access_token);
    s
}

/// The identity token the Minecraft sign-in is given for an XSTS answer: the
/// first user's hash and the XSTS token.
pub fn identity_token(data: &XboxAuthResponse) -> (r: String)
    requires
        data.display_claims.xui@.len() > 0,
    ensures
        r@ == "XBL3.0 x="@ + data.display_claims.xui@[0].uhs@ + ";"@ + data.token@,
{
    let uhs = &data.display_claims.xui[0].uhs;
    let mut s = "XBL3.0 x=".to_owned();
    s.append(uhs.as_str());
    s.append(";");
    s.append(data.token.as_str());
    s
}

} // verus!
