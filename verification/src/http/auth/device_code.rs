//! The Microsoft device code flow: the code the user enters, and the polling
//! for the token that follows.
use vstd::prelude::*;
use vstd::string::StringExecFns;

use crate::http::NetworkError;

verus! {

/// The device code and what to show the user.
pub struct DeviceCodeData {
    pub device_code: String,
    pub user_code: String,
    pub verification_uri: String,
    pub expires_in: i32,
    pub interval: i32,
}

/// The tokens given once the user has signed in.
pub struct TokenData {
    pub access_token: String,
    pub refresh_token: String,
    pub expires_in: i32,
}

/// The body of a refused token request.
#[derive(Debug)]
pub struct ErrorResponse {
    pub error: String,
    pub error_description: Option<String>,
    pub error_codes: Option<Vec<i32>>,
    pub timestamp: Option<String>,
    pub trace_id: Option<String>,
    pub correlation_id: Option<String>,
}

/// What to do after a refused token request.
#[derive(Debug)]
pub enum PollStep {
    /// Wait this many seconds and ask again.
    Retry { interval: u64 },
    /// Stop with this error.
    Fail(NetworkError),
}

/// The message of a refusal that ends the polling: its code, then its
/// description or `None`.
pub open spec fn refusal_message(error: Seq<char>, description: Option<Seq<char>>) -> Seq<char> {
    "Error: "@ + error + "\nDescription: "@ + match description {
        Some(d) => d,
        None => "None"@,
    }
}

/// The next step after the token request was refused with `error`: the
/// user has not signed in yet, so ask again; slow down by five seconds; the
/// code expired; or any other refusal, which ends the polling.
pub fn next_poll(interval: u64, error: &ErrorResponse) -> (r: PollStep)
    requires
        error.error@ == "slow_down"@ ==> interval + 5 <= u64::MAX,
    ensures
        error.error@ == "authorization_pending"@ ==> r == (PollStep::Retry { interval }),
        error.error@ == "slow_down"@ ==> r == (PollStep::Retry { interval: (interval + 5) as u64 }),
        error.error@ == "expired_token"@ ==> r matches PollStep::Fail(NetworkError::TimeoutError),
        (error.error@ != "authorization_pending"@ && error.error@ != "slow_down"@ && error.error@
            != "expired_token"@) ==> (r matches PollStep::Fail(NetworkError::Other(m)) && m@
            == refusal_message(error.error@, match error.error_description {
            Some(d) => Some(d@),
            None => None,
        })),
{
    proof {
        reveal_strlit("authorization_pending");
        reveal_strlit("slow_down");
        reveal_strlit("expired_token");
    }
    let code = error.error.as_str();
    if error.error == "authorization_pending".to_owned() {
        PollStep::Retry { interval }
    } else if error.error == "slow_down".to_owned() {
        PollStep::Retry { interval: interval + 5 }
    } else if error.error == "expired_token".to_owned() {
        PollStep::Fail(NetworkError::TimeoutError)
    } else {
        let mut m = "Error: ".to_owned();
        m.append(code);
        m.append("\nDescription: ");
        match &error.error_description {
            Some(d) => m.append(d.as_str()),
            None => m.append("None"),
        }
        PollStep::Fail(NetworkError::Other(m))
    }
}

} // verus!
