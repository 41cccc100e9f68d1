use mcproto::http::auth::common::{check_sign_in_status, identity_token, rps_ticket, DisplayClaims, XboxAuthResponse, Xui};
use mcproto::http::auth::device_code::{next_poll, ErrorResponse, PollStep};
use mcproto::http::player_uuid::{check_profile_status, hyphenate_id, profile_url, profile_uuid};
use mcproto::http::NetworkError;

#[test]
fn profile_url_names_the_user() {
    assert_eq!(
        profile_url("Notch"),
        "https://api.mojang.com/users/profiles/minecraft/Notch"
    );
}

#[test]
fn profile_status_404_is_not_found() {
    match check_profile_status(404, "Nobody".to_string()) {
        Err(NetworkError::NotFound(n)) => assert_eq!(n, "Nobody"),
        _ => panic!("expected not found"),
    }
    assert!(check_profile_status(200, "Notch".to_string()).is_ok());
}

#[test]
fn notch_profile_id_to_uuid() {
    let id = "069a79f444e94726a5befca90e38aaf5";
    assert_eq!(hyphenate_id(id), "069a79f4-44e9-4726-a5be-fca90e38aaf5");
    let u = profile_uuid(Some(id)).unwrap();
    assert_eq!(
        u.bytes,
        [0x06, 0x9a, 0x79, 0xf4, 0x44, 0xe9, 0x47, 0x26, 0xa5, 0xbe, 0xfc, 0xa9, 0x0e, 0x38, 0xaa, 0xf5]
    );
    assert_eq!(
        uuid::Uuid::from_bytes(u.bytes).to_string(),
        "069a79f4-44e9-4726-a5be-fca90e38aaf5"
    );
}

#[test]
fn profile_id_missing_or_bad() {
    match profile_uuid(None) {
        Err(NetworkError::NotFound(m)) => assert_eq!(m, "Id of the user"),
        _ => panic!("expected not found"),
    }
    match profile_uuid(Some("zz9a79f444e94726a5befca90e38aaf5")) {
        Err(NetworkError::InvalidData(m)) => assert!(!m.is_empty()),
        _ => panic!("expected invalid data"),
    }
    match profile_uuid(Some("é69a79f444e94726a5befca90e38aaf5")) {
        Err(NetworkError::InvalidData(m)) => assert!(!m.is_empty()),
        _ => panic!("expected invalid data"),
    }
    let tail = profile_uuid(Some("069a79f444e94726a5befca90e38aaf5\u{e9}")).unwrap();
    assert_eq!(tail.bytes[0], 0x06);
    assert_eq!(tail.bytes[15], 0xf5);
    let upper = profile_uuid(Some("069A79F444E94726A5BEFCA90E38AAF5")).unwrap();
    assert_eq!(upper.bytes[1], 0x9a);
}

fn refusal(code: &str, description: Option<&str>) -> ErrorResponse {
    ErrorResponse {
        error: code.to_string(),
        error_description: description.map(|d| d.to_string()),
        error_codes: None,
        timestamp: None,
        trace_id: None,
        correlation_id: None,
    }
}

#[test]
fn token_polling_steps() {
    assert!(matches!(
        next_poll(5, &refusal("authorization_pending", None)),
        PollStep::Retry { interval: 5 }
    ));
    assert!(matches!(
        next_poll(5, &refusal("slow_down", None)),
        PollStep::Retry { interval: 10 }
    ));
    assert!(matches!(
        next_poll(5, &refusal("expired_token", None)),
        PollStep::Fail(NetworkError::TimeoutError)
    ));
    match next_poll(5, &refusal("access_denied", Some("no"))) {
        PollStep::Fail(NetworkError::Other(m)) => assert_eq!(m, "Error: access_denied\nDescription: no"),
        _ => panic!("expected a failure"),
    }
    match next_poll(5, &refusal("bad", None)) {
        PollStep::Fail(NetworkError::Other(m)) => assert_eq!(m, "Error: bad\nDescription: None"),
        _ => panic!("expected a failure"),
    }
}

#[test]
fn sign_in_tokens() {
    assert_eq!(rps_ticket("abc"), "d=abc");
    let answer = XboxAuthResponse {
        issue_instant: String::new(),
        not_after: String::new(),
        token: "tok".to_string(),
        display_claims: DisplayClaims { xui: vec![Xui { uhs: "123".to_string() }] },
    };
    assert_eq!(identity_token(&answer), "XBL3.0 x=123;tok");
}

#[test]
fn sign_in_status() {
    assert!(check_sign_in_status(200, "200 OK".to_string()).is_ok());
    assert!(check_sign_in_status(299, String::new()).is_ok());
    match check_sign_in_status(401, "401 Unauthorized".to_string()) {
        Err(NetworkError::Other(m)) => assert_eq!(m, "401 Unauthorized"),
        _ => panic!("expected a failure"),
    }
}
