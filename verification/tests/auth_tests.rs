use nodebook::auth::{authenticate_request, constant_time_eq_hex, AuthFailure, AuthRequest, AuthStatus};

fn hmac_hex(key: &[u8], msg: &[u8]) -> String {
    let k = ring::hmac::Key::new(ring::hmac::HMAC_SHA256, key);
    let tag = ring::hmac::sign(&k, msg);
    tag.as_ref().iter().map(|b| format!("{:02x}", b)).collect()
}

fn header_request(init: &str) -> AuthRequest {
    AuthRequest {
        init_data_header: Some(init.to_string()),
        authorization_header: None,
        query_init_data: None,
        query_web_app_data: None,
    }
}

fn signed_init_data(token: &str, user_json_encoded: &str, user_json: &str) -> String {
    let secret = {
        let k = ring::hmac::Key::new(ring::hmac::HMAC_SHA256, b"WebAppData");
        ring::hmac::sign(&k, token.as_bytes()).as_ref().to_vec()
    };
    let check = format!("auth_date=1700000000\nuser={}", user_json);
    let hash = hmac_hex(&secret, check.as_bytes());
    format!("user={}&auth_date=1700000000&hash={}", user_json_encoded, hash)
}

#[test]
fn hex_comparison_ignores_case_but_not_length() {
    assert!(constant_time_eq_hex("abcDEF", "ABCdef"));
    assert!(!constant_time_eq_hex("abc", "abcd"));
    assert!(!constant_time_eq_hex("abc", "abd"));
}

#[test]
fn valid_signature_admits_allowed_user() {
    let token = "123:TEST";
    let init = signed_init_data(token, "%7B%22id%22%3A42%7D", "{\"id\":42}");
    let r = authenticate_request(&header_request(&init), token, &[42]);
    assert_eq!(r, Ok(42));
}

#[test]
fn valid_signature_of_other_user_is_forbidden() {
    let token = "123:TEST";
    let init = signed_init_data(token, "%7B%22id%22%3A7%7D", "{\"id\":7}");
    let r = authenticate_request(&header_request(&init), token, &[42]);
    assert_eq!(r, Err(AuthFailure::UserNotAllowed(7)));
    assert_eq!(AuthFailure::UserNotAllowed(7).status(), AuthStatus::Forbidden);
    assert_eq!(
        AuthFailure::UserNotAllowed(7).message(),
        "Forbidden: User ID 7 is not authorized to access this private NodeBook OS instance."
    );
}

#[test]
fn tampered_data_is_refused() {
    let token = "123:TEST";
    let init = signed_init_data(token, "%7B%22id%22%3A42%7D", "{\"id\":42}").replace("1700000000", "1700000001");
    let r = authenticate_request(&header_request(&init), token, &[42]);
    assert_eq!(r, Err(AuthFailure::BadSignature));
    assert_eq!(AuthFailure::BadSignature.status(), AuthStatus::Unauthorized);
}

#[test]
fn empty_allow_list_refuses_everyone() {
    let token = "123:TEST";
    let init = signed_init_data(token, "%7B%22id%22%3A42%7D", "{\"id\":42}");
    let r = authenticate_request(&header_request(&init), token, &[]);
    assert_eq!(r, Err(AuthFailure::NoAllowedUsers));
    assert_eq!(AuthFailure::NoAllowedUsers.status(), AuthStatus::Forbidden);
}

#[test]
fn missing_data_and_hash() {
    let none = AuthRequest {
        init_data_header: None,
        authorization_header: None,
        query_init_data: None,
        query_web_app_data: None,
    };
    assert_eq!(authenticate_request(&none, "t", &[1]), Err(AuthFailure::MissingInitData));
    assert_eq!(authenticate_request(&header_request("   "), "t", &[1]), Err(AuthFailure::MissingInitData));
    assert_eq!(authenticate_request(&header_request("user=x&auth_date=1"), "t", &[1]), Err(AuthFailure::MissingHash));
}

#[test]
fn desktop_bookmark_forms() {
    let token = "123:TEST";
    assert_eq!(authenticate_request(&header_request("desktop_42"), token, &[42]), Ok(42));
    let sig = hmac_hex(token.as_bytes(), b"desktop_42");
    let signed = format!("desktop_42_{}", sig);
    assert_eq!(authenticate_request(&header_request(&signed), token, &[42]), Ok(42));
    assert_eq!(
        authenticate_request(&header_request("desktop_42_deadbeef"), token, &[42]),
        Err(AuthFailure::MissingHash)
    );
}
