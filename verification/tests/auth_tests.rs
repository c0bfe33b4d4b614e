use base64::engine::general_purpose::STANDARD;
use base64::Engine;
use nzbdav::auth::{api_key_allows, basic_auth_decision, AuthDecision};

fn encode_basic(user: &str, pass: &str) -> String {
    format!("Basic {}", STANDARD.encode(format!("{user}:{pass}")))
}

#[test]
fn test_api_key_no_key_configured() {
    assert!(api_key_allows(None, None, None));
}

#[test]
fn test_api_key_valid_query_param() {
    assert!(api_key_allows(Some("secret123"), Some("apikey=secret123"), None));
}

#[test]
fn test_api_key_valid_header() {
    assert!(api_key_allows(Some("secret123"), None, Some("secret123")));
}

#[test]
fn test_api_key_invalid() {
    assert!(!api_key_allows(Some("secret123"), Some("apikey=wrong"), None));
}

#[test]
fn test_api_key_missing_when_required() {
    assert!(!api_key_allows(Some("secret123"), None, None));
}

#[test]
fn api_key_is_percent_decoded_and_found_among_other_parameters() {
    assert!(api_key_allows(Some("a b/c"), Some("mode=queue&apikey=a%20b%2Fc&output=json"), None));
    assert!(!api_key_allows(Some("secret"), Some("xapikey=secret"), None));
    assert!(api_key_allows(Some("secret"), Some("apikey=wrong&apikey=secret"), None));
}

#[test]
fn test_basic_auth_no_creds_configured() {
    assert_eq!(basic_auth_decision(None, None, None), AuthDecision::Allow);
}

#[test]
fn test_basic_auth_valid() {
    let h = encode_basic("admin", "pass");
    assert_eq!(basic_auth_decision(Some("admin"), Some("pass"), Some(&h)), AuthDecision::Allow);
}

#[test]
fn test_basic_auth_invalid_password() {
    let h = encode_basic("admin", "wrong");
    assert_eq!(
        basic_auth_decision(Some("admin"), Some("pass"), Some(&h)),
        AuthDecision::Unauthorized
    );
}

#[test]
fn test_basic_auth_invalid_user() {
    let h = encode_basic("wrong", "pass");
    assert_eq!(
        basic_auth_decision(Some("admin"), Some("pass"), Some(&h)),
        AuthDecision::Unauthorized
    );
}

#[test]
fn test_basic_auth_missing_header() {
    assert_eq!(basic_auth_decision(Some("admin"), Some("pass"), None), AuthDecision::Unauthorized);
}

#[test]
fn test_basic_auth_only_user_configured() {
    let h = encode_basic("admin", "anything");
    assert_eq!(basic_auth_decision(Some("admin"), None, Some(&h)), AuthDecision::Allow);
}

#[test]
fn test_basic_auth_only_pass_configured() {
    let h = encode_basic("anyone", "secret");
    assert_eq!(basic_auth_decision(None, Some("secret"), Some(&h)), AuthDecision::Allow);
}

#[test]
fn malformed_basic_credentials() {
    assert_eq!(
        basic_auth_decision(Some("a"), None, Some("Bearer xyz")),
        AuthDecision::Unauthorized
    );
    assert_eq!(
        basic_auth_decision(Some("a"), None, Some("Basic !!!not-base64")),
        AuthDecision::BadRequest
    );
    let no_colon = format!("Basic {}", STANDARD.encode("justuser"));
    assert_eq!(basic_auth_decision(Some("a"), None, Some(&no_colon)), AuthDecision::Unauthorized);
    let not_utf8 = format!("Basic {}", STANDARD.encode([0xffu8, 0xfe, b':', b'x']));
    assert_eq!(basic_auth_decision(Some("a"), None, Some(&not_utf8)), AuthDecision::BadRequest);
    let padded = format!("Basic  {}  ", STANDARD.encode("a:b:c"));
    assert_eq!(basic_auth_decision(Some("a"), Some("b:c"), Some(&padded)), AuthDecision::Allow);
}
