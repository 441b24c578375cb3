use mcp_addition::http::{authenticate_at, AccessDecision};
use mcp_addition::oauth::{
    authorize_decision_with, issue_tokens_with, register_with, revoke, token_at, AuthorizeDecision,
    OAuthState, RegisterRequest, RevokeRequest, TokenRequest, ACCESS_TOKEN_TTL, AUTH_CODE_TTL,
};
use mcp_addition::text::{html_escape, urlencode};

const REDIRECT: &str = "http://localhost:3000/callback";
const VERIFIER: &str = "dBjftJeZ4CVP-mB92K27uhbUJU1p1r_wW1gFWFOEjXk";
const CHALLENGE: &str = "E9Melhoa2OwvFrEMTJguCHaoeK1t8URWbuGJSstw-cM";

fn server() -> OAuthState {
    let mut s = OAuthState::new("http://127.0.0.1:8000".to_string());
    let req = RegisterRequest { redirect_uris: vec![REDIRECT.to_string()], client_name: None };
    assert!(register_with(&mut s, req, "c1".to_string()).is_ok());
    s
}

fn approve(s: &mut OAuthState, code: &str, now: u64) {
    let f = AuthorizeDecision {
        decision: "approve".to_string(),
        client_id: "c1".to_string(),
        redirect_uri: REDIRECT.to_string(),
        state: None,
        code_challenge: CHALLENGE.to_string(),
        code_challenge_method: "S256".to_string(),
        scope: None,
    };
    assert!(authorize_decision_with(s, f, code.to_string(), now).is_ok());
}

fn exchange(code: &str) -> TokenRequest {
    TokenRequest {
        grant_type: "authorization_code".to_string(),
        code: Some(code.to_string()),
        redirect_uri: Some(REDIRECT.to_string()),
        code_verifier: Some(VERIFIER.to_string()),
        refresh_token: None,
        client_id: Some("c1".to_string()),
    }
}

fn refresh(t: &str) -> TokenRequest {
    TokenRequest {
        grant_type: "refresh_token".to_string(),
        code: None,
        redirect_uri: None,
        code_verifier: None,
        refresh_token: Some(t.to_string()),
        client_id: Some("c1".to_string()),
    }
}

fn error_of(res: Result<mcp_addition::oauth::TokenResponse, mcp_addition::oauth::OAuthError>) -> String {
    match res {
        Ok(_) => panic!("expected an error"),
        Err(e) => e.error_description,
    }
}

#[test]
fn used_code_is_refused_after_other_operations() {
    let mut s = server();
    approve(&mut s, "code1", 0);
    assert!(token_at(&mut s, exchange("code1"), 10).is_ok());
    approve(&mut s, "code2", 20);
    issue_tokens_with(&mut s, "c1", "a".to_string(), "r".to_string(), 30);
    revoke(&mut s, RevokeRequest { token: "a".to_string(), token_type_hint: None });
    assert_eq!(s.validate_access_token_at("zzz", 40), None);
    assert_eq!(error_of(token_at(&mut s, exchange("code1"), 50)), "unknown code");
}

#[test]
fn code_survives_unrelated_operations_within_its_lifetime() {
    let mut s = server();
    approve(&mut s, "code1", 100);
    approve(&mut s, "code2", 110);
    assert!(token_at(&mut s, exchange("code2"), 120).is_ok());
    issue_tokens_with(&mut s, "c1", "a".to_string(), "r".to_string(), 130);
    let t = token_at(&mut s, exchange("code1"), 100 + AUTH_CODE_TTL).ok().unwrap();
    assert_eq!(s.validate_access_token_at(&t.access_token, 100 + AUTH_CODE_TTL), Some("c1".to_string()));
}

#[test]
fn rotated_refresh_token_stays_refused() {
    let mut s = server();
    approve(&mut s, "code1", 0);
    let first = token_at(&mut s, exchange("code1"), 1).ok().unwrap();
    let second = token_at(&mut s, refresh(&first.refresh_token), 2).ok().unwrap();
    let _third = token_at(&mut s, refresh(&second.refresh_token), 3).ok().unwrap();
    approve(&mut s, "code2", 4);
    assert!(token_at(&mut s, exchange("code2"), 5).is_ok());
    assert_eq!(error_of(token_at(&mut s, refresh(&first.refresh_token), 6)), "unknown refresh_token");
    assert_eq!(error_of(token_at(&mut s, refresh(&second.refresh_token), 7)), "unknown refresh_token");
}

#[test]
fn revoked_token_stays_refused_and_valid_token_is_forwarded() {
    let mut s = server();
    issue_tokens_with(&mut s, "c1", "a1".to_string(), "r1".to_string(), 0);
    issue_tokens_with(&mut s, "c1", "a2".to_string(), "r2".to_string(), 0);
    revoke(&mut s, RevokeRequest { token: "a1".to_string(), token_type_hint: None });
    approve(&mut s, "code1", 5);
    assert!(token_at(&mut s, exchange("code1"), 6).is_ok());
    assert_eq!(s.validate_access_token_at("a1", 7), None);
    match authenticate_at(&mut s, Some("Bearer a2"), ACCESS_TOKEN_TTL - 1) {
        AccessDecision::Forward(c) => assert_eq!(c, "c1"),
        AccessDecision::Unauthorized(_) => panic!("valid token refused"),
    }
    match authenticate_at(&mut s, Some("Bearer a1"), 8) {
        AccessDecision::Forward(_) => panic!("revoked token forwarded"),
        AccessDecision::Unauthorized(_) => {}
    }
}

#[test]
fn encodings_keep_texts_apart() {
    assert_ne!(urlencode("a b"), urlencode("a+b"));
    assert_ne!(urlencode("%20"), urlencode(" "));
    assert_eq!(urlencode("%20"), "%2520");
    assert_eq!(urlencode("Az09-_.~"), "Az09-_.~");
    assert_ne!(html_escape("&lt;"), html_escape("<"));
    assert_eq!(html_escape("&lt;"), "&amp;lt;");
    assert_eq!(html_escape("plain text 123"), "plain text 123");
}
