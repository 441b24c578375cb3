use mcp_addition::crypto::s256_challenge;
use mcp_addition::http::{authenticate_at, AccessDecision};
use mcp_addition::oauth::{
    authorization_server_metadata, authorize_decision, authorize_decision_with, authorize_page,
    grant_authorization_code_checked,
    issue_tokens_with, protected_resource_metadata, redirect_with_error, register, register_with,
    revoke, token, token_at, validate_authorize, AuthorizeDecision, AuthorizeQuery,
    AuthorizeRejection, OAuthError, OAuthState, RegisterRequest, RevokeRequest, TokenRequest,
    TokenResponse, ACCESS_TOKEN_TTL, AUTH_CODE_TTL,
};

const ISSUER: &str = "http://127.0.0.1:8000";
const REDIRECT: &str = "http://localhost:3000/callback";
const VERIFIER: &str = "dBjftJeZ4CVP-mB92K27uhbUJU1p1r_wW1gFWFOEjXk";
const CHALLENGE: &str = "E9Melhoa2OwvFrEMTJguCHaoeK1t8URWbuGJSstw-cM";

fn state_with_client(id: &str) -> OAuthState {
    let mut s = OAuthState::new(ISSUER.to_string());
    let req = RegisterRequest {
        redirect_uris: vec![REDIRECT.to_string(), "http://localhost/other".to_string()],
        client_name: Some("demo".to_string()),
    };
    assert!(register_with(&mut s, req, id.to_string()).is_ok());
    s
}

fn decision(client: &str, decision: &str, state: Option<&str>) -> AuthorizeDecision {
    AuthorizeDecision {
        decision: decision.to_string(),
        client_id: client.to_string(),
        redirect_uri: REDIRECT.to_string(),
        state: state.map(|s| s.to_string()),
        code_challenge: CHALLENGE.to_string(),
        code_challenge_method: "S256".to_string(),
        scope: None,
    }
}

fn query(client: &str) -> AuthorizeQuery {
    AuthorizeQuery {
        response_type: "code".to_string(),
        client_id: client.to_string(),
        redirect_uri: REDIRECT.to_string(),
        state: Some("xyz".to_string()),
        code_challenge: CHALLENGE.to_string(),
        code_challenge_method: "S256".to_string(),
        scope: Some("mcp <all>".to_string()),
    }
}

fn code_request(code: &str, client: &str, redirect: &str, verifier: &str) -> TokenRequest {
    TokenRequest {
        grant_type: "authorization_code".to_string(),
        code: Some(code.to_string()),
        redirect_uri: Some(redirect.to_string()),
        code_verifier: Some(verifier.to_string()),
        refresh_token: None,
        client_id: Some(client.to_string()),
    }
}

fn refresh_request(refresh: &str, client: &str) -> TokenRequest {
    TokenRequest {
        grant_type: "refresh_token".to_string(),
        code: None,
        redirect_uri: None,
        code_verifier: None,
        refresh_token: Some(refresh.to_string()),
        client_id: Some(client.to_string()),
    }
}

fn expect_error(res: Result<TokenResponse, OAuthError>, error: &str, description: &str) {
    match res {
        Ok(_) => panic!("expected {}: {}", error, description),
        Err(e) => {
            assert_eq!(e.status, 400);
            assert_eq!(e.error, error);
            assert_eq!(e.error_description, description);
        }
    }
}

fn approve(s: &mut OAuthState, client: &str, code: &str, now: u64) {
    let url = authorize_decision_with(s, decision(client, "approve", None), code.to_string(), now);
    assert_eq!(url.ok(), Some(format!("{}?code={}", REDIRECT, code)));
}

#[test]
fn register_echoes_the_registration() {
    let mut s = OAuthState::new(ISSUER.to_string());
    let req = RegisterRequest {
        redirect_uris: vec![REDIRECT.to_string()],
        client_name: Some("demo".to_string()),
    };
    let r = register_with(&mut s, req, "client-1".to_string()).ok().unwrap();
    assert_eq!(r.client_id, "client-1");
    assert_eq!(r.redirect_uris, vec![REDIRECT.to_string()]);
    assert_eq!(r.token_endpoint_auth_method, "none");
    assert_eq!(r.grant_types, vec!["authorization_code".to_string(), "refresh_token".to_string()]);
    assert_eq!(r.response_types, vec!["code".to_string()]);
    assert_eq!(r.client_name, Some("demo".to_string()));
    assert!(validate_authorize(&s, &query("client-1")).is_ok());
}

#[test]
fn register_without_redirect_uris_is_refused() {
    let mut s = OAuthState::new(ISSUER.to_string());
    let req = RegisterRequest { redirect_uris: vec![], client_name: None };
    match register_with(&mut s, req, "client-1".to_string()) {
        Ok(_) => panic!("registration without redirect URIs"),
        Err(e) => {
            assert_eq!(e.status, 400);
            assert_eq!(e.error, "invalid_redirect_uri");
            assert_eq!(e.error_description, "redirect_uris is required");
        }
    }
    assert!(validate_authorize(&s, &query("client-1")) == Err(AuthorizeRejection::UnknownClient));
}

#[test]
fn register_draws_a_uuid_client_id() {
    let mut s = OAuthState::new(ISSUER.to_string());
    let req = RegisterRequest { redirect_uris: vec![REDIRECT.to_string()], client_name: None };
    let r = register(&mut s, req).ok().unwrap();
    let id: Vec<char> = r.client_id.chars().collect();
    assert_eq!(id.len(), 36);
    for (i, c) in id.iter().enumerate() {
        if i == 8 || i == 13 || i == 18 || i == 23 {
            assert_eq!(*c, '-');
        } else {
            assert!(c.is_ascii_digit() || ('a'..='f').contains(c));
        }
    }
    assert_eq!(id[14], '4');
    assert!("89ab".contains(id[19]));
    assert_eq!(r.client_name, None);
    assert!(validate_authorize(&s, &query(&r.client_id)).is_ok());
}

#[test]
fn authorize_refusals_in_order() {
    let s = state_with_client("c1");
    let mut q = query("c1");
    q.response_type = "token".to_string();
    q.code_challenge_method = "plain".to_string();
    let e = validate_authorize(&s, &q).err().unwrap();
    assert!(e == AuthorizeRejection::UnsupportedResponseType);
    assert_eq!(e.message(), "unsupported response_type (must be \"code\")");
    assert_eq!(e.status(), 400);

    let mut q = query("c1");
    q.code_challenge_method = "plain".to_string();
    let e = validate_authorize(&s, &q).err().unwrap();
    assert!(e == AuthorizeRejection::UnsupportedChallengeMethod);
    assert_eq!(e.message(), "code_challenge_method must be S256");

    let e = validate_authorize(&s, &query("nobody")).err().unwrap();
    assert!(e == AuthorizeRejection::UnknownClient);
    assert_eq!(e.message(), "unknown client_id");

    let mut q = query("c1");
    q.redirect_uri = "http://evil.example/".to_string();
    let e = validate_authorize(&s, &q).err().unwrap();
    assert!(e == AuthorizeRejection::UnregisteredRedirectUri);
    assert_eq!(e.message(), "redirect_uri not registered");

    let mut q = query("c1");
    q.redirect_uri = "http://localhost/other".to_string();
    assert!(validate_authorize(&s, &q).is_ok());
}

#[test]
fn authorize_page_escapes_every_value() {
    let s = state_with_client("c1");
    let html = authorize_page(&s, &query("c1")).ok().unwrap();
    assert!(html.starts_with("<!DOCTYPE html>\n<html><head><title>Authorize</title>"));
    assert!(html.contains("<p>Client <code>c1</code> is requesting authorization.</p>"));
    assert!(html.contains("<p>Scope: <code>mcp &lt;all&gt;</code></p>"));
    assert!(html.contains("<input type=\"hidden\" name=\"state\" value=\"xyz\">"));
    assert!(html.contains("<input type=\"hidden\" name=\"scope\" value=\"mcp &lt;all&gt;\">"));
    assert!(html.contains(&format!(
        "<input type=\"hidden\" name=\"code_challenge\" value=\"{}\">",
        CHALLENGE
    )));
    assert!(html.ends_with("</form>\n</body></html>"));

    let mut q = query("c1");
    q.state = None;
    q.scope = None;
    let html = authorize_page(&s, &q).ok().unwrap();
    assert!(html.contains("<input type=\"hidden\" name=\"state\" value=\"\">"));
    assert!(html.contains("<p>Scope: <code></code></p>"));

    assert!(authorize_page(&s, &query("nobody")).err() == Some(AuthorizeRejection::UnknownClient));
}

#[test]
fn deny_redirects_with_access_denied() {
    let mut s = state_with_client("c1");
    let url = authorize_decision_with(&mut s, decision("c1", "deny", Some("a b")), "code1".to_string(), 0);
    assert_eq!(url.ok(), Some(format!("{}?error=access_denied&state=a%20b", REDIRECT)));
    // No code was recorded.
    expect_error(
        token_at(&mut s, code_request("code1", "c1", REDIRECT, VERIFIER), 0),
        "invalid_grant",
        "unknown code",
    );
}

#[test]
fn decision_for_unknown_client_is_refused() {
    let mut s = state_with_client("c1");
    let res = authorize_decision_with(&mut s, decision("c2", "approve", None), "code1".to_string(), 0);
    assert!(res.err() == Some(AuthorizeRejection::UnknownClient));
}

#[test]
fn redirect_with_error_encodes_values() {
    assert_eq!(
        redirect_with_error("https://app/cb", "access_denied", Some("s&t")),
        "https://app/cb?error=access_denied&state=s%26t"
    );
    assert_eq!(redirect_with_error("https://app/cb", "bad thing", None), "https://app/cb?error=bad%20thing");
}

#[test]
fn code_exchange_issues_tokens_once() {
    let mut s = state_with_client("c1");
    let url = authorize_decision_with(&mut s, decision("c1", "approve", Some("st 1")), "code1".to_string(), 1_000);
    assert_eq!(url.ok(), Some(format!("{}?code=code1&state=st%201", REDIRECT)));
    let t = token_at(&mut s, code_request("code1", "c1", REDIRECT, VERIFIER), 2_000).ok().unwrap();
    assert_eq!(t.token_type, "Bearer");
    assert_eq!(t.expires_in, 3600);
    assert_eq!(t.access_token.len(), 43);
    assert_eq!(t.refresh_token.len(), 43);
    assert_eq!(s.validate_access_token_at(&t.access_token, 2_001), Some("c1".to_string()));
    // The code is used up.
    expect_error(
        token_at(&mut s, code_request("code1", "c1", REDIRECT, VERIFIER), 3_000),
        "invalid_grant",
        "unknown code",
    );
}

#[test]
fn code_exchange_refusals() {
    let mut s = state_with_client("c1");
    let mut missing = code_request("code1", "c1", REDIRECT, VERIFIER);
    missing.code = None;
    expect_error(token_at(&mut s, missing, 0), "invalid_request", "missing code");
    let mut missing = code_request("code1", "c1", REDIRECT, VERIFIER);
    missing.code_verifier = None;
    expect_error(token_at(&mut s, missing, 0), "invalid_request", "missing code_verifier");
    let mut missing = code_request("code1", "c1", REDIRECT, VERIFIER);
    missing.client_id = None;
    expect_error(token_at(&mut s, missing, 0), "invalid_request", "missing client_id");
    let mut missing = code_request("code1", "c1", REDIRECT, VERIFIER);
    missing.redirect_uri = None;
    expect_error(token_at(&mut s, missing, 0), "invalid_request", "missing redirect_uri");
    expect_error(
        token_at(&mut s, code_request("nope", "c1", REDIRECT, VERIFIER), 0),
        "invalid_grant",
        "unknown code",
    );

    approve(&mut s, "c1", "code1", 0);
    expect_error(
        token_at(&mut s, code_request("code1", "c1", REDIRECT, VERIFIER), AUTH_CODE_TTL + 1),
        "invalid_grant",
        "code expired",
    );
    approve(&mut s, "c1", "code2", 0);
    expect_error(
        token_at(&mut s, code_request("code2", "c9", REDIRECT, VERIFIER), 5),
        "invalid_grant",
        "client_id mismatch",
    );
    approve(&mut s, "c1", "code3", 0);
    expect_error(
        token_at(&mut s, code_request("code3", "c1", "http://localhost/other", VERIFIER), 5),
        "invalid_grant",
        "redirect_uri mismatch",
    );
    approve(&mut s, "c1", "code4", 0);
    expect_error(
        token_at(&mut s, code_request("code4", "c1", REDIRECT, "wrong-verifier"), 5),
        "invalid_grant",
        "PKCE verification failed",
    );
    // A failed exchange used the code up.
    expect_error(
        token_at(&mut s, code_request("code4", "c1", REDIRECT, VERIFIER), 6),
        "invalid_grant",
        "unknown code",
    );
    // At the very end of its lifetime the code is still good.
    approve(&mut s, "c1", "code5", 0);
    assert!(token_at(&mut s, code_request("code5", "c1", REDIRECT, VERIFIER), AUTH_CODE_TTL).is_ok());
}

#[test]
fn unsupported_grant_type() {
    let mut s = state_with_client("c1");
    let mut req = code_request("code1", "c1", REDIRECT, VERIFIER);
    req.grant_type = "password".to_string();
    expect_error(token_at(&mut s, req, 0), "unsupported_grant_type", "grant_type password not supported");
}

#[test]
fn refresh_rotates_the_refresh_token() {
    let mut s = state_with_client("c1");
    approve(&mut s, "c1", "code1", 0);
    let first = token_at(&mut s, code_request("code1", "c1", REDIRECT, VERIFIER), 10).ok().unwrap();
    let second = token_at(&mut s, refresh_request(&first.refresh_token, "c1"), 20).ok().unwrap();
    assert_ne!(second.refresh_token, first.refresh_token);
    assert_eq!(s.validate_access_token_at(&second.access_token, 21), Some("c1".to_string()));
    expect_error(
        token_at(&mut s, refresh_request(&first.refresh_token, "c1"), 30),
        "invalid_grant",
        "unknown refresh_token",
    );
    // A mismatched client uses the refresh token up too.
    expect_error(
        token_at(&mut s, refresh_request(&second.refresh_token, "c2"), 40),
        "invalid_grant",
        "client_id mismatch",
    );
    expect_error(
        token_at(&mut s, refresh_request(&second.refresh_token, "c1"), 50),
        "invalid_grant",
        "unknown refresh_token",
    );
    let mut req = refresh_request("x", "c1");
    req.refresh_token = None;
    expect_error(token_at(&mut s, req, 0), "invalid_request", "missing refresh_token");
    let mut req = refresh_request("x", "c1");
    req.client_id = None;
    expect_error(token_at(&mut s, req, 0), "invalid_request", "missing client_id");
}

#[test]
fn access_tokens_expire_and_are_forgotten() {
    let mut s = OAuthState::new(ISSUER.to_string());
    let t = issue_tokens_with(&mut s, "c1", "acc".to_string(), "ref".to_string(), 100);
    assert_eq!(t.access_token, "acc");
    assert_eq!(t.refresh_token, "ref");
    assert_eq!(s.validate_access_token_at("acc", 100 + ACCESS_TOKEN_TTL - 1), Some("c1".to_string()));
    assert_eq!(s.validate_access_token_at("acc", 100 + ACCESS_TOKEN_TTL), None);
    // Forgotten, so even an earlier time does not bring it back.
    assert_eq!(s.validate_access_token_at("acc", 100), None);
    assert_eq!(s.validate_access_token_at("unknown", 0), None);
}

#[test]
fn revoke_forgets_both_kinds_of_token() {
    let mut s = OAuthState::new(ISSUER.to_string());
    issue_tokens_with(&mut s, "c1", "acc".to_string(), "ref".to_string(), 0);
    assert_eq!(revoke(&mut s, RevokeRequest { token: "acc".to_string(), token_type_hint: None }), 200);
    assert_eq!(s.validate_access_token_at("acc", 1), None);
    assert_eq!(
        revoke(&mut s, RevokeRequest { token: "ref".to_string(), token_type_hint: Some("refresh_token".to_string()) }),
        200
    );
    expect_error(token_at(&mut s, refresh_request("ref", "c1"), 1), "invalid_grant", "unknown refresh_token");
    assert_eq!(revoke(&mut s, RevokeRequest { token: "none".to_string(), token_type_hint: None }), 200);
}

#[test]
fn bearer_authentication() {
    let mut s = OAuthState::new(ISSUER.to_string());
    issue_tokens_with(&mut s, "c1", "acc".to_string(), "ref".to_string(), 0);
    match authenticate_at(&mut s, Some("Bearer acc"), 5) {
        AccessDecision::Forward(c) => assert_eq!(c, "c1"),
        AccessDecision::Unauthorized(_) => panic!("valid token refused"),
    }
    let challenge =
        "Bearer resource_metadata=\"http://127.0.0.1:8000/.well-known/oauth-protected-resource\"";
    for header in [None, Some("acc"), Some("Bearer ref"), Some("Bearer nope")] {
        match authenticate_at(&mut s, header, 5) {
            AccessDecision::Forward(_) => panic!("request without a valid token forwarded"),
            AccessDecision::Unauthorized(ch) => assert_eq!(ch, challenge),
        }
    }
    match authenticate_at(&mut s, Some("Bearer acc"), ACCESS_TOKEN_TTL) {
        AccessDecision::Forward(_) => panic!("expired token forwarded"),
        AccessDecision::Unauthorized(ch) => assert_eq!(ch, challenge),
    }
}

#[test]
fn flow_with_the_clock() {
    let mut s = state_with_client("c1");
    let url = authorize_decision(&mut s, decision("c1", "approve", None)).ok().unwrap();
    let prefix = format!("{}?code=", REDIRECT);
    assert!(url.starts_with(&prefix));
    let code = url[prefix.len()..].to_string();
    assert_eq!(code.len(), 43);
    let t = token(&mut s, code_request(&code, "c1", REDIRECT, VERIFIER)).ok().unwrap();
    assert_eq!(s.validate_access_token(&t.access_token), Some("c1".to_string()));
    assert_eq!(s256_challenge(VERIFIER), CHALLENGE);
}

#[test]
fn discovery_documents() {
    let s = OAuthState::new(ISSUER.to_string());
    let p = protected_resource_metadata(&s);
    assert_eq!(p.resource, ISSUER);
    assert_eq!(p.authorization_servers, vec![ISSUER.to_string()]);
    assert_eq!(p.bearer_methods_supported, vec!["header".to_string()]);
    let m = authorization_server_metadata(&s);
    assert_eq!(m.issuer, ISSUER);
    assert_eq!(m.registration_endpoint, "http://127.0.0.1:8000/oauth/register");
    assert_eq!(m.authorization_endpoint, "http://127.0.0.1:8000/oauth/authorize");
    assert_eq!(m.token_endpoint, "http://127.0.0.1:8000/oauth/token");
    assert_eq!(m.revocation_endpoint, "http://127.0.0.1:8000/oauth/revoke");
    assert_eq!(m.response_types_supported, vec!["code".to_string()]);
    assert_eq!(m.grant_types_supported, vec!["authorization_code".to_string(), "refresh_token".to_string()]);
    assert_eq!(m.code_challenge_methods_supported, vec!["S256".to_string()]);
    assert_eq!(m.token_endpoint_auth_methods_supported, vec!["none".to_string()]);
    assert_eq!(s.issuer, ISSUER);
}

#[test]
fn code_exchange_with_a_given_challenge() {
    let mut s = state_with_client("c1");
    approve(&mut s, "c1", "code1", 0);
    let t = grant_authorization_code_checked(
        &mut s,
        code_request("code1", "c1", REDIRECT, "any verifier"),
        CHALLENGE,
        1,
    )
    .ok()
    .unwrap();
    assert_eq!(s.validate_access_token_at(&t.access_token, 2), Some("c1".to_string()));
    approve(&mut s, "c1", "code2", 0);
    expect_error(
        grant_authorization_code_checked(&mut s, code_request("code2", "c1", REDIRECT, VERIFIER), "other", 1),
        "invalid_grant",
        "PKCE verification failed",
    );
}
