use mcp_addition::config::{default_issuer, select_transport, Transport};
use mcp_addition::crypto::{random_token, s256_challenge};
use mcp_addition::http::{extract_bearer, www_authenticate_challenge};
use mcp_addition::text::{html_escape, str_eq, urlencode};

#[test]
fn html_escape_replaces_markup_characters() {
    assert_eq!(
        html_escape("<a href=\"x\">Tom & 'Jerry'</a>"),
        "&lt;a href=&quot;x&quot;&gt;Tom &amp; &#39;Jerry&#39;&lt;/a&gt;"
    );
    assert_eq!(html_escape(""), "");
    assert_eq!(html_escape("plain text é"), "plain text é");
    assert_eq!(html_escape("&amp;"), "&amp;amp;");
}

#[test]
fn urlencode_keeps_unreserved_and_escapes_the_rest() {
    assert_eq!(urlencode("abcXYZ019-_.~"), "abcXYZ019-_.~");
    assert_eq!(urlencode("a b/c?d=e&f"), "a%20b%2Fc%3Fd%3De%26f");
    assert_eq!(urlencode("é"), "%C3%A9");
    assert_eq!(urlencode(""), "");
    assert_eq!(urlencode("access_denied"), "access_denied");
}

#[test]
fn str_eq_compares_characters() {
    assert!(str_eq("code", "code"));
    assert!(!str_eq("code", "Code"));
    assert!(!str_eq("code", "codes"));
    assert!(str_eq("", ""));
}

#[test]
fn s256_challenge_matches_the_pkce_example() {
    assert_eq!(
        s256_challenge("dBjftJeZ4CVP-mB92K27uhbUJU1p1r_wW1gFWFOEjXk"),
        "E9Melhoa2OwvFrEMTJguCHaoeK1t8URWbuGJSstw-cM"
    );
}

#[test]
fn random_tokens_are_43_url_safe_characters() {
    let a = random_token();
    let b = random_token();
    assert_eq!(a.chars().count(), 43);
    assert!(a.chars().all(|c| c.is_ascii_alphanumeric() || c == '-' || c == '_'));
    assert_ne!(a, b);
    assert_eq!(urlencode(&a), a);
}

#[test]
fn extract_bearer_strips_the_scheme() {
    assert_eq!(extract_bearer(Some("Bearer abc.def")), Some("abc.def".to_string()));
    assert_eq!(extract_bearer(Some("Bearer ")), Some(String::new()));
    assert_eq!(extract_bearer(Some("bearer abc")), None);
    assert_eq!(extract_bearer(Some("Basic abc")), None);
    assert_eq!(extract_bearer(Some("Bearer")), None);
    assert_eq!(extract_bearer(None), None);
}

#[test]
fn challenge_points_at_resource_metadata() {
    assert_eq!(
        www_authenticate_challenge("http://127.0.0.1:8000"),
        "Bearer resource_metadata=\"http://127.0.0.1:8000/.well-known/oauth-protected-resource\""
    );
}

#[test]
fn transport_selection() {
    assert!(select_transport("http") == Ok(Transport::Http));
    assert!(select_transport("stdio") == Ok(Transport::Stdio));
    assert!(select_transport("") == Ok(Transport::Stdio));
    match select_transport("tcp") {
        Err(m) => assert_eq!(m, "Unknown MCP_TRANSPORT=tcp; expected \"stdio\" or \"http\""),
        Ok(_) => panic!("tcp is not a transport"),
    }
    assert_eq!(default_issuer("127.0.0.1:8000"), "http://127.0.0.1:8000");
}

#[test]
fn escaped_and_encoded_text_is_inert() {
    let nasty = "\"><script>alert('x')</script><a href='";
    let escaped = html_escape(nasty);
    assert!(!escaped.contains(['<', '>', '"', '\'']));
    let encoded = urlencode("a&b=c#d?e f/g\"h'é");
    assert!(encoded
        .chars()
        .all(|c| c.is_ascii_alphanumeric() || "-_.~%".contains(c)));
    assert_eq!(encoded, "a%26b%3Dc%23d%3Fe%20f%2Fg%22h%27%C3%A9");
}

#[test]
fn clock_readings_do_not_go_backwards() {
    let mut s = mcp_addition::oauth::OAuthState::new("http://x".to_string());
    let a = s.now();
    let b = s.now();
    let c = s.now();
    assert!(b <= c);
    assert!(a <= b);
    assert!(b <= mcp_addition::clock::CLOCK_LIMIT);
}
