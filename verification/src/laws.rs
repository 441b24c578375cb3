//! Properties of the server that span its operations, proved from the
//! contracts of the operations.

use vstd::prelude::*;

use crate::clock::CLOCK_LIMIT;
use crate::crypto::{
    base64_url_nopad, is_base64_url_char, lemma_base64_injective, pkce_challenge, sha256,
};
use crate::text::{
    html_escaped, html_unescaped, is_unreserved_char, lemma_html_unescape_escape,
    lemma_unreserved_text_is_unchanged,
};
use crate::oauth::{
    access_token_valid, after_revoke, after_validation, authorize_rejection, code_grant_complete,
    code_grant_error, code_redirect, decision_outcome, decision_query, opt_view,
    refresh_grant_complete, refresh_grant_error, register_outcome, token_outcome,
    token_request_error, with_tokens_issued, AuthorizeDecision, AuthorizeQueryView,
    AuthorizeRejection, OAuthError, OAuthView, RegisterResponse, TokenRequestView, TokenResponse,
    ACCESS_TOKEN_TTL, AUTH_CODE_TTL, query_value, authorize_page_html, hidden_input, or_empty,
    AccessGrant,
};

verus! {

/// An authorization code is good for one exchange: once a code grant with
/// all four parameters has run, whatever its outcome, the code is gone, and a
/// second exchange of it is refused as an unknown code.
pub proof fn lemma_code_is_single_use(
    pre: OAuthView,
    post: OAuthView,
    r: TokenRequestView,
    now: u64,
    res: Result<TokenResponse, OAuthError>,
    again: TokenRequestView,
    later: u64,
)
    requires
        token_outcome(pre, post, r, now, res),
        r.grant_type == "authorization_code"@,
        code_grant_complete(r),
        code_grant_complete(again),
        again.code == r.code,
    ensures
        !post.auth_codes.contains_key(r.code->0),
        code_grant_error(post, again, later) == Some(("invalid_grant"@, "unknown code"@)),
{
}

/// Refresh tokens rotate: after a successful refresh grant the old refresh
/// token is gone (unless the new one drawn happens to be the same text), the
/// new one belongs to the same client, and replaying the old one is refused.
pub proof fn lemma_refresh_token_rotates(
    pre: OAuthView,
    post: OAuthView,
    r: TokenRequestView,
    now: u64,
    t: TokenResponse,
    again: TokenRequestView,
)
    requires
        token_outcome(pre, post, r, now, Ok(t)),
        r.grant_type == "refresh_token"@,
        t.refresh_token@ != r.refresh_token->0,
        refresh_grant_complete(again),
        again.refresh_token == r.refresh_token,
    ensures
        pre.refresh_tokens.contains_key(r.refresh_token->0),
        pre.refresh_tokens[r.refresh_token->0] == r.client_id->0,
        !post.refresh_tokens.contains_key(r.refresh_token->0),
        post.refresh_tokens[t.refresh_token@] == r.client_id->0,
        refresh_grant_error(post, again) == Some(("invalid_grant"@, "unknown refresh_token"@)),
{
    assert("refresh_token"@ != "authorization_code"@) by {
        reveal_strlit("refresh_token");
        reveal_strlit("authorization_code");
        assert("refresh_token"@.len() != "authorization_code"@.len());
    }
}

/// A revoked token is refused afterwards, as an access token at any time and
/// as a refresh token.
pub proof fn lemma_revoked_token_is_refused(
    pre: OAuthView,
    token: Seq<char>,
    now: u64,
    again: TokenRequestView,
)
    requires
        refresh_grant_complete(again),
        again.refresh_token == Some(token),
    ensures
        !access_token_valid(after_revoke(pre, token), token, now),
        refresh_grant_error(after_revoke(pre, token), again) == Some(
            ("invalid_grant"@, "unknown refresh_token"@),
        ),
{
}

/// An issued access token is valid, for the client it was issued to, exactly
/// until its lifetime has run out; checking it while valid changes nothing.
pub proof fn lemma_issued_token_valid_until_expiry(
    pre: OAuthView,
    client_id: Seq<char>,
    access: Seq<char>,
    refresh: Seq<char>,
    now: u64,
    later: u64,
)
    requires
        now <= CLOCK_LIMIT,
    ensures
        access_token_valid(with_tokens_issued(pre, client_id, access, refresh, now), access, later)
            <==> later < now + ACCESS_TOKEN_TTL,
        with_tokens_issued(pre, client_id, access, refresh, now).access_tokens[access].client_id
            == client_id,
        later < now + ACCESS_TOKEN_TTL ==> after_validation(
            with_tokens_issued(pre, client_id, access, refresh, now),
            access,
            later,
        ) == with_tokens_issued(pre, client_id, access, refresh, now),
{
}

/// A token answer tells the truth about the access token's lifetime: the
/// token it issues at `now` is valid, for the client that asked, exactly
/// while less than `expires_in` seconds have passed since.
pub proof fn lemma_token_lives_as_announced(
    pre: OAuthView,
    post: OAuthView,
    r: TokenRequestView,
    now: u64,
    t: TokenResponse,
    later: u64,
)
    requires
        now <= CLOCK_LIMIT,
        token_outcome(pre, post, r, now, Ok(t)),
    ensures
        t.expires_in == crate::oauth::ACCESS_TOKEN_TTL_SECS,
        access_token_valid(post, t.access_token@, later) <==> later < now + t.expires_in
            * 1_000_000_000,
        post.access_tokens[t.access_token@].client_id == r.client_id->0,
{
}

/// A token that is refused when checked is forgotten, so every later check of
/// it is refused too; checking twice is the same as checking once.
pub proof fn lemma_refused_token_is_forgotten(v: OAuthView, token: Seq<char>, now: u64, later: u64)
    requires
        !access_token_valid(v, token, now),
    ensures
        !after_validation(v, token, now).access_tokens.contains_key(token),
        !access_token_valid(after_validation(v, token, now), token, later),
        after_validation(after_validation(v, token, now), token, now) == after_validation(
            v,
            token,
            now,
        ),
{
    assert(after_validation(v, token, now).access_tokens.remove(token) =~= after_validation(
        v,
        token,
        now,
    ).access_tokens);
}

/// A registered client's request, with response type `code` and method
/// `S256`, is accepted exactly when its redirect URI is one of those it
/// registered (compared as whole strings); otherwise it is refused as an
/// unregistered redirect URI.
pub proof fn lemma_registered_client_check(
    pre: OAuthView,
    post: OAuthView,
    uris: Seq<Seq<char>>,
    name: Option<String>,
    client_id: Seq<char>,
    res: Result<RegisterResponse, OAuthError>,
    q: AuthorizeQueryView,
)
    requires
        register_outcome(pre, post, uris, name, client_id, res),
        uris.len() > 0,
        q.response_type == "code"@,
        q.code_challenge_method == "S256"@,
        q.client_id == client_id,
    ensures
        res is Ok,
        authorize_rejection(post, q) == if uris.contains(q.redirect_uri) {
            None
        } else {
            Some(AuthorizeRejection::UnregisteredRedirectUri)
        },
{
}

/// The authorization-code flow works end to end: a client registers, the user
/// approves its request with PKCE challenge `S256(verifier)`, and the client
/// exchanges the code with the same client id, redirect URI and verifier
/// within the code's lifetime. The client is sent the code, gets tokens, the
/// access token is valid for it for its whole lifetime, the refresh token is
/// recorded for it, and the code is used up.
pub proof fn lemma_authorization_flow(
    s0: OAuthView,
    s1: OAuthView,
    uris: Seq<Seq<char>>,
    name: Option<String>,
    client_id: Seq<char>,
    reg: Result<RegisterResponse, OAuthError>,
    s2: OAuthView,
    f: AuthorizeDecision,
    code: Seq<char>,
    now1: u64,
    dec: Result<String, AuthorizeRejection>,
    verifier: Seq<char>,
    s3: OAuthView,
    r: TokenRequestView,
    now2: u64,
    tok: Result<TokenResponse, OAuthError>,
    now3: u64,
)
    requires
        register_outcome(s0, s1, uris, name, client_id, reg),
        uris.len() > 0,
        f.client_id@ == client_id,
        uris.contains(f.redirect_uri@),
        f.code_challenge_method@ == "S256"@,
        f.decision@ == "approve"@,
        f.code_challenge@ == pkce_challenge(verifier),
        now1 <= CLOCK_LIMIT,
        decision_outcome(s1, s2, f, code, now1, dec),
        r.grant_type == "authorization_code"@,
        r.code == Some(code),
        r.client_id == Some(client_id),
        r.redirect_uri == Some(f.redirect_uri@),
        r.code_verifier == Some(verifier),
        now2 <= now1 + AUTH_CODE_TTL,
        now2 <= CLOCK_LIMIT,
        token_outcome(s2, s3, r, now2, tok),
        now2 <= now3 < now2 + ACCESS_TOKEN_TTL,
    ensures
        reg is Ok,
        dec matches Ok(url) && url@ == code_redirect(f.redirect_uri@, code, opt_view(f.state)),
        tok matches Ok(t) && {
            &&& access_token_valid(s3, t.access_token@, now3)
            &&& s3.access_tokens[t.access_token@].client_id == client_id
            &&& s3.refresh_tokens[t.refresh_token@] == client_id
        },
        !s3.auth_codes.contains_key(code),
{
    assert(authorize_rejection(s1, decision_query(f)) is None);
    assert(s2.auth_codes.contains_key(code));
    assert(token_request_error(s2, r, now2) is None);
}

/// A code is exchanged for tokens only by the client it was issued to, with
/// the redirect URI it was issued for, before it expires, and with a verifier
/// whose `S256` challenge is the one the code was issued with.
pub proof fn lemma_code_exchange_is_bound_to_its_grant(
    pre: OAuthView,
    post: OAuthView,
    r: TokenRequestView,
    now: u64,
    t: TokenResponse,
)
    requires
        token_outcome(pre, post, r, now, Ok(t)),
        r.grant_type == "authorization_code"@,
    ensures
        code_grant_complete(r),
        pre.auth_codes.contains_key(r.code->0),
        pre.auth_codes[r.code->0].client_id == r.client_id->0,
        pre.auth_codes[r.code->0].redirect_uri == r.redirect_uri->0,
        now <= pre.auth_codes[r.code->0].expires_at,
        pkce_challenge(r.code_verifier->0) == pre.auth_codes[r.code->0].code_challenge,
{
}

/// Text in the URL-safe base64 alphabet, such as an issued token or code,
/// goes into a query string unchanged; so the redirect that hands out a code
/// carries exactly that code.
pub proof fn lemma_base64_text_is_query_safe(t: Seq<char>, uri: Seq<char>, state: Option<Seq<char>>)
    requires
        forall|i: int| 0 <= i < t.len() ==> is_base64_url_char(#[trigger] t[i]),
    ensures
        query_value(t) == t,
        code_redirect(uri, t, state) == uri + "?code="@ + t + crate::oauth::state_suffix(state),
{
    assert forall|i: int| 0 <= i < t.len() implies is_unreserved_char(#[trigger] t[i]) by {
        assert(is_base64_url_char(t[i]));
    }
    lemma_unreserved_text_is_unchanged(t);
}

/// Tokens drawn from different random bytes are different texts: the
/// unpadded base64 encoding is injective, and every issued token is the
/// encoding of exactly one 32-byte string.
pub proof fn lemma_distinct_bytes_give_distinct_tokens(b1: Seq<u8>, b2: Seq<u8>)
    requires
        b1 != b2,
    ensures
        base64_url_nopad(b1) != base64_url_nopad(b2),
{
    if base64_url_nopad(b1) == base64_url_nopad(b2) {
        lemma_base64_injective(b1, b2);
    }
}

/// The `S256` check hashes every UTF-8 byte of the verifier: when a code
/// exchange passes its other checks, it succeeds exactly when the unpadded
/// URL-safe base64 of the SHA-256 digest of the verifier's whole UTF-8
/// encoding is the challenge recorded with the code.
pub proof fn lemma_pkce_hashes_the_whole_verifier(v: OAuthView, r: TokenRequestView, now: u64)
    requires
        code_grant_complete(r),
        v.auth_codes.contains_key(r.code->0),
        now <= v.auth_codes[r.code->0].expires_at,
        v.auth_codes[r.code->0].client_id == r.client_id->0,
        v.auth_codes[r.code->0].redirect_uri == r.redirect_uri->0,
    ensures
        code_grant_error(v, r, now) is None <==> base64_url_nopad(
            sha256(vstd::utf8::encode_utf8(r.code_verifier->0)),
        ) == v.auth_codes[r.code->0].code_challenge,
        code_grant_error(v, r, now) is Some ==> code_grant_error(v, r, now) == Some(
            ("invalid_grant"@, "PKCE verification failed"@),
        ),
{
}

/// Issuing tokens records the new pair and leaves everything else as it was:
/// every other access token and refresh token keeps its grant, and codes,
/// clients, issuer and clock are untouched.
pub proof fn lemma_issuing_keeps_other_tokens(
    v: OAuthView,
    client_id: Seq<char>,
    access: Seq<char>,
    refresh: Seq<char>,
    now: u64,
    t: Seq<char>,
)
    requires
        now <= CLOCK_LIMIT,
    ensures
        with_tokens_issued(v, client_id, access, refresh, now).refresh_tokens.contains_key(refresh),
        with_tokens_issued(v, client_id, access, refresh, now).refresh_tokens[refresh] == client_id,
        with_tokens_issued(v, client_id, access, refresh, now).access_tokens.contains_key(access),
        with_tokens_issued(v, client_id, access, refresh, now).access_tokens[access] == (AccessGrant {
            client_id,
            expires_at: (now + ACCESS_TOKEN_TTL) as u64,
        }),
        t != refresh ==> (with_tokens_issued(
            v,
            client_id,
            access,
            refresh,
            now,
        ).refresh_tokens.contains_key(t) <==> v.refresh_tokens.contains_key(t)),
        t != refresh && v.refresh_tokens.contains_key(t) ==> with_tokens_issued(
            v,
            client_id,
            access,
            refresh,
            now,
        ).refresh_tokens[t] == v.refresh_tokens[t],
        t != access ==> (with_tokens_issued(
            v,
            client_id,
            access,
            refresh,
            now,
        ).access_tokens.contains_key(t) <==> v.access_tokens.contains_key(t)),
        t != access && v.access_tokens.contains_key(t) ==> with_tokens_issued(
            v,
            client_id,
            access,
            refresh,
            now,
        ).access_tokens[t] == v.access_tokens[t],
        with_tokens_issued(v, client_id, access, refresh, now).auth_codes == v.auth_codes,
        with_tokens_issued(v, client_id, access, refresh, now).clients == v.clients,
        with_tokens_issued(v, client_id, access, refresh, now).issuer == v.issuer,
        with_tokens_issued(v, client_id, access, refresh, now).time == v.time,
{
}

/// Whether `part` occurs in `s` at some position.
pub open spec fn contains_text(s: Seq<char>, part: Seq<char>) -> bool {
    exists|i: int| 0 <= i && i + part.len() <= s.len() && #[trigger] s.subrange(i, i + part.len()) == part
}

proof fn lemma_contains_middle(p: Seq<char>, m: Seq<char>, r: Seq<char>)
    ensures
        contains_text(p + m + r, m),
{
    assert((p + m + r).subrange(p.len() as int, (p.len() + m.len()) as int) =~= m);
}

/// The approval form for a request, from its opening tag to the end of the
/// page: a hidden field for each parameter in turn, named after it and
/// holding it HTML-escaped (an absent state or scope as empty), then the
/// approve and deny buttons.
pub open spec fn posted_form(q: AuthorizeQueryView) -> Seq<char> {
    crate::oauth::PAGE_FORM_OPEN@ + hidden_input("client_id"@, html_escaped(q.client_id))
        + hidden_input("redirect_uri"@, html_escaped(q.redirect_uri)) + hidden_input(
        "state"@,
        html_escaped(or_empty(q.state)),
    ) + hidden_input("code_challenge"@, html_escaped(q.code_challenge)) + hidden_input(
        "code_challenge_method"@,
        html_escaped(q.code_challenge_method),
    ) + hidden_input("scope"@, html_escaped(or_empty(q.scope))) + crate::oauth::PAGE_TAIL@
}

proof fn lemma_page_ends_with_form(q: AuthorizeQueryView)
    ensures
        posted_form(q).is_suffix_of(authorize_page_html(q)),
{
    let pre = crate::oauth::PAGE_HEAD@ + html_escaped(q.client_id)
        + crate::oauth::PAGE_AFTER_CLIENT@ + html_escaped(q.redirect_uri)
        + crate::oauth::PAGE_AFTER_REDIRECT@ + html_escaped(or_empty(q.scope));
    let form = posted_form(q);
    let page = authorize_page_html(q);
    assert(page =~= pre + form);
    assert(form =~= (pre + form).subrange(pre.len() as int, (pre + form).len() as int));
}

/// The approval page posts back the request it was built for: its form has
/// a hidden field for each parameter, named after it, whose value is the
/// parameter HTML-escaped; an escaped value holds no `"` to end the attribute
/// early, and unescaping it gives the parameter back. A missing state or
/// scope is posted as empty. The page ends with that form, so the form holds
/// these six fields and nothing else.
pub proof fn lemma_authorize_page_posts_back_its_request(q: AuthorizeQueryView)
    ensures
        posted_form(q).is_suffix_of(authorize_page_html(q)),
        contains_text(authorize_page_html(q), hidden_input("client_id"@, html_escaped(q.client_id))),
        contains_text(
            authorize_page_html(q),
            hidden_input("redirect_uri"@, html_escaped(q.redirect_uri)),
        ),
        contains_text(
            authorize_page_html(q),
            hidden_input("state"@, html_escaped(or_empty(q.state))),
        ),
        contains_text(
            authorize_page_html(q),
            hidden_input("code_challenge"@, html_escaped(q.code_challenge)),
        ),
        contains_text(
            authorize_page_html(q),
            hidden_input("code_challenge_method"@, html_escaped(q.code_challenge_method)),
        ),
        contains_text(
            authorize_page_html(q),
            hidden_input("scope"@, html_escaped(or_empty(q.scope))),
        ),
        html_unescaped(html_escaped(q.client_id)) == q.client_id,
        html_unescaped(html_escaped(q.redirect_uri)) == q.redirect_uri,
        html_unescaped(html_escaped(q.code_challenge)) == q.code_challenge,
        html_unescaped(html_escaped(q.code_challenge_method)) == q.code_challenge_method,
        forall|i: int|
            0 <= i < html_escaped(q.client_id).len() ==> #[trigger] html_escaped(q.client_id)[i]
                != '"',
        forall|i: int|
            0 <= i < html_escaped(q.redirect_uri).len() ==> #[trigger] html_escaped(
                q.redirect_uri,
            )[i] != '"',
{
    let page = authorize_page_html(q);
    let f0 = hidden_input("client_id"@, html_escaped(q.client_id));
    let f1 = hidden_input("redirect_uri"@, html_escaped(q.redirect_uri));
    let f2 = hidden_input("state"@, html_escaped(or_empty(q.state)));
    let f3 = hidden_input("code_challenge"@, html_escaped(q.code_challenge));
    let f4 = hidden_input("code_challenge_method"@, html_escaped(q.code_challenge_method));
    let f5 = hidden_input("scope"@, html_escaped(or_empty(q.scope)));
    let head = crate::oauth::PAGE_HEAD@ + html_escaped(q.client_id)
        + crate::oauth::PAGE_AFTER_CLIENT@ + html_escaped(q.redirect_uri)
        + crate::oauth::PAGE_AFTER_REDIRECT@ + html_escaped(or_empty(q.scope))
        + crate::oauth::PAGE_FORM_OPEN@;
    let tail = crate::oauth::PAGE_TAIL@;
    assert(page =~= head + f0 + (f1 + f2 + f3 + f4 + f5 + tail));
    lemma_contains_middle(head, f0, f1 + f2 + f3 + f4 + f5 + tail);
    assert(page =~= (head + f0) + f1 + (f2 + f3 + f4 + f5 + tail));
    lemma_contains_middle(head + f0, f1, f2 + f3 + f4 + f5 + tail);
    assert(page =~= (head + f0 + f1) + f2 + (f3 + f4 + f5 + tail));
    lemma_contains_middle(head + f0 + f1, f2, f3 + f4 + f5 + tail);
    assert(page =~= (head + f0 + f1 + f2) + f3 + (f4 + f5 + tail));
    lemma_contains_middle(head + f0 + f1 + f2, f3, f4 + f5 + tail);
    assert(page =~= (head + f0 + f1 + f2 + f3) + f4 + (f5 + tail));
    lemma_contains_middle(head + f0 + f1 + f2 + f3, f4, f5 + tail);
    assert(page =~= (head + f0 + f1 + f2 + f3 + f4) + f5 + tail);
    lemma_contains_middle(head + f0 + f1 + f2 + f3 + f4, f5, tail);
    lemma_page_ends_with_form(q);
    lemma_html_unescape_escape(q.client_id);
    lemma_html_unescape_escape(q.redirect_uri);
    lemma_html_unescape_escape(q.code_challenge);
    lemma_html_unescape_escape(q.code_challenge_method);
    crate::text::lemma_html_escaped_has_no_markup(q.client_id);
    crate::text::lemma_html_escaped_has_no_markup(q.redirect_uri);
}

/// Approving the page posts a decision that is checked as the page's own
/// request was: a decision carrying the client id, redirect URI and challenge
/// method that the page's form holds, unescaped, is refused exactly when the
/// request that the page was built for is, and so accepted whenever the page
/// was shown.
pub proof fn lemma_posted_decision_is_checked_like_its_page(
    v: OAuthView,
    q: AuthorizeQueryView,
    f: AuthorizeDecision,
)
    requires
        q.response_type == "code"@,
        f.client_id@ == html_unescaped(html_escaped(q.client_id)),
        f.redirect_uri@ == html_unescaped(html_escaped(q.redirect_uri)),
        f.code_challenge_method@ == html_unescaped(html_escaped(q.code_challenge_method)),
    ensures
        authorize_rejection(v, decision_query(f)) == authorize_rejection(v, q),
{
    lemma_html_unescape_escape(q.client_id);
    lemma_html_unescape_escape(q.redirect_uri);
    lemma_html_unescape_escape(q.code_challenge_method);
}

/// A successful registration records the request's redirect URIs, all of
/// them in order, for the new client and echoes them and the client name back
/// unchanged; no other client is touched.
pub proof fn lemma_registration_echoes_the_request(
    pre: OAuthView,
    post: OAuthView,
    uris: Seq<Seq<char>>,
    name: Option<String>,
    client_id: Seq<char>,
    r: RegisterResponse,
    other: Seq<char>,
)
    requires
        register_outcome(pre, post, uris, name, client_id, Ok(r)),
    ensures
        r.client_id@ == client_id,
        r.redirect_uris.deep_view() == uris,
        r.redirect_uris@.len() == uris.len(),
        forall|i: int| 0 <= i < uris.len() ==> #[trigger] r.redirect_uris@[i]@ == uris[i],
        r.client_name == name,
        post.clients.contains_key(client_id),
        post.clients[client_id] == uris,
        other != client_id ==> (post.clients.contains_key(other) <==> pre.clients.contains_key(
            other,
        )),
        other != client_id && pre.clients.contains_key(other) ==> post.clients[other]
            == pre.clients[other],
        post.auth_codes == pre.auth_codes,
        post.access_tokens == pre.access_tokens,
        post.refresh_tokens == pre.refresh_tokens,
{
    assert forall|i: int| 0 <= i < uris.len() implies #[trigger] r.redirect_uris@[i]@ == uris[i] by {
        assert(r.redirect_uris.deep_view()[i] == r.redirect_uris@[i]@);
    }
}

} // verus!
