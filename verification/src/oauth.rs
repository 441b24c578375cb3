//! The authorization server's state and its endpoints: discovery metadata,
//! dynamic client registration, the authorization-code grant with PKCE
//! (`S256`), the refresh-token grant with rotation, and token revocation.
//!
//! State lives in memory. Times are nanoseconds on the state's own monotonic
//! clock; the functions whose names end in `_at` or `_with` take the time and
//! the fresh random values as arguments, and the others read them themselves.

use vstd::hash_map::StringHashMap;
use vstd::prelude::*;
use vstd::string::StringExecFns;

use crate::clock::{Clock, CLOCK_LIMIT};
use crate::crypto::{
    is_issued_token, is_uuid_v4_text, new_client_id, pkce_challenge, random_token, s256_challenge,
};
use crate::text::{html_escape, html_escaped, str_eq, url_encoded, urlencode};

verus! {

/// How long an access token stays valid, in seconds.
pub const ACCESS_TOKEN_TTL_SECS: u64 = 3600;

/// How long an access token stays valid, in nanoseconds.
pub const ACCESS_TOKEN_TTL: u64 = 3600000000000;

/// How long an authorization code stays valid, in nanoseconds.
pub const AUTH_CODE_TTL: u64 = 60000000000;

// ---------- model ----------

/// What the server remembers of an authorization code.
pub struct CodeGrant {
    pub client_id: Seq<char>,
    pub redirect_uri: Seq<char>,
    pub code_challenge: Seq<char>,
    pub expires_at: u64,
}

/// What the server remembers of an access token.
pub struct AccessGrant {
    pub client_id: Seq<char>,
    pub expires_at: u64,
}

/// The state of the server: registered clients with their redirect URIs, and
/// the outstanding codes and tokens, each keyed by its text.
pub struct OAuthView {
    pub issuer: Seq<char>,
    /// The latest reading of the server's clock, in nanoseconds.
    pub time: u64,
    pub clients: Map<Seq<char>, Seq<Seq<char>>>,
    pub auth_codes: Map<Seq<char>, CodeGrant>,
    pub access_tokens: Map<Seq<char>, AccessGrant>,
    pub refresh_tokens: Map<Seq<char>, Seq<char>>,
}

/// The state with its clock reading `now`.
pub open spec fn at_time(v: OAuthView, now: u64) -> OAuthView {
    OAuthView { time: now, ..v }
}

/// The characters of an optional string.
pub open spec fn opt_view(o: Option<String>) -> Option<Seq<char>> {
    match o {
        Some(s) => Some(s@),
        None => None,
    }
}

/// An access token that is known and not yet expired at `now`.
pub open spec fn access_token_valid(v: OAuthView, token: Seq<char>, now: u64) -> bool {
    v.access_tokens.contains_key(token) && v.access_tokens[token].expires_at > now
}

/// The state after checking `token` at `now`: a token that is not valid is
/// forgotten.
pub open spec fn after_validation(v: OAuthView, token: Seq<char>, now: u64) -> OAuthView {
    if access_token_valid(v, token, now) {
        v
    } else {
        OAuthView { access_tokens: v.access_tokens.remove(token), ..v }
    }
}

/// The state after issuing an access token and a refresh token to a client.
pub open spec fn with_tokens_issued(
    v: OAuthView,
    client_id: Seq<char>,
    access: Seq<char>,
    refresh: Seq<char>,
    now: u64,
) -> OAuthView {
    OAuthView {
        access_tokens: v.access_tokens.insert(
            access,
            AccessGrant { client_id, expires_at: (now + ACCESS_TOKEN_TTL) as u64 },
        ),
        refresh_tokens: v.refresh_tokens.insert(refresh, client_id),
        ..v
    }
}

/// The state after revoking a token of either kind.
pub open spec fn after_revoke(v: OAuthView, token: Seq<char>) -> OAuthView {
    OAuthView {
        access_tokens: v.access_tokens.remove(token),
        refresh_tokens: v.refresh_tokens.remove(token),
        ..v
    }
}

// ---------- records ----------

struct ClientRecord {
    redirect_uris: Vec<String>,
}

struct AuthCodeRecord {
    client_id: String,
    redirect_uri: String,
    code_challenge: String,
    expires_at: u64,
}

struct TokenRecord {
    client_id: String,
    expires_at: u64,
}

struct RefreshRecord {
    client_id: String,
}

spec fn code_grant_of(r: AuthCodeRecord) -> CodeGrant {
    CodeGrant {
        client_id: r.client_id@,
        redirect_uri: r.redirect_uri@,
        code_challenge: r.code_challenge@,
        expires_at: r.expires_at,
    }
}

spec fn access_grant_of(r: TokenRecord) -> AccessGrant {
    AccessGrant { client_id: r.client_id@, expires_at: r.expires_at }
}

/// The server's state. `issuer` is the base URL of the server.
pub struct OAuthState {
    pub issuer: String,
    clients: StringHashMap<ClientRecord>,
    auth_codes: StringHashMap<AuthCodeRecord>,
    access_tokens: StringHashMap<TokenRecord>,
    refresh_tokens: StringHashMap<RefreshRecord>,
    clock: Clock,
}

impl View for OAuthState {
    type V = OAuthView;

    closed spec fn view(&self) -> OAuthView {
        OAuthView {
            issuer: self.issuer@,
            time: self.clock.reading(),
            clients: self.clients@.map_values(|r: ClientRecord| r.redirect_uris.deep_view()),
            auth_codes: self.auth_codes@.map_values(|r: AuthCodeRecord| code_grant_of(r)),
            access_tokens: self.access_tokens@.map_values(|r: TokenRecord| access_grant_of(r)),
            refresh_tokens: self.refresh_tokens@.map_values(|r: RefreshRecord| r.client_id@),
        }
    }
}

impl OAuthState {
    /// A server for `issuer` with no clients and no codes or tokens.
    pub fn new(issuer: String) -> (s: Self)
        ensures
            s@.issuer == issuer@,
            s@.time == 0,
            s@.clients == Map::<Seq<char>, Seq<Seq<char>>>::empty(),
            s@.auth_codes == Map::<Seq<char>, CodeGrant>::empty(),
            s@.access_tokens == Map::<Seq<char>, AccessGrant>::empty(),
            s@.refresh_tokens == Map::<Seq<char>, Seq<char>>::empty(),
    {
        let s = OAuthState {
            issuer,
            clients: StringHashMap::new(),
            auth_codes: StringHashMap::new(),
            access_tokens: StringHashMap::new(),
            refresh_tokens: StringHashMap::new(),
            clock: Clock::start(),
        };
        assert(s@.clients =~= Map::<Seq<char>, Seq<Seq<char>>>::empty());
        assert(s@.auth_codes =~= Map::<Seq<char>, CodeGrant>::empty());
        assert(s@.access_tokens =~= Map::<Seq<char>, AccessGrant>::empty());
        assert(s@.refresh_tokens =~= Map::<Seq<char>, Seq<char>>::empty());
        s
    }

    /// The issuer URL.
    pub fn issuer(&self) -> (issuer: &str)
        ensures
            issuer@ == self@.issuer,
    {
        self.issuer.as_str()
    }

    /// Reads the state's clock: nanoseconds since the state was made, never
    /// less than the previous reading.
    pub fn now(&mut self) -> (t: u64)
        ensures
            old(self)@.time <= t <= CLOCK_LIMIT,
            final(self)@ == at_time(old(self)@, t),
    {
        self.clock.now()
    }

    /// Checks a bearer access token at time `now`. Returns the client it was
    /// issued to when it is known and not expired; otherwise forgets it and
    /// returns `None`.
    pub fn validate_access_token_at(&mut self, token: &str, now: u64) -> (client: Option<String>)
        ensures
            client is Some <==> access_token_valid(old(self)@, token@, now),
            client matches Some(c) ==> c@ == old(self)@.access_tokens[token@].client_id,
            final(self)@ == after_validation(old(self)@, token@, now),
    {
        match self.access_tokens.get(token) {
            Some(rec) => {
                if rec.expires_at > now {
                    return Some(rec.client_id.clone());
                }
            },
            None => {},
        }
        self.access_tokens.remove(token);
        assert(self@.access_tokens =~= old(self)@.access_tokens.remove(token@));
        None
    }

    /// Checks a bearer access token now: see `validate_access_token_at`.
    pub fn validate_access_token(&mut self, token: &str) -> (client: Option<String>)
        ensures
            exists|now: u64|
                {
                    &&& old(self)@.time <= now <= CLOCK_LIMIT
                    &&& (client is Some <==> access_token_valid(old(self)@, token@, now))
                    &&& (client matches Some(c) ==> c@ == old(self)@.access_tokens[token@].client_id)
                    &&& final(self)@ == after_validation(at_time(old(self)@, now), token@, now)
                },
    {
        let now = self.now();
        let ghost mid = self@;
        let client = self.validate_access_token_at(token, now);
        assert(mid == at_time(old(self)@, now));
        assert(access_token_valid(mid, token@, now) == access_token_valid(old(self)@, token@, now));
        client
    }
}

// ---------- token endpoint ----------

/// A request to the token endpoint, as sent in its form.
pub struct TokenRequest {
    pub grant_type: String,
    pub code: Option<String>,
    pub redirect_uri: Option<String>,
    pub code_verifier: Option<String>,
    pub refresh_token: Option<String>,
    pub client_id: Option<String>,
}

/// The characters of the fields of a `TokenRequest`.
pub struct TokenRequestView {
    pub grant_type: Seq<char>,
    pub code: Option<Seq<char>>,
    pub redirect_uri: Option<Seq<char>>,
    pub code_verifier: Option<Seq<char>>,
    pub refresh_token: Option<Seq<char>>,
    pub client_id: Option<Seq<char>>,
}

impl View for TokenRequest {
    type V = TokenRequestView;

    open spec fn view(&self) -> TokenRequestView {
        TokenRequestView {
            grant_type: self.grant_type@,
            code: opt_view(self.code),
            redirect_uri: opt_view(self.redirect_uri),
            code_verifier: opt_view(self.code_verifier),
            refresh_token: opt_view(self.refresh_token),
            client_id: opt_view(self.client_id),
        }
    }
}

/// The tokens issued by a successful grant.
pub struct TokenResponse {
    pub access_token: String,
    pub token_type: String,
    pub expires_in: u64,
    pub refresh_token: String,
}

/// An OAuth error answer: an HTTP status, an error code and a description.
pub struct OAuthError {
    pub status: u16,
    pub error: String,
    pub error_description: String,
}

/// The HTTP status of every error answer of these endpoints: Bad Request.
pub const BAD_REQUEST: u16 = 400;

/// Makes an error answer.
pub fn token_error(status: u16, err: &str, desc: &str) -> (e: OAuthError)
    ensures
        e.status == status,
        e.error@ == err@,
        e.error_description@ == desc@,
{
    OAuthError { status, error: err.to_owned(), error_description: desc.to_owned() }
}

/// A bearer token response carrying the given token texts.
pub open spec fn bearer_response(t: TokenResponse, access: Seq<char>, refresh: Seq<char>) -> bool {
    &&& t.access_token@ == access
    &&& t.refresh_token@ == refresh
    &&& t.token_type@ == "Bearer"@
    &&& t.expires_in == ACCESS_TOKEN_TTL_SECS
}

/// Records `access` and `refresh` as issued to `client_id` at `now` and
/// answers with them.
pub fn issue_tokens_with(
    s: &mut OAuthState,
    client_id: &str,
    access: String,
    refresh: String,
    now: u64,
) -> (t: TokenResponse)
    requires
        now <= CLOCK_LIMIT,
    ensures
        final(s)@ == with_tokens_issued(old(s)@, client_id@, access@, refresh@, now),
        bearer_response(t, access@, refresh@),
        final(s)@.refresh_tokens.contains_key(refresh@),
        final(s)@.refresh_tokens[refresh@] == client_id@,
        final(s)@.refresh_tokens.remove(refresh@) == old(s)@.refresh_tokens.remove(refresh@),
        final(s)@.access_tokens.contains_key(access@),
        final(s)@.access_tokens.remove(access@) == old(s)@.access_tokens.remove(access@),
        final(s)@.auth_codes == old(s)@.auth_codes,
        final(s)@.clients == old(s)@.clients,
{
    s.access_tokens.insert(
        access.clone(),
        TokenRecord { client_id: client_id.to_owned(), expires_at: now + ACCESS_TOKEN_TTL },
    );
    s.refresh_tokens.insert(refresh.clone(), RefreshRecord { client_id: client_id.to_owned() });
    assert(s@.access_tokens =~= old(s)@.access_tokens.insert(
        access@,
        AccessGrant { client_id: client_id@, expires_at: (now + ACCESS_TOKEN_TTL) as u64 },
    ));
    assert(s@.refresh_tokens =~= old(s)@.refresh_tokens.insert(refresh@, client_id@));
    assert(s@.refresh_tokens.remove(refresh@) =~= old(s)@.refresh_tokens.remove(refresh@));
    assert(s@.access_tokens.remove(access@) =~= old(s)@.access_tokens.remove(access@));
    TokenResponse {
        access_token: access,
        token_type: "Bearer".to_owned(),
        expires_in: ACCESS_TOKEN_TTL_SECS,
        refresh_token: refresh,
    }
}

/// Issues a fresh random access token and refresh token to `client_id` at
/// `now`.
pub fn issue_tokens_at(s: &mut OAuthState, client_id: &str, now: u64) -> (t: TokenResponse)
    requires
        now <= CLOCK_LIMIT,
    ensures
        final(s)@ == with_tokens_issued(
            old(s)@,
            client_id@,
            t.access_token@,
            t.refresh_token@,
            now,
        ),
        bearer_response(t, t.access_token@, t.refresh_token@),
        is_issued_token(t.access_token@),
        is_issued_token(t.refresh_token@),
        final(s)@.refresh_tokens.remove(t.refresh_token@) == old(s)@.refresh_tokens.remove(
            t.refresh_token@,
        ),
        final(s)@.access_tokens.remove(t.access_token@) == old(s)@.access_tokens.remove(
            t.access_token@,
        ),
{
    let access = random_token();
    let refresh = random_token();
    issue_tokens_with(s, client_id, access, refresh, now)
}

/// Issues a fresh random access token and refresh token to `client_id` now.
pub fn issue_tokens(s: &mut OAuthState, client_id: &str) -> (t: TokenResponse)
    ensures
        exists|now: u64|
            old(s)@.time <= now <= CLOCK_LIMIT && final(s)@ == #[trigger] with_tokens_issued(
                at_time(old(s)@, now),
                client_id@,
                t.access_token@,
                t.refresh_token@,
                now,
            ),
        bearer_response(t, t.access_token@, t.refresh_token@),
        is_issued_token(t.access_token@),
        is_issued_token(t.refresh_token@),
{
    let now = s.now();
    issue_tokens_at(s, client_id, now)
}

/// Whether the request carries all four parameters of a code grant.
pub open spec fn code_grant_complete(r: TokenRequestView) -> bool {
    r.code is Some && r.code_verifier is Some && r.client_id is Some && r.redirect_uri is Some
}

/// Why an authorization-code grant is refused, as error code and description,
/// when the PKCE challenge computed from the verifier is `computed`; `None`
/// when it succeeds. The checks run in this order.
pub open spec fn code_grant_error_with(
    v: OAuthView,
    r: TokenRequestView,
    now: u64,
    computed: Seq<char>,
) -> Option<
    (Seq<char>, Seq<char>),
> {
    if r.code is None {
        Some(("invalid_request"@, "missing code"@))
    } else if r.code_verifier is None {
        Some(("invalid_request"@, "missing code_verifier"@))
    } else if r.client_id is None {
        Some(("invalid_request"@, "missing client_id"@))
    } else if r.redirect_uri is None {
        Some(("invalid_request"@, "missing redirect_uri"@))
    } else if !v.auth_codes.contains_key(r.code->0) {
        Some(("invalid_grant"@, "unknown code"@))
    } else {
        let g = v.auth_codes[r.code->0];
        if g.expires_at < now {
            Some(("invalid_grant"@, "code expired"@))
        } else if g.client_id != r.client_id->0 {
            Some(("invalid_grant"@, "client_id mismatch"@))
        } else if g.redirect_uri != r.redirect_uri->0 {
            Some(("invalid_grant"@, "redirect_uri mismatch"@))
        } else if computed != g.code_challenge {
            Some(("invalid_grant"@, "PKCE verification failed"@))
        } else {
            None
        }
    }
}

/// Why an authorization-code grant is refused, as error code and description;
/// `None` when it succeeds. The verifier is checked by its `S256` challenge.
pub open spec fn code_grant_error(v: OAuthView, r: TokenRequestView, now: u64) -> Option<
    (Seq<char>, Seq<char>),
> {
    code_grant_error_with(v, r, now, pkce_challenge(r.code_verifier->0))
}

/// The state once a code grant has looked its code up: the code is used up,
/// whatever the outcome, as soon as all four parameters are present.
pub open spec fn code_consumed(v: OAuthView, r: TokenRequestView) -> OAuthView {
    if code_grant_complete(r) {
        OAuthView { auth_codes: v.auth_codes.remove(r.code->0), ..v }
    } else {
        v
    }
}

/// The authorization-code grant at time `now`, given the `S256` challenge
/// `computed_challenge` of the request's verifier: exchanges a code for
/// tokens.
pub fn grant_authorization_code_checked(
    s: &mut OAuthState,
    req: TokenRequest,
    computed_challenge: &str,
    now: u64,
) -> (res: Result<
    TokenResponse,
    OAuthError,
>)
    requires
        now <= CLOCK_LIMIT,
    ensures
        match res {
            Ok(t) => {
                &&& code_grant_error_with(old(s)@, req@, now, computed_challenge@) is None
                &&& final(s)@ == with_tokens_issued(
                    code_consumed(old(s)@, req@),
                    req@.client_id->0,
                    t.access_token@,
                    t.refresh_token@,
                    now,
                )
                &&& bearer_response(t, t.access_token@, t.refresh_token@)
                &&& is_issued_token(t.access_token@)
                &&& is_issued_token(t.refresh_token@)
            },
            Err(e) => {
                &&& code_grant_error_with(old(s)@, req@, now, computed_challenge@) == Some((e.error@, e.error_description@))
                &&& e.status == BAD_REQUEST
                &&& final(s)@ == code_consumed(old(s)@, req@)
            },
        },
{
    let ghost r = req@;
    let code = match req.code {
        Some(c) => c,
        None => return Err(token_error(BAD_REQUEST, "invalid_request", "missing code")),
    };
    let _verifier = match req.code_verifier {
        Some(c) => c,
        None => return Err(token_error(BAD_REQUEST, "invalid_request", "missing code_verifier")),
    };
    let client_id = match req.client_id {
        Some(c) => c,
        None => return Err(token_error(BAD_REQUEST, "invalid_request", "missing client_id")),
    };
    let redirect_uri = match req.redirect_uri {
        Some(c) => c,
        None => return Err(token_error(BAD_REQUEST, "invalid_request", "missing redirect_uri")),
    };
    let (rec_client, rec_redirect, rec_challenge, rec_expires) = match s.auth_codes.get(
        code.as_str(),
    ) {
        Some(rec) => (
            rec.client_id.clone(),
            rec.redirect_uri.clone(),
            rec.code_challenge.clone(),
            rec.expires_at,
        ),
        None => {
            assert(code_consumed(old(s)@, r) == old(s)@) by {
                assert(old(s)@.auth_codes.remove(code@) =~= old(s)@.auth_codes);
            }
            return Err(token_error(BAD_REQUEST, "invalid_grant", "unknown code"));
        },
    };
    s.auth_codes.remove(code.as_str());
    assert(s@.auth_codes =~= old(s)@.auth_codes.remove(code@));
    assert(s@ == code_consumed(old(s)@, r));
    if rec_expires < now {
        return Err(token_error(BAD_REQUEST, "invalid_grant", "code expired"));
    }
    if !str_eq(rec_client.as_str(), client_id.as_str()) {
        return Err(token_error(BAD_REQUEST, "invalid_grant", "client_id mismatch"));
    }
    if !str_eq(rec_redirect.as_str(), redirect_uri.as_str()) {
        return Err(token_error(BAD_REQUEST, "invalid_grant", "redirect_uri mismatch"));
    }
    if !str_eq(computed_challenge, rec_challenge.as_str()) {
        return Err(token_error(BAD_REQUEST, "invalid_grant", "PKCE verification failed"));
    }
    Ok(issue_tokens_at(s, client_id.as_str(), now))
}


/// The authorization-code grant at time `now`: exchanges a code and its PKCE
/// verifier for tokens.
pub fn grant_authorization_code_at(s: &mut OAuthState, req: TokenRequest, now: u64) -> (res: Result<
    TokenResponse,
    OAuthError,
>)
    requires
        now <= CLOCK_LIMIT,
    ensures
        match res {
            Ok(t) => {
                &&& code_grant_error(old(s)@, req@, now) is None
                &&& final(s)@ == with_tokens_issued(
                    code_consumed(old(s)@, req@),
                    req@.client_id->0,
                    t.access_token@,
                    t.refresh_token@,
                    now,
                )
                &&& bearer_response(t, t.access_token@, t.refresh_token@)
                &&& is_issued_token(t.access_token@)
                &&& is_issued_token(t.refresh_token@)
            },
            Err(e) => {
                &&& code_grant_error(old(s)@, req@, now) == Some((e.error@, e.error_description@))
                &&& e.status == BAD_REQUEST
                &&& final(s)@ == code_consumed(old(s)@, req@)
            },
        },
{
    let challenge = match &req.code_verifier {
        Some(verifier) => s256_challenge(verifier.as_str()),
        None => String::new(),
    };
    grant_authorization_code_checked(s, req, challenge.as_str(), now)
}

/// Whether the request carries both parameters of a refresh grant.
pub open spec fn refresh_grant_complete(r: TokenRequestView) -> bool {
    r.refresh_token is Some && r.client_id is Some
}

/// Why a refresh-token grant is refused, as error code and description;
/// `None` when it succeeds. The checks run in this order.
pub open spec fn refresh_grant_error(v: OAuthView, r: TokenRequestView) -> Option<
    (Seq<char>, Seq<char>),
> {
    if r.refresh_token is None {
        Some(("invalid_request"@, "missing refresh_token"@))
    } else if r.client_id is None {
        Some(("invalid_request"@, "missing client_id"@))
    } else if !v.refresh_tokens.contains_key(r.refresh_token->0) {
        Some(("invalid_grant"@, "unknown refresh_token"@))
    } else if v.refresh_tokens[r.refresh_token->0] != r.client_id->0 {
        Some(("invalid_grant"@, "client_id mismatch"@))
    } else {
        None
    }
}

/// The state once a refresh grant has looked its token up: the refresh token
/// is used up, whatever the outcome, as soon as both parameters are present.
pub open spec fn refresh_consumed(v: OAuthView, r: TokenRequestView) -> OAuthView {
    if refresh_grant_complete(r) {
        OAuthView { refresh_tokens: v.refresh_tokens.remove(r.refresh_token->0), ..v }
    } else {
        v
    }
}

/// The refresh-token grant at time `now`: exchanges a refresh token for a new
/// pair of tokens; the old refresh token is rotated out.
pub fn grant_refresh_at(s: &mut OAuthState, req: TokenRequest, now: u64) -> (res: Result<
    TokenResponse,
    OAuthError,
>)
    requires
        now <= CLOCK_LIMIT,
    ensures
        match res {
            Ok(t) => {
                &&& refresh_grant_error(old(s)@, req@) is None
                &&& final(s)@ == with_tokens_issued(
                    refresh_consumed(old(s)@, req@),
                    req@.client_id->0,
                    t.access_token@,
                    t.refresh_token@,
                    now,
                )
                &&& bearer_response(t, t.access_token@, t.refresh_token@)
                &&& is_issued_token(t.access_token@)
                &&& is_issued_token(t.refresh_token@)
            },
            Err(e) => {
                &&& refresh_grant_error(old(s)@, req@) == Some((e.error@, e.error_description@))
                &&& e.status == BAD_REQUEST
                &&& final(s)@ == refresh_consumed(old(s)@, req@)
            },
        },
{
    let ghost r = req@;
    let refresh = match req.refresh_token {
        Some(c) => c,
        None => return Err(token_error(BAD_REQUEST, "invalid_request", "missing refresh_token")),
    };
    let client_id = match req.client_id {
        Some(c) => c,
        None => return Err(token_error(BAD_REQUEST, "invalid_request", "missing client_id")),
    };
    let rec_client = match s.refresh_tokens.get(refresh.as_str()) {
        Some(rec) => rec.client_id.clone(),
        None => {
            assert(refresh_consumed(old(s)@, r) == old(s)@) by {
                assert(old(s)@.refresh_tokens.remove(refresh@) =~= old(s)@.refresh_tokens);
            }
            return Err(token_error(BAD_REQUEST, "invalid_grant", "unknown refresh_token"));
        },
    };
    s.refresh_tokens.remove(refresh.as_str());
    assert(s@.refresh_tokens =~= old(s)@.refresh_tokens.remove(refresh@));
    assert(s@ == refresh_consumed(old(s)@, r));
    if !str_eq(rec_client.as_str(), client_id.as_str()) {
        return Err(token_error(BAD_REQUEST, "invalid_grant", "client_id mismatch"));
    }
    Ok(issue_tokens_at(s, client_id.as_str(), now))
}

/// Why a token request is refused, as error code and description; `None` when
/// it succeeds.
pub open spec fn token_request_error(v: OAuthView, r: TokenRequestView, now: u64) -> Option<
    (Seq<char>, Seq<char>),
> {
    if r.grant_type == "authorization_code"@ {
        code_grant_error(v, r, now)
    } else if r.grant_type == "refresh_token"@ {
        refresh_grant_error(v, r)
    } else {
        Some(("unsupported_grant_type"@, "grant_type "@ + r.grant_type + " not supported"@))
    }
}

/// The state once a token request has used up the code or refresh token it
/// carries.
pub open spec fn token_request_consumed(v: OAuthView, r: TokenRequestView) -> OAuthView {
    if r.grant_type == "authorization_code"@ {
        code_consumed(v, r)
    } else if r.grant_type == "refresh_token"@ {
        refresh_consumed(v, r)
    } else {
        v
    }
}

/// The answer `res` to a token request `r` at `now` that takes the state
/// from `pre` to `post`: tokens exactly when no check fails, with the code or
/// refresh token used up either way.
pub open spec fn token_outcome(
    pre: OAuthView,
    post: OAuthView,
    r: TokenRequestView,
    now: u64,
    res: Result<TokenResponse, OAuthError>,
) -> bool {
    match res {
        Ok(t) => {
            &&& token_request_error(pre, r, now) is None
            &&& post == with_tokens_issued(
                token_request_consumed(pre, r),
                r.client_id->0,
                t.access_token@,
                t.refresh_token@,
                now,
            )
            &&& bearer_response(t, t.access_token@, t.refresh_token@)
            &&& is_issued_token(t.access_token@)
            &&& is_issued_token(t.refresh_token@)
        },
        Err(e) => {
            &&& token_request_error(pre, r, now) == Some((e.error@, e.error_description@))
            &&& e.status == BAD_REQUEST
            &&& post == token_request_consumed(pre, r)
        },
    }
}

/// The token endpoint at time `now`: dispatches on `grant_type`.
pub fn token_at(s: &mut OAuthState, req: TokenRequest, now: u64) -> (res: Result<
    TokenResponse,
    OAuthError,
>)
    requires
        now <= CLOCK_LIMIT,
    ensures
        token_outcome(old(s)@, final(s)@, req@, now, res),
{
    if str_eq(req.grant_type.as_str(), "authorization_code") {
        grant_authorization_code_at(s, req, now)
    } else if str_eq(req.grant_type.as_str(), "refresh_token") {
        grant_refresh_at(s, req, now)
    } else {
        let mut desc = "grant_type ".to_owned();
        desc.append(req.grant_type.as_str());
        desc.append(" not supported");
        Err(OAuthError {
            status: BAD_REQUEST,
            error: "unsupported_grant_type".to_owned(),
            error_description: desc,
        })
    }
}

/// The token endpoint now: see `token_at`.
pub fn token(s: &mut OAuthState, req: TokenRequest) -> (res: Result<TokenResponse, OAuthError>)
    ensures
        exists|now: u64|
            old(s)@.time <= now <= CLOCK_LIMIT && #[trigger] token_outcome(
                at_time(old(s)@, now),
                final(s)@,
                req@,
                now,
                res,
            ),
{
    let ghost r = req@;
    let now = s.now();
    let ghost pre = s@;
    let res = token_at(s, req, now);
    assert(token_outcome(pre, s@, r, now, res));
    res
}

/// The authorization-code grant now: see `grant_authorization_code_at`.
pub fn grant_authorization_code(s: &mut OAuthState, req: TokenRequest) -> (res: Result<
    TokenResponse,
    OAuthError,
>)
    requires
        req.grant_type@ == "authorization_code"@,
    ensures
        exists|now: u64|
            old(s)@.time <= now <= CLOCK_LIMIT && #[trigger] token_outcome(
                at_time(old(s)@, now),
                final(s)@,
                req@,
                now,
                res,
            ),
{
    let ghost r = req@;
    let now = s.now();
    let ghost pre = s@;
    let res = grant_authorization_code_at(s, req, now);
    assert(token_outcome(pre, s@, r, now, res));
    res
}

/// The refresh-token grant now: see `grant_refresh_at`.
pub fn grant_refresh(s: &mut OAuthState, req: TokenRequest) -> (res: Result<
    TokenResponse,
    OAuthError,
>)
    requires
        req.grant_type@ == "refresh_token"@,
    ensures
        exists|now: u64|
            old(s)@.time <= now <= CLOCK_LIMIT && #[trigger] token_outcome(
                at_time(old(s)@, now),
                final(s)@,
                req@,
                now,
                res,
            ),
{
    let ghost r = req@;
    let now = s.now();
    let ghost pre = s@;
    let res = grant_refresh_at(s, req, now);
    proof {
        reveal_strlit("refresh_token");
        reveal_strlit("authorization_code");
        assert("refresh_token"@.len() != "authorization_code"@.len());
    }
    assert(token_outcome(pre, s@, r, now, res));
    res
}


// ---------- authorize ----------

/// The query of the authorization page.
pub struct AuthorizeQuery {
    pub response_type: String,
    pub client_id: String,
    pub redirect_uri: String,
    pub state: Option<String>,
    pub code_challenge: String,
    pub code_challenge_method: String,
    pub scope: Option<String>,
}

/// The characters of the fields of an `AuthorizeQuery`.
pub struct AuthorizeQueryView {
    pub response_type: Seq<char>,
    pub client_id: Seq<char>,
    pub redirect_uri: Seq<char>,
    pub state: Option<Seq<char>>,
    pub code_challenge: Seq<char>,
    pub code_challenge_method: Seq<char>,
    pub scope: Option<Seq<char>>,
}

impl View for AuthorizeQuery {
    type V = AuthorizeQueryView;

    open spec fn view(&self) -> AuthorizeQueryView {
        AuthorizeQueryView {
            response_type: self.response_type@,
            client_id: self.client_id@,
            redirect_uri: self.redirect_uri@,
            state: opt_view(self.state),
            code_challenge: self.code_challenge@,
            code_challenge_method: self.code_challenge_method@,
            scope: opt_view(self.scope),
        }
    }
}

/// Why an authorization request is refused; each is answered with status 400
/// and a plain-text message.
#[derive(PartialEq, Eq, Structural)]
pub enum AuthorizeRejection {
    UnsupportedResponseType,
    UnsupportedChallengeMethod,
    UnknownClient,
    UnregisteredRedirectUri,
}

/// The plain-text message of a refusal.
pub open spec fn rejection_message(r: AuthorizeRejection) -> Seq<char> {
    match r {
        AuthorizeRejection::UnsupportedResponseType => "unsupported response_type (must be \"code\")"@,
        AuthorizeRejection::UnsupportedChallengeMethod => "code_challenge_method must be S256"@,
        AuthorizeRejection::UnknownClient => "unknown client_id"@,
        AuthorizeRejection::UnregisteredRedirectUri => "redirect_uri not registered"@,
    }
}

impl AuthorizeRejection {
    /// The HTTP status of a refusal: Bad Request.
    pub fn status(&self) -> (s: u16)
        ensures
            s == BAD_REQUEST,
    {
        BAD_REQUEST
    }

    /// The plain-text message of the refusal.
    pub fn message(&self) -> (m: String)
        ensures
            m@ == rejection_message(*self),
    {
        match self {
            AuthorizeRejection::UnsupportedResponseType => "unsupported response_type (must be \"code\")".to_owned(),
            AuthorizeRejection::UnsupportedChallengeMethod => "code_challenge_method must be S256".to_owned(),
            AuthorizeRejection::UnknownClient => "unknown client_id".to_owned(),
            AuthorizeRejection::UnregisteredRedirectUri => "redirect_uri not registered".to_owned(),
        }
    }
}

/// Why an authorization request is refused, checked in this order; `None`
/// when it is acceptable.
pub open spec fn authorize_rejection(v: OAuthView, q: AuthorizeQueryView) -> Option<
    AuthorizeRejection,
> {
    if q.response_type != "code"@ {
        Some(AuthorizeRejection::UnsupportedResponseType)
    } else if q.code_challenge_method != "S256"@ {
        Some(AuthorizeRejection::UnsupportedChallengeMethod)
    } else if !v.clients.contains_key(q.client_id) {
        Some(AuthorizeRejection::UnknownClient)
    } else if !v.clients[q.client_id].contains(q.redirect_uri) {
        Some(AuthorizeRejection::UnregisteredRedirectUri)
    } else {
        None
    }
}

fn contains_string(items: &Vec<String>, item: &str) -> (found: bool)
    ensures
        found == items.deep_view().contains(item@),
{
    let mut i: usize = 0;
    while i < items.len()
        invariant
            i <= items@.len(),
            forall|j: int| 0 <= j < i ==> items.deep_view()[j] != item@,
        decreases items@.len() - i,
    {
        if str_eq(items[i].as_str(), item) {
            assert(items.deep_view()[i as int] == item@);
            return true;
        }
        i += 1;
    }
    false
}

/// Checks an authorization request against the registered clients.
pub fn validate_authorize(s: &OAuthState, q: &AuthorizeQuery) -> (res: Result<(), AuthorizeRejection>)
    ensures
        match res {
            Ok(_) => authorize_rejection(s@, q@) is None,
            Err(e) => authorize_rejection(s@, q@) == Some(e),
        },
{
    if !str_eq(q.response_type.as_str(), "code") {
        return Err(AuthorizeRejection::UnsupportedResponseType);
    }
    if !str_eq(q.code_challenge_method.as_str(), "S256") {
        return Err(AuthorizeRejection::UnsupportedChallengeMethod);
    }
    match s.clients.get(q.client_id.as_str()) {
        None => Err(AuthorizeRejection::UnknownClient),
        Some(client) => {
            if contains_string(&client.redirect_uris, q.redirect_uri.as_str()) {
                Ok(())
            } else {
                Err(AuthorizeRejection::UnregisteredRedirectUri)
            }
        },
    }
}


/// The page's text before the client id.
pub const PAGE_HEAD: &'static str = "<!DOCTYPE html>\n<html><head><title>Authorize</title>\n<style>body{font-family:sans-serif;max-width:560px;margin:3em auto;padding:1em}\nbutton{font-size:1em;padding:.6em 1.2em;margin-right:.5em}\n.approve{background:#2d7;color:#fff;border:0;border-radius:4px}\n.deny{background:#d33;color:#fff;border:0;border-radius:4px}\ncode{background:#eee;padding:.1em .3em;border-radius:3px}</style>\n</head><body>\n<h1>Authorize Access</h1>\n<p>Client <code>";

/// The page's text between the client id and the redirect URI.
pub const PAGE_AFTER_CLIENT: &'static str = "</code> is requesting authorization.</p>\n<p>Redirect URI: <code>";

/// The page's text between the redirect URI and the scope.
pub const PAGE_AFTER_REDIRECT: &'static str = "</code></p>\n<p>Scope: <code>";

/// The page's text after the shown scope: the end of the scope line and the
/// start of the form.
pub const PAGE_FORM_OPEN: &'static str = "</code></p>\n<form method=\"POST\" action=\"/oauth/authorize/decision\">";

/// The start of a hidden form field, before its name.
pub const HIDDEN_INPUT_OPEN: &'static str = "\n  <input type=\"hidden\" name=\"";

/// The text between a hidden field's name and its value.
pub const HIDDEN_INPUT_VALUE: &'static str = "\" value=\"";

/// The end of a hidden form field, after its value.
pub const HIDDEN_INPUT_CLOSE: &'static str = "\">";

/// The page's text after the hidden fields: the two buttons and the end.
pub const PAGE_TAIL: &'static str = "\n  <button class=\"approve\" name=\"decision\" value=\"approve\" type=\"submit\">Approve</button>\n  <button class=\"deny\" name=\"decision\" value=\"deny\" type=\"submit\">Deny</button>\n</form>\n</body></html>";

/// A hidden form field that posts `value` (already HTML-escaped) under `name`.
pub open spec fn hidden_input(name: Seq<char>, value: Seq<char>) -> Seq<char> {
    HIDDEN_INPUT_OPEN@ + name + HIDDEN_INPUT_VALUE@ + value + HIDDEN_INPUT_CLOSE@
}

/// An optional text, empty when absent.
pub open spec fn or_empty(o: Option<Seq<char>>) -> Seq<char> {
    match o {
        Some(s) => s,
        None => Seq::empty(),
    }
}

/// The approval page for a request: it shows the client, the redirect URI and
/// the scope, and holds a form that posts every parameter back, each value
/// HTML-escaped. A missing state or scope is shown as empty.
pub open spec fn authorize_page_html(q: AuthorizeQueryView) -> Seq<char> {
    let client = html_escaped(q.client_id);
    let redirect = html_escaped(q.redirect_uri);
    let scope = html_escaped(or_empty(q.scope));
    PAGE_HEAD@ + client + PAGE_AFTER_CLIENT@ + redirect + PAGE_AFTER_REDIRECT@ + scope
        + PAGE_FORM_OPEN@ + hidden_input("client_id"@, client) + hidden_input(
        "redirect_uri"@,
        redirect,
    ) + hidden_input("state"@, html_escaped(or_empty(q.state))) + hidden_input(
        "code_challenge"@,
        html_escaped(q.code_challenge),
    ) + hidden_input("code_challenge_method"@, html_escaped(q.code_challenge_method))
        + hidden_input("scope"@, scope) + PAGE_TAIL@
}

fn append_hidden_input(html: &mut String, name: &str, value: &str)
    ensures
        final(html)@ == old(html)@ + hidden_input(name@, value@),
{
    html.append(HIDDEN_INPUT_OPEN);
    html.append(name);
    html.append(HIDDEN_INPUT_VALUE);
    html.append(value);
    html.append(HIDDEN_INPUT_CLOSE);
}

fn text_or_empty(o: &Option<String>) -> (s: String)
    ensures
        s@ == or_empty(opt_view(*o)),
{
    match o {
        Some(x) => x.clone(),
        None => String::new(),
    }
}

/// The authorization page: the approval form for an acceptable request, or
/// the refusal.
pub fn authorize_page(s: &OAuthState, q: &AuthorizeQuery) -> (res: Result<String, AuthorizeRejection>)
    ensures
        match res {
            Ok(html) => authorize_rejection(s@, q@) is None && html@ == authorize_page_html(q@),
            Err(e) => authorize_rejection(s@, q@) == Some(e),
        },
{
    match validate_authorize(s, q) {
        Err(e) => return Err(e),
        Ok(_) => {},
    }
    let state = text_or_empty(&q.state);
    let scope_text = text_or_empty(&q.scope);
    let client = html_escape(q.client_id.as_str());
    let redirect = html_escape(q.redirect_uri.as_str());
    let scope = html_escape(scope_text.as_str());
    let mut html = PAGE_HEAD.to_owned();
    html.append(client.as_str());
    html.append(PAGE_AFTER_CLIENT);
    html.append(redirect.as_str());
    html.append(PAGE_AFTER_REDIRECT);
    html.append(scope.as_str());
    html.append(PAGE_FORM_OPEN);
    append_hidden_input(&mut html, "client_id", client.as_str());
    append_hidden_input(&mut html, "redirect_uri", redirect.as_str());
    append_hidden_input(&mut html, "state", html_escape(state.as_str()).as_str());
    append_hidden_input(&mut html, "code_challenge", html_escape(q.code_challenge.as_str()).as_str());
    append_hidden_input(
        &mut html,
        "code_challenge_method",
        html_escape(q.code_challenge_method.as_str()).as_str(),
    );
    append_hidden_input(&mut html, "scope", scope.as_str());
    html.append(PAGE_TAIL);
    Ok(html)
}


/// The approval or denial posted from the authorization page.
pub struct AuthorizeDecision {
    pub decision: String,
    pub client_id: String,
    pub redirect_uri: String,
    pub state: Option<String>,
    pub code_challenge: String,
    pub code_challenge_method: String,
    pub scope: Option<String>,
}

/// The authorization request that a decision carries: its fields, with
/// response type `code`.
pub open spec fn decision_query(f: AuthorizeDecision) -> AuthorizeQueryView {
    AuthorizeQueryView {
        response_type: "code"@,
        client_id: f.client_id@,
        redirect_uri: f.redirect_uri@,
        state: opt_view(f.state),
        code_challenge: f.code_challenge@,
        code_challenge_method: f.code_challenge_method@,
        scope: opt_view(f.scope),
    }
}

/// A value as it is written into a query string: its UTF-8 bytes
/// percent-encoded.
pub open spec fn query_value(s: Seq<char>) -> Seq<char> {
    url_encoded(vstd::utf8::encode_utf8(s))
}

/// The `&state=...` part of a redirect, present when the client sent a state.
pub open spec fn state_suffix(state: Option<Seq<char>>) -> Seq<char> {
    match state {
        Some(st) => "&state="@ + query_value(st),
        None => Seq::empty(),
    }
}

/// The redirect that hands an authorization code to the client.
pub open spec fn code_redirect(uri: Seq<char>, code: Seq<char>, state: Option<Seq<char>>) -> Seq<
    char,
> {
    uri + "?code="@ + query_value(code) + state_suffix(state)
}

/// The redirect that reports an error to the client.
pub open spec fn error_redirect(uri: Seq<char>, err: Seq<char>, state: Option<Seq<char>>) -> Seq<
    char,
> {
    uri + "?error="@ + query_value(err) + state_suffix(state)
}

fn append_state(url: &mut String, state: Option<&str>)
    ensures
        final(url)@ == old(url)@ + state_suffix(
            match state {
                Some(st) => Some(st@),
                None => None,
            },
        ),
{
    match state {
        Some(st) => {
            url.append("&state=");
            url.append(urlencode(st).as_str());
        },
        None => {
            assert(url@ =~= url@ + Seq::<char>::empty());
        },
    }
}

/// The URL that sends the client back with an error code.
pub fn redirect_with_error(redirect_uri: &str, err: &str, state: Option<&str>) -> (url: String)
    ensures
        url@ == error_redirect(
            redirect_uri@,
            err@,
            match state {
                Some(st) => Some(st@),
                None => None,
            },
        ),
{
    let mut url = redirect_uri.to_owned();
    url.append("?error=");
    url.append(urlencode(err).as_str());
    append_state(&mut url, state);
    url
}

fn opt_str(o: &Option<String>) -> (r: Option<&str>)
    ensures
        match r {
            Some(x) => opt_view(*o) == Some(x@),
            None => o is None,
        },
{
    match o {
        Some(x) => Some(x.as_str()),
        None => None,
    }
}

/// The state after approving a decision with authorization `code` at `now`.
pub open spec fn with_code_issued(
    v: OAuthView,
    code: Seq<char>,
    f: AuthorizeDecision,
    now: u64,
) -> OAuthView {
    OAuthView {
        auth_codes: v.auth_codes.insert(
            code,
            CodeGrant {
                client_id: f.client_id@,
                redirect_uri: f.redirect_uri@,
                code_challenge: f.code_challenge@,
                expires_at: (now + AUTH_CODE_TTL) as u64,
            },
        ),
        ..v
    }
}

/// The answer `res` to decision `f` with authorization `code` at `now`, taking
/// the state from `pre` to `post`: the refusal of a bad request; for an
/// approval, the code is recorded and the client is sent it; otherwise the
/// client is sent `access_denied`.
pub open spec fn decision_outcome(
    pre: OAuthView,
    post: OAuthView,
    f: AuthorizeDecision,
    code: Seq<char>,
    now: u64,
    res: Result<String, AuthorizeRejection>,
) -> bool {
    match res {
        Err(e) => authorize_rejection(pre, decision_query(f)) == Some(e) && post == pre,
        Ok(url) => {
            &&& authorize_rejection(pre, decision_query(f)) is None
            &&& if f.decision@ == "approve"@ {
                &&& url@ == code_redirect(f.redirect_uri@, code, opt_view(f.state))
                &&& post == with_code_issued(pre, code, f, now)
            } else {
                &&& url@ == error_redirect(f.redirect_uri@, "access_denied"@, opt_view(f.state))
                &&& post == pre
            }
        },
    }
}

/// The decision endpoint with authorization `code` and time `now`: answers
/// with the URL to redirect the client to.
pub fn authorize_decision_with(
    s: &mut OAuthState,
    f: AuthorizeDecision,
    code: String,
    now: u64,
) -> (res: Result<String, AuthorizeRejection>)
    requires
        now <= CLOCK_LIMIT,
    ensures
        decision_outcome(old(s)@, final(s)@, f, code@, now, res),
{
    let ghost fd = f;
    let q = AuthorizeQuery {
        response_type: "code".to_owned(),
        client_id: f.client_id,
        redirect_uri: f.redirect_uri,
        state: f.state,
        code_challenge: f.code_challenge,
        code_challenge_method: f.code_challenge_method,
        scope: f.scope,
    };
    assert(q@ == decision_query(fd));
    match validate_authorize(s, &q) {
        Err(e) => return Err(e),
        Ok(_) => {},
    }
    if !str_eq(f.decision.as_str(), "approve") {
        return Ok(redirect_with_error(q.redirect_uri.as_str(), "access_denied", opt_str(&q.state)));
    }
    let mut url = q.redirect_uri.clone();
    url.append("?code=");
    url.append(urlencode(code.as_str()).as_str());
    append_state(&mut url, opt_str(&q.state));
    s.auth_codes.insert(
        code,
        AuthCodeRecord {
            client_id: q.client_id,
            redirect_uri: q.redirect_uri,
            code_challenge: q.code_challenge,
            expires_at: now + AUTH_CODE_TTL,
        },
    );
    assert(s@.auth_codes =~= with_code_issued(old(s)@, code@, fd, now).auth_codes);
    Ok(url)
}

/// The decision endpoint: draws a random authorization code and reads the
/// clock, then answers as `authorize_decision_with`.
pub fn authorize_decision(s: &mut OAuthState, f: AuthorizeDecision) -> (res: Result<
    String,
    AuthorizeRejection,
>)
    ensures
        exists|code: Seq<char>, now: u64|
            is_issued_token(code) && old(s)@.time <= now <= CLOCK_LIMIT
                && #[trigger] decision_outcome(
                at_time(old(s)@, now),
                final(s)@,
                f,
                code,
                now,
                res,
            ),
{
    let code = random_token();
    let now = s.now();
    authorize_decision_with(s, f, code, now)
}

// ---------- dynamic client registration ----------

/// A client registration request.
pub struct RegisterRequest {
    pub redirect_uris: Vec<String>,
    pub client_name: Option<String>,
}

/// The answer to a registration.
pub struct RegisterResponse {
    pub client_id: String,
    pub redirect_uris: Vec<String>,
    pub token_endpoint_auth_method: String,
    pub grant_types: Vec<String>,
    pub response_types: Vec<String>,
    pub client_name: Option<String>,
}

fn clone_strings(items: &Vec<String>) -> (out: Vec<String>)
    ensures
        out.deep_view() == items.deep_view(),
{
    let mut out: Vec<String> = Vec::new();
    let mut i: usize = 0;
    while i < items.len()
        invariant
            i <= items@.len(),
            out@.len() == i,
            forall|j: int| 0 <= j < i ==> out@[j]@ == items@[j]@,
        decreases items@.len() - i,
    {
        out.push(items[i].clone());
        i += 1;
    }
    assert(out.deep_view() =~= items.deep_view());
    out
}

/// The answer `res` to registering `uris` and `name` under `client_id`,
/// taking the state from `pre` to `post`: refused when no redirect URI is
/// given; otherwise the client is recorded and its registration echoed.
pub open spec fn register_outcome(
    pre: OAuthView,
    post: OAuthView,
    uris: Seq<Seq<char>>,
    name: Option<String>,
    client_id: Seq<char>,
    res: Result<RegisterResponse, OAuthError>,
) -> bool {
    match res {
        Err(e) => {
            &&& uris.len() == 0
            &&& e.status == BAD_REQUEST
            &&& e.error@ == "invalid_redirect_uri"@
            &&& e.error_description@ == "redirect_uris is required"@
            &&& post == pre
        },
        Ok(r) => {
            &&& uris.len() > 0
            &&& r.client_id@ == client_id
            &&& r.redirect_uris.deep_view() == uris
            &&& r.token_endpoint_auth_method@ == "none"@
            &&& r.grant_types.deep_view() == seq!["authorization_code"@, "refresh_token"@]
            &&& r.response_types.deep_view() == seq!["code"@]
            &&& r.client_name == name
            &&& post == OAuthView { clients: pre.clients.insert(client_id, uris), ..pre }
        },
    }
}

/// Registers a client under `client_id`.
pub fn register_with(s: &mut OAuthState, req: RegisterRequest, client_id: String) -> (res: Result<
    RegisterResponse,
    OAuthError,
>)
    ensures
        register_outcome(
            old(s)@,
            final(s)@,
            req.redirect_uris.deep_view(),
            req.client_name,
            client_id@,
            res,
        ),
        res is Ok <==> req.redirect_uris@.len() > 0,
        res matches Ok(r) ==> r.redirect_uris.deep_view() == req.redirect_uris.deep_view(),
        res matches Ok(r) ==> r.client_name == req.client_name && r.client_id@ == client_id@,
        res is Ok ==> final(s)@.clients.contains_key(client_id@) && final(s)@.clients[client_id@]
            == req.redirect_uris.deep_view(),
{
    if req.redirect_uris.len() == 0 {
        return Err(token_error(BAD_REQUEST, "invalid_redirect_uri", "redirect_uris is required"));
    }
    let ghost uris = req.redirect_uris.deep_view();
    s.clients.insert(client_id.clone(), ClientRecord { redirect_uris: clone_strings(&req.redirect_uris) });
    assert(s@.clients =~= old(s)@.clients.insert(client_id@, uris));
    let mut grant_types: Vec<String> = Vec::new();
    grant_types.push("authorization_code".to_owned());
    grant_types.push("refresh_token".to_owned());
    let mut response_types: Vec<String> = Vec::new();
    response_types.push("code".to_owned());
    assert(grant_types.deep_view() =~= seq!["authorization_code"@, "refresh_token"@]);
    assert(response_types.deep_view() =~= seq!["code"@]);
    Ok(RegisterResponse {
        client_id,
        redirect_uris: req.redirect_uris,
        token_endpoint_auth_method: "none".to_owned(),
        grant_types,
        response_types,
        client_name: req.client_name,
    })
}

/// Registers a client under a fresh random client id.
pub fn register(s: &mut OAuthState, req: RegisterRequest) -> (res: Result<
    RegisterResponse,
    OAuthError,
>)
    ensures
        exists|client_id: Seq<char>|
            is_uuid_v4_text(client_id) && #[trigger] register_outcome(
                old(s)@,
                final(s)@,
                req.redirect_uris.deep_view(),
                req.client_name,
                client_id,
                res,
            ),
        res is Ok <==> req.redirect_uris@.len() > 0,
        res matches Ok(r) ==> r.redirect_uris.deep_view() == req.redirect_uris.deep_view(),
        res matches Ok(r) ==> r.client_name == req.client_name && is_uuid_v4_text(r.client_id@),
        res matches Ok(r) ==> final(s)@.clients.contains_key(r.client_id@),
        res matches Ok(r) ==> final(s)@.clients[r.client_id@] == req.redirect_uris.deep_view(),
{
    let client_id = new_client_id();
    register_with(s, req, client_id)
}

// ---------- revoke ----------

/// A revocation request. The hint is accepted and not used.
pub struct RevokeRequest {
    pub token: String,
    pub token_type_hint: Option<String>,
}

/// The HTTP status of every revocation answer: OK.
pub const OK: u16 = 200;

/// Revokes a token: it is forgotten both as an access token and as a refresh
/// token. Always answers OK.
pub fn revoke(s: &mut OAuthState, req: RevokeRequest) -> (status: u16)
    ensures
        status == OK,
        final(s)@ == after_revoke(old(s)@, req.token@),
{
    s.access_tokens.remove(req.token.as_str());
    s.refresh_tokens.remove(req.token.as_str());
    assert(s@.access_tokens =~= old(s)@.access_tokens.remove(req.token@));
    assert(s@.refresh_tokens =~= old(s)@.refresh_tokens.remove(req.token@));
    OK
}

// ---------- discovery ----------

/// The protected-resource metadata document.
pub struct ProtectedResourceMetadata {
    pub resource: String,
    pub authorization_servers: Vec<String>,
    pub bearer_methods_supported: Vec<String>,
}

/// The authorization-server metadata document.
pub struct AuthorizationServerMetadata {
    pub issuer: String,
    pub registration_endpoint: String,
    pub authorization_endpoint: String,
    pub token_endpoint: String,
    pub revocation_endpoint: String,
    pub response_types_supported: Vec<String>,
    pub grant_types_supported: Vec<String>,
    pub code_challenge_methods_supported: Vec<String>,
    pub token_endpoint_auth_methods_supported: Vec<String>,
}

fn one_string(s: &str) -> (v: Vec<String>)
    ensures
        v.deep_view() == seq![s@],
{
    let mut v: Vec<String> = Vec::new();
    v.push(s.to_owned());
    assert(v.deep_view() =~= seq![s@]);
    v
}

fn joined(a: &str, b: &str) -> (s: String)
    ensures
        s@ == a@ + b@,
{
    let mut s = a.to_owned();
    s.append(b);
    s
}

/// Describes the protected resource: the server is its own authorization
/// server and takes bearer tokens in the `Authorization` header.
pub fn protected_resource_metadata(s: &OAuthState) -> (m: ProtectedResourceMetadata)
    ensures
        m.resource@ == s@.issuer,
        m.authorization_servers.deep_view() == seq![s@.issuer],
        m.bearer_methods_supported.deep_view() == seq!["header"@],
{
    ProtectedResourceMetadata {
        resource: s.issuer.clone(),
        authorization_servers: one_string(s.issuer.as_str()),
        bearer_methods_supported: one_string("header"),
    }
}

/// Describes the authorization server: its endpoints under the issuer URL and
/// what it supports.
pub fn authorization_server_metadata(s: &OAuthState) -> (m: AuthorizationServerMetadata)
    ensures
        m.issuer@ == s@.issuer,
        m.registration_endpoint@ == s@.issuer + "/oauth/register"@,
        m.authorization_endpoint@ == s@.issuer + "/oauth/authorize"@,
        m.token_endpoint@ == s@.issuer + "/oauth/token"@,
        m.revocation_endpoint@ == s@.issuer + "/oauth/revoke"@,
        m.response_types_supported.deep_view() == seq!["code"@],
        m.grant_types_supported.deep_view() == seq!["authorization_code"@, "refresh_token"@],
        m.code_challenge_methods_supported.deep_view() == seq!["S256"@],
        m.token_endpoint_auth_methods_supported.deep_view() == seq!["none"@],
{
    let mut grants: Vec<String> = Vec::new();
    grants.push("authorization_code".to_owned());
    grants.push("refresh_token".to_owned());
    assert(grants.deep_view() =~= seq!["authorization_code"@, "refresh_token"@]);
    AuthorizationServerMetadata {
        issuer: s.issuer.clone(),
        registration_endpoint: joined(s.issuer.as_str(), "/oauth/register"),
        authorization_endpoint: joined(s.issuer.as_str(), "/oauth/authorize"),
        token_endpoint: joined(s.issuer.as_str(), "/oauth/token"),
        revocation_endpoint: joined(s.issuer.as_str(), "/oauth/revoke"),
        response_types_supported: one_string("code"),
        grant_types_supported: grants,
        code_challenge_methods_supported: one_string("S256"),
        token_endpoint_auth_methods_supported: one_string("none"),
    }
}


} // verus!
