//! Bearer authentication of requests to the protected MCP endpoint.

use vstd::prelude::*;
use vstd::string::{StrSliceExecFns, StringExecFns};

use crate::clock::CLOCK_LIMIT;
use crate::oauth::{access_token_valid, after_validation, at_time, OAuthState, OAuthView};
use crate::text::str_eq;

verus! {

/// The token of an `Authorization` header value of the form `Bearer <token>`.
pub open spec fn bearer_token(header: Seq<char>) -> Option<Seq<char>> {
    if header.len() >= 7 && header.take(7) == "Bearer "@ {
        Some(header.skip(7))
    } else {
        None
    }
}

/// The characters of an optional string slice.
pub open spec fn opt_str_view(o: Option<&str>) -> Option<Seq<char>> {
    match o {
        Some(s) => Some(s@),
        None => None,
    }
}

/// The bearer token of a request, given the text of its `Authorization`
/// header when it has one.
pub fn extract_bearer(authorization: Option<&str>) -> (token: Option<String>)
    ensures
        match opt_str_view(authorization) {
            Some(h) => opt_view_eq(token, bearer_token(h)),
            None => token is None,
        },
{
    match authorization {
        None => None,
        Some(h) => {
            let n = h.unicode_len();
            if n < 7 {
                return None;
            }
            let prefix = h.substring_char(0, 7);
            if !str_eq(prefix, "Bearer ") {
                assert(h@.take(7) =~= prefix@);
                return None;
            }
            assert(h@.take(7) =~= prefix@);
            let rest = h.substring_char(7, n);
            assert(rest@ =~= h@.skip(7));
            Some(rest.to_owned())
        },
    }
}

/// An optional string whose characters are `expected`.
pub open spec fn opt_view_eq(o: Option<String>, expected: Option<Seq<char>>) -> bool {
    match o {
        Some(s) => expected == Some(s@),
        None => expected is None,
    }
}

/// The `WWW-Authenticate` challenge of a refused request: it points the
/// client at the protected-resource metadata of the issuer.
pub open spec fn challenge_for(issuer: Seq<char>) -> Seq<char> {
    "Bearer resource_metadata=\""@ + issuer + "/.well-known/oauth-protected-resource\""@
}

/// Builds the `WWW-Authenticate` challenge for `issuer`.
pub fn www_authenticate_challenge(issuer: &str) -> (challenge: String)
    ensures
        challenge@ == challenge_for(issuer@),
{
    let mut challenge = "Bearer resource_metadata=\"".to_owned();
    challenge.append(issuer);
    challenge.append("/.well-known/oauth-protected-resource\"");
    challenge
}

/// What to do with a request to the protected endpoint.
pub enum AccessDecision {
    /// Pass the request on; the token belongs to this client.
    Forward(String),
    /// Answer 401 Unauthorized with this `WWW-Authenticate` challenge.
    Unauthorized(String),
}

/// The decision `d` on a request with `authorization` at `now`, taking the
/// state from `pre` to `post`: forward it when it carries a bearer token that
/// is valid, and refuse it with the issuer's challenge otherwise.
pub open spec fn access_outcome(
    pre: OAuthView,
    post: OAuthView,
    authorization: Option<Seq<char>>,
    now: u64,
    d: AccessDecision,
) -> bool {
    let token = match authorization {
        Some(h) => bearer_token(h),
        None => None,
    };
    match token {
        None => post == pre && (d matches AccessDecision::Unauthorized(ch) && ch@ == challenge_for(
            pre.issuer,
        )),
        Some(t) => {
            &&& post == after_validation(pre, t, now)
            &&& if access_token_valid(pre, t, now) {
                d matches AccessDecision::Forward(c) && c@ == pre.access_tokens[t].client_id
            } else {
                d matches AccessDecision::Unauthorized(ch) && ch@ == challenge_for(pre.issuer)
            }
        },
    }
}

/// Decides on a request to the protected endpoint at `now`, given the text of
/// its `Authorization` header when it has one.
pub fn authenticate_at(s: &mut OAuthState, authorization: Option<&str>, now: u64) -> (d:
    AccessDecision)
    ensures
        access_outcome(old(s)@, final(s)@, opt_str_view(authorization), now, d),
{
    match extract_bearer(authorization) {
        None => AccessDecision::Unauthorized(www_authenticate_challenge(s.issuer())),
        Some(token) => match s.validate_access_token_at(token.as_str(), now) {
            Some(client) => AccessDecision::Forward(client),
            None => AccessDecision::Unauthorized(www_authenticate_challenge(s.issuer())),
        },
    }
}

/// Decides on a request to the protected endpoint now: see
/// `authenticate_at`.
pub fn authenticate(s: &mut OAuthState, authorization: Option<&str>) -> (d: AccessDecision)
    ensures
        exists|now: u64|
            old(s)@.time <= now <= CLOCK_LIMIT && #[trigger] access_outcome(
                at_time(old(s)@, now),
                final(s)@,
                opt_str_view(authorization),
                now,
                d,
            ),
{
    let now = s.now();
    authenticate_at(s, authorization, now)
}

} // verus!
