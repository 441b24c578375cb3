//! Histories of the server: each endpoint's effect on the state as a step, and
//! what stays true of a code or token across any steps that do not touch it.

use vstd::prelude::*;

use crate::clock::CLOCK_LIMIT;
use crate::http::access_outcome;
use crate::oauth::{
    access_token_valid, after_revoke, after_validation, authorize_rejection, code_grant_complete,
    code_grant_error, decision_outcome, refresh_grant_complete, refresh_grant_error,
    register_outcome, token_outcome, token_request_consumed, token_request_error,
    with_tokens_issued, AccessGrant, AuthorizeDecision, AuthorizeQueryView, AuthorizeRejection,
    CodeGrant, OAuthError, OAuthView, RegisterResponse, TokenRequestView, TokenResponse,
    ACCESS_TOKEN_TTL, AUTH_CODE_TTL,
};

verus! {

/// One change of the server's state, as an endpoint makes it.
pub enum Step {
    /// A bearer token is checked at `now`.
    Validate { token: Seq<char>, now: u64 },
    /// A client registers with `uris`.
    Register { client_id: Seq<char>, uris: Seq<Seq<char>> },
    /// An approval records authorization `code`.
    Approve { code: Seq<char>, grant: CodeGrant },
    /// A token request at `now`; `issued` holds the access and refresh token
    /// when it succeeds.
    Exchange { request: TokenRequestView, now: u64, issued: Option<(Seq<char>, Seq<char>)> },
    /// A token is revoked.
    Revoke { token: Seq<char> },
}

/// The state after one step.
pub open spec fn apply(v: OAuthView, step: Step) -> OAuthView {
    match step {
        Step::Validate { token, now } => after_validation(v, token, now),
        Step::Register { client_id, uris } => if uris.len() > 0 {
            OAuthView { clients: v.clients.insert(client_id, uris), ..v }
        } else {
            v
        },
        Step::Approve { code, grant } => OAuthView {
            auth_codes: v.auth_codes.insert(code, grant),
            ..v
        },
        Step::Exchange { request, now, issued } => match issued {
            Some(p) => with_tokens_issued(
                token_request_consumed(v, request),
                request.client_id->0,
                p.0,
                p.1,
                now,
            ),
            None => token_request_consumed(v, request),
        },
        Step::Revoke { token } => after_revoke(v, token),
    }
}

/// The state after a sequence of steps, first to last.
pub open spec fn run(v: OAuthView, steps: Seq<Step>) -> OAuthView
    decreases steps.len(),
{
    if steps.len() == 0 {
        v
    } else {
        apply(run(v, steps.drop_last()), steps.last())
    }
}

/// The tokens a token answer carries, if it succeeded.
pub open spec fn issued_by(res: Result<TokenResponse, OAuthError>) -> Option<(Seq<char>, Seq<char>)> {
    match res {
        Ok(t) => Some((t.access_token@, t.refresh_token@)),
        Err(_) => None,
    }
}

/// A token answer is the exchange step it describes.
pub proof fn lemma_token_answer_is_a_step(
    pre: OAuthView,
    post: OAuthView,
    r: TokenRequestView,
    now: u64,
    res: Result<TokenResponse, OAuthError>,
)
    requires
        token_outcome(pre, post, r, now, res),
    ensures
        post == apply(pre, Step::Exchange { request: r, now, issued: issued_by(res) }),
{
}

/// A registration answer is the registration step it describes.
pub proof fn lemma_registration_is_a_step(
    pre: OAuthView,
    post: OAuthView,
    uris: Seq<Seq<char>>,
    name: Option<String>,
    client_id: Seq<char>,
    res: Result<RegisterResponse, OAuthError>,
)
    requires
        register_outcome(pre, post, uris, name, client_id, res),
    ensures
        post == apply(pre, Step::Register { client_id, uris }),
{
}

/// The code grant an approval of `f` at `now` records.
pub open spec fn approved_grant(f: AuthorizeDecision, now: u64) -> CodeGrant {
    CodeGrant {
        client_id: f.client_id@,
        redirect_uri: f.redirect_uri@,
        code_challenge: f.code_challenge@,
        expires_at: (now + AUTH_CODE_TTL) as u64,
    }
}

/// A decision either changes nothing or is the approval step that records
/// its code.
pub proof fn lemma_decision_is_a_step(
    pre: OAuthView,
    post: OAuthView,
    f: AuthorizeDecision,
    code: Seq<char>,
    now: u64,
    res: Result<String, AuthorizeRejection>,
)
    requires
        decision_outcome(pre, post, f, code, now, res),
    ensures
        post == pre || post == apply(pre, Step::Approve { code, grant: approved_grant(f, now) }),
        (res is Ok && f.decision@ == "approve"@) ==> post == apply(
            pre,
            Step::Approve { code, grant: approved_grant(f, now) },
        ),
{
}

/// Whether a step records authorization code `c`.
pub open spec fn approves_code(s: Step, c: Seq<char>) -> bool {
    s matches Step::Approve { code, .. } && code == c
}

/// Whether a step is a complete code exchange of `c`, which uses it up.
pub open spec fn consumes_code(s: Step, c: Seq<char>) -> bool {
    s matches Step::Exchange { request, .. } && request.grant_type == "authorization_code"@
        && code_grant_complete(request) && request.code == Some(c)
}

/// Whether a step issues `t` as an access token.
pub open spec fn issues_access_token(s: Step, t: Seq<char>) -> bool {
    s matches Step::Exchange { issued: Some(p), .. } && p.0 == t
}

/// Whether a step issues `t` as a refresh token.
pub open spec fn issues_refresh_token(s: Step, t: Seq<char>) -> bool {
    s matches Step::Exchange { issued: Some(p), .. } && p.1 == t
}

/// Whether a step may forget access token `t` that expires at `expires_at`:
/// revoking it, or checking it once it has expired.
pub open spec fn may_drop_access_token(s: Step, t: Seq<char>, expires_at: u64) -> bool {
    ||| s matches Step::Revoke { token } && token == t
    ||| s matches Step::Validate { token, now } && token == t && now >= expires_at
}

/// A code that is not known stays unknown through any steps that do not
/// record it again.
pub proof fn lemma_unknown_code_stays_unknown(v: OAuthView, steps: Seq<Step>, c: Seq<char>)
    requires
        !v.auth_codes.contains_key(c),
        forall|i: int| 0 <= i < steps.len() ==> !approves_code(#[trigger] steps[i], c),
    ensures
        !run(v, steps).auth_codes.contains_key(c),
    decreases steps.len(),
{
    if steps.len() > 0 {
        assert forall|i: int| 0 <= i < steps.drop_last().len() implies !approves_code(
            #[trigger] steps.drop_last()[i],
            c,
        ) by {
            assert(steps.drop_last()[i] == steps[i]);
        }
        lemma_unknown_code_stays_unknown(v, steps.drop_last(), c);
        assert(!approves_code(steps[steps.len() - 1], c));
    }
}

/// A recorded code keeps its grant through any steps that neither use it up
/// nor record it again.
pub proof fn lemma_code_grant_persists(v: OAuthView, steps: Seq<Step>, c: Seq<char>)
    requires
        v.auth_codes.contains_key(c),
        forall|i: int|
            0 <= i < steps.len() ==> !approves_code(#[trigger] steps[i], c) && !consumes_code(
                steps[i],
                c,
            ),
    ensures
        run(v, steps).auth_codes.contains_key(c),
        run(v, steps).auth_codes[c] == v.auth_codes[c],
    decreases steps.len(),
{
    if steps.len() > 0 {
        assert forall|i: int| 0 <= i < steps.drop_last().len() implies !approves_code(
            #[trigger] steps.drop_last()[i],
            c,
        ) && !consumes_code(steps.drop_last()[i], c) by {
            assert(steps.drop_last()[i] == steps[i]);
        }
        lemma_code_grant_persists(v, steps.drop_last(), c);
        let last = steps[steps.len() - 1];
        assert(!approves_code(last, c) && !consumes_code(last, c));
        reveal_strlit("refresh_token");
        reveal_strlit("authorization_code");
        assert("refresh_token"@.len() != "authorization_code"@.len());
    }
}

/// A refresh token that is not known stays unknown through any steps that do
/// not issue it again.
pub proof fn lemma_unknown_refresh_token_stays_unknown(v: OAuthView, steps: Seq<Step>, t: Seq<char>)
    requires
        !v.refresh_tokens.contains_key(t),
        forall|i: int| 0 <= i < steps.len() ==> !issues_refresh_token(#[trigger] steps[i], t),
    ensures
        !run(v, steps).refresh_tokens.contains_key(t),
    decreases steps.len(),
{
    if steps.len() > 0 {
        assert forall|i: int| 0 <= i < steps.drop_last().len() implies !issues_refresh_token(
            #[trigger] steps.drop_last()[i],
            t,
        ) by {
            assert(steps.drop_last()[i] == steps[i]);
        }
        lemma_unknown_refresh_token_stays_unknown(v, steps.drop_last(), t);
        assert(!issues_refresh_token(steps[steps.len() - 1], t));
    }
}

/// An access token that is not known stays unknown, and so is refused,
/// through any steps that do not issue it again.
pub proof fn lemma_unknown_access_token_stays_refused(
    v: OAuthView,
    steps: Seq<Step>,
    t: Seq<char>,
    later: u64,
)
    requires
        !v.access_tokens.contains_key(t),
        forall|i: int| 0 <= i < steps.len() ==> !issues_access_token(#[trigger] steps[i], t),
    ensures
        !run(v, steps).access_tokens.contains_key(t),
        !access_token_valid(run(v, steps), t, later),
    decreases steps.len(),
{
    if steps.len() > 0 {
        assert forall|i: int| 0 <= i < steps.drop_last().len() implies !issues_access_token(
            #[trigger] steps.drop_last()[i],
            t,
        ) by {
            assert(steps.drop_last()[i] == steps[i]);
        }
        lemma_unknown_access_token_stays_refused(v, steps.drop_last(), t, later);
        assert(!issues_access_token(steps[steps.len() - 1], t));
    }
}

/// A known access token keeps its grant through any steps that neither
/// revoke it, check it after it expired, nor issue it again.
pub proof fn lemma_access_grant_persists(v: OAuthView, steps: Seq<Step>, t: Seq<char>)
    requires
        v.access_tokens.contains_key(t),
        forall|i: int|
            0 <= i < steps.len() ==> !may_drop_access_token(
                #[trigger] steps[i],
                t,
                v.access_tokens[t].expires_at,
            ) && !issues_access_token(steps[i], t),
    ensures
        run(v, steps).access_tokens.contains_key(t),
        run(v, steps).access_tokens[t] == v.access_tokens[t],
    decreases steps.len(),
{
    if steps.len() > 0 {
        assert forall|i: int| 0 <= i < steps.drop_last().len() implies !may_drop_access_token(
            #[trigger] steps.drop_last()[i],
            t,
            v.access_tokens[t].expires_at,
        ) && !issues_access_token(steps.drop_last()[i], t) by {
            assert(steps.drop_last()[i] == steps[i]);
        }
        lemma_access_grant_persists(v, steps.drop_last(), t);
        let last = steps[steps.len() - 1];
        assert(!may_drop_access_token(last, t, v.access_tokens[t].expires_at));
        assert(!issues_access_token(last, t));
    }
}

/// An authorization code is redeemable at most once: after an exchange of it
/// with all four parameters, any later exchange of it is refused as unknown,
/// whatever happened in between, unless the code was recorded again.
pub proof fn lemma_used_code_is_refused_later(
    pre: OAuthView,
    post: OAuthView,
    r: TokenRequestView,
    now: u64,
    res: Result<TokenResponse, OAuthError>,
    steps: Seq<Step>,
    again: TokenRequestView,
    later: u64,
)
    requires
        token_outcome(pre, post, r, now, res),
        r.grant_type == "authorization_code"@,
        code_grant_complete(r),
        forall|i: int| 0 <= i < steps.len() ==> !approves_code(#[trigger] steps[i], r.code->0),
        code_grant_complete(again),
        again.code == r.code,
    ensures
        code_grant_error(run(post, steps), again, later) == Some(
            ("invalid_grant"@, "unknown code"@),
        ),
{
    lemma_unknown_code_stays_unknown(post, steps, r.code->0);
}

/// A refresh token rotated out by a successful refresh grant is never
/// redeemable again, whatever happened in between, unless it was issued
/// again (including by that very grant drawing the same text).
pub proof fn lemma_rotated_refresh_token_is_refused_later(
    pre: OAuthView,
    post: OAuthView,
    r: TokenRequestView,
    now: u64,
    t: TokenResponse,
    steps: Seq<Step>,
    again: TokenRequestView,
)
    requires
        token_outcome(pre, post, r, now, Ok(t)),
        r.grant_type == "refresh_token"@,
        t.refresh_token@ != r.refresh_token->0,
        forall|i: int|
            0 <= i < steps.len() ==> !issues_refresh_token(#[trigger] steps[i], r.refresh_token->0),
        refresh_grant_complete(again),
        again.refresh_token == r.refresh_token,
    ensures
        refresh_grant_error(run(post, steps), again) == Some(
            ("invalid_grant"@, "unknown refresh_token"@),
        ),
{
    assert("refresh_token"@ != "authorization_code"@) by {
        reveal_strlit("refresh_token");
        reveal_strlit("authorization_code");
        assert("refresh_token"@.len() != "authorization_code"@.len());
    }
    lemma_unknown_refresh_token_stays_unknown(post, steps, r.refresh_token->0);
}

/// A revoked token, or an access token once refused, stays refused as an
/// access token through any steps that do not issue it again; a revoked token
/// is refused as a refresh token through any steps that do not issue it again.
pub proof fn lemma_revoked_or_refused_token_stays_refused(
    v: OAuthView,
    t: Seq<char>,
    now: u64,
    revoked: bool,
    steps: Seq<Step>,
    later: u64,
    again: TokenRequestView,
)
    requires
        revoked || !access_token_valid(v, t, now),
        forall|i: int|
            0 <= i < steps.len() ==> !issues_access_token(#[trigger] steps[i], t)
                && !issues_refresh_token(steps[i], t),
        refresh_grant_complete(again),
        again.refresh_token == Some(t),
    ensures
        !access_token_valid(
            run(if revoked { after_revoke(v, t) } else { after_validation(v, t, now) }, steps),
            t,
            later,
        ),
        revoked ==> refresh_grant_error(run(after_revoke(v, t), steps), again) == Some(
            ("invalid_grant"@, "unknown refresh_token"@),
        ),
{
    let w = if revoked { after_revoke(v, t) } else { after_validation(v, t, now) };
    assert(!w.access_tokens.contains_key(t));
    lemma_unknown_access_token_stays_refused(w, steps, t, later);
    if revoked {
        lemma_unknown_refresh_token_stays_unknown(after_revoke(v, t), steps, t);
    }
}

/// An access token issued by a successful token request at `now` stays valid
/// for the client it was issued to until `now + ACCESS_TOKEN_TTL`, whatever
/// happened in between, unless it was revoked or issued again; and a request
/// bearing it is forwarded to the MCP service for that client.
pub proof fn lemma_issued_token_valid_across_history(
    pre: OAuthView,
    post: OAuthView,
    r: TokenRequestView,
    now: u64,
    t: TokenResponse,
    steps: Seq<Step>,
    later: u64,
    last: OAuthView,
    d: crate::http::AccessDecision,
)
    requires
        now <= CLOCK_LIMIT,
        token_outcome(pre, post, r, now, Ok(t)),
        later < now + ACCESS_TOKEN_TTL,
        forall|i: int|
            0 <= i < steps.len() ==> !may_drop_access_token(
                #[trigger] steps[i],
                t.access_token@,
                (now + ACCESS_TOKEN_TTL) as u64,
            ) && !issues_access_token(steps[i], t.access_token@),
        access_outcome(
            run(post, steps),
            last,
            Some("Bearer "@ + t.access_token@),
            later,
            d,
        ),
    ensures
        access_token_valid(run(post, steps), t.access_token@, later),
        run(post, steps).access_tokens[t.access_token@].client_id == r.client_id->0,
        d matches crate::http::AccessDecision::Forward(c) && c@ == r.client_id->0,
        last == run(post, steps),
{
    let a = t.access_token@;
    assert(post.access_tokens[a] == AccessGrant {
        client_id: r.client_id->0,
        expires_at: (now + ACCESS_TOKEN_TTL) as u64,
    });
    lemma_access_grant_persists(post, steps, a);
    let h = "Bearer "@ + a;
    assert(h.take(7) =~= "Bearer "@ && h.skip(7) =~= a) by {
        reveal_strlit("Bearer ");
    }
}

/// The authorization-code flow works across any history: after a client is
/// registered and an approval records code `c` for it with challenge
/// `S256(verifier)` at `now1`, any steps that neither use up nor re-record
/// `c` may follow; an exchange of `c` with the same client id, redirect URI
/// and verifier by `now1 + AUTH_CODE_TTL` then succeeds and issues tokens to
/// that client.
pub proof fn lemma_authorization_flow_across_history(
    s1: OAuthView,
    s2: OAuthView,
    f: AuthorizeDecision,
    code: Seq<char>,
    now1: u64,
    dec: Result<String, AuthorizeRejection>,
    verifier: Seq<char>,
    steps: Seq<Step>,
    s4: OAuthView,
    r: TokenRequestView,
    now2: u64,
    tok: Result<TokenResponse, OAuthError>,
)
    requires
        s1.clients.contains_key(f.client_id@),
        s1.clients[f.client_id@].contains(f.redirect_uri@),
        f.code_challenge_method@ == "S256"@,
        f.decision@ == "approve"@,
        f.code_challenge@ == crate::crypto::pkce_challenge(verifier),
        now1 <= CLOCK_LIMIT,
        decision_outcome(s1, s2, f, code, now1, dec),
        forall|i: int|
            0 <= i < steps.len() ==> !approves_code(#[trigger] steps[i], code) && !consumes_code(
                steps[i],
                code,
            ),
        r.grant_type == "authorization_code"@,
        r.code == Some(code),
        r.client_id == Some(f.client_id@),
        r.redirect_uri == Some(f.redirect_uri@),
        r.code_verifier == Some(verifier),
        now2 <= now1 + AUTH_CODE_TTL,
        now2 <= CLOCK_LIMIT,
        token_outcome(run(s2, steps), s4, r, now2, tok),
    ensures
        tok matches Ok(t) && {
            &&& s4.access_tokens[t.access_token@].client_id == f.client_id@
            &&& s4.refresh_tokens[t.refresh_token@] == f.client_id@
            &&& access_token_valid(s4, t.access_token@, now2)
        },
{
    assert(s2.auth_codes.contains_key(code));
    lemma_code_grant_persists(s2, steps, code);
    assert(token_request_error(run(s2, steps), r, now2) is None);
}

/// Whether a step is a complete refresh grant presenting `t`, which uses it up.
pub open spec fn redeems_refresh_token(s: Step, t: Seq<char>) -> bool {
    s matches Step::Exchange { request, .. } && request.grant_type == "refresh_token"@
        && refresh_grant_complete(request) && request.refresh_token == Some(t)
}

/// Whether a step revokes token `t`.
pub open spec fn revokes_token(s: Step, t: Seq<char>) -> bool {
    s matches Step::Revoke { token } && token == t
}

/// A recorded refresh token keeps its client through any steps that neither
/// redeem it, revoke it, nor issue it again: issuing other tokens, to this
/// client or any other, leaves it in place.
pub proof fn lemma_refresh_token_persists(v: OAuthView, steps: Seq<Step>, t: Seq<char>)
    requires
        v.refresh_tokens.contains_key(t),
        forall|i: int|
            0 <= i < steps.len() ==> !redeems_refresh_token(#[trigger] steps[i], t)
                && !revokes_token(steps[i], t) && !issues_refresh_token(steps[i], t),
    ensures
        run(v, steps).refresh_tokens.contains_key(t),
        run(v, steps).refresh_tokens[t] == v.refresh_tokens[t],
    decreases steps.len(),
{
    if steps.len() > 0 {
        assert forall|i: int| 0 <= i < steps.drop_last().len() implies !redeems_refresh_token(
            #[trigger] steps.drop_last()[i],
            t,
        ) && !revokes_token(steps.drop_last()[i], t) && !issues_refresh_token(
            steps.drop_last()[i],
            t,
        ) by {
            assert(steps.drop_last()[i] == steps[i]);
        }
        lemma_refresh_token_persists(v, steps.drop_last(), t);
        let last = steps[steps.len() - 1];
        assert(!redeems_refresh_token(last, t) && !revokes_token(last, t)
            && !issues_refresh_token(last, t));
        reveal_strlit("refresh_token");
        reveal_strlit("authorization_code");
        assert("refresh_token"@.len() != "authorization_code"@.len());
    }
}

/// A refresh token issued by a successful token request stays redeemable by
/// the client it was issued to across any history that neither redeems it,
/// revokes it, nor issues it again: in particular, tokens issued to other
/// clients in between do not void it, and a refresh grant presenting it with
/// that client id is accepted.
pub proof fn lemma_refresh_token_redeemable_across_history(
    pre: OAuthView,
    post: OAuthView,
    r: TokenRequestView,
    now: u64,
    t: TokenResponse,
    steps: Seq<Step>,
    again: TokenRequestView,
    later: u64,
)
    requires
        token_outcome(pre, post, r, now, Ok(t)),
        forall|i: int|
            0 <= i < steps.len() ==> !redeems_refresh_token(#[trigger] steps[i], t.refresh_token@)
                && !revokes_token(steps[i], t.refresh_token@) && !issues_refresh_token(
                steps[i],
                t.refresh_token@,
            ),
        again.grant_type == "refresh_token"@,
        again.refresh_token == Some(t.refresh_token@),
        again.client_id == r.client_id,
    ensures
        run(post, steps).refresh_tokens[t.refresh_token@] == r.client_id->0,
        token_request_error(run(post, steps), again, later) is None,
{
    assert(post.refresh_tokens.contains_key(t.refresh_token@));
    lemma_refresh_token_persists(post, steps, t.refresh_token@);
    reveal_strlit("refresh_token");
    reveal_strlit("authorization_code");
    assert("refresh_token"@.len() != "authorization_code"@.len());
}

/// Whether a step registers client `id` (with at least one redirect URI).
pub open spec fn registers_client(s: Step, id: Seq<char>) -> bool {
    s matches Step::Register { client_id, uris } && client_id == id && uris.len() > 0
}

/// A registered client keeps its redirect URIs through any steps that do not
/// register the same client id again.
pub proof fn lemma_registration_persists(v: OAuthView, steps: Seq<Step>, id: Seq<char>)
    requires
        v.clients.contains_key(id),
        forall|i: int| 0 <= i < steps.len() ==> !registers_client(#[trigger] steps[i], id),
    ensures
        run(v, steps).clients.contains_key(id),
        run(v, steps).clients[id] == v.clients[id],
    decreases steps.len(),
{
    if steps.len() > 0 {
        assert forall|i: int| 0 <= i < steps.drop_last().len() implies !registers_client(
            #[trigger] steps.drop_last()[i],
            id,
        ) by {
            assert(steps.drop_last()[i] == steps[i]);
        }
        lemma_registration_persists(v, steps.drop_last(), id);
        assert(!registers_client(steps[steps.len() - 1], id));
    }
}

/// After a client registers redirect URIs `uris`, and any steps that do not
/// register it again, its request with response type `code` and method
/// `S256` is accepted exactly when its redirect URI is one of `uris`.
pub proof fn lemma_registered_client_check_across_history(
    pre: OAuthView,
    post: OAuthView,
    uris: Seq<Seq<char>>,
    name: Option<String>,
    client_id: Seq<char>,
    res: Result<RegisterResponse, OAuthError>,
    steps: Seq<Step>,
    q: AuthorizeQueryView,
)
    requires
        register_outcome(pre, post, uris, name, client_id, res),
        uris.len() > 0,
        forall|i: int| 0 <= i < steps.len() ==> !registers_client(#[trigger] steps[i], client_id),
        q.response_type == "code"@,
        q.code_challenge_method == "S256"@,
        q.client_id == client_id,
    ensures
        authorize_rejection(run(post, steps), q) == if uris.contains(q.redirect_uri) {
            None
        } else {
            Some(AuthorizeRejection::UnregisteredRedirectUri)
        },
{
    lemma_registration_persists(post, steps, client_id);
}

} // verus!
