//! Starting a login: the PKCE secrets and the URL that sends the browser to
//! EVE SSO.
use vstd::prelude::*;

use crate::codec::{b64url_encode, b64url_encoded, random_bytes, sha256, sha256_digest};
use crate::error::{fails_with, AppError};
use crate::eve::OidcDiscovery;
use crate::picker::{pkce_entry, PkceEntry, PKCE_TTL_MS};
use crate::text::{owned, push_str};
use url::Url;
use vstd::utf8::encode_utf8;

verus! {

/// The views of query pairs.
pub open spec fn pair_views(pairs: Seq<(String, String)>) -> Seq<(Seq<char>, Seq<char>)> {
    pairs.map_values(|p: (String, String)| (p.0@, p.1@))
}

/// The view of a text result whose error is a text.
pub open spec fn text_outcome(r: Result<String, String>) -> Result<Seq<char>, Seq<char>> {
    match r {
        Ok(s) => Ok(s@),
        Err(e) => Err(e@),
    }
}

/// What the `url` crate makes of `endpoint` with `pairs` appended to its
/// query (form-urlencoded): the serialized URL, or the parse error message.
pub uninterp spec fn url_with_query(
    endpoint: Seq<char>,
    pairs: Seq<(Seq<char>, Seq<char>)>,
) -> Result<Seq<char>, Seq<char>>;

/// `Url::parse(endpoint)`, then `query_pairs_mut().extend_pairs(pairs)`,
/// then the URL as text; the parse error as its display text. The contract
/// names the outcome.
#[verifier::external_body]
fn url_append_query(endpoint: &str, pairs: &[(String, String)]) -> (res: Result<String, String>)
    ensures
        text_outcome(res) == url_with_query(endpoint@, pair_views(pairs@)),
{
    let mut url = Url::parse(endpoint).map_err(|e| e.to_string())?;
    url.query_pairs_mut().extend_pairs(pairs);
    Ok(url.as_str().to_string())
}

/// The query that sends the browser to EVE SSO for a code, with PKCE.
pub open spec fn authorize_pairs(
    client_id: Seq<char>,
    redirect_uri: Seq<char>,
    state: Seq<char>,
    challenge: Seq<char>,
) -> Seq<(Seq<char>, Seq<char>)> {
    seq![
        ("response_type"@, "code"@),
        ("client_id"@, client_id),
        ("redirect_uri"@, redirect_uri),
        ("state"@, state),
        ("code_challenge"@, challenge),
        ("code_challenge_method"@, "S256"@),
    ]
}

/// The URL that starts the login at `endpoint` (the authorization endpoint)
/// for the client `client_id`, returning to `redirect_uri` with `state`, and
/// carrying the PKCE `challenge`. An endpoint that does not parse is an
/// internal error.
pub fn authorize_url(
    endpoint: &str,
    client_id: &str,
    redirect_uri: &str,
    state: &str,
    challenge: &str,
) -> (res: Result<String, AppError>)
    ensures
        match url_with_query(endpoint@, authorize_pairs(client_id@, redirect_uri@, state@, challenge@)) {
            Ok(u) => res matches Ok(s) && s@ == u,
            Err(m) => fails_with(res, 500, "bad authorization_endpoint: "@ + m),
        },
{
    let mut pairs: Vec<(String, String)> = Vec::new();
    pairs.push((owned("response_type"), owned("code")));
    pairs.push((owned("client_id"), owned(client_id)));
    pairs.push((owned("redirect_uri"), owned(redirect_uri)));
    pairs.push((owned("state"), owned(state)));
    pairs.push((owned("code_challenge"), owned(challenge)));
    pairs.push((owned("code_challenge_method"), owned("S256")));
    assert(pair_views(pairs@) =~= authorize_pairs(client_id@, redirect_uri@, state@, challenge@));
    match url_append_query(endpoint, pairs.as_slice()) {
        Ok(u) => Ok(u),
        Err(e) => {
            let mut msg = owned("bad authorization_endpoint: ");
            push_str(&mut msg, e.as_str());
            Err(AppError::Internal(msg))
        },
    }
}

/// The PKCE challenge of `verifier`: the URL-safe base64 of the SHA-256
/// digest of its UTF-8 bytes (method `S256`).
pub fn pkce_challenge(verifier: &str) -> (res: String)
    ensures
        res@ == b64url_encoded(sha256(encode_utf8(verifier@))),
{
    let digest = sha256_digest(verifier.as_bytes());
    b64url_encode(digest.as_slice())
}

/// `n` random bytes in URL-safe base64.
pub fn random_b64(n: usize) -> (res: String)
    requires
        n <= isize::MAX,
    ensures
        exists|b: Seq<u8>| b.len() == n && res@ == #[trigger] b64url_encoded(b),
{
    let buf = random_bytes(n);
    b64url_encode(buf.as_slice())
}

/// Where a login start stands.
#[derive(Debug)]
pub enum LoginState {
    /// Nothing done yet.
    Start,
    /// The PKCE entry is stored; the authorization endpoint is being looked
    /// up. The state and PKCE challenge of this login.
    AwaitingDiscovery { state: String, challenge: String },
    /// The answer has been given.
    Done,
}

/// What the outside work of a login start reports.
#[derive(Debug)]
pub enum LoginEvent {
    /// A browser asked to log in, at time `now` (milliseconds of a monotonic
    /// clock).
    Begin { now: u64 },
    /// The discovery document was fetched, or its fetch failed.
    Discovered(Result<OidcDiscovery, AppError>),
}

/// The outside work a login start needs next, or its answer.
#[derive(Debug)]
pub enum LoginAction {
    /// Store `entry` under `state`, drop the entries whose time ran out, and
    /// look up the authorization endpoint.
    StorePkce { state: String, entry: PkceEntry },
    /// Redirect the browser to this URL, or answer with the error.
    Redirect(Result<String, AppError>),
}

/// One step of a login start. A new login gets a random state (32 bytes)
/// and PKCE verifier (64 bytes), both in URL-safe base64, and a PKCE entry
/// that expires after `PKCE_TTL_MS`; then the browser is sent to the
/// authorization endpoint with the `S256` challenge of the verifier. A failed
/// lookup ends the login with its error, and an event that does not fit the
/// state is an internal error.
pub fn login_step(state: LoginState, event: LoginEvent, client_id: &str, redirect_uri: &str) -> (res: (LoginState, LoginAction))
    requires
        event matches LoginEvent::Begin { now } ==> now + PKCE_TTL_MS <= u64::MAX,
    ensures
        match (state, event) {
            (LoginState::Start, LoginEvent::Begin { now }) => {
                &&& res.0 matches LoginState::AwaitingDiscovery { state: s, challenge }
                &&& res.1 matches LoginAction::StorePkce { state: s2, entry }
                &&& s2 == res.0->state
                &&& entry.expires_at == now + PKCE_TTL_MS
                &&& res.0->challenge@ == b64url_encoded(sha256(encode_utf8(entry.verifier@)))
                &&& exists|b: Seq<u8>| b.len() == 32 && s2@ == #[trigger] b64url_encoded(b)
                &&& exists|b: Seq<u8>| b.len() == 64 && entry.verifier@ == #[trigger] b64url_encoded(b)
            },
            (LoginState::AwaitingDiscovery { state: s, challenge }, LoginEvent::Discovered(Err(e))) => {
                &&& res.0 is Done
                &&& res.1 matches LoginAction::Redirect(r) && r == Err::<String, AppError>(e)
            },
            (LoginState::AwaitingDiscovery { state: s, challenge }, LoginEvent::Discovered(Ok(d))) => {
                &&& res.0 is Done
                &&& res.1 matches LoginAction::Redirect(r) && match url_with_query(
                    d.authorization_endpoint@,
                    authorize_pairs(client_id@, redirect_uri@, s@, challenge@),
                ) {
                    Ok(u) => r matches Ok(x) && x@ == u,
                    Err(m) => fails_with(r, 500, "bad authorization_endpoint: "@ + m),
                }
            },
            _ => res.0 is Done && (res.1 matches LoginAction::Redirect(r) && fails_with(r, 500, "unexpected login event"@)),
        },
{
    match (state, event) {
        (LoginState::Start, LoginEvent::Begin { now }) => {
            let st = random_b64(32);
            let verifier = random_b64(64);
            let challenge = pkce_challenge(verifier.as_str());
            let entry = pkce_entry(verifier, now);
            let kept = st.clone();
            (LoginState::AwaitingDiscovery { state: kept, challenge }, LoginAction::StorePkce { state: st, entry })
        },
        (LoginState::AwaitingDiscovery { state: _, challenge: _ }, LoginEvent::Discovered(Err(e))) => (
            LoginState::Done,
            LoginAction::Redirect(Err(e)),
        ),
        (LoginState::AwaitingDiscovery { state: st, challenge }, LoginEvent::Discovered(Ok(d))) => {
            let url = authorize_url(
                d.authorization_endpoint.as_str(),
                client_id,
                redirect_uri,
                st.as_str(),
                challenge.as_str(),
            );
            (LoginState::Done, LoginAction::Redirect(url))
        },
        _ => (LoginState::Done, LoginAction::Redirect(Err(AppError::Internal(owned("unexpected login event"))))),
    }
}

} // verus!
