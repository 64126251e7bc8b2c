use eve_mumble_bridge::eve::OidcDiscovery;
use eve_mumble_bridge::login::{authorize_url, login_step, pkce_challenge, random_b64, LoginAction, LoginEvent, LoginState};
use eve_mumble_bridge::picker::PKCE_TTL_MS;

#[test]
fn challenge_is_base64_of_sha256() {
    assert_eq!(pkce_challenge("verifier-0123456789"), "lC7HRkONmgMbfAnjtw_tCpn_MsY-4NtmqxjXvlihv9g");
}

#[test]
fn random_values_have_the_length_of_their_base64() {
    let s = random_b64(32);
    assert_eq!(s.len(), 43);
    assert!(s.chars().all(|c| c.is_ascii_alphanumeric() || c == '-' || c == '_'));
    assert_eq!(random_b64(64).len(), 86);
    assert_ne!(random_b64(32), random_b64(32));
}

#[test]
fn authorize_url_carries_the_pkce_query() {
    let u = authorize_url(
        "https://login.eveonline.com/v2/oauth/authorize",
        "abc123",
        "http://localhost:8080/callback",
        "st4te",
        "ch_al-lenge",
    )
    .unwrap();
    assert_eq!(
        u,
        "https://login.eveonline.com/v2/oauth/authorize?response_type=code&client_id=abc123&redirect_uri=http%3A%2F%2Flocalhost%3A8080%2Fcallback&state=st4te&code_challenge=ch_al-lenge&code_challenge_method=S256"
    );
    let e = authorize_url("no endpoint", "a", "b", "c", "d").unwrap_err();
    assert_eq!(e.status_code(), 500);
    assert!(e.message().starts_with("bad authorization_endpoint: "));
}

fn discovery(endpoint: &str) -> OidcDiscovery {
    OidcDiscovery {
        authorization_endpoint: endpoint.to_string(),
        token_endpoint: String::new(),
        jwks_uri: String::new(),
        issuer: String::new(),
    }
}

#[test]
fn login_flow_stores_pkce_then_redirects() {
    let (s, a) = login_step(LoginState::Start, LoginEvent::Begin { now: 1000 }, "cid", "http://x/callback");
    let (state, verifier) = match a {
        LoginAction::StorePkce { state, entry } => {
            assert_eq!(entry.expires_at, 1000 + PKCE_TTL_MS);
            (state, entry.verifier)
        }
        _ => panic!("expected to store the PKCE entry"),
    };
    let (s, a) = login_step(s, LoginEvent::Discovered(Ok(discovery("https://sso.example/authorize"))), "cid", "http://x/callback");
    assert!(matches!(s, LoginState::Done));
    match a {
        LoginAction::Redirect(Ok(url)) => {
            assert!(url.starts_with("https://sso.example/authorize?response_type=code&client_id=cid&"));
            assert!(url.contains(&format!("&state={state}&")));
            assert!(url.contains(&format!("&code_challenge={}&", pkce_challenge(&verifier))));
            assert!(url.ends_with("&code_challenge_method=S256"));
        }
        _ => panic!("expected a redirect"),
    }
}

#[test]
fn login_flow_errors() {
    let (s, _) = login_step(LoginState::Start, LoginEvent::Begin { now: 0 }, "cid", "r");
    let (_, a) = login_step(s, LoginEvent::Discovered(Ok(discovery("::"))), "cid", "r");
    match a {
        LoginAction::Redirect(Err(e)) => assert_eq!(e.status_code(), 500),
        _ => panic!("expected an error"),
    }
    let (_, a) = login_step(LoginState::Done, LoginEvent::Begin { now: 0 }, "cid", "r");
    match a {
        LoginAction::Redirect(Err(e)) => assert_eq!(e.message(), "unexpected login event"),
        _ => panic!("expected an error"),
    }
}
