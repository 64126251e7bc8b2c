use eve_mumble_bridge::config::{CacheSection, Config, ConfigFile, EsiSection, EveSection, JwtSection, MumbleSection, MumbleServer};
use eve_mumble_bridge::eve::{EveClaims, TokenResponse};
use eve_mumble_bridge::picker::{
    build_mumble_url, callback_query, callback_step, escape_html, pkce_entry, pkce_expired, pkce_live,
    render_picker, CallbackAction, CallbackEvent, CallbackState, Params, PkceEntry, PAGE_AFTER_CLUSTER, PAGE_AFTER_LINKS,
    PAGE_AFTER_NAME, PAGE_AFTER_USERNAME, PAGE_HEAD, PAGE_TAIL,
};
use eve_mumble_bridge::whitelist::GroupMap;

fn config(servers: Vec<MumbleServer>, mumble_url: Option<&str>) -> Config {
    Config::from_config_file(ConfigFile {
        public_url: "https://auth.example.com".to_string(),
        cluster_name: "Brave <Comms>".to_string(),
        bind_addr: "0.0.0.0:8080".to_string(),
        log_filter: "info".to_string(),
        eve: EveSection { client_id: "c".to_string(), client_secret: "s".to_string() },
        esi: EsiSection::default(),
        jwt: JwtSection::default(),
        mumble: MumbleSection { auth_token: "t".to_string(), url: mumble_url.map(|s| s.to_string()) },
        servers,
        whitelist: None,
        groups: GroupMap::new(),
        cache: CacheSection::default(),
    })
    .unwrap()
}

#[test]
fn escape_html_replaces_markup() {
    assert_eq!(escape_html(r#"<a href="x">Tom & 'Jerry'</a>"#), "&lt;a href=&quot;x&quot;&gt;Tom &amp; &#39;Jerry&#39;&lt;/a&gt;");
    assert_eq!(escape_html("plain ✓"), "plain ✓");
}

#[test]
fn mumble_url_carries_credentials_and_title() {
    let srv = MumbleServer { host: "voice.example.com".to_string(), port: 64738, name: None };
    assert_eq!(
        build_mumble_url(&srv, "1@d", "jwt", "T (x)", None),
        "mumble://1@d:jwt@voice.example.com:64738/?title=T (x)"
    );
    assert_eq!(
        build_mumble_url(&srv, "1@d", "jwt", "T", Some("https://auth")),
        "mumble://1@d:jwt@voice.example.com:64738/?title=T&url=https://auth"
    );
}

#[test]
fn picker_page_lists_servers_and_credentials() {
    let cfg = config(
        vec![
            MumbleServer { host: "a.example.com".to_string(), port: 64738, name: Some("Main".to_string()) },
            MumbleServer { host: "b.example.com".to_string(), port: 1234, name: None },
        ],
        Some("https://auth.example.com"),
    );
    let page = render_picker("Pilot <X>", 42, "j.w\"t", &cfg).unwrap();
    let link_a = "<a class=\"server\" href=\"mumble://42@auth.example.com:j.w&quot;t@a.example.com:64738/?title=Brave &lt;Comms&gt; (Main)&amp;url=https://auth.example.com\"><div class=\"title\">Main</div><div class=\"host\">a.example.com</div></a>";
    let link_b = "<a class=\"server\" href=\"mumble://42@auth.example.com:j.w&quot;t@b.example.com:1234/?title=Brave &lt;Comms&gt; (b.example.com)&amp;url=https://auth.example.com\"><div class=\"title\">b.example.com</div><div class=\"host\">b.example.com:1234</div></a>";
    let expected = format!(
        "{PAGE_HEAD}Brave &lt;Comms&gt;{PAGE_AFTER_CLUSTER}Pilot &lt;X&gt;{PAGE_AFTER_NAME}{link_a}{link_b}{PAGE_AFTER_LINKS}42@auth.example.com{PAGE_AFTER_USERNAME}j.w&quot;t{PAGE_TAIL}"
    );
    assert_eq!(page, expected);
    assert!(page.starts_with("<!DOCTYPE html>\n<html lang=\"en\">"));
    assert!(page.contains("<h1>Welcome to Brave &lt;Comms&gt;, Pilot &lt;X&gt;</h1>"));
    assert_eq!(page.matches("<a class=\"server\"").count(), 2);
    assert!(page.contains(":root { color-scheme: light dark;"));
    assert!(page.ends_with("</script>\n</body>\n</html>\n"));
}

#[test]
fn callback_query_needs_code_and_state() {
    let p = |code: Option<&str>, state: Option<&str>, error: Option<&str>, desc: Option<&str>| Params {
        code: code.map(|s| s.to_string()),
        state: state.map(|s| s.to_string()),
        error: error.map(|s| s.to_string()),
        error_description: desc.map(|s| s.to_string()),
    };
    assert_eq!(callback_query(p(Some("c"), Some("s"), None, None)).unwrap(), ("c".to_string(), "s".to_string()));
    let e = callback_query(p(Some("c"), Some("s"), Some("access_denied"), Some("no"))).unwrap_err();
    assert_eq!(e.status_code(), 400);
    assert_eq!(e.message(), "EVE SSO error: access_denied (no)");
    assert_eq!(callback_query(p(None, None, Some("e"), None)).unwrap_err().message(), "EVE SSO error: e ()");
    assert_eq!(callback_query(p(None, Some("s"), None, None)).unwrap_err().message(), "missing code");
    assert_eq!(callback_query(p(Some("c"), None, None, None)).unwrap_err().message(), "missing state");
}

#[test]
fn pkce_entries_expire() {
    let e = pkce_entry("v".to_string(), 100);
    assert_eq!(e.expires_at, 600_100);
    assert!(!pkce_expired(&e, 600_100));
    assert!(!pkce_live(&e, 600_100));
    assert!(pkce_expired(&e, 600_101));
    assert!(pkce_live(&e, 600_099));
}

#[test]
fn callback_flow_renders_the_picker() {
    let cfg = config(vec![MumbleServer { host: "a".to_string(), port: 64738, name: None }], None);
    let (s, a) = callback_step(
        CallbackState::Start,
        CallbackEvent::Query(Params { code: Some("code".to_string()), state: Some("st".to_string()), error: None, error_description: None }),
        &cfg,
    );
    assert!(matches!(&a, CallbackAction::TakePkce(x) if x == "st"));
    let entry = PkceEntry { verifier: "ver".to_string(), expires_at: 50 };
    let (s, a) = callback_step(s, CallbackEvent::PkceTaken { entry: Some(entry), now: 10 }, &cfg);
    assert!(matches!(&a, CallbackAction::ExchangeCode { code, verifier } if code == "code" && verifier == "ver"));
    let token = TokenResponse { access_token: "tok".to_string(), token_type: None, expires_in: None, refresh_token: None };
    let (s, a) = callback_step(s, CallbackEvent::CodeExchanged(Ok(token)), &cfg);
    assert!(matches!(&a, CallbackAction::VerifyToken(t) if t == "tok"));
    let claims = EveClaims { sub: "CHARACTER:EVE:42".to_string(), name: "Pilot".to_string(), exp: None, iss: String::new(), iat: None };
    let (s, a) = callback_step(s, CallbackEvent::TokenChecked(Ok(claims)), &cfg);
    assert!(matches!(s, CallbackState::Done));
    match a {
        CallbackAction::Reply(Ok(page)) => assert_eq!(page, render_picker("Pilot", 42, "tok", &cfg).unwrap()),
        _ => panic!("expected the page"),
    }
}

#[test]
fn callback_flow_redirects_without_a_live_entry() {
    let cfg = config(vec![MumbleServer { host: "a".to_string(), port: 64738, name: None }], None);
    let (s, a) = callback_step(
        CallbackState::AwaitingPkce { code: "c".to_string() },
        CallbackEvent::PkceTaken { entry: None, now: 10 },
        &cfg,
    );
    assert!(matches!(s, CallbackState::Done));
    assert!(matches!(a, CallbackAction::RedirectHome));
    let entry = PkceEntry { verifier: "v".to_string(), expires_at: 5 };
    let (_, a) = callback_step(
        CallbackState::AwaitingPkce { code: "c".to_string() },
        CallbackEvent::PkceTaken { entry: Some(entry), now: 10 },
        &cfg,
    );
    assert!(matches!(a, CallbackAction::RedirectHome));
    let (_, a) = callback_step(CallbackState::Start, CallbackEvent::PkceTaken { entry: None, now: 1 }, &cfg);
    match a {
        CallbackAction::Reply(Err(e)) => assert_eq!(e.message(), "unexpected callback event"),
        _ => panic!("expected an error"),
    }
}
