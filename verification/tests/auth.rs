use eve_mumble_bridge::auth::{
    auth_response, auth_step, bearer_auth, build_display_name, build_ticker_groups, confirm_username,
    ct_eq, mumble_username, username_character, AuthAction, AuthEvent, AuthRequest, AuthState,
};
use eve_mumble_bridge::eve::{Affiliation, EveClaims};
use eve_mumble_bridge::whitelist::{GroupMap, TierList, WhitelistConfig};

#[test]
fn display_name_uses_known_tickers() {
    assert_eq!(
        build_display_name(Some("ALLY"), Some("CORP"), "Pilot Name"),
        "ALLY-CORP-Pilot Name"
    );
}

#[test]
fn display_name_skips_missing_tickers() {
    assert_eq!(build_display_name(None, Some("CORP"), "Pilot Name"), "CORP-Pilot Name");
    assert_eq!(build_display_name(Some("ALLY"), None, "Pilot Name"), "ALLY-Pilot Name");
    assert_eq!(build_display_name(None, None, "Pilot Name"), "Pilot Name");
}

#[test]
fn ticker_groups_include_alliance_corp_and_pair() {
    assert_eq!(
        build_ticker_groups(Some("ALLY"), Some("CORP")),
        vec!["ALLY".to_string(), "CORP".to_string(), "ALLY>CORP".to_string()]
    );
}

#[test]
fn ticker_groups_skip_missing_tickers() {
    assert_eq!(build_ticker_groups(None, Some("CORP")), vec!["CORP".to_string()]);
    assert_eq!(build_ticker_groups(Some("ALLY"), None), vec!["ALLY".to_string()]);
    assert!(build_ticker_groups(Some(""), Some("")).is_empty());
}

#[test]
fn display_name_skips_empty_tickers() {
    assert_eq!(build_display_name(Some(""), Some("CORP"), "Pilot"), "CORP-Pilot");
    assert_eq!(build_display_name(Some("ALLY"), Some(""), "Pilot"), "ALLY-Pilot");
}

#[test]
fn ct_eq_compares_contents() {
    assert!(ct_eq(b"secret", b"secret"));
    assert!(!ct_eq(b"secret", b"secreT"));
    assert!(!ct_eq(b"secret", b"secre"));
    assert!(ct_eq(b"", b""));
}

#[test]
fn bearer_token_is_checked() {
    assert!(bearer_auth(Some(b"Bearer tok"), "tok").is_ok());
    let missing = bearer_auth(None, "tok").unwrap_err();
    assert_eq!(missing.status_code(), 401);
    assert_eq!(missing.message(), "missing Authorization header");
    let bad = bearer_auth(Some(b"Bearer t\x01k"), "tok").unwrap_err();
    assert_eq!(bad.message(), "invalid Authorization header");
    let scheme = bearer_auth(Some(b"Basic tok"), "tok").unwrap_err();
    assert_eq!(scheme.message(), "expected Bearer scheme");
    let short = bearer_auth(Some(b"Bear"), "tok").unwrap_err();
    assert_eq!(short.message(), "expected Bearer scheme");
    let wrong = bearer_auth(Some(b"Bearer tok2"), "tok").unwrap_err();
    assert_eq!(wrong.message(), "invalid bearer token");
    assert!(bearer_auth(Some(b"Bearer a\tb"), "a\tb").is_ok());
}

#[test]
fn username_round_trips_to_character() {
    let u = mumble_username(91234567, "mumble.example.com");
    assert_eq!(u, "91234567@mumble.example.com");
    assert_eq!(username_character(&u).unwrap(), 91234567);
    assert_eq!(username_character("42").unwrap(), 42);
    assert_eq!(username_character("+42@x@y").unwrap(), 42);
    let e = username_character("pilot@host").unwrap_err();
    assert_eq!(e.status_code(), 400);
    assert_eq!(e.message(), "username must be numeric character_id");
    assert!(username_character("@host").is_err());
}

#[test]
fn username_must_match_token_character() {
    assert!(confirm_username("5@d", 5).is_ok());
    let e = confirm_username("6@d", 5).unwrap_err();
    assert_eq!(e.status_code(), 401);
    assert_eq!(e.message(), "username does not match jwt sub");
}

#[test]
fn response_appends_ticker_groups() {
    let r = auth_response(
        7,
        vec!["char_7".to_string()],
        Some("ALLY".to_string()),
        None,
        "Pilot",
    );
    assert_eq!(r.user_id, 7);
    assert_eq!(r.display_name, "ALLY-Pilot");
    assert_eq!(r.groups, vec!["char_7".to_string(), "ALLY".to_string()]);
}

fn claims(sub: &str) -> EveClaims {
    EveClaims {
        sub: sub.to_string(),
        name: "Pilot Name".to_string(),
        exp: None,
        iss: "login.eveonline.com".to_string(),
        iat: None,
    }
}

fn whitelist(corp: u64) -> WhitelistConfig {
    let mut groups = GroupMap::new();
    groups.insert(
        "officers".to_string(),
        TierList { alliance_ids: vec![], corporation_ids: vec![], character_ids: vec![91234567] },
    );
    WhitelistConfig {
        whitelist: Some(TierList { alliance_ids: vec![], corporation_ids: vec![corp], character_ids: vec![] }),
        groups,
    }
}

#[test]
fn auth_flow_admits_a_whitelisted_pilot() {
    let cfg = whitelist(98123456);
    let (s, a) = auth_step(
        AuthState::Start,
        AuthEvent::Request(AuthRequest {
            username: "91234567@localhost".to_string(),
            password: "jwt".to_string(),
        }),
        &cfg,
    );
    assert!(matches!(&a, AuthAction::VerifyToken(t) if t == "jwt"));
    let (s, a) = auth_step(s, AuthEvent::TokenChecked(Ok(claims("CHARACTER:EVE:91234567"))), &cfg);
    assert!(matches!(a, AuthAction::FetchAffiliation(91234567)));
    let aff = Affiliation {
        character_id: 91234567,
        corporation_id: 98123456,
        alliance_id: Some(99003581),
        faction_id: None,
    };
    let (s, a) = auth_step(s, AuthEvent::AffiliationFetched(Ok(aff)), &cfg);
    assert!(matches!(
        a,
        AuthAction::FetchTickers { corporation_id: 98123456, alliance_id: Some(99003581) }
    ));
    let (s, a) = auth_step(
        s,
        AuthEvent::TickersFetched {
            alliance_ticker: Some("BRAVE".to_string()),
            corp_ticker: Some("BRN".to_string()),
        },
        &cfg,
    );
    assert!(matches!(s, AuthState::Done));
    match a {
        AuthAction::Reply(Ok(r)) => {
            assert_eq!(r.user_id, 91234567);
            assert_eq!(r.display_name, "BRAVE-BRN-Pilot Name");
            assert_eq!(
                r.groups,
                vec![
                    "char_91234567".to_string(),
                    "corp_98123456".to_string(),
                    "alliance_99003581".to_string(),
                    "officers".to_string(),
                    "BRAVE".to_string(),
                    "BRN".to_string(),
                    "BRAVE>BRN".to_string(),
                ]
            );
        }
        _ => panic!("expected an answer"),
    }
}

#[test]
fn auth_flow_refusals() {
    let cfg = whitelist(98123456);
    let checking = || AuthState::CheckingToken { username: "91234567@localhost".to_string() };
    let (_, a) = auth_step(checking(), AuthEvent::TokenChecked(Ok(claims("USER:1"))), &cfg);
    match a {
        AuthAction::Reply(Err(e)) => {
            assert_eq!(e.status_code(), 401);
            assert_eq!(e.message(), "sub not in CHARACTER:EVE:<id> form: USER:1");
        }
        _ => panic!("expected a refusal"),
    }
    let (_, a) = auth_step(checking(), AuthEvent::TokenChecked(Ok(claims("CHARACTER:EVE:5"))), &cfg);
    match a {
        AuthAction::Reply(Err(e)) => assert_eq!(e.message(), "username does not match jwt sub"),
        _ => panic!("expected a refusal"),
    }
    let (_, a) = auth_step(
        AuthState::FetchingAffiliation { char_id: 1, name: "P".to_string() },
        AuthEvent::AffiliationFetched(Ok(Affiliation {
            character_id: 1,
            corporation_id: 2,
            alliance_id: None,
            faction_id: None,
        })),
        &cfg,
    );
    match a {
        AuthAction::Reply(Err(e)) => {
            assert_eq!(e.status_code(), 403);
            assert_eq!(e.message(), "not in whitelist");
        }
        _ => panic!("expected a refusal"),
    }
    let (s, a) = auth_step(AuthState::Done, AuthEvent::TickersFetched { alliance_ticker: None, corp_ticker: None }, &cfg);
    assert!(matches!(s, AuthState::Done));
    match a {
        AuthAction::Reply(Err(e)) => assert_eq!(e.status_code(), 500),
        _ => panic!("expected an internal error"),
    }
}

#[test]
fn issued_username_passes_only_for_its_character() {
    let u = mumble_username(2112000001, "voice.example.org");
    assert!(confirm_username(&u, 2112000001).is_ok());
    let e = confirm_username(&u, 2112000002).unwrap_err();
    assert_eq!(e.status_code(), 401);
    assert_eq!(e.message(), "username does not match jwt sub");
}
