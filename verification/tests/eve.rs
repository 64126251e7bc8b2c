use eve_mumble_bridge::eve::{
    accept_token_header, check_token_age, check_token_header, first_affiliation, jwk_to_decoding_key,
    status_is_success, token_rules, upstream_failure, Affiliation, EveClaims, Jwk, JwtPolicy, KeySet, SigAlg, TokenHeader,
};

fn claims(sub: &str) -> EveClaims {
    EveClaims { sub: sub.to_string(), name: "P".to_string(), exp: None, iss: String::new(), iat: None }
}

#[test]
fn character_id_reads_the_sub_claim() {
    assert_eq!(claims("CHARACTER:EVE:91234567").character_id().unwrap(), 91234567);
    let e = claims("USER:EVE:1").character_id().unwrap_err();
    assert_eq!(e.status_code(), 401);
    assert_eq!(e.message(), "sub not in CHARACTER:EVE:<id> form: USER:EVE:1");
    let e = claims("CHARACTER:EVE:").character_id().unwrap_err();
    assert_eq!(e.message(), "sub id parse: cannot parse integer from empty string");
    let e = claims("CHARACTER:EVE:12x").character_id().unwrap_err();
    assert_eq!(e.message(), "sub id parse: invalid digit found in string");
    let e = claims("CHARACTER:EVE:18446744073709551616").character_id().unwrap_err();
    assert_eq!(e.message(), "sub id parse: number too large to fit in target type");
}

#[test]
fn token_age_is_bounded_only_when_asked() {
    assert!(check_token_age(None, None, 100).is_ok());
    let e = check_token_age(None, Some(60), 100).unwrap_err();
    assert_eq!(e.message(), "jwt missing iat (required by JWT_MAX_AGE_SECONDS)");
    assert!(check_token_age(Some(40), Some(60), 100).is_ok());
    let e = check_token_age(Some(39), Some(60), 100).unwrap_err();
    assert_eq!(e.status_code(), 401);
    assert_eq!(e.message(), "jwt issued 61s ago, exceeds JWT_MAX_AGE_SECONDS=60");
    assert!(check_token_age(Some(200), Some(0), 100).is_ok());
}

#[test]
fn token_header_needs_a_kid_and_an_allowed_algorithm() {
    let rs = "eyJhbGciOiJSUzI1NiIsImtpZCI6IkpXVC1TaWduYXR1cmUtS2V5IiwidHlwIjoiSldUIn0.e30.sig";
    let (kid, alg) = check_token_header(rs).unwrap();
    assert_eq!(kid, "JWT-Signature-Key");
    assert_eq!(alg, SigAlg::RS256);

    let no_kid = "eyJhbGciOiJIUzI1NiIsInR5cCI6IkpXVCJ9.e30.sig";
    assert_eq!(check_token_header(no_kid).unwrap_err().message(), "jwt missing kid");

    let hs = "eyJhbGciOiJIUzI1NiIsImtpZCI6ImsxIiwidHlwIjoiSldUIn0.e30.sig";
    assert_eq!(check_token_header(hs).unwrap_err().message(), "unsupported jwt alg HS256");

    let e = check_token_header("garbage").unwrap_err();
    assert_eq!(e.status_code(), 401);
    assert!(e.message().starts_with("invalid jwt header: "));
}

#[test]
fn decoded_header_verdicts() {
    let ok = accept_token_header(Ok(TokenHeader { kid: Some("k".to_string()), alg: SigAlg::ES256 })).unwrap();
    assert_eq!(ok, ("k".to_string(), SigAlg::ES256));
    let e = accept_token_header(Ok(TokenHeader { kid: Some("k".to_string()), alg: SigAlg::EdDSA })).unwrap_err();
    assert_eq!(e.message(), "unsupported jwt alg EdDSA");
    let e = accept_token_header(Err("boom".to_string())).unwrap_err();
    assert_eq!(e.message(), "invalid jwt header: boom");
}

#[test]
fn token_rules_follow_the_policy() {
    let strict = token_rules(SigAlg::RS256, "client", &JwtPolicy { validate_exp: true, max_age_seconds: None });
    assert_eq!(strict.algorithm, SigAlg::RS256);
    assert_eq!(strict.issuers, vec!["login.eveonline.com".to_string(), "https://login.eveonline.com".to_string()]);
    assert_eq!(strict.audience, "client");
    assert!(strict.validate_exp);
    assert_eq!(strict.required_claims, vec!["exp".to_string()]);
    let lax = token_rules(SigAlg::ES256, "client", &JwtPolicy { validate_exp: false, max_age_seconds: Some(5) });
    assert!(!lax.validate_exp);
    assert!(lax.required_claims.is_empty());
}

fn jwk(kid: &str, kty: &str, n: Option<&str>, e: Option<&str>) -> Jwk {
    Jwk {
        kid: kid.to_string(),
        kty: kty.to_string(),
        n: n.map(|s| s.to_string()),
        e: e.map(|s| s.to_string()),
        x: n.map(|s| s.to_string()),
        y: e.map(|s| s.to_string()),
    }
}

#[test]
fn usable_jwks_become_keys() {
    assert!(jwk_to_decoding_key(&jwk("a", "RSA", Some("AQAB"), Some("AQAB"))).is_some());
    assert!(jwk_to_decoding_key(&jwk("a", "EC", Some("AQAB"), Some("AQAB"))).is_some());
    assert!(jwk_to_decoding_key(&jwk("a", "RSA", Some("AQAB"), None)).is_none());
    assert!(jwk_to_decoding_key(&jwk("a", "RSA", Some("!!"), Some("AQAB"))).is_none());
    assert!(jwk_to_decoding_key(&jwk("a", "OKP", Some("AQAB"), Some("AQAB"))).is_none());

    let keys = KeySet::from_jwks(&[
        jwk("rsa", "RSA", Some("AQAB"), Some("AQAB")),
        jwk("bad", "oct", Some("AQAB"), Some("AQAB")),
        jwk("rsa", "EC", Some("AQAB"), Some("AQAB")),
    ]);
    assert!(keys.find("rsa").is_ok());
    let e = keys.find("bad").unwrap_err();
    assert_eq!(e.status_code(), 401);
    assert_eq!(e.message(), "unknown jwt kid bad");
}

#[test]
fn first_affiliation_of_the_answer() {
    let a = Affiliation { character_id: 1, corporation_id: 2, alliance_id: None, faction_id: None };
    assert_eq!(first_affiliation(vec![a]).unwrap().corporation_id, 2);
    let e = first_affiliation(vec![]).unwrap_err();
    assert_eq!(e.status_code(), 502);
    assert_eq!(e.message(), "empty affiliation response");
}

#[test]
fn upstream_status_is_judged_by_its_class() {
    assert!(status_is_success(200));
    assert!(status_is_success(204));
    assert!(status_is_success(299));
    assert!(!status_is_success(199));
    assert!(!status_is_success(300));
    assert!(!status_is_success(404));
    assert!(!status_is_success(502));
    let e = upstream_failure("token endpoint", "400 Bad Request", "{\"error\":\"invalid_grant\"}");
    assert_eq!(e.status_code(), 502);
    assert_eq!(e.message(), "token endpoint returned 400 Bad Request: {\"error\":\"invalid_grant\"}");
    let e = upstream_failure("ESI alliances/{id}", "404 Not Found", "");
    assert_eq!(e.message(), "ESI alliances/{id} returned 404 Not Found: ");
}
