use eve_mumble_bridge::cache::{fresh, AffiliationMemo, TickerCache, AFFILIATION_TTL_MS};
use eve_mumble_bridge::eve::Affiliation;
use std::collections::HashMap;

#[test]
fn tickers_keep_their_first_value() {
    let mut c = TickerCache::from_maps(HashMap::new(), HashMap::new());
    assert_eq!(c.alliance_ticker(1), None);
    assert_eq!(c.remember_alliance(1, "OLD".to_string()), "OLD");
    assert_eq!(c.remember_alliance(1, "NEW".to_string()), "OLD");
    assert_eq!(c.alliance_ticker(1), Some("OLD".to_string()));
    assert_eq!(c.corp_ticker(1), None);
    assert_eq!(c.remember_corp(1, "C".to_string()), "C");
    let (a, k) = c.snapshot();
    assert_eq!(a.get(&1), Some(&"OLD".to_string()));
    assert_eq!(k.get(&1), Some(&"C".to_string()));
}

#[test]
fn loaded_tickers_are_found() {
    let mut corps = HashMap::new();
    corps.insert(98123456, "BRN".to_string());
    let c = TickerCache::from_maps(HashMap::new(), corps);
    assert_eq!(c.corp_ticker(98123456), Some("BRN".to_string()));
}

#[test]
fn affiliations_are_reused_for_an_hour() {
    let a = Affiliation { character_id: 1, corporation_id: 2, alliance_id: Some(3), faction_id: None };
    let mut m = AffiliationMemo::new();
    assert!(m.lookup(1, 0).is_none());
    m.record(1, a, 1000);
    assert_eq!(m.lookup(1, 1000 + AFFILIATION_TTL_MS - 1).unwrap().corporation_id, 2);
    assert!(m.lookup(1, 1000 + AFFILIATION_TTL_MS).is_none());
    assert!(m.lookup(1, 500).is_some());
    assert!(m.lookup(2, 1000).is_none());
    assert!(fresh(10, 5, 1));
    assert!(!fresh(10, 11, 1));
}
