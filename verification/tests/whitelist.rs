use eve_mumble_bridge::whitelist::{decide, GroupMap, TierList, WhitelistConfig};

fn cfg(whitelist: TierList, groups: &[(&str, TierList)]) -> WhitelistConfig {
    let mut map = GroupMap::new();
    for (k, v) in groups {
        map.insert((*k).to_string(), v.clone());
    }
    WhitelistConfig { whitelist: Some(whitelist), groups: map }
}

fn tier(alliances: &[u64], corps: &[u64], chars: &[u64]) -> TierList {
    TierList {
        alliance_ids: alliances.to_vec(),
        corporation_ids: corps.to_vec(),
        character_ids: chars.to_vec(),
    }
}

#[test]
fn empty_whitelist_denies() {
    let c = cfg(TierList::default(), &[]);
    assert!(!decide(1, 2, Some(3), &c).admitted);
}

#[test]
fn alliance_admits_with_full_auto_groups() {
    let c = cfg(tier(&[3], &[], &[]), &[]);
    let d = decide(1, 2, Some(3), &c);
    assert!(d.admitted);
    assert!(d.groups.contains(&"char_1".into()));
    assert!(d.groups.contains(&"corp_2".into()));
    assert!(d.groups.contains(&"alliance_3".into()));
}

#[test]
fn corp_admits() {
    let c = cfg(tier(&[], &[2], &[]), &[]);
    assert!(decide(1, 2, Some(3), &c).admitted);
}

#[test]
fn character_admits_even_when_corp_and_alliance_unknown() {
    let c = cfg(tier(&[], &[], &[1]), &[]);
    assert!(decide(1, 2, None, &c).admitted);
}

#[test]
fn no_alliance_skips_alliance_group() {
    let c = cfg(tier(&[], &[2], &[]), &[]);
    let d = decide(1, 2, None, &c);
    assert!(d.admitted);
    assert!(!d.groups.iter().any(|g| g.starts_with("alliance_")));
}

#[test]
fn unrelated_alliance_denies() {
    let c = cfg(tier(&[999], &[], &[]), &[]);
    assert!(!decide(1, 2, Some(3), &c).admitted);
}

#[test]
fn named_group_matches_via_each_tier() {
    let c = cfg(
        tier(&[3], &[], &[]),
        &[
            ("officers", tier(&[], &[], &[1])),
            ("brave", tier(&[3], &[], &[])),
            ("hq_corp", tier(&[], &[2], &[])),
        ],
    );
    let d = decide(1, 2, Some(3), &c);
    assert!(d.groups.contains(&"officers".into()));
    assert!(d.groups.contains(&"brave".into()));
    assert!(d.groups.contains(&"hq_corp".into()));
}

#[test]
fn named_group_excluded_when_overall_decision_is_deny() {
    let c = cfg(TierList::default(), &[("officers", tier(&[], &[], &[1]))]);
    let d = decide(1, 2, Some(3), &c);
    assert!(!d.admitted);
    assert!(d.groups.is_empty());
}

#[test]
fn absent_whitelist_admits_everyone() {
    let c = WhitelistConfig { whitelist: None, groups: GroupMap::new() };
    let d = decide(7, 8, None, &c);
    assert!(d.admitted);
    assert_eq!(d.groups, vec!["char_7".to_string(), "corp_8".to_string()]);
}

#[test]
fn groups_come_in_order_automatic_first_then_by_name() {
    let c = cfg(
        tier(&[], &[], &[91234567]),
        &[
            ("zeta", tier(&[], &[], &[91234567])),
            ("alpha", tier(&[99003581], &[], &[])),
            ("middle", tier(&[], &[1], &[])),
            ("beta", tier(&[], &[98123456], &[])),
        ],
    );
    let d = decide(91234567, 98123456, Some(99003581), &c);
    assert_eq!(
        d.groups,
        vec![
            "char_91234567".to_string(),
            "corp_98123456".to_string(),
            "alliance_99003581".to_string(),
            "alpha".to_string(),
            "beta".to_string(),
            "zeta".to_string(),
        ]
    );
}

#[test]
fn group_rule_inserted_twice_keeps_the_last() {
    let mut map = GroupMap::new();
    map.insert("officers".to_string(), tier(&[], &[], &[1]));
    map.insert("officers".to_string(), tier(&[], &[], &[2]));
    assert_eq!(map.len(), 1);
    let c = WhitelistConfig { whitelist: None, groups: map };
    assert!(!decide(1, 5, None, &c).groups.contains(&"officers".to_string()));
    assert!(decide(2, 5, None, &c).groups.contains(&"officers".to_string()));
}

#[test]
fn group_names_ascend_as_strings_do() {
    let mut map = GroupMap::new();
    for name in ["b", "ab", "a", "B", "aa", "é", "z"] {
        map.insert(name.to_string(), TierList::default());
    }
    let names: Vec<String> = (0..map.len()).map(|i| map.entry(i).0.clone()).collect();
    let mut expected: Vec<String> = ["b", "ab", "a", "B", "aa", "é", "z"].iter().map(|s| s.to_string()).collect();
    expected.sort();
    assert_eq!(names, expected);
}

#[test]
fn large_ids_render_in_decimal() {
    let c = WhitelistConfig { whitelist: None, groups: GroupMap::new() };
    let d = decide(u64::MAX, 0, Some(10), &c);
    assert_eq!(
        d.groups,
        vec![
            "char_18446744073709551615".to_string(),
            "corp_0".to_string(),
            "alliance_10".to_string(),
        ]
    );
}
