use eve_mumble_bridge::config::{
    default_bind_addr, default_cache_path, default_esi_date, default_log_filter, default_mumble_port,
    CacheSection, Config, ConfigError, ConfigFile, EsiSection, EveSection, JwtSection, MumbleSection,
    MumbleServer,
};
use eve_mumble_bridge::whitelist::{GroupMap, TierList};

fn server(host: &str) -> MumbleServer {
    MumbleServer { host: host.to_string(), port: default_mumble_port(), name: None }
}

fn raw(public_url: &str) -> ConfigFile {
    ConfigFile {
        public_url: public_url.to_string(),
        cluster_name: "Test".to_string(),
        bind_addr: default_bind_addr(),
        log_filter: default_log_filter(),
        eve: EveSection { client_id: "client-id".to_string(), client_secret: "client-secret".to_string() },
        esi: EsiSection::default(),
        jwt: JwtSection::default(),
        mumble: MumbleSection { auth_token: "token".to_string(), url: None },
        servers: vec![server("mumble.example.com")],
        whitelist: None,
        groups: GroupMap::new(),
        cache: CacheSection::default(),
    }
}

#[test]
fn missing_whitelist_allows_everyone() {
    let cfg = Config::from_config_file(raw("http://localhost:8080")).expect("config without whitelist");

    assert!(cfg.whitelist.whitelist.is_none());
}

#[test]
fn defaults_and_derived_fields() {
    let cfg = Config::from_config_file(raw("http://localhost:8080///")).unwrap();
    assert_eq!(cfg.public_url, "http://localhost:8080");
    assert_eq!(cfg.public_domain, "localhost");
    assert_eq!(cfg.redirect_uri(), "http://localhost:8080/callback");
    assert_eq!(cfg.bind_addr, "0.0.0.0:8080");
    assert_eq!(cfg.log_filter, "info");
    assert_eq!(cfg.esi_compatibility_date, "2026-05-06");
    assert!(cfg.jwt_validate_exp);
    assert_eq!(cfg.jwt_max_age_seconds, None);
    assert_eq!(cfg.cache_path, "./cache.json");
    assert_eq!(cfg.mumble_servers[0].port, 64738);
    assert_eq!(default_esi_date(), "2026-05-06");
    assert_eq!(default_cache_path(), "./cache.json");
}

#[test]
fn refused_configurations() {
    let e = Config::from_config_file(raw("not a url")).unwrap_err();
    assert!(matches!(e, ConfigError::InvalidPublicUrl(_)));
    assert_eq!(e.message(), "public_url is not a valid URL");

    let e = Config::from_config_file(raw("data:text/plain,hello")).unwrap_err();
    assert_eq!(e, ConfigError::NoHost);
    assert_eq!(e.message(), "public_url has no host");

    let mut r = raw("https://auth.example.com/");
    r.cluster_name = " \t".to_string();
    assert_eq!(Config::from_config_file(r).unwrap_err(), ConfigError::EmptyClusterName);

    let mut r = raw("https://auth.example.com/");
    r.mumble.auth_token = "\u{3000}".to_string();
    assert_eq!(Config::from_config_file(r).unwrap_err(), ConfigError::EmptyAuthToken);

    let mut r = raw("https://auth.example.com/");
    r.servers = vec![];
    let e = Config::from_config_file(r).unwrap_err();
    assert_eq!(e, ConfigError::NoServers);
    assert_eq!(e.message(), "config must define at least one [[servers]] entry");

    let mut r = raw("https://auth.example.com/");
    r.servers = vec![server("a.example.com"), server("  ")];
    let e = Config::from_config_file(r).unwrap_err();
    assert_eq!(e, ConfigError::EmptyServerHost);
    assert_eq!(e.message(), "[[servers]].host must not be empty");
}

#[test]
fn whitelist_and_groups_are_carried_over() {
    let mut r = raw("https://auth.example.com");
    r.whitelist = Some(TierList { alliance_ids: vec![1], corporation_ids: vec![], character_ids: vec![] });
    r.groups.insert("officers".to_string(), TierList::default());
    let cfg = Config::from_config_file(r).unwrap();
    assert_eq!(cfg.whitelist.whitelist.unwrap().alliance_ids, vec![1]);
    assert_eq!(cfg.whitelist.groups.len(), 1);
    assert_eq!(cfg.public_domain, "auth.example.com");
}
