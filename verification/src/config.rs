//! The service's configuration: the sections as read from the file, their
//! defaults, and the checks that turn them into a `Config`.
use vstd::prelude::*;

use crate::text::{is_blank, is_blank_spec, is_space, owned, push_str, trim_end_char, trim_end_matching};
use crate::whitelist::{GroupMap, TierList, WhitelistConfig};
use url::Url;

verus! {

/// The Mumble port that servers use unless told otherwise.
pub const DEFAULT_MUMBLE_PORT: u16 = 64738;

/// The port of a `[[servers]]` entry that gives none.
pub fn default_mumble_port() -> (res: u16)
    ensures
        res == DEFAULT_MUMBLE_PORT,
{
    DEFAULT_MUMBLE_PORT
}

/// A Mumble server that the picker page links to.
#[derive(Debug, Clone)]
pub struct MumbleServer {
    pub host: String,
    pub port: u16,
    pub name: Option<String>,
}

/// The EVE application's credentials.
#[derive(Debug, Clone)]
pub struct EveSection {
    pub client_id: String,
    pub client_secret: String,
}

/// ESI settings.
#[derive(Debug, Clone)]
pub struct EsiSection {
    pub compatibility_date: String,
}

/// Token checks.
#[derive(Debug, Clone, Copy)]
pub struct JwtSection {
    pub validate_exp: bool,
    pub max_age_seconds: Option<u64>,
}

/// The shared secret of the Mumble auth plugin and the `url` the links carry.
#[derive(Debug, Clone)]
pub struct MumbleSection {
    pub auth_token: String,
    pub url: Option<String>,
}

/// Where the ticker cache lives.
#[derive(Debug, Clone)]
pub struct CacheSection {
    pub path: String,
}

/// The configuration file as read, with absent optional sections and keys
/// already replaced by their defaults.
#[derive(Debug)]
pub struct ConfigFile {
    pub public_url: String,
    pub cluster_name: String,
    pub bind_addr: String,
    pub log_filter: String,
    pub eve: EveSection,
    pub esi: EsiSection,
    pub jwt: JwtSection,
    pub mumble: MumbleSection,
    pub servers: Vec<MumbleServer>,
    pub whitelist: Option<TierList>,
    pub groups: GroupMap,
    pub cache: CacheSection,
}

/// The address to listen on when none is given.
pub fn default_bind_addr() -> (res: String)
    ensures
        res@ == "0.0.0.0:8080"@,
{
    owned("0.0.0.0:8080")
}

/// The log filter when none is given.
pub fn default_log_filter() -> (res: String)
    ensures
        res@ == "info"@,
{
    owned("info")
}

/// The ESI compatibility date when none is given.
pub fn default_esi_date() -> (res: String)
    ensures
        res@ == "2026-05-06"@,
{
    owned("2026-05-06")
}

/// Whether token expiry is enforced when not said.
pub fn default_validate_exp() -> (res: bool)
    ensures
        res,
{
    true
}

/// The ticker cache file when none is given.
pub fn default_cache_path() -> (res: String)
    ensures
        res@ == "./cache.json"@,
{
    owned("./cache.json")
}

impl Default for EsiSection {
    fn default() -> (res: Self)
        ensures
            res.compatibility_date@ == "2026-05-06"@,
    {
        EsiSection { compatibility_date: default_esi_date() }
    }
}

impl Default for JwtSection {
    fn default() -> (res: Self)
        ensures
            res.validate_exp,
            res.max_age_seconds is None,
    {
        JwtSection { validate_exp: default_validate_exp(), max_age_seconds: None }
    }
}

impl Default for CacheSection {
    fn default() -> (res: Self)
        ensures
            res.path@ == "./cache.json"@,
    {
        CacheSection { path: default_cache_path() }
    }
}

/// The service's configuration.
#[derive(Debug)]
pub struct Config {
    pub bind_addr: String,
    pub public_url: String,
    pub public_domain: String,
    pub log_filter: String,
    pub cluster_name: String,
    pub eve_client_id: String,
    pub eve_client_secret: String,
    pub esi_compatibility_date: String,
    pub jwt_validate_exp: bool,
    pub jwt_max_age_seconds: Option<u64>,
    pub mumble_auth_token: String,
    pub mumble_url: Option<String>,
    pub mumble_servers: Vec<MumbleServer>,
    pub whitelist: WhitelistConfig,
    pub cache_path: String,
}

/// Why a configuration file is refused.
#[derive(Debug, Clone, PartialEq, Eq)]
pub enum ConfigError {
    /// `public_url` does not parse as a URL; the parser's message.
    InvalidPublicUrl(String),
    /// `public_url` has no host.
    NoHost,
    /// `cluster_name` is empty or white space.
    EmptyClusterName,
    /// `mumble.auth_token` is empty or white space.
    EmptyAuthToken,
    /// There is no `[[servers]]` entry.
    NoServers,
    /// A `[[servers]]` entry's host is empty or white space.
    EmptyServerHost,
}

impl ConfigError {
    /// The message that explains the refusal.
    pub open spec fn text(&self) -> Seq<char> {
        match self {
            ConfigError::InvalidPublicUrl(_) => "public_url is not a valid URL"@,
            ConfigError::NoHost => "public_url has no host"@,
            ConfigError::EmptyClusterName => "cluster_name must not be empty"@,
            ConfigError::EmptyAuthToken => "mumble.auth_token must not be empty"@,
            ConfigError::NoServers => "config must define at least one [[servers]] entry"@,
            ConfigError::EmptyServerHost => "[[servers]].host must not be empty"@,
        }
    }

    /// The message that explains the refusal.
    pub fn message(&self) -> (res: String)
        ensures
            res@ == self.text(),
    {
        match self {
            ConfigError::InvalidPublicUrl(_) => owned("public_url is not a valid URL"),
            ConfigError::NoHost => owned("public_url has no host"),
            ConfigError::EmptyClusterName => owned("cluster_name must not be empty"),
            ConfigError::EmptyAuthToken => owned("mumble.auth_token must not be empty"),
            ConfigError::NoServers => owned("config must define at least one [[servers]] entry"),
            ConfigError::EmptyServerHost => owned("[[servers]].host must not be empty"),
        }
    }
}

/// What the `url` crate makes of `text`: the host of the parsed URL (if it
/// has one), or the parser's error message.
pub uninterp spec fn url_host_of(text: Seq<char>) -> Result<Option<Seq<char>>, Seq<char>>;

/// The view of a host lookup's outcome.
pub open spec fn host_outcome(r: Result<Option<String>, String>) -> Result<Option<Seq<char>>, Seq<char>> {
    match r {
        Ok(Some(h)) => Ok(Some(h@)),
        Ok(None) => Ok(None),
        Err(m) => Err(m@),
    }
}

/// `Url::parse(text)` followed by `host_str()`, with the parse error as its
/// display text. The contract names the outcome.
#[verifier::external_body]
fn url_host(text: &str) -> (res: Result<Option<String>, String>)
    ensures
        host_outcome(res) == url_host_of(text@),
{
    match Url::parse(text) {
        Ok(u) => Ok(u.host_str().map(|h| h.to_string())),
        Err(e) => Err(e.to_string()),
    }
}

/// Some `[[servers]]` entry has a blank host.
pub open spec fn some_blank_host(servers: Seq<MumbleServer>) -> bool {
    exists|i: int| 0 <= i < servers.len() && is_blank_spec(#[trigger] servers[i].host@)
}

/// The check a configuration file fails first, if any, given what the URL
/// parser makes of its trimmed `public_url`.
pub open spec fn config_refusal(raw: ConfigFile) -> Option<ConfigError> {
    let url = trim_end_char(raw.public_url@, '/');
    match url_host_of(url) {
        Err(_) => Some(ConfigError::InvalidPublicUrl(arbitrary())),
        Ok(None) => Some(ConfigError::NoHost),
        Ok(Some(_)) => if is_blank_spec(raw.cluster_name@) {
            Some(ConfigError::EmptyClusterName)
        } else if is_blank_spec(raw.mumble.auth_token@) {
            Some(ConfigError::EmptyAuthToken)
        } else if raw.servers@.len() == 0 {
            Some(ConfigError::NoServers)
        } else if some_blank_host(raw.servers@) {
            Some(ConfigError::EmptyServerHost)
        } else {
            None
        },
    }
}

/// Every `[[servers]]` entry's host is checked, wherever it stands: a
/// configuration file with a blank host at any index is refused, and when
/// its URL, cluster name and auth token pass, it is refused with
/// `EmptyServerHost`. So an accepted file has a non-blank host in every entry.
pub proof fn lemma_every_server_host_checked(raw: ConfigFile, i: int)
    requires
        0 <= i < raw.servers@.len(),
        forall|j: int| 0 <= j < raw.servers@[i].host@.len() ==> is_space(#[trigger] raw.servers@[i].host@[j]),
    ensures
        config_refusal(raw) is Some,
        (url_host_of(trim_end_char(raw.public_url@, '/')) matches Ok(Some(_)) && !is_blank_spec(
            raw.cluster_name@,
        ) && !is_blank_spec(raw.mumble.auth_token@)) ==> config_refusal(raw) == Some(
            ConfigError::EmptyServerHost,
        ),
{
    assert(is_blank_spec(raw.servers@[i].host@));
    assert(some_blank_host(raw.servers@));
}

/// The two errors are the same refusal (the parser's message aside).
pub open spec fn same_refusal(a: ConfigError, b: ConfigError) -> bool {
    match (a, b) {
        (ConfigError::InvalidPublicUrl(_), ConfigError::InvalidPublicUrl(_)) => true,
        _ => a == b,
    }
}

impl Config {
    /// Checks the configuration file and builds the configuration from it:
    /// `public_url` loses its trailing slashes, and `public_domain` is its
    /// host.
    pub fn from_config_file(raw: ConfigFile) -> (res: Result<Config, ConfigError>)
        ensures
            match config_refusal(raw) {
                Some(e) => res matches Err(r) && same_refusal(r, e) && (r matches ConfigError::InvalidPublicUrl(m) ==> url_host_of(trim_end_char(raw.public_url@, '/')) == Err::<Option<Seq<char>>, Seq<char>>(m@)),
                None => res matches Ok(c) && {
                    &&& c.public_url@ == trim_end_char(raw.public_url@, '/')
                    &&& url_host_of(c.public_url@) == Ok::<Option<Seq<char>>, Seq<char>>(Some(c.public_domain@))
                    &&& c.bind_addr == raw.bind_addr
                    &&& c.log_filter == raw.log_filter
                    &&& c.cluster_name == raw.cluster_name
                    &&& c.eve_client_id == raw.eve.client_id
                    &&& c.eve_client_secret == raw.eve.client_secret
                    &&& c.esi_compatibility_date == raw.esi.compatibility_date
                    &&& c.jwt_validate_exp == raw.jwt.validate_exp
                    &&& c.jwt_max_age_seconds == raw.jwt.max_age_seconds
                    &&& c.mumble_auth_token == raw.mumble.auth_token
                    &&& c.mumble_url == raw.mumble.url
                    &&& c.mumble_servers@ == raw.servers@
                    &&& c.whitelist.whitelist == raw.whitelist
                    &&& c.whitelist.groups@ == raw.groups@
                    &&& c.cache_path == raw.cache.path
                },
            },
    {
        let public_url = trim_end_matching(raw.public_url.as_str(), '/');
        let public_domain = match url_host(public_url.as_str()) {
            Err(m) => {
                return Err(ConfigError::InvalidPublicUrl(m));
            },
            Ok(None) => {
                return Err(ConfigError::NoHost);
            },
            Ok(Some(h)) => h,
        };
        if is_blank(raw.cluster_name.as_str()) {
            return Err(ConfigError::EmptyClusterName);
        }
        if is_blank(raw.mumble.auth_token.as_str()) {
            return Err(ConfigError::EmptyAuthToken);
        }
        if raw.servers.len() == 0 {
            return Err(ConfigError::NoServers);
        }
        let mut i: usize = 0;
        while i < raw.servers.len()
            invariant
                i <= raw.servers@.len(),
                forall|j: int| 0 <= j < i ==> !is_blank_spec(#[trigger] raw.servers@[j].host@),
                public_url@ == trim_end_char(raw.public_url@, '/'),
                url_host_of(public_url@) == Ok::<Option<Seq<char>>, Seq<char>>(Some(public_domain@)),
                !is_blank_spec(raw.cluster_name@),
                !is_blank_spec(raw.mumble.auth_token@),
                raw.servers@.len() > 0,
            decreases raw.servers@.len() - i,
        {
            if is_blank(raw.servers[i].host.as_str()) {
                assert(is_blank_spec(raw.servers@[i as int].host@));
                return Err(ConfigError::EmptyServerHost);
            }
            i = i + 1;
        }
        Ok(
            Config {
                bind_addr: raw.bind_addr,
                public_url,
                public_domain,
                log_filter: raw.log_filter,
                cluster_name: raw.cluster_name,
                eve_client_id: raw.eve.client_id,
                eve_client_secret: raw.eve.client_secret,
                esi_compatibility_date: raw.esi.compatibility_date,
                jwt_validate_exp: raw.jwt.validate_exp,
                jwt_max_age_seconds: raw.jwt.max_age_seconds,
                mumble_auth_token: raw.mumble.auth_token,
                mumble_url: raw.mumble.url,
                mumble_servers: raw.servers,
                whitelist: WhitelistConfig { whitelist: raw.whitelist, groups: raw.groups },
                cache_path: raw.cache.path,
            },
        )
    }

    /// The OAuth redirect URI: the public URL followed by `/callback`.
    pub fn redirect_uri(&self) -> (res: String)
        ensures
            res@ == self.public_url@ + "/callback"@,
    {
        let mut s = owned(self.public_url.as_str());
        push_str(&mut s, "/callback");
        s
    }
}

} // verus!
