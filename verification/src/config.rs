//! The configuration of a relay: the defaults, and what a configuration file
//! changes of them.

use vstd::prelude::*;

verus! {

/// The number of records that the cache holds unless the file says otherwise.
pub const DEFAULT_CACHE_SIZE: usize = 1_000_000;

/// The TCP port of the HTTP server unless the file says otherwise.
pub const DEFAULT_HTTP_PORT: u16 = 6881;

/// The directory, below the configured cache path, that holds the cache.
pub const CACHE_DIR: &'static str = "pkarr-cache";

/// The paths of std, taken as they are: nothing of what a path holds is
/// visible to a proof.
#[verifier::external_type_specification]
#[verifier::external_body]
pub struct ExPathBuf(std::path::PathBuf);

/// Calls `std::path::PathBuf::join` on the path that `base` names, with
/// `dir`. The path that comes back is written with the separator of the
/// platform, so nothing is said of it.
#[verifier::external_body]
fn join_path(base: &str, dir: &str) -> (joined: std::path::PathBuf) {
    std::path::PathBuf::from(base).join(dir)
}

/// The limits on requests from one IP address.
#[derive(Clone, Copy, Debug, PartialEq, Eq)]
pub struct RateLimiterConfig {
    /// Take the address from the headers that reverse proxies set.
    pub behind_proxy: bool,
    /// The number of seconds after which one request of the quota is given
    /// back.
    pub per_second: u64,
    /// The number of requests that an address may make before it has to wait.
    pub burst_size: u32,
}

impl Default for RateLimiterConfig {
    fn default() -> (config: Self)
        ensures
            config == (RateLimiterConfig { behind_proxy: false, per_second: 2, burst_size: 10 }),
    {
        RateLimiterConfig { behind_proxy: false, per_second: 2, burst_size: 10 }
    }
}

/// The `[http]` table of a configuration file.
#[derive(Clone, Copy, Debug, PartialEq, Eq)]
pub struct HttpConfig {
    pub port: Option<u16>,
}

/// The `[mainline]` table of a configuration file.
#[derive(Clone, Copy, Debug, PartialEq, Eq)]
pub struct MainlineConfig {
    pub port: Option<u16>,
}

/// A configuration file, as it was read: every setting may be missing.
#[derive(Debug)]
pub struct ConfigToml {
    pub http: Option<HttpConfig>,
    pub mainline: Option<MainlineConfig>,
    pub cache_path: Option<String>,
    pub cache_size: Option<usize>,
    pub minimum_ttl: Option<u32>,
    pub maximum_ttl: Option<u32>,
    pub rate_limiter: Option<RateLimiterConfig>,
}

/// What the relay asks of the client through which it reaches the
/// distributed hash table. `None` leaves the client's own default in place.
#[derive(Clone, Copy, Debug, PartialEq, Eq)]
pub struct ClientBuilder {
    /// Whether the client also asks other relays. A relay's client does not.
    pub relays: bool,
    /// The shortest time, in seconds, for which a record is kept in the cache.
    pub minimum_ttl: Option<u32>,
    /// The longest time, in seconds, for which a record is kept in the cache.
    pub maximum_ttl: Option<u32>,
    /// The UDP port of the node in the distributed hash table.
    pub dht_port: Option<u16>,
}

/// The configuration of a relay.
#[derive(Debug)]
pub struct Config {
    /// The TCP port of the HTTP server.
    pub http_port: u16,
    /// The settings of the client.
    pub pkarr: ClientBuilder,
    /// The path of the cache. `None` stands for a directory in the data
    /// directory of the operating system.
    pub cache_path: Option<std::path::PathBuf>,
    /// The number of records that the cache holds.
    pub cache_size: usize,
    /// The limits on requests from one address; `None` switches them off.
    pub rate_limiter: Option<RateLimiterConfig>,
}

/// The port that a file's `[http]` table sets, if it sets one.
pub open spec fn http_port_of(http: Option<HttpConfig>) -> Option<u16> {
    match http {
        Some(http) => http.port,
        None => None,
    }
}

/// The port that a file's `[mainline]` table sets, if it sets one.
pub open spec fn dht_port_of(mainline: Option<MainlineConfig>) -> Option<u16> {
    match mainline {
        Some(mainline) => mainline.port,
        None => None,
    }
}

impl Default for Config {
    /// The configuration of a relay that has no configuration file.
    fn default() -> (config: Self)
        ensures
            config.http_port == DEFAULT_HTTP_PORT,
            config.pkarr == (ClientBuilder {
                relays: false,
                minimum_ttl: None,
                maximum_ttl: None,
                dht_port: None,
            }),
            config.cache_path is None,
            config.cache_size == DEFAULT_CACHE_SIZE,
            config.rate_limiter == Some(
                RateLimiterConfig { behind_proxy: false, per_second: 2, burst_size: 10 },
            ),
    {
        Config {
            http_port: DEFAULT_HTTP_PORT,
            pkarr: ClientBuilder {
                relays: false,
                minimum_ttl: None,
                maximum_ttl: None,
                dht_port: None,
            },
            cache_path: None,
            cache_size: DEFAULT_CACHE_SIZE,
            rate_limiter: Some(RateLimiterConfig::default()),
        }
    }
}

impl Config {
    /// The configuration that a file asks for, where `cache_path` is the
    /// path of the cache that the file leads to.
    ///
    /// The ports and the times to live are those of the file where it sets
    /// them and the defaults where it does not. The size of the cache is the
    /// file's, or [`DEFAULT_CACHE_SIZE`]. The rate limits are the file's: a
    /// file without them switches them off.
    pub fn with_cache_path(config_toml: &ConfigToml, cache_path: Option<std::path::PathBuf>) -> (config:
        Config)
        ensures
            config.http_port == (match http_port_of(config_toml.http) {
                Some(port) => port,
                None => DEFAULT_HTTP_PORT,
            }),
            config.pkarr == (ClientBuilder {
                relays: false,
                minimum_ttl: config_toml.minimum_ttl,
                maximum_ttl: config_toml.maximum_ttl,
                dht_port: dht_port_of(config_toml.mainline),
            }),
            config.cache_path == cache_path,
            config.cache_size == (match config_toml.cache_size {
                Some(size) => size,
                None => DEFAULT_CACHE_SIZE,
            }),
            config.rate_limiter == config_toml.rate_limiter,
    {
        let mut config = Config::default();
        if let Some(ttl) = config_toml.minimum_ttl {
            config.pkarr.minimum_ttl = Some(ttl);
        }
        if let Some(ttl) = config_toml.maximum_ttl {
            config.pkarr.maximum_ttl = Some(ttl);
        }
        if let Some(mainline) = config_toml.mainline {
            if let Some(port) = mainline.port {
                config.pkarr.dht_port = Some(port);
            }
        }
        if let Some(http) = config_toml.http {
            if let Some(port) = http.port {
                config.http_port = port;
            }
        }
        config.cache_path = cache_path;
        config.cache_size = match config_toml.cache_size {
            Some(size) => size,
            None => DEFAULT_CACHE_SIZE,
        };
        config.rate_limiter = config_toml.rate_limiter;
        config
    }

    /// The configuration that a file asks for.
    ///
    /// Where the file sets a cache path, the cache is kept in the directory
    /// [`CACHE_DIR`] below it; how that path is written depends on the
    /// platform, so all that is said of it here is that it is there. Every
    /// other setting is as [`Self::with_cache_path`] says.
    pub fn load(config_toml: ConfigToml) -> (config: Config)
        ensures
            config.http_port == (match http_port_of(config_toml.http) {
                Some(port) => port,
                None => DEFAULT_HTTP_PORT,
            }),
            config.pkarr == (ClientBuilder {
                relays: false,
                minimum_ttl: config_toml.minimum_ttl,
                maximum_ttl: config_toml.maximum_ttl,
                dht_port: dht_port_of(config_toml.mainline),
            }),
            config.cache_path is Some <==> config_toml.cache_path is Some,
            config.cache_size == (match config_toml.cache_size {
                Some(size) => size,
                None => DEFAULT_CACHE_SIZE,
            }),
            config.rate_limiter == config_toml.rate_limiter,
    {
        let cache_path = match &config_toml.cache_path {
            Some(path) => Some(join_path(path.as_str(), CACHE_DIR)),
            None => None,
        };
        Config::with_cache_path(&config_toml, cache_path)
    }
}

} // verus!
