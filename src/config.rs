use vstd::prelude::*;

use crate::ranges::opt_view;

verus! {

/// The directory, under the home directory, that holds the configuration.
pub const CONFIG_DIR: &'static str = ".candlekeep";

/// The configuration file inside `CONFIG_DIR`.
pub const CONFIG_FILE: &'static str = "config.toml";

/// The service used when nothing else is configured.
pub const DEFAULT_API_URL: &'static str = "https://www.getcandlekeep.com";

/// The environment variable whose value, where set, overrides the configured URL.
pub const API_URL_ENV: &'static str = "CANDLEKEEP_API_URL";

/// The stored configuration: a credential, where signed in, and the service URL.
pub struct Config {
    pub auth: AuthConfig,
    pub api: ApiConfig,
}

pub struct AuthConfig {
    pub api_key: Option<String>,
}

pub struct ApiConfig {
    pub url: String,
}

impl Default for AuthConfig {
    fn default() -> (r: AuthConfig)
        ensures
            r.api_key is None,
    {
        AuthConfig { api_key: None }
    }
}

impl Default for ApiConfig {
    fn default() -> (r: ApiConfig)
        ensures
            r.url@ == DEFAULT_API_URL@,
    {
        ApiConfig { url: String::from_str(DEFAULT_API_URL) }
    }
}

impl Default for Config {
    fn default() -> (r: Config)
        ensures
            r.auth.api_key is None,
            r.api.url@ == DEFAULT_API_URL@,
    {
        Config { auth: AuthConfig::default(), api: ApiConfig::default() }
    }
}

/// `a` and `b` joined as paths: with one `/` between them, unless `a` is
/// empty or already ends in `/`.
pub open spec fn join_path(a: Seq<char>, b: Seq<char>) -> Seq<char> {
    if a.len() == 0 {
        b
    } else if a.last() == '/' {
        a + b
    } else {
        a + seq!['/'] + b
    }
}

fn path_join(a: &str, b: &str) -> (r: String)
    ensures
        r@ == join_path(a@, b@),
{
    let n = a.unicode_len();
    let mut r = String::from_str(a);
    if n == 0 {
        return String::from_str(b);
    }
    if a.get_char(n - 1) != '/' {
        proof {
            reveal_strlit("/");
        }
        r.append("/");
    }
    r.append(b);
    r
}

/// The configuration directory under the home directory `home`.
pub fn config_dir(home: &str) -> (r: String)
    ensures
        r@ == join_path(home@, CONFIG_DIR@),
{
    path_join(home, CONFIG_DIR)
}

/// The configuration file under the home directory `home`.
pub fn config_path(home: &str) -> (r: String)
    ensures
        r@ == join_path(join_path(home@, CONFIG_DIR@), CONFIG_FILE@),
{
    let dir = config_dir(home);
    path_join(dir.as_str(), CONFIG_FILE)
}

/// The stored credential, if any.
pub fn get_api_key(config: &Config) -> (r: Option<String>)
    ensures
        opt_view(r) == opt_view(config.auth.api_key),
{
    match &config.auth.api_key {
        Some(k) => Some(k.clone()),
        None => None,
    }
}

/// The service URL: the environment's value where one is set, else the
/// configured one.
pub fn get_api_url(env_value: Option<String>, config: &Config) -> (r: String)
    ensures
        r@ == match env_value {
            Some(v) => v@,
            None => config.api.url@,
        },
{
    match env_value {
        Some(v) => v,
        None => config.api.url.clone(),
    }
}

/// Stores `api_key` as the credential; the URL is kept.
pub fn save_api_key(config: &mut Config, api_key: &str)
    ensures
        opt_view(final(config).auth.api_key) == Some(api_key@),
        final(config).api == old(config).api,
{
    config.auth.api_key = Some(String::from_str(api_key));
}

/// Removes the credential; the URL is kept.
pub fn clear_config(config: &mut Config)
    ensures
        final(config).auth.api_key is None,
        final(config).api == old(config).api,
{
    config.auth.api_key = None;
}

/// Whether a credential is stored.
pub fn is_authenticated(config: &Config) -> (r: bool)
    ensures
        r == config.auth.api_key is Some,
{
    config.auth.api_key.is_some()
}

/// Signs out: removes the credential where one is stored. Returns whether
/// there was one (and so whether the configuration must be written back).
pub fn logout(config: &mut Config) -> (r: bool)
    ensures
        r == old(config).auth.api_key is Some,
        final(config).auth.api_key is None,
        final(config).api == old(config).api,
{
    if !is_authenticated(config) {
        return false;
    }
    clear_config(config);
    true
}

} // verus!
