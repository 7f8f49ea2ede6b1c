use vstd::prelude::*;

use crate::text::str_eq;

verus! {

/// OAuth client credentials for each provider, and the service's public base URL, which
/// the redirect address registered with each provider is built from.
pub struct OAuthConfig {
    pub google_client_id: String,
    pub google_client_secret: String,
    pub facebook_client_id: String,
    pub facebook_client_secret: String,
    pub api_base_url: String,
}

/// The service's settings.
pub struct Config {
    pub database_url: String,
    pub oauth: OAuthConfig,
    /// Where the browser goes after signing in through a provider.
    pub frontend_url: String,
    /// Whether cookies get the `Secure` attribute (true for any HTTPS deployment).
    pub cookie_secure: bool,
    /// Base URL of the host serving card art; none until one is chosen.
    pub card_image_base_url: Option<String>,
}

/// The raw values of the service's environment variables (`None` when unset).
pub struct EnvValues {
    pub database_url: Option<String>,
    pub google_client_id: Option<String>,
    pub google_client_secret: Option<String>,
    pub facebook_client_id: Option<String>,
    pub facebook_client_secret: Option<String>,
    pub api_base_url: Option<String>,
    pub frontend_url: Option<String>,
    pub cookie_secure: Option<String>,
    pub card_image_base_url: Option<String>,
}

/// An environment value, or `default` when unset.
pub open spec fn value_or(v: Option<String>, default: Seq<char>) -> Seq<char> {
    match v {
        Some(s) => s@,
        None => default,
    }
}

/// Whether a `COOKIE_SECURE` value turns secure cookies on: exactly "true" or "1".
pub open spec fn spec_cookie_secure(v: Option<String>) -> bool {
    match v {
        Some(s) => s@ == "true"@ || s@ == "1"@,
        None => false,
    }
}

fn or_default(v: Option<String>, default: &str) -> (r: String)
    ensures
        r@ == value_or(v, default@),
{
    match v {
        Some(s) => s,
        None => String::from_str(default),
    }
}

impl Config {
    /// The settings from the environment's values: none without a database URL; unset
    /// credentials are empty, the base URLs default to the local development addresses, and
    /// secure cookies are off unless turned on.
    pub fn from_env_values(env: EnvValues) -> (r: Option<Config>)
        ensures
            env.database_url is None ==> r is None,
            env.database_url matches Some(d) ==> (r matches Some(c) && {
                &&& c.database_url@ == d@
                &&& c.oauth.google_client_id@ == value_or(env.google_client_id, ""@)
                &&& c.oauth.google_client_secret@ == value_or(env.google_client_secret, ""@)
                &&& c.oauth.facebook_client_id@ == value_or(env.facebook_client_id, ""@)
                &&& c.oauth.facebook_client_secret@ == value_or(env.facebook_client_secret, ""@)
                &&& c.oauth.api_base_url@ == value_or(env.api_base_url, "http://localhost:8080"@)
                &&& c.frontend_url@ == value_or(env.frontend_url, "http://localhost:3000"@)
                &&& c.cookie_secure == spec_cookie_secure(env.cookie_secure)
                &&& c.card_image_base_url == env.card_image_base_url
            }),
    {
        let database_url = match env.database_url {
            Some(d) => d,
            None => {
                return None;
            },
        };
        let cookie_secure = match &env.cookie_secure {
            Some(v) => str_eq(v.as_str(), "true") || str_eq(v.as_str(), "1"),
            None => false,
        };
        Some(Config {
            database_url,
            oauth: OAuthConfig {
                google_client_id: or_default(env.google_client_id, ""),
                google_client_secret: or_default(env.google_client_secret, ""),
                facebook_client_id: or_default(env.facebook_client_id, ""),
                facebook_client_secret: or_default(env.facebook_client_secret, ""),
                api_base_url: or_default(env.api_base_url, "http://localhost:8080"),
            },
            frontend_url: or_default(env.frontend_url, "http://localhost:3000"),
            cookie_secure,
            card_image_base_url: env.card_image_base_url,
        })
    }
}

} // verus!
