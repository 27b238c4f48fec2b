//! Settings of the application and the shapes of a rephrasing request and its
//! answer.

use crate::text::str_eq;
use vstd::prelude::*;

verus! {

/// The environment the application runs in and the addresses it talks to.
#[derive(Debug, Clone)]
pub struct EnvironmentConfig {
    pub environment: String,
    pub api_base_url: String,
    pub oauth_base_url: String,
    pub dev_url: String,
}

/// A request to rephrase a text.
#[derive(Debug)]
pub struct RephraseRequest {
    pub text: String,
    pub style: String,
    pub context: String,
    pub target_audience: String,
    pub preserve_length: bool,
}

/// The answer to a rephrasing request.
#[derive(Debug)]
pub struct RephraseResponse {
    pub processing_time_ms: Option<u64>,
    pub rephrased_text: String,
}

/// The names of the three settings that hold the addresses of one environment.
pub struct AddressKeys {
    pub api_base_url: &'static str,
    pub oauth_base_url: &'static str,
    pub base_url: &'static str,
}

/// The name of the environment where none is configured.
pub open spec fn default_environment() -> Seq<char> {
    "development"@
}

/// The name of the production environment.
pub open spec fn production() -> Seq<char> {
    "production"@
}

/// The address of the API where none is configured.
pub open spec fn default_api_base_url() -> Seq<char> {
    "https://clipify0.el.r.appspot.com"@
}

/// The address of the sign-in service where none is configured.
pub open spec fn default_oauth_base_url() -> Seq<char> {
    "https://clipify0.el.r.appspot.com/api/v1/auth/google/login"@
}

/// The address of the application itself where none is configured: the hosted
/// one in production, the local one elsewhere.
pub open spec fn default_base_url(environment: Seq<char>) -> Seq<char> {
    if environment == production() {
        "https://clipify0.el.r.appspot.com/"@
    } else {
        "http://localhost:1420"@
    }
}

/// The configured value, or the default where none is configured.
pub open spec fn value_or(configured: Option<String>, default: Seq<char>) -> Seq<char> {
    match configured {
        Some(v) => v@,
        None => default,
    }
}

/// The configured value, or the default where none is configured.
fn configured_or(configured: Option<String>, default: &str) -> (value: String)
    ensures
        value@ == value_or(configured, default@),
{
    match configured {
        Some(v) => v,
        None => default.to_owned(),
    }
}

impl EnvironmentConfig {
    /// The name of the environment: the configured one, or `development`.
    pub fn environment_name(configured: Option<String>) -> (name: String)
        ensures
            name@ == value_or(configured, default_environment()),
    {
        configured_or(configured, "development")
    }

    /// The names of the settings that hold the addresses of an environment:
    /// those of production for `production`, those of development for any other.
    pub fn address_keys(environment: &str) -> (keys: AddressKeys)
        ensures
            environment@ == production() ==> keys.api_base_url@ == "VITE_PROD_API_BASE_URL"@
                && keys.oauth_base_url@ == "VITE_PROD_OAUTH_BASE_URL"@ && keys.base_url@
                == "VITE_PROD_BASE_URL"@,
            environment@ != production() ==> keys.api_base_url@ == "VITE_DEV_API_BASE_URL"@
                && keys.oauth_base_url@ == "VITE_DEV_OAUTH_BASE_URL"@ && keys.base_url@
                == "VITE_DEV_BASE_URL"@,
    {
        if str_eq(environment, "production") {
            AddressKeys {
                api_base_url: "VITE_PROD_API_BASE_URL",
                oauth_base_url: "VITE_PROD_OAUTH_BASE_URL",
                base_url: "VITE_PROD_BASE_URL",
            }
        } else {
            AddressKeys {
                api_base_url: "VITE_DEV_API_BASE_URL",
                oauth_base_url: "VITE_DEV_OAUTH_BASE_URL",
                base_url: "VITE_DEV_BASE_URL",
            }
        }
    }

    /// The configuration of an environment from the addresses configured for it;
    /// an address that is not configured takes its default.
    pub fn from_values(
        environment: String,
        api_base_url: Option<String>,
        oauth_base_url: Option<String>,
        base_url: Option<String>,
    ) -> (config: Self)
        ensures
            config.environment@ == environment@,
            config.api_base_url@ == value_or(api_base_url, default_api_base_url()),
            config.oauth_base_url@ == value_or(oauth_base_url, default_oauth_base_url()),
            config.dev_url@ == value_or(base_url, default_base_url(environment@)),
    {
        let api_base_url = configured_or(api_base_url, "https://clipify0.el.r.appspot.com");
        let oauth_base_url = configured_or(
            oauth_base_url,
            "https://clipify0.el.r.appspot.com/api/v1/auth/google/login",
        );
        let dev_url = if str_eq(environment.as_str(), "production") {
            configured_or(base_url, "https://clipify0.el.r.appspot.com/")
        } else {
            configured_or(base_url, "http://localhost:1420")
        };
        EnvironmentConfig { environment, api_base_url, oauth_base_url, dev_url }
    }
}

} // verus!
