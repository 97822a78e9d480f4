//! Application configuration of the signaling server: the settings, their
//! defaults, and the errors of loading them.
use vstd::prelude::*;

verus! {

/// Configuration errors that can occur when loading the settings.
#[derive(Debug)]
pub enum ConfigError {
    /// A required variable is not set.
    MissingVar(&'static str),
    /// A variable holds a value that is not accepted.
    InvalidValue { name: &'static str, reason: String },
}

/// The message of a configuration error.
pub open spec fn config_error_message(e: ConfigError) -> Seq<char> {
    match e {
        ConfigError::MissingVar(n) => "required environment variable `"@ + n@ + "` is not set"@,
        ConfigError::InvalidValue { name, reason } => "environment variable `"@ + name@
            + "` has invalid value: "@ + reason@,
    }
}

impl ConfigError {
    /// The human-readable message of this error.
    pub fn to_display_string(&self) -> (s: String)
        ensures
            s@ == config_error_message(*self),
    {
        match self {
            ConfigError::MissingVar(n) => {
                let mut s = String::from_str("required environment variable `");
                s.append(n);
                s.append("` is not set");
                s
            },
            ConfigError::InvalidValue { name, reason } => {
                let mut s = String::from_str("environment variable `");
                s.append(name);
                s.append("` has invalid value: ");
                s.append(reason.as_str());
                s
            },
        }
    }
}

/// Static configuration for a single relay node.
#[derive(Debug, Clone)]
pub struct RelayNodeConfig {
    /// Public address (hostname or IP) of the relay server.
    pub addr: String,
    /// UDP/TCP port the relay server listens on.
    pub port: u16,
    /// Geographic region identifier (e.g. `"ap-east-1"`).
    pub region: String,
    /// Maximum number of concurrent relay sessions this node supports.
    pub max_sessions: u32,
}

/// Application configuration.
///
/// | Variable            | Default                  | Description                      |
/// |---------------------|--------------------------|----------------------------------|
/// | `RDCS_BIND_ADDR`    | `0.0.0.0:8443`           | HTTP server listen address       |
/// | `RDCS_REDIS_URL`    | `redis://127.0.0.1:6379` | Redis connection URL             |
/// | `RDCS_HMAC_SECRET`  | *(required)*             | HMAC secret for relay tokens     |
/// | `RDCS_RELAY_NODES`  | `[]`                     | JSON array of relay node configs |
/// | `RDCS_LOG_LEVEL`    | `info`                   | tracing filter directive         |
#[derive(Debug, Clone)]
pub struct AppConfig {
    /// Address the HTTP server binds to (e.g. `0.0.0.0:8443`).
    pub bind_addr: String,
    /// Redis connection URL.
    pub redis_url: String,
    /// HMAC secret used to sign relay session tokens.
    pub relay_hmac_secret: String,
    /// Static list of relay nodes available for allocation.
    pub relay_nodes: Vec<RelayNodeConfig>,
    /// tracing log-level filter directive.
    pub log_level: String,
}

/// The value of an optional setting, or its default.
pub open spec fn setting_or(v: Option<String>, default: Seq<char>) -> Seq<char> {
    match v {
        Some(s) => s@,
        None => default,
    }
}

/// The value of an optional setting, or its default.
fn value_or(v: Option<String>, default: &str) -> (s: String)
    ensures
        s@ == setting_or(v, default@),
{
    match v {
        Some(s) => s,
        None => String::from_str(default),
    }
}

impl AppConfig {
    /// Build the configuration from the values of the variables (`None`
    /// where a variable is not set) and the relay nodes that
    /// `RDCS_RELAY_NODES` lists (none where it is unset or not valid JSON).
    /// The HMAC secret is required and must not be empty; the other values
    /// fall back to defaults suitable for local development.
    pub fn from_settings(
        bind_addr: Option<String>,
        redis_url: Option<String>,
        log_level: Option<String>,
        hmac_secret: Option<String>,
        relay_nodes: Vec<RelayNodeConfig>,
    ) -> (r: Result<AppConfig, ConfigError>)
        ensures
            match hmac_secret {
                None => r matches Err(ConfigError::MissingVar(n)) && n@ == "RDCS_HMAC_SECRET"@,
                Some(s) => if s@.len() == 0 {
                    r matches Err(ConfigError::InvalidValue { name, reason }) && name@ == "RDCS_HMAC_SECRET"@
                        && reason@ == "must not be empty"@
                } else {
                    r matches Ok(c) && {
                        &&& c.bind_addr@ == setting_or(bind_addr, "0.0.0.0:8443"@)
                        &&& c.redis_url@ == setting_or(redis_url, "redis://127.0.0.1:6379"@)
                        &&& c.log_level@ == setting_or(log_level, "info"@)
                        &&& c.relay_hmac_secret@ == s@
                        &&& c.relay_nodes@ == relay_nodes@
                    }
                },
            },
    {
        let bind_addr = value_or(bind_addr, "0.0.0.0:8443");
        let redis_url = value_or(redis_url, "redis://127.0.0.1:6379");
        let log_level = value_or(log_level, "info");
        let relay_hmac_secret = match hmac_secret {
            Some(s) => s,
            None => {
                return Err(ConfigError::MissingVar("RDCS_HMAC_SECRET"));
            },
        };
        if relay_hmac_secret.as_str().unicode_len() == 0 {
            return Err(
                ConfigError::InvalidValue {
                    name: "RDCS_HMAC_SECRET",
                    reason: String::from_str("must not be empty"),
                },
            );
        }
        Ok(AppConfig { bind_addr, redis_url, relay_hmac_secret, relay_nodes, log_level })
    }
}

} // verus!
