//! Service configuration and its validation.
use vstd::prelude::*;
use crate::adapters::mcp::McpServerConfig;
use crate::adapters::providers::ProviderKind;
use crate::text::{cat, starts_with, str_starts_with};

verus! {

/// Service configuration, read from the environment by the runtime.
#[derive(Clone, Debug)]
pub struct Config {
    pub database_url: String,
    pub redis_url: String,
    pub grpc_addr: String,
    pub llm_provider: ProviderKind,
    pub skills_dir: String,
    pub metrics_addr: String,
    pub mcp_servers: Vec<McpServerConfig>,
}

/// Default gRPC listen address.
pub const DEFAULT_GRPC_ADDR: &'static str = "0.0.0.0:50060";
/// Default provider name.
pub const DEFAULT_LLM_PROVIDER: &'static str = "anthropic";
/// Default skills directory.
pub const DEFAULT_SKILLS_DIR: &'static str = "data/skills";
/// Default metrics listen address.
pub const DEFAULT_METRICS_ADDR: &'static str = "0.0.0.0:9090";

/// Why a configuration was refused.
#[derive(Clone, Debug, PartialEq, Eq)]
pub enum ConfigError {
    /// The database URL is not a PostgreSQL URL.
    DatabaseUrl,
    /// The Redis URL is not a Redis URL.
    RedisUrl,
}

impl ConfigError {
    /// The message shown to the operator.
    pub fn message(&self) -> (r: &'static str)
        ensures
            *self == ConfigError::DatabaseUrl ==> r@ == "DATABASE_URL must start with postgres://"@,
            *self == ConfigError::RedisUrl ==> r@ == "REDIS_URL must start with redis://"@,
    {
        proof {
            reveal_strlit("DATABASE_URL must start with postgres://");
            reveal_strlit("REDIS_URL must start with redis://");
        }
        match self {
            ConfigError::DatabaseUrl => "DATABASE_URL must start with postgres://",
            ConfigError::RedisUrl => "REDIS_URL must start with redis://",
        }
    }
}

/// A PostgreSQL URL.
pub open spec fn is_postgres_url(u: Seq<char>) -> bool {
    starts_with(u, "postgres://"@) || starts_with(u, "postgresql://"@)
}

/// A Redis URL (plain or TLS).
pub open spec fn is_redis_url(u: Seq<char>) -> bool {
    starts_with(u, "redis://"@) || starts_with(u, "rediss://"@)
}

impl Config {
    /// Check the URLs: the database first, then Redis.
    pub fn validate(&self) -> (r: Result<(), ConfigError>)
        ensures
            !is_postgres_url(self.database_url@) ==> r == Err::<(), ConfigError>(ConfigError::DatabaseUrl),
            is_postgres_url(self.database_url@) && !is_redis_url(self.redis_url@)
                ==> r == Err::<(), ConfigError>(ConfigError::RedisUrl),
            is_postgres_url(self.database_url@) && is_redis_url(self.redis_url@) ==> r is Ok,
    {
        if !(str_starts_with(self.database_url.as_str(), "postgres://")
            || str_starts_with(self.database_url.as_str(), "postgresql://")) {
            return Err(ConfigError::DatabaseUrl);
        }
        if !(str_starts_with(self.redis_url.as_str(), "redis://") || str_starts_with(self.redis_url.as_str(), "rediss://")) {
            return Err(ConfigError::RedisUrl);
        }
        Ok(())
    }
}

/// The error of a missing required variable: `{name} is required`.
pub fn required_message(name: &str) -> (r: String)
    ensures
        r@ == name@ + " is required"@,
{
    cat(name, " is required")
}

/// The error of an unparsable JSON variable: `{name} must be valid JSON`.
pub fn invalid_json_message(name: &str) -> (r: String)
    ensures
        r@ == name@ + " must be valid JSON"@,
{
    cat(name, " must be valid JSON")
}

}
