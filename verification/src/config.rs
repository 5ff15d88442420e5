//! Application configuration.
//!
//! Plain settings with their defaults; reading a configuration file or the
//! environment is the surrounding program's concern.

use vstd::prelude::*;

verus! {

use crate::text::str_eq;

pub struct ServerConfig {
    pub host: String,
    pub port: u16,
}

pub struct LoggingConfig {
    pub level: String,
}

pub struct EnvironmentConfig {
    pub environment: String,
    pub log_level: String,
}

pub struct DatabaseConfig {
    pub url: String,
}

/// Application configuration.
pub struct AppConfig {
    pub server: ServerConfig,
    pub logging: LoggingConfig,
    pub environment: EnvironmentConfig,
    pub database: DatabaseConfig,
}

impl Default for AppConfig {
    /// The built-in defaults: development mode, info logging, port 3000, a
    /// local SQLite file.
    fn default() -> (config: Self)
        ensures
            config.server.host@ == "0.0.0.0"@,
            config.server.port == 3000,
            config.logging.level@ == "info"@,
            config.environment.environment@ == "development"@,
            config.environment.log_level@ == "info"@,
            config.database.url@ == "sqlite://data.db?mode=rwc"@,
    {
        AppConfig {
            server: ServerConfig { host: "0.0.0.0".to_owned(), port: 3000 },
            logging: LoggingConfig { level: "info".to_owned() },
            environment: EnvironmentConfig {
                environment: "development".to_owned(),
                log_level: "info".to_owned(),
            },
            database: DatabaseConfig { url: "sqlite://data.db?mode=rwc".to_owned() },
        }
    }
}

impl AppConfig {
    /// Whether the configured environment is `development`.
    pub fn is_development(&self) -> (dev: bool)
        ensures
            dev == (self.environment.environment@ == "development"@),
    {
        str_eq(self.environment.environment.as_str(), "development")
    }

    /// Whether the configured environment is `production`.
    pub fn is_production(&self) -> (prod: bool)
        ensures
            prod == (self.environment.environment@ == "production"@),
    {
        str_eq(self.environment.environment.as_str(), "production")
    }
}

} // verus!
