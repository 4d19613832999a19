//! The application's configuration records: database, web server, redis
//! and gateway settings, read once at startup. Loading them from a file is
//! the application's work; here they are plain data with exact defaults.
use vstd::prelude::*;

verus! {

/// A logging threshold, as plain data.
#[derive(Clone, Copy, PartialEq, Eq, Structural, Debug)]
pub enum LogLevel {
    /// Nothing is logged.
    Off,
    /// Errors only.
    Error,
    /// Warnings and errors.
    Warn,
    /// The default level.
    Info,
    /// Debugging detail.
    Debug,
    /// Everything.
    Trace,
}

/// How a redis deployment is laid out.
#[derive(Clone, Copy, PartialEq, Eq, Structural, PartialOrd, Ord, Hash, Debug)]
pub enum InstanceType {
    /// One server.
    Single,
    /// A cluster.
    Cluster,
}

/// Database connection settings.
#[derive(Debug, Clone)]
pub struct DatabaseConfig {
    /// The connection URL.
    pub url: String,
    /// The threshold for statement logging.
    pub logger_level: LogLevel,
}

impl Default for DatabaseConfig {
    /// An empty URL at the default logging level.
    fn default() -> (r: Self)
        ensures
            r.url@.len() == 0,
            r.logger_level == LogLevel::Info,
    {
        DatabaseConfig { url: String::new(), logger_level: LogLevel::Info }
    }
}

/// Web server settings.
#[derive(Debug, Clone)]
pub struct WebServerConfig {
    /// The listening port.
    pub port: i64,
    /// Path of the TLS key.
    pub rsa_key: String,
    /// Path of the TLS certificate.
    pub rsa_cert: String,
    /// The private key that protects stored passwords.
    pub rsa_password_private_key: String,
    /// The public key that protects stored passwords.
    pub rsa_password_public_key: String,
    /// Where uploads are stored.
    pub upload_store_path: String,
    /// Where static resources live.
    pub resources_path: String,
    /// Where uploads are staged.
    pub upload_temp_path: String,
    /// The prefix under which stored files are served.
    pub access_url_prefix: String,
}

impl Default for WebServerConfig {
    /// Port zero and every path empty.
    fn default() -> (r: Self)
        ensures
            r.port == 0,
            r.rsa_key@.len() == 0,
            r.rsa_cert@.len() == 0,
            r.rsa_password_private_key@.len() == 0,
            r.rsa_password_public_key@.len() == 0,
            r.upload_store_path@.len() == 0,
            r.resources_path@.len() == 0,
            r.upload_temp_path@.len() == 0,
            r.access_url_prefix@.len() == 0,
    {
        WebServerConfig {
            port: 0,
            rsa_key: String::new(),
            rsa_cert: String::new(),
            rsa_password_private_key: String::new(),
            rsa_password_public_key: String::new(),
            upload_store_path: String::new(),
            resources_path: String::new(),
            upload_temp_path: String::new(),
            access_url_prefix: String::new(),
        }
    }
}

/// Bounds of the redis connection pool.
#[derive(Debug, Clone)]
pub struct RedisPoolConfig {
    /// How long a connection attempt may take.
    pub connection_timeout: u64,
    /// The pool's largest size.
    pub max_size: u32,
    /// How many idle connections are kept.
    pub mini_idel: u32,
}

impl Default for RedisPoolConfig {
    /// Every bound zero.
    fn default() -> (r: Self)
        ensures
            r.connection_timeout == 0,
            r.max_size == 0,
            r.mini_idel == 0,
    {
        RedisPoolConfig { connection_timeout: 0, max_size: 0, mini_idel: 0 }
    }
}

/// Redis connection settings.
#[derive(Debug, Clone)]
pub struct RedisConfig {
    /// The server URLs.
    pub urls: Vec<String>,
    /// Which database to select.
    pub database: i64,
    /// The account name, if the server asks for one.
    pub username: Option<String>,
    /// The password, if the server asks for one.
    pub password: Option<String>,
    /// How the deployment is laid out.
    pub instance_type: Option<InstanceType>,
    /// The pool bounds.
    pub pool: RedisPoolConfig,
}

impl RedisConfig {
    /// The layout assumed when none is configured.
    pub fn instance_type_default() -> (r: InstanceType)
        ensures
            r == InstanceType::Single,
    {
        InstanceType::Single
    }
}

impl Default for RedisConfig {
    /// No servers, database zero, no credentials, no layout.
    fn default() -> (r: Self)
        ensures
            r.urls@.len() == 0,
            r.database == 0,
            r.username is None,
            r.password is None,
            r.instance_type is None,
            r.pool.connection_timeout == 0,
            r.pool.max_size == 0,
            r.pool.mini_idel == 0,
    {
        RedisConfig {
            urls: Vec::new(),
            database: 0,
            username: None,
            password: None,
            instance_type: None,
            pool: RedisPoolConfig { connection_timeout: 0, max_size: 0, mini_idel: 0 },
        }
    }
}

/// Settings of the face database service.
#[derive(Debug, Clone)]
pub struct FaceDbConfig {
    /// The service URL.
    pub url: String,
}

impl Default for FaceDbConfig {
    /// An empty URL.
    fn default() -> (r: Self)
        ensures
            r.url@.len() == 0,
    {
        FaceDbConfig { url: String::new() }
    }
}

/// The application's configuration, read once at startup.
#[derive(Debug, Clone)]
pub struct AppConfig {
    /// Database settings.
    pub db_conf: DatabaseConfig,
    /// Web server settings.
    pub webserver_conf: WebServerConfig,
    /// Mail transport settings.
    pub email_conf: crate::mail::EmailServerConfig,
    /// Redis settings, when a cache is configured.
    pub redis_conf: Option<RedisConfig>,
    /// The gateway to register with, when one is configured.
    pub gateway_address: Option<String>,
    /// This application's identifier at the gateway.
    pub app_id: Option<String>,
    /// The secret that goes with `app_id`.
    pub app_secret: Option<String>,
    /// The application's own logging threshold.
    pub logger_level: LogLevel,
}

impl Default for AppConfig {
    /// Every section at its default, logging at the default level.
    fn default() -> (r: Self)
        ensures
            r.db_conf.url@.len() == 0,
            r.db_conf.logger_level == LogLevel::Info,
            r.webserver_conf.port == 0,
            r.email_conf.smtp_server@.len() == 0,
            r.email_conf.mine_email@.len() == 0,
            r.redis_conf is None,
            r.gateway_address is None,
            r.app_id is None,
            r.app_secret is None,
            r.logger_level == LogLevel::Info,
    {
        AppConfig {
            db_conf: DatabaseConfig { url: String::new(), logger_level: LogLevel::Info },
            webserver_conf: WebServerConfig {
                port: 0,
                rsa_key: String::new(),
                rsa_cert: String::new(),
                rsa_password_private_key: String::new(),
                rsa_password_public_key: String::new(),
                upload_store_path: String::new(),
                resources_path: String::new(),
                upload_temp_path: String::new(),
                access_url_prefix: String::new(),
            },
            email_conf: crate::mail::EmailServerConfig {
                smtp_server: String::new(),
                password: String::new(),
                port: String::new(),
                mine_email: String::new(),
                ssl: false,
            },
            redis_conf: None,
            gateway_address: None,
            app_id: None,
            app_secret: None,
            logger_level: LogLevel::Info,
        }
    }
}

} // verus!
