//! The gateway client's records: what a service sends when it registers
//! with its gateway and when it reports its health, and the envelope the
//! gateway answers with. The HTTP calls themselves are the application's
//! work; building the payloads from the configuration is verified here.
use vstd::prelude::*;

use crate::config::AppConfig;

verus! {

/// The envelope every gateway answer comes in.
#[derive(Debug, Clone)]
pub struct ApiResult<T> {
    /// The status code; 200 and 0 mean success.
    pub status: i32,
    /// The human-readable message.
    pub message: String,
    /// The payload, when the answer carries one.
    pub data: Option<T>,
    /// When the answer was made.
    pub timestamp: Option<u64>,
}

/// What a service sends to register with its gateway.
#[derive(Debug, Clone)]
pub struct GatewayRegisterInfo {
    /// The application's identifier.
    pub app_id: Option<String>,
    /// The secret that goes with it.
    pub app_secret: Option<String>,
    /// The server address; left for the gateway to read from the
    /// connection.
    pub server: Option<String>,
    /// The service's listening port.
    pub port: Option<i64>,
    /// Whether the gateway rewrites URLs when proxying by prefix.
    pub rewrite_url: Option<bool>,
    /// The protocol the service speaks.
    pub protocol: Option<String>,
    /// The path the gateway probes for health.
    pub heath_check: Option<String>,
    /// The text the health probe answers with.
    pub echo_text: Option<String>,
    /// The prefix under which the service is proxied.
    pub proxy_prefix: Option<String>,
}

impl Default for GatewayRegisterInfo {
    /// Every field absent.
    fn default() -> (r: Self)
        ensures
            r.app_id is None,
            r.app_secret is None,
            r.server is None,
            r.port is None,
            r.rewrite_url is None,
            r.protocol is None,
            r.heath_check is None,
            r.echo_text is None,
            r.proxy_prefix is None,
    {
        GatewayRegisterInfo {
            app_id: None,
            app_secret: None,
            server: None,
            port: None,
            rewrite_url: None,
            protocol: None,
            heath_check: None,
            echo_text: None,
            proxy_prefix: None,
        }
    }
}

/// What a service sends when it reports its health.
#[derive(Debug, Clone)]
pub struct HealthCheckInfo {
    /// The application's identifier.
    pub app_id: Option<String>,
    /// The secret that goes with it.
    pub app_secret: Option<String>,
}

impl Default for HealthCheckInfo {
    /// Every field absent.
    fn default() -> (r: Self)
        ensures
            r.app_id is None,
            r.app_secret is None,
    {
        HealthCheckInfo { app_id: None, app_secret: None }
    }
}

/// Copies an optional string.
fn clone_opt(s: &Option<String>) -> (r: Option<String>)
    ensures
        r == *s,
{
    match s {
        Some(v) => Some(v.clone()),
        None => None,
    }
}

/// The registration payload for the configured application: its identity
/// and port from the configuration, plain HTTP, the fixed health-check
/// path and echo text, no proxy prefix and no URL rewriting.
pub fn build_register_info(conf: &AppConfig) -> (r: GatewayRegisterInfo)
    ensures
        r.app_id == conf.app_id,
        r.app_secret == conf.app_secret,
        r.server is None,
        r.port == Some(conf.webserver_conf.port),
        r.rewrite_url == Some(false),
        r.protocol matches Some(p) && p@ == "http"@,
        r.heath_check matches Some(h) && h@ == "/api/v1/healthcheck"@,
        r.echo_text matches Some(e) && e@ == "Iamliving"@,
        r.proxy_prefix is None,
{
    GatewayRegisterInfo {
        app_id: clone_opt(&conf.app_id),
        app_secret: clone_opt(&conf.app_secret),
        server: None,
        port: Some(conf.webserver_conf.port),
        rewrite_url: Some(false),
        protocol: Some("http".to_owned()),
        heath_check: Some("/api/v1/healthcheck".to_owned()),
        echo_text: Some("Iamliving".to_owned()),
        proxy_prefix: None,
    }
}

/// The health-report payload for the configured application: its identity
/// from the configuration.
pub fn build_health_info(conf: &AppConfig) -> (r: HealthCheckInfo)
    ensures
        r.app_id == conf.app_id,
        r.app_secret == conf.app_secret,
{
    HealthCheckInfo { app_id: clone_opt(&conf.app_id), app_secret: clone_opt(&conf.app_secret) }
}

} // verus!
