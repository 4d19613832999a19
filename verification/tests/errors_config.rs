use chimes_utils::common_search::CommonSearch;
use chimes_utils::common_search::SearchField;
use chimes_utils::config::AppConfig;
use chimes_utils::config::DatabaseConfig;
use chimes_utils::config::FaceDbConfig;
use chimes_utils::config::InstanceType;
use chimes_utils::config::LogLevel;
use chimes_utils::config::RedisConfig;
use chimes_utils::config::RedisPoolConfig;
use chimes_utils::config::WebServerConfig;
use chimes_utils::errors::ChimesError;
use chimes_utils::errors::ErrorKind;
use chimes_utils::ChimesResult;

#[test]
fn message_errors_carry_their_text() {
    let e = ChimesError::msg("plain");
    match e.kind {
        ErrorKind::Msg(m) => assert_eq!(m, "plain"),
        _ => panic!("wrong kind"),
    }
    assert!(e.source.is_none());
}

#[test]
fn chained_errors_keep_their_cause() {
    let e = ChimesError::chain("outer", "inner cause");
    match e.kind {
        ErrorKind::Msg(m) => assert_eq!(m, "outer"),
        _ => panic!("wrong kind"),
    }
    assert_eq!(e.source.as_deref(), Some("inner cause"));
}

#[test]
fn custom_errors_carry_code_and_message() {
    let e = ChimesError::custom(10040, "not defined");
    match e.kind {
        ErrorKind::Custom { code, msg } => {
            assert_eq!(code, 10040);
            assert_eq!(msg, "not defined");
        }
        _ => panic!("wrong kind"),
    }
    assert!(e.source.is_none());
    let f = ChimesError::custom_error(-3, "decode", "bad json");
    match f.kind {
        ErrorKind::Custom { code, msg } => {
            assert_eq!(code, -3);
            assert_eq!(msg, "decode");
        }
        _ => panic!("wrong kind"),
    }
    assert_eq!(f.source.as_deref(), Some("bad json"));
}

#[test]
fn results_carry_errors() {
    fn failing() -> ChimesResult<u32> {
        Err(ChimesError::msg("no"))
    }
    assert!(failing().is_err());
}

#[test]
fn config_defaults_are_empty() {
    let c = AppConfig::default();
    assert_eq!(c.db_conf.url, "");
    assert_eq!(c.db_conf.logger_level, LogLevel::Info);
    assert_eq!(c.webserver_conf.port, 0);
    assert!(c.redis_conf.is_none());
    assert!(c.gateway_address.is_none());
    assert!(c.app_id.is_none());
    assert!(c.app_secret.is_none());
    assert_eq!(c.logger_level, LogLevel::Info);
    assert_eq!(c.email_conf.smtp_server, "");

    let d = DatabaseConfig::default();
    assert_eq!(d.url, "");
    let w = WebServerConfig::default();
    assert_eq!(w.rsa_key, "");
    assert_eq!(w.access_url_prefix, "");
    let f = FaceDbConfig::default();
    assert_eq!(f.url, "");
}

#[test]
fn redis_defaults_are_empty() {
    let r = RedisConfig::default();
    assert!(r.urls.is_empty());
    assert_eq!(r.database, 0);
    assert!(r.username.is_none());
    assert!(r.password.is_none());
    assert!(r.instance_type.is_none());
    assert_eq!(r.pool.max_size, 0);
    let p = RedisPoolConfig::default();
    assert_eq!(p.connection_timeout, 0);
    assert_eq!(p.mini_idel, 0);
    assert_eq!(RedisConfig::instance_type_default(), InstanceType::Single);
    assert!(InstanceType::Single < InstanceType::Cluster);
}

#[test]
fn search_defaults_are_empty() {
    let f = SearchField::default();
    assert!(f.field.is_none());
    assert!(f.operator.is_none());
    assert!(f.render.is_none());
    assert!(f.field_type.is_none());
    assert!(f.val.is_none());
    let s = CommonSearch::default();
    assert!(s.limit.is_none());
    assert!(s.page.is_none());
    assert!(s.order.is_none());
    assert!(s.search.is_empty());
}
