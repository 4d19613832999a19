use chimes_utils::config::AppConfig;
use chimes_utils::gpt_sdk::build_health_info;
use chimes_utils::gpt_sdk::build_register_info;
use chimes_utils::gpt_sdk::ApiResult;
use chimes_utils::gpt_sdk::GatewayRegisterInfo;
use chimes_utils::gpt_sdk::HealthCheckInfo;
use chimes_utils::wechat::token_is_fresh;
use chimes_utils::wechat::PlatformType;
use chimes_utils::wechat::TokioAccessToken;
use chimes_utils::wechat::TokioToken;
use chimes_utils::wechat::TokioTokenCache;
use chimes_utils::wechat::WechatConfig;

#[test]
fn token_requests_keep_their_identity() {
    let t = TokioAccessToken::new("client_credential", "app1", "secret1");
    assert_eq!(t.app_type, "client_credential");
    assert_eq!(t.app_id, "app1");
    assert_eq!(t.secret, "secret1");
}

#[test]
fn tokens_stay_fresh_until_a_thousand_units_remain() {
    let t = TokioToken { access_token: "tok".to_owned(), create_time: 1000, expires: 7200 };
    assert!(token_is_fresh(&t, 7199));
    assert!(!token_is_fresh(&t, 7200));
    let never = TokioToken::default();
    assert!(!token_is_fresh(&never, 0));
}

#[test]
fn the_cache_answers_only_fresh_tokens() {
    let mut cache = TokioTokenCache::new();
    assert!(cache.get_cached("app1", 0).is_none());
    let t = TokioToken { access_token: "tok".to_owned(), create_time: 1000, expires: 7200 };
    cache.set("app1", t.duplicate());
    let got = cache.get_cached("app1", 2000).expect("fresh token");
    assert_eq!(got.access_token, "tok");
    assert_eq!(got.create_time, 1000);
    // a stale token reads as nothing, so the caller asks the vendor anew
    assert!(cache.get_cached("app1", 7200).is_none());
    // the latest grant wins
    let newer = TokioToken { access_token: "tok2".to_owned(), create_time: 8000, expires: 7200 };
    cache.set("app1", newer);
    assert_eq!(cache.get_cached("app1", 9000).unwrap().access_token, "tok2");
    TokioAccessToken::clear(&mut cache);
    assert!(cache.get_cached("app1", 9000).is_none());
}

#[test]
fn wechat_config_defaults_to_mini_program() {
    let c = WechatConfig::default();
    assert_eq!(c.app_id, "");
    assert_eq!(c.offical_appid, "");
    assert_eq!(c.secret, "");
    assert!(matches!(c.platform, PlatformType::MiniProgram));
    assert_eq!(c.refund_notify_url, "");
}

#[test]
fn registration_is_built_from_the_configuration() {
    let mut conf = AppConfig::default();
    conf.app_id = Some("svc".to_owned());
    conf.app_secret = Some("sct".to_owned());
    conf.webserver_conf.port = 10089;
    let r = build_register_info(&conf);
    assert_eq!(r.app_id.as_deref(), Some("svc"));
    assert_eq!(r.app_secret.as_deref(), Some("sct"));
    assert_eq!(r.server, None);
    assert_eq!(r.port, Some(10089));
    assert_eq!(r.rewrite_url, Some(false));
    assert_eq!(r.protocol.as_deref(), Some("http"));
    assert_eq!(r.heath_check.as_deref(), Some("/api/v1/healthcheck"));
    assert_eq!(r.echo_text.as_deref(), Some("Iamliving"));
    assert_eq!(r.proxy_prefix, None);
}

#[test]
fn health_report_is_built_from_the_configuration() {
    let mut conf = AppConfig::default();
    conf.app_id = Some("svc".to_owned());
    let h = build_health_info(&conf);
    assert_eq!(h.app_id.as_deref(), Some("svc"));
    assert_eq!(h.app_secret, None);
    let empty = HealthCheckInfo::default();
    assert!(empty.app_id.is_none());
}

#[test]
fn gateway_records_default_to_absent_fields() {
    let g = GatewayRegisterInfo::default();
    assert!(g.app_id.is_none());
    assert!(g.port.is_none());
    assert!(g.protocol.is_none());
    let a: ApiResult<u32> = ApiResult {
        status: 200,
        message: "ok".to_owned(),
        data: Some(5),
        timestamp: None,
    };
    assert_eq!(a.status, 200);
    assert_eq!(a.data, Some(5));
}
