use moesif_exproc::config::{
    connection_timeout, default_base_uri, default_batch_max_size, default_batch_max_wait,
    default_debug, default_upstream, AppConfigResponse, EnvConfig, EnvVars,
};

fn no_vars() -> EnvVars {
    EnvVars {
        moesif_application_id: None,
        user_id_header: None,
        company_id_header: None,
        batch_max_size: None,
        batch_max_wait: None,
        upstream: None,
        debug: None,
        connection_timeout: None,
    }
}

#[test]
fn documented_defaults() {
    assert_eq!(default_batch_max_size(), 100);
    assert_eq!(default_batch_max_wait(), 2000);
    assert_eq!(default_upstream(), "moesif_api");
    assert_eq!(default_base_uri(), "api.moesif.net");
    assert!(!default_debug());
    assert_eq!(connection_timeout(), 5000);
}

#[test]
fn env_config_with_nothing_set_uses_defaults() {
    let c = EnvConfig::new(no_vars());
    assert_eq!(c.moesif_application_id, "");
    assert!(c.user_id_header.is_none());
    assert!(c.company_id_header.is_none());
    assert_eq!(c.batch_max_size, 100);
    assert_eq!(c.batch_max_wait, 2000);
    assert_eq!(c.upstream, "moesif_api");
    assert_eq!(c.base_uri, "api.moesif.net");
    assert!(!c.debug);
    assert_eq!(c.connection_timeout, 5000);
}

#[test]
fn env_config_reads_every_variable() {
    let vars = EnvVars {
        moesif_application_id: Some("app-1".to_string()),
        user_id_header: Some("X-User".to_string()),
        company_id_header: Some("X-Company".to_string()),
        batch_max_size: Some("20".to_string()),
        batch_max_wait: Some("oops".to_string()),
        upstream: Some("outbound|443||api.moesif.net".to_string()),
        debug: Some("true".to_string()),
        connection_timeout: Some("750".to_string()),
    };
    let c = EnvConfig::new(vars);
    assert_eq!(c.moesif_application_id, "app-1");
    assert_eq!(c.user_id_header.as_deref(), Some("X-User"));
    assert_eq!(c.company_id_header.as_deref(), Some("X-Company"));
    assert_eq!(c.batch_max_size, 20);
    assert_eq!(c.batch_max_wait, 2000);
    assert_eq!(c.upstream, "outbound|443||api.moesif.net");
    assert_eq!(c.base_uri, "https://api.moesif.net");
    assert!(c.debug);
    assert_eq!(c.connection_timeout, 750);

    let mut v2 = no_vars();
    v2.debug = Some("TRUE".to_string());
    assert!(!EnvConfig::new(v2).debug);
}

#[test]
fn parse_upstream_url_needs_four_parts() {
    assert_eq!(EnvConfig::parse_upstream_url("outbound|80||example.org"), Ok("https://example.org".to_string()));
    assert_eq!(EnvConfig::parse_upstream_url("moesif_api"), Err(()));
    assert_eq!(EnvConfig::parse_upstream_url("a|b|c|d|e"), Err(()));
}

#[test]
fn empty_and_duplicate_settings() {
    let e = EnvConfig::empty();
    assert_eq!(e.batch_max_size, 0);
    assert_eq!(e.base_uri, "");
    let c = EnvConfig::new(no_vars());
    let d = c.duplicate();
    assert_eq!(d.upstream, c.upstream);
    assert_eq!(d.batch_max_wait, c.batch_max_wait);
}

#[test]
fn sampling_prefers_user_then_company_then_default() {
    let mut c = AppConfigResponse::new();
    assert_eq!(c.sample_rate, 100);
    assert_eq!(c.get_sampling_percentage(Some("u1"), Some("c1")), 100);
    c.user_sample_rate.insert("u1".to_string(), 10);
    c.company_sample_rate.insert("c1".to_string(), 50);
    assert_eq!(c.get_sampling_percentage(Some("u1"), Some("c1")), 10);
    assert_eq!(c.get_sampling_percentage(Some("u2"), Some("c1")), 50);
    assert_eq!(c.get_sampling_percentage(None, Some("c1")), 50);
    assert_eq!(c.get_sampling_percentage(Some("u2"), Some("c2")), 100);
    assert_eq!(c.get_sampling_percentage(None, None), 100);
}

#[test]
fn config_entity_tag_comes_from_the_reply_headers() {
    let mut c = AppConfigResponse::new();
    c.set_e_tag_from(&vec![("x-moesif-config-etag".to_string(), "e1".to_string())]);
    assert_eq!(c.e_tag.as_deref(), Some("e1"));
    c.set_e_tag_from(&vec![("content-type".to_string(), "application/json".to_string())]);
    assert!(c.e_tag.is_none());
}
