use moesif_exproc::http_callback::HttpCallbackManager;
use moesif_exproc::update_manager::UpdateManager;

#[test]
fn update_manager_tracks_two_tags() {
    let mut m = UpdateManager::new(0u32);
    assert!(m.is_updated("a"));
    assert!(!m.is_updated(""));
    m.update_at("a".to_string(), 1, 100);
    assert!(!m.is_updated("a"));
    assert!(m.is_updated("b"));
    m.update_at("b".to_string(), 2, 200);
    assert!(!m.is_updated("a"));
    assert!(!m.is_updated("b"));
    assert!(m.is_updated("c"));
    assert_eq!(*m.get_data(), 2);
    m.update("c".to_string(), 3);
    assert!(!m.is_updated("b"));
    assert!(!m.is_updated("c"));
    assert!(m.is_updated("a"));
}

#[test]
fn expiry_compares_age_with_ttl() {
    let mut m = UpdateManager::new("d");
    m.update_at("e".to_string(), "d2", 1000);
    assert!(!m.is_expired_at(60, 1000));
    assert!(!m.is_expired_at(60, 1060));
    assert!(m.is_expired_at(60, 1061));
    assert!(!m.is_expired_at(i64::MAX, i64::MAX));
    assert!(m.is_expired(60));
    let fresh = {
        let mut f = UpdateManager::new(0u8);
        f.update("x".to_string(), 1);
        f
    };
    assert!(!fresh.is_expired(3600));
}

#[test]
fn handlers_run_once_for_their_token() {
    let mut m: HttpCallbackManager<&str> = HttpCallbackManager::new();
    m.register_handler(7, "config");
    m.register_handler(8, "rules");
    m.register_handler(7, "config-2");
    assert_eq!(m.handle_response(7), Some("config-2"));
    assert_eq!(m.handle_response(7), None);
    assert_eq!(m.handle_response(8), Some("rules"));
    assert_eq!(m.handle_response(9), None);
}
