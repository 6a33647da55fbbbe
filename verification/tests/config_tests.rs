use lootlabs_reward_role::config::{AppConfig, DEFAULT_LISTEN_ADDR};

#[test]
fn urls_lose_trailing_slashes() {
    let c = AppConfig::from_values(
        "postgres://db".to_string(),
        "sec".to_string(),
        "https://p.example/lootlabs-reward-role//",
        "http://auth-gateway:8090/",
        None,
    );
    assert_eq!(c.database_url, "postgres://db");
    assert_eq!(c.session_secret, "sec");
    assert_eq!(c.base_url, "https://p.example/lootlabs-reward-role");
    assert_eq!(c.auth_gateway_url, "http://auth-gateway:8090");
}

#[test]
fn listen_address_defaults() {
    let c = AppConfig::from_values(String::new(), String::new(), "b", "a", None);
    assert_eq!(c.listen_addr, "0.0.0.0:8088");
    assert_eq!(DEFAULT_LISTEN_ADDR, "0.0.0.0:8088");
    let d = AppConfig::from_values(String::new(), String::new(), "b", "a", Some("127.0.0.1:1".to_string()));
    assert_eq!(d.listen_addr, "127.0.0.1:1");
}
