use candlekeep::config::{
    clear_config, config_dir, config_path, get_api_key, get_api_url, is_authenticated, logout,
    save_api_key, Config, DEFAULT_API_URL,
};

#[test]
fn test_default_config() {
    let config = Config::default();
    assert!(config.auth.api_key.is_none());
    assert_eq!(config.api.url, DEFAULT_API_URL);
}

#[test]
fn save_then_read_api_key() {
    let mut config = Config::default();
    assert!(!is_authenticated(&config));
    save_api_key(&mut config, "ck_test123");
    assert!(is_authenticated(&config));
    assert_eq!(get_api_key(&config), Some("ck_test123".to_string()));
    assert_eq!(config.api.url, DEFAULT_API_URL);
}

#[test]
fn clear_removes_only_the_key() {
    let mut config = Config::default();
    config.api.url = "http://localhost:3000".to_string();
    save_api_key(&mut config, "ck_x");
    clear_config(&mut config);
    assert!(config.auth.api_key.is_none());
    assert_eq!(config.api.url, "http://localhost:3000");
}

#[test]
fn logout_reports_whether_signed_in() {
    let mut config = Config::default();
    assert!(!logout(&mut config));
    save_api_key(&mut config, "ck_x");
    assert!(logout(&mut config));
    assert!(!is_authenticated(&config));
    assert!(!logout(&mut config));
}

#[test]
fn environment_url_takes_precedence() {
    let config = Config::default();
    assert_eq!(get_api_url(None, &config), DEFAULT_API_URL);
    assert_eq!(
        get_api_url(Some("http://127.0.0.1:8000".to_string()), &config),
        "http://127.0.0.1:8000"
    );
}

#[test]
fn config_paths_under_home() {
    assert_eq!(config_dir("/home/ann"), "/home/ann/.candlekeep");
    assert_eq!(config_path("/home/ann"), "/home/ann/.candlekeep/config.toml");
    assert_eq!(config_path("/root/"), "/root/.candlekeep/config.toml");
}
