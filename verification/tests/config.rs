use clipify::config::EnvironmentConfig;

#[test]
fn the_environment_defaults_to_development() {
    assert_eq!(EnvironmentConfig::environment_name(None), "development");
    assert_eq!(EnvironmentConfig::environment_name(Some("production".to_string())), "production");
    assert_eq!(EnvironmentConfig::environment_name(Some("staging".to_string())), "staging");
}

#[test]
fn each_environment_has_its_settings() {
    let prod = EnvironmentConfig::address_keys("production");
    assert_eq!(prod.api_base_url, "VITE_PROD_API_BASE_URL");
    assert_eq!(prod.oauth_base_url, "VITE_PROD_OAUTH_BASE_URL");
    assert_eq!(prod.base_url, "VITE_PROD_BASE_URL");
    for other in ["development", "Production", ""] {
        let dev = EnvironmentConfig::address_keys(other);
        assert_eq!(dev.api_base_url, "VITE_DEV_API_BASE_URL");
        assert_eq!(dev.oauth_base_url, "VITE_DEV_OAUTH_BASE_URL");
        assert_eq!(dev.base_url, "VITE_DEV_BASE_URL");
    }
}

#[test]
fn addresses_default_by_environment() {
    let dev = EnvironmentConfig::from_values("development".to_string(), None, None, None);
    assert_eq!(dev.environment, "development");
    assert_eq!(dev.api_base_url, "https://clipify0.el.r.appspot.com");
    assert_eq!(
        dev.oauth_base_url,
        "https://clipify0.el.r.appspot.com/api/v1/auth/google/login"
    );
    assert_eq!(dev.dev_url, "http://localhost:1420");
    let prod = EnvironmentConfig::from_values("production".to_string(), None, None, None);
    assert_eq!(prod.api_base_url, "https://clipify0.el.r.appspot.com");
    assert_eq!(prod.dev_url, "https://clipify0.el.r.appspot.com/");
}

#[test]
fn configured_addresses_win() {
    let config = EnvironmentConfig::from_values(
        "production".to_string(),
        Some("https://api.example".to_string()),
        Some("https://login.example".to_string()),
        Some("https://app.example".to_string()),
    );
    assert_eq!(config.api_base_url, "https://api.example");
    assert_eq!(config.oauth_base_url, "https://login.example");
    assert_eq!(config.dev_url, "https://app.example");
}
