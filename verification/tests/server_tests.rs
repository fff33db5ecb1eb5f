use mirage_fit::config::{Config, Environment};
use mirage_fit::server::allows_any_origin;
use mirage_fit::static_files::{falls_back_to_index, static_asset_path};

/// The test configuration in an environment with a known home directory and
/// no overrides.
fn default_config() -> Config {
    Config::default_in(Environment {
        gemini_api_key: None,
        server_host: None,
        server_port: None,
        public_url: None,
        home_dir: Some("/home/tester".to_string()),
    })
}

#[test]
fn server_cors_origins() {
    let mut config = default_config();
    assert!(allows_any_origin(&config));
    config.server.cors_origins = vec!["http://localhost:5173".to_string()];
    assert!(!allows_any_origin(&config));
}

#[test]
fn static_asset_paths() {
    assert_eq!(static_asset_path("/"), "index.html");
    assert_eq!(static_asset_path(""), "index.html");
    assert_eq!(static_asset_path("//assets/app.js"), "assets/app.js");
    assert_eq!(static_asset_path("/favicon.ico"), "favicon.ico");
    assert!(falls_back_to_index("gallery/3"));
    assert!(!falls_back_to_index("api/unknown"));
}
