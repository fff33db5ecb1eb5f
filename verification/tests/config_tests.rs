use mirage_fit::config::{directory_creation_error, Config, Environment, ImageType};
use mirage_fit::models::ItemCategory;

fn environment(home: Option<&str>) -> Environment {
    Environment {
        gemini_api_key: None,
        server_host: None,
        server_port: None,
        public_url: None,
        home_dir: home.map(|h| h.to_string()),
    }
}

/// The test configuration in an environment with a known home directory and
/// no overrides.
fn default_config() -> Config {
    Config::default_in(environment(Some("/home/tester")))
}

#[test]
fn test_config_creation_with_api_key() {
    let config = Config::new(Some("test-key".to_string()), environment(Some("/home/tester"))).unwrap();
    assert_eq!(config.gemini.api_key, "test-key");
    assert!(config.fs.base_dir.ends_with(".mirage-fit"));

    assert_eq!(config.gemini.model, "gemini-2.5-flash-image-preview");
    assert_eq!(config.gemini.timeout_seconds, 120);
    assert_eq!(config.gemini.max_retries, 3);
    assert_eq!(config.gemini.rate_limit_rpm, 60);
    assert_eq!(config.fs.max_file_size, 10 * 1024 * 1024);
    assert_eq!(config.server.port, 3000);
    assert!(config.server.enable_cors);
}

#[test]
fn test_config_creation_with_env_var() {
    let mut env = environment(Some("/home/tester"));
    env.gemini_api_key = Some("env-test-key".to_string());
    let config = Config::new(None, env).unwrap();
    assert_eq!(config.gemini.api_key, "env-test-key");
}

#[test]
fn test_config_creation_with_empty_key() {
    let result = Config::new(Some("".to_string()), environment(Some("/home/tester")));
    assert!(result.is_err(), "Config creation with empty string should fail");

    let result = Config::new(None, environment(Some("/home/tester")));
    assert!(result.is_err(), "Config creation with no API key should fail");

    let result = Config::new(Some("   ".to_string()), environment(Some("/home/tester")));
    assert!(result.is_err(), "Config creation with whitespace-only string should fail");
}

#[test]
fn test_config_creation_prioritizes_parameter() {
    let mut env = environment(Some("/home/tester"));
    env.gemini_api_key = Some("env-key".to_string());
    let config = Config::new(Some("param-key".to_string()), env).unwrap();
    assert_eq!(config.gemini.api_key, "param-key");
}

#[test]
fn test_server_environment_variables() {
    let mut env = environment(Some("/home/tester"));
    env.server_host = Some("0.0.0.0".to_string());
    env.server_port = Some("8080".to_string());
    env.public_url = Some("https://api.example.com".to_string());

    let config = Config::new(Some("test-key".to_string()), env).unwrap();
    assert_eq!(config.server.host, "0.0.0.0");
    assert_eq!(config.server.port, 8080);
    assert_eq!(config.server.public_url, "https://api.example.com");
}

#[test]
fn test_invalid_server_port() {
    let mut env = environment(Some("/home/tester"));
    env.server_port = Some("invalid".to_string());
    let config = Config::new(Some("test-key".to_string()), env).unwrap();
    assert_eq!(config.server.port, 3000);
}

#[test]
fn test_supported_formats() {
    let config = default_config();
    assert!(config.is_supported_format("image/jpeg"));
    assert!(config.is_supported_format("image/png"));
    assert!(config.is_supported_format("image/webp"));
    assert!(!config.is_supported_format("image/gif"));
    assert!(!config.is_supported_format("image/bmp"));
    assert!(!config.is_supported_format("text/plain"));
    assert!(!config.is_supported_format(""));
}

#[test]
fn test_file_extensions() {
    let config = default_config();
    assert_eq!(config.get_file_extension("image/jpeg"), Some("jpg"));
    assert_eq!(config.get_file_extension("image/png"), Some("png"));
    assert_eq!(config.get_file_extension("image/webp"), Some("webp"));
    assert_eq!(config.get_file_extension("image/gif"), None);
    assert_eq!(config.get_file_extension("application/pdf"), None);
    assert_eq!(config.get_file_extension(""), None);
}

#[test]
fn test_gemini_urls() {
    let config = default_config();
    let base_url = config.gemini_url("test/endpoint");
    assert_eq!(
        base_url,
        "https://generativelanguage.googleapis.com/v1beta/test/endpoint"
    );

    let generate_url = config.gemini_generate_url();
    assert!(generate_url.contains("models/gemini-2.5-flash-image-preview:generateContent"));
    assert!(generate_url.starts_with("https://generativelanguage.googleapis.com/v1beta"));
}

#[test]
fn test_file_size_validation() {
    let config = default_config();

    assert!(config.validate_file_size(1024).is_ok());
    assert!(config.validate_file_size(5 * 1024 * 1024).is_ok());
    assert!(config.validate_file_size(config.fs.max_file_size).is_ok());

    assert!(config.validate_file_size(config.fs.max_file_size + 1).is_err());
    assert!(config.validate_file_size(100 * 1024 * 1024).is_err());

    assert!(config.validate_file_size(0).is_ok());
}

#[test]
fn test_category_path() {
    let config = default_config();

    let hat_path = config.category_path(&ItemCategory::Hat);
    assert!(hat_path.ends_with("hats"));

    let shoes_path = config.category_path(&ItemCategory::Shoes);
    assert!(shoes_path.ends_with("shoes"));
}

#[test]
fn test_image_url_paths() {
    let config = default_config();

    let input_url = config.image_url_path(ImageType::Input, "abc123.jpg");
    assert_eq!(input_url, "http://127.0.0.1:3000/api/images/input/abc123.jpg");

    let item_url = config.image_url_path(ImageType::Item, "hats/def456.png");
    assert_eq!(item_url, "http://127.0.0.1:3000/api/images/items/hats/def456.png");

    let output_url = config.image_url_path(ImageType::Output, "ghi789.webp");
    assert_eq!(output_url, "http://127.0.0.1:3000/api/images/output/ghi789.webp");
}

#[test]
fn test_server_addr() {
    let config = default_config();
    assert_eq!(config.server_addr(), "127.0.0.1:3000");

    let mut env = environment(Some("/home/tester"));
    env.server_host = Some("0.0.0.0".to_string());
    env.server_port = Some("8080".to_string());
    let custom_config = Config::new(Some("test-key".to_string()), env).unwrap();
    assert_eq!(custom_config.server_addr(), "0.0.0.0:8080");
}

#[test]
fn test_image_type_enum() {
    assert_eq!(ImageType::Input as i32, ImageType::Input as i32);
    assert_ne!(ImageType::Input as i32, ImageType::Item as i32);
    assert_ne!(ImageType::Item as i32, ImageType::Output as i32);
}

#[test]
fn test_default_config() {
    let config = default_config();
    assert_eq!(config.gemini.api_key, "test-api-key");
    assert!(config.fs.base_dir.ends_with(".mirage-fit"));
}

#[test]
fn test_config_field_access() {
    let config = default_config();

    assert!(!config.gemini.api_key.is_empty());
    assert!(!config.gemini.base_url.is_empty());
    assert!(!config.gemini.model.is_empty());
    assert!(config.gemini.timeout_seconds > 0);
    assert!(config.gemini.max_retries > 0);
    assert!(config.gemini.rate_limit_rpm > 0);

    assert!(config.fs.base_dir.starts_with('/') || config.fs.base_dir.contains("mirage-fit"));
    assert!(config.fs.max_file_size > 0);
    assert!(!config.fs.supported_formats.is_empty());
    assert!(config.fs.cache_size_limit_mb > 0);

    assert!(!config.server.host.is_empty());
    assert!(config.server.port > 0);
    assert!(!config.server.public_url.is_empty());
    assert!(config.server.max_request_size > 0);
    assert!(config.server.request_timeout > 0);
    assert!(!config.server.cors_origins.is_empty());

    assert!(config.server.static_files.cache_control_max_age > 0);
}

#[test]
fn test_base_directory_resolution() {
    let config = default_config();
    let base_dir = &config.fs.base_dir;

    assert!(base_dir.starts_with('/') || base_dir.contains(".mirage-fit"));
    assert!(base_dir.contains(".mirage-fit"));
}

#[test]
fn test_config_constants() {
    let config = default_config();

    assert!(config.fs.max_file_size >= 1024 * 1024);
    assert!(config.server.max_request_size >= config.fs.max_file_size);
    assert!(config.server.request_timeout >= 30);
    assert!(config.gemini.timeout_seconds >= 30);
}

#[test]
fn test_error_cases() {
    let result = Config::new(None, environment(Some("/home/tester")));
    assert!(result.is_err());
    if let Err(error) = result {
        assert!(error.to_display_string().contains("API key"));
    }
}

#[test]
fn test_config_integration() {
    let mut env = environment(Some("/home/tester"));
    env.gemini_api_key = Some("test-integration-key".to_string());

    let config = Config::new(None, env).unwrap();
    assert_eq!(config.gemini.api_key, "test-integration-key");

    assert!(!config.fs.base_dir.is_empty());
    assert!(!config.fs.input_dir.is_empty());
    assert!(!config.fs.items_dir.is_empty());
    assert!(!config.fs.output_dir.is_empty());
}

#[test]
fn test_gemini_client_configuration() {
    let config = Config::new(Some("test-gemini-key".to_string()), environment(Some("/home/tester"))).unwrap();
    assert!(!config.gemini.api_key.is_empty());
    assert!(!config.gemini.base_url.is_empty());
    assert!(!config.gemini.model.is_empty());
}

#[test]
fn config_paths_join_under_home() {
    let config = Config::new(Some("k".to_string()), environment(Some("/home/tester"))).unwrap();
    assert_eq!(config.fs.base_dir, "/home/tester/.mirage-fit");
    assert_eq!(config.fs.input_dir, "/home/tester/.mirage-fit/input");
    assert_eq!(config.fs.items_dir, "/home/tester/.mirage-fit/items");
    assert_eq!(config.fs.output_dir, "/home/tester/.mirage-fit/output");

    let slash_home = Config::new(Some("k".to_string()), environment(Some("/home/tester/"))).unwrap();
    assert_eq!(slash_home.fs.base_dir, "/home/tester/.mirage-fit");
}

#[test]
fn config_without_home_is_refused() {
    let result = Config::new(Some("k".to_string()), environment(None));
    match result {
        Err(e) => assert_eq!(
            e.to_display_string(),
            "Configuration error: Unable to determine home directory"
        ),
        Ok(_) => panic!("a configuration needs a home directory"),
    }
}

#[test]
fn config_blank_parameter_falls_back_to_environment() {
    let mut env = environment(Some("/h"));
    env.gemini_api_key = Some("from-env".to_string());
    let config = Config::new(Some(" \t\n".to_string()), env).unwrap();
    assert_eq!(config.gemini.api_key, "from-env");

    let mut env = environment(Some("/h"));
    env.gemini_api_key = Some("\u{3000}".to_string());
    assert!(Config::new(None, env).is_err());
}

#[test]
fn config_port_parsing_follows_integer_parsing() {
    for (text, port) in [("+8080", 8080u16), ("65535", 65535), ("0", 0), ("007", 7)] {
        let mut env = environment(Some("/h"));
        env.server_port = Some(text.to_string());
        let config = Config::new(Some("k".to_string()), env).unwrap();
        assert_eq!(config.server.port, port, "port text {}", text);
    }
    for text in ["65536", "", "+", "-1", " 80", "80 "] {
        let mut env = environment(Some("/h"));
        env.server_port = Some(text.to_string());
        let config = Config::new(Some("k".to_string()), env).unwrap();
        assert_eq!(config.server.port, 3000, "port text {:?}", text);
    }
}

#[test]
fn config_required_directories_cover_all_categories() {
    let config = default_config();
    let dirs = config.required_directories();
    assert_eq!(dirs.len(), 3 + ItemCategory::all().len());
    assert_eq!(dirs[0], config.fs.base_dir);
    assert_eq!(dirs[1], config.fs.input_dir);
    assert_eq!(dirs[2], config.fs.output_dir);
    assert_eq!(dirs[3], "/home/tester/.mirage-fit/items/hats");
    assert_eq!(dirs[13], "/home/tester/.mirage-fit/items/other");
}

#[test]
fn config_file_size_message() {
    let config = default_config();
    match config.validate_file_size(10 * 1024 * 1024 + 1) {
        Err(e) => assert_eq!(
            e.user_message(),
            "File size (10485761 bytes) exceeds maximum allowed size (10485760 bytes)"
        ),
        Ok(()) => panic!("too large"),
    }
}

#[test]
fn config_clone_keeps_settings() {
    let config = default_config();
    let copy = config.clone();
    assert_eq!(copy.gemini.api_key, config.gemini.api_key);
    assert_eq!(copy.fs.supported_formats, config.fs.supported_formats);
    assert_eq!(copy.server.cors_origins, config.server.cors_origins);
}

#[test]
fn config_directory_creation_errors_name_the_directory() {
    let config = default_config();
    let dirs = config.required_directories();
    let messages: Vec<String> = (0..dirs.len())
        .map(|i| directory_creation_error(i, &dirs[i], "denied").user_message())
        .collect();
    assert_eq!(messages[0], "Internal server error occurred");
    let described: Vec<String> = (0..dirs.len())
        .map(|i| directory_creation_error(i, &dirs[i], "denied").to_display_string())
        .collect();
    assert_eq!(described[0], "File system error: Failed to create base directory: denied");
    assert_eq!(described[1], "File system error: Failed to create input directory: denied");
    assert_eq!(described[2], "File system error: Failed to create output directory: denied");
    assert_eq!(
        described[3],
        format!("File system error: Failed to create category directory '{}': denied", dirs[3])
    );
    assert!(dirs[3].ends_with("/hats"));
}

#[test]
fn config_default_follows_the_environment() {
    let mut env = environment(Some("/home/user"));
    env.server_host = Some("0.0.0.0".to_string());
    env.server_port = Some("8080".to_string());
    env.public_url = Some("https://fit.example".to_string());
    let config = Config::default_in(env.clone());
    let built = Config::new(Some("test-api-key".to_string()), env).unwrap();
    assert_eq!(config.gemini.api_key, "test-api-key");
    assert_eq!(config.fs.base_dir, "/home/user/.mirage-fit");
    assert_eq!(config.fs.base_dir, built.fs.base_dir);
    assert_eq!(config.fs.input_dir, "/home/user/.mirage-fit/input");
    assert_eq!(config.fs.items_dir, "/home/user/.mirage-fit/items");
    assert_eq!(config.fs.output_dir, "/home/user/.mirage-fit/output");
    assert_eq!(config.server.host, "0.0.0.0");
    assert_eq!(config.server.port, 8080);
    assert_eq!(config.server.public_url, "https://fit.example");
    assert_eq!(config.server_addr(), built.server_addr());
}
