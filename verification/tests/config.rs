use dojo_migrate::config::{
    AppConfig, DestinationConfig, FilterValue, HttpConfig, MatchingConfig, OutputConfig,
    RuntimeEnvironment, SourceConfig, normalize_base_url, read_required_environment_variable,
};
use dojo_migrate::error::AppError;
use dojo_migrate::weburl::parse_url;

fn valid_config() -> AppConfig {
    AppConfig {
        source: SourceConfig {
            product_id: 2,
            filters: vec![
                ("duplicate".to_owned(), FilterValue::Boolean(false)),
                ("false_p".to_owned(), FilterValue::Boolean(true)),
            ],
        },
        destination: DestinationConfig { product_ids: vec![1, 4] },
        matching: MatchingConfig::default(),
        http: HttpConfig::default(),
        output: OutputConfig::default(),
    }
}

/// Adds a filter where an ordered map by name would put it.
fn insert_filter(config: &mut AppConfig, name: &str, value: FilterValue) {
    let filters = &mut config.source.filters;
    let position = filters
        .iter()
        .position(|(existing, _)| existing.as_str() >= name)
        .unwrap_or(filters.len());
    if position < filters.len() && filters[position].0 == name {
        filters[position].1 = value;
    } else {
        filters.insert(position, (name.to_owned(), value));
    }
}

#[test]
fn valid_configuration_is_accepted() {
    assert!(valid_config().validate().is_ok());
}

#[test]
fn source_cannot_be_destination() {
    let mut config = valid_config();
    config.destination.product_ids.push(2);
    let error = config.validate().unwrap_err().message();
    assert!(error.contains("source product 2 cannot also be a destination product"));
}

#[test]
fn duplicate_destination_is_rejected() {
    let mut config = valid_config();
    config.destination.product_ids.push(4);
    let error = config.validate().unwrap_err().message();
    assert!(error.contains("destination product ID 4 is specified more than once"));
}

#[test]
fn invalid_filter_name_is_rejected() {
    let mut config = valid_config();
    insert_filter(&mut config, "false-positive", FilterValue::Boolean(true));
    let error = config.validate().unwrap_err().message();
    assert!(error.contains("source filter 'false-positive' contains unsupported characters"));
}

#[test]
fn nested_filter_array_is_rejected() {
    let mut config = valid_config();
    insert_filter(
        &mut config,
        "severity",
        FilterValue::Array(vec![FilterValue::Array(vec![FilterValue::String("High".to_owned())])]),
    );
    let error = config.validate().unwrap_err().message();
    assert!(error.contains("source filter 'severity' must contain only scalar array values"));
}

#[test]
fn base_url_gets_trailing_slash() {
    let url = parse_url("https://dojo.example.org/api").unwrap();
    assert_eq!(normalize_base_url(url).as_str(), "https://dojo.example.org/api/");
}

#[test]
fn application_managed_filter_is_rejected() {
    let mut config = valid_config();
    insert_filter(&mut config, "limit", FilterValue::Integer(500));
    let error = config.validate().unwrap_err().message();
    assert!(error.contains("source filter 'limit' is managed by the application"));
}

// Further cases.

#[test]
fn defaults_are_the_documented_ones() {
    let http = HttpConfig::default();
    assert_eq!(http.timeout_seconds, 30);
    assert_eq!(http.page_size, 200);
    assert_eq!(http.max_pages, 10_000);
    assert!(!http.accept_invalid_certificates);
    assert_eq!(OutputConfig::default().directory, "output");
    let matching = MatchingConfig::default();
    assert!(matching.trim_title);
    assert!(matching.require_found_by);
}

#[test]
fn every_problem_is_reported() {
    let mut config = valid_config();
    config.destination.product_ids.push(2);
    config.destination.product_ids.push(4);
    let error = config.validate().unwrap_err().message();
    assert!(error.starts_with("configuration is invalid:\n"));
    assert!(error.contains("source product 2 cannot also be a destination product"));
    assert!(error.contains("destination product ID 4 is specified more than once"));
}

#[test]
fn invalid_config_error_variant() {
    let mut config = valid_config();
    config.destination.product_ids.push(2);
    assert!(matches!(config.validate(), Err(AppError::InvalidConfig(_))));
}

#[test]
fn path_with_trailing_slash_is_kept() {
    let url = parse_url("https://dojo.example.org/api/").unwrap();
    assert_eq!(normalize_base_url(url).as_str(), "https://dojo.example.org/api/");
}

#[test]
fn missing_variable_is_reported() {
    let error = read_required_environment_variable("DOJO_URL", None).unwrap_err();
    assert!(matches!(error, AppError::MissingEnvironmentVariable { .. }));
    assert_eq!(error.message(), "required environment variable 'DOJO_URL' is not set");
}

#[test]
fn blank_variable_is_invalid() {
    let error = read_required_environment_variable("DOJO_API_TOKEN", Some("  ".to_owned()))
        .unwrap_err();
    assert_eq!(
        error.message(),
        "environment variable 'DOJO_API_TOKEN' is invalid: value cannot be empty"
    );
}

#[test]
fn variable_is_trimmed() {
    let value = read_required_environment_variable("X", Some("  abc \n".to_owned())).unwrap();
    assert_eq!(value, "abc");
}

#[test]
fn runtime_environment_is_loaded() {
    let environment = RuntimeEnvironment::load(
        Some(" https://dojo.example.org/api ".to_owned()),
        Some("secret".to_owned()),
    )
    .unwrap();
    assert_eq!(environment.base_url.as_str(), "https://dojo.example.org/api/");
    assert_eq!(environment.api_token.expose(), "secret");
}

#[test]
fn non_web_scheme_is_rejected() {
    let error = RuntimeEnvironment::load(
        Some("ftp://dojo.example.org/".to_owned()),
        Some("secret".to_owned()),
    )
    .err()
    .unwrap();
    assert_eq!(
        error.message(),
        "environment variable 'DOJO_URL' is invalid: URL scheme must be http or https"
    );
}

#[test]
fn unparsable_url_is_rejected() {
    let error = RuntimeEnvironment::load(Some("not a url".to_owned()), Some("secret".to_owned()))
        .err()
        .unwrap();
    assert_eq!(
        error.message(),
        "environment variable 'DOJO_URL' is invalid: relative URL without a base"
    );
}

#[test]
fn missing_token_is_reported_after_url() {
    let error = RuntimeEnvironment::load(Some("https://dojo.example.org/".to_owned()), None)
        .err()
        .unwrap();
    assert_eq!(error.message(), "required environment variable 'DOJO_API_TOKEN' is not set");
}
