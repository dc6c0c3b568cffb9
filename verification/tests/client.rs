use dojo_migrate::api::client::{
    ensure_same_origin, finding_url, parse_next_page_url, serialize_filter_value, truncate_body,
};
use dojo_migrate::config::FilterValue;
use dojo_migrate::error::AppError;
use dojo_migrate::weburl::parse_url;

#[test]
fn boolean_filter_is_serialized() {
    assert_eq!(serialize_filter_value(&FilterValue::Boolean(false)).unwrap(), vec!["false"]);
}

#[test]
fn array_filter_produces_multiple_values() {
    let value = FilterValue::Array(vec![
        FilterValue::String("Critical".to_owned()),
        FilterValue::String("High".to_owned()),
    ]);
    assert_eq!(serialize_filter_value(&value).unwrap(), vec!["Critical", "High"]);
}

#[test]
fn absolute_next_url_is_accepted_by_parser() {
    let current = parse_url("https://dojo.example/api/v2/findings/").unwrap();
    let next =
        parse_next_page_url(&current, "https://dojo.example/api/v2/findings/?offset=200").unwrap();
    assert_eq!(next.as_str(), "https://dojo.example/api/v2/findings/?offset=200");
}

#[test]
fn relative_next_url_is_resolved() {
    let current = parse_url("https://dojo.example/api/v2/findings/").unwrap();
    let next = parse_next_page_url(&current, "?limit=200&offset=200").unwrap();
    assert_eq!(next.as_str(), "https://dojo.example/api/v2/findings/?limit=200&offset=200");
}

// Further cases.

#[test]
fn integer_filter_is_serialized() {
    assert_eq!(serialize_filter_value(&FilterValue::Integer(-17)).unwrap(), vec!["-17"]);
}

#[test]
fn table_filter_is_unsupported() {
    let value = FilterValue::Table(vec![("a".to_owned(), FilterValue::Boolean(true))]);
    assert!(matches!(serialize_filter_value(&value), Err(AppError::UnsupportedFilterValue)));
}

#[test]
fn nested_array_filter_is_unsupported() {
    let value = FilterValue::Array(vec![FilterValue::Array(Vec::new())]);
    assert!(matches!(serialize_filter_value(&value), Err(AppError::UnsupportedFilterValue)));
}

#[test]
fn finding_url_is_joined_below_the_base() {
    let base = parse_url("https://dojo.example/").unwrap();
    assert_eq!(
        finding_url(&base, 42).unwrap().as_str(),
        "https://dojo.example/api/v2/findings/42/"
    );
}

#[test]
fn other_origin_is_refused() {
    let base = parse_url("https://dojo.example/").unwrap();
    let other = parse_url("https://evil.example/api/v2/findings/").unwrap();
    let error = ensure_same_origin(&base, &other).unwrap_err();
    assert_eq!(
        error.message(),
        "pagination URL points to a different origin: https://evil.example/api/v2/findings/"
    );
    let same = parse_url("https://dojo.example/api/v2/findings/?offset=5").unwrap();
    assert!(ensure_same_origin(&base, &same).is_ok());
}

#[test]
fn invalid_next_url_is_reported() {
    let current = parse_url("https://dojo.example/api/v2/findings/").unwrap();
    let error = parse_next_page_url(&current, "https://[::1").unwrap_err();
    assert!(matches!(error, AppError::InvalidNextPageUrl { .. }));
}

#[test]
fn long_body_is_truncated() {
    let body = "x".repeat(2100);
    let shortened = truncate_body(&body);
    assert_eq!(shortened.chars().count(), 2001);
    assert!(shortened.ends_with('…'));
    assert_eq!(truncate_body("short"), "short");
}

use dojo_migrate::api::client::{PageStep, Pagination, authorization_value};
use dojo_migrate::config::ApiToken;

#[test]
fn pagination_follows_next_links_until_done() {
    let base = parse_url("https://dojo.example/").unwrap();
    let first = parse_url("https://dojo.example/api/v2/findings/?limit=2").unwrap();
    let mut pagination = Pagination::new(&base, 10);
    pagination.request(&first).unwrap();
    let next = match pagination
        .page_loaded(&first, 3, 2, Some("?limit=2&offset=2".to_owned()))
        .unwrap()
    {
        PageStep::Next(url) => url,
        PageStep::Done => panic!("expected a next page"),
    };
    assert_eq!(next.as_str(), "https://dojo.example/api/v2/findings/?limit=2&offset=2");
    assert_eq!(pagination.display_total(2), 3);
    pagination.request(&next).unwrap();
    assert!(matches!(pagination.page_loaded(&next, 3, 3, None).unwrap(), PageStep::Done));
}

#[test]
fn pagination_refuses_loops_limits_and_miscounts() {
    let base = parse_url("https://dojo.example/").unwrap();
    let page = parse_url("https://dojo.example/api/v2/findings/").unwrap();
    let mut pagination = Pagination::new(&base, 1);
    pagination.request(&page).unwrap();
    let error = pagination.request(&page).unwrap_err();
    assert_eq!(error.message(), "pagination exceeded the configured maximum of 1 pages");

    let mut pagination = Pagination::new(&base, 5);
    pagination.request(&page).unwrap();
    let error = pagination.request(&page).unwrap_err();
    assert_eq!(
        error.message(),
        "pagination entered a loop at URL: https://dojo.example/api/v2/findings/"
    );
    let error = pagination.page_loaded(&page, 4, 3, None).unwrap_err();
    assert_eq!(error.message(), "pagination returned 3 records, but API reported 4");
}

#[test]
fn authorization_header_names_the_token() {
    let token = ApiToken::new("abc123".to_owned());
    assert_eq!(authorization_value(&token), "Token abc123");
}
