//! The errors that the library reports.
use vstd::prelude::*;
use crate::weburl::{UrlError, url_error_text};
use crate::text::{decimal, push_decimal};

verus! {

/// What went wrong, as far as the library's own logic can tell.
#[derive(Debug, Clone)]
pub enum AppError {
    /// The configuration (or a plan output name) is invalid; the text lists the problems.
    InvalidConfig(String),
    /// A required environment variable is not set.
    MissingEnvironmentVariable { name: String },
    /// An environment variable holds an unusable value.
    InvalidEnvironmentVariable { name: String, reason: String },
    /// An API path could not be joined to the base URL.
    BuildApiUrl { path: String, source: UrlError },
    /// A URL points to another origin than the configured DefectDojo.
    UnsafePaginationUrl { url: String },
    /// Pagination came back to a page it had already loaded.
    PaginationLoop { url: String },
    /// The pages held another number of records than the first page announced.
    PaginationCountMismatch { expected: usize, actual: usize },
    /// Pagination went on beyond the configured number of pages.
    TooManyPages { maximum: usize },
    /// The next-page link could not be parsed.
    InvalidNextPageUrl { value: String, source: UrlError },
    /// A filter holds a value that cannot be sent as a query parameter.
    UnsupportedFilterValue,
    /// The decision file does not agree with its plan.
    InvalidDecisionFile(String),
    /// The data behind a plan is inconsistent.
    PlanInvariant(String),
}

} // verus!

verus! {

/// The text of an error, as it is shown to the user.
pub open spec fn app_error_text(e: AppError) -> Seq<char> {
    match e {
        AppError::InvalidConfig(t) => "configuration is invalid:\n"@ + t@,
        AppError::MissingEnvironmentVariable { name } => "required environment variable '"@
            + name@ + "' is not set"@,
        AppError::InvalidEnvironmentVariable { name, reason } => "environment variable '"@ + name@
            + "' is invalid: "@ + reason@,
        AppError::BuildApiUrl { path, source } => "failed to construct API URL for '"@ + path@
            + "': "@ + url_error_text(source),
        AppError::UnsafePaginationUrl { url } => "pagination URL points to a different origin: "@
            + url@,
        AppError::PaginationLoop { url } => "pagination entered a loop at URL: "@ + url@,
        AppError::PaginationCountMismatch { expected, actual } => "pagination returned "@
            + decimal(actual as nat) + " records, but API reported "@ + decimal(expected as nat),
        AppError::TooManyPages { maximum } => "pagination exceeded the configured maximum of "@
            + decimal(maximum as nat) + " pages"@,
        AppError::InvalidNextPageUrl { value, source } => "invalid next-page URL '"@ + value@
            + "': "@ + url_error_text(source),
        AppError::UnsupportedFilterValue => "filter contains an unsupported TOML value"@,
        AppError::InvalidDecisionFile(t) => "decision file is invalid: "@ + t@,
        AppError::PlanInvariant(t) => "plan invariant violated: "@ + t@,
    }
}

impl AppError {
    /// The text of the error, as it is shown to the user.
    pub fn message(&self) -> (s: String)
        ensures
            s@ == app_error_text(*self),
    {
        let mut s = String::new();
        match self {
            AppError::InvalidConfig(t) => {
                s.append("configuration is invalid:\n");
                s.append(t.as_str());
            },
            AppError::MissingEnvironmentVariable { name } => {
                s.append("required environment variable '");
                s.append(name.as_str());
                s.append("' is not set");
            },
            AppError::InvalidEnvironmentVariable { name, reason } => {
                s.append("environment variable '");
                s.append(name.as_str());
                s.append("' is invalid: ");
                s.append(reason.as_str());
            },
            AppError::BuildApiUrl { path, source } => {
                s.append("failed to construct API URL for '");
                s.append(path.as_str());
                s.append("': ");
                let m = source.message();
                s.append(m.as_str());
            },
            AppError::UnsafePaginationUrl { url } => {
                s.append("pagination URL points to a different origin: ");
                s.append(url.as_str());
            },
            AppError::PaginationLoop { url } => {
                s.append("pagination entered a loop at URL: ");
                s.append(url.as_str());
            },
            AppError::PaginationCountMismatch { expected, actual } => {
                s.append("pagination returned ");
                push_decimal(&mut s, *actual as u64);
                s.append(" records, but API reported ");
                push_decimal(&mut s, *expected as u64);
            },
            AppError::TooManyPages { maximum } => {
                s.append("pagination exceeded the configured maximum of ");
                push_decimal(&mut s, *maximum as u64);
                s.append(" pages");
            },
            AppError::InvalidNextPageUrl { value, source } => {
                s.append("invalid next-page URL '");
                s.append(value.as_str());
                s.append("': ");
                let m = source.message();
                s.append(m.as_str());
            },
            AppError::UnsupportedFilterValue => {
                s.append("filter contains an unsupported TOML value");
            },
            AppError::InvalidDecisionFile(t) => {
                s.append("decision file is invalid: ");
                s.append(t.as_str());
            },
            AppError::PlanInvariant(t) => {
                s.append("plan invariant violated: ");
                s.append(t.as_str());
            },
        }
        proof {
            assert(s@ =~= app_error_text(*self));
        }
        s
    }
}

} // verus!
