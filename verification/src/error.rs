//! The library's error type.

use vstd::prelude::*;

use crate::text::{decimal, push_decimal, push_str, string_from_chars};

verus! {

#[verifier::external_type_specification]
#[verifier::external_body]
pub struct ExJsonError(serde_json::Error);

#[verifier::external_type_specification]
#[verifier::external_body]
pub struct ExHttpError(reqwest::Error);

/// Every fallible operation of the server reports one of these.
#[derive(Debug)]
pub enum AppError {
    InvalidConfig { message: String },
    InvalidParam { message: String },
    Json(serde_json::Error),
    Http(reqwest::Error),
    HubApi { status: u16, url: String, body: String },
    NotFound { repo_id: String },
    RateLimited { retry_after_secs: u64 },
}

impl AppError {
    /// The text shown for the error; for `Json` and `Http` it is the wrapped error's own text.
    pub fn message(&self) -> (s: String)
        ensures
            match self {
                AppError::InvalidConfig { message } => s@ == "Invalid configuration: "@ + message@,
                AppError::InvalidParam { message } => s@ == "Invalid parameter: "@ + message@,
                AppError::Json(e) => vstd::string::to_string_from_display_ensures::<serde_json::Error>(e, s),
                AppError::Http(e) => vstd::string::to_string_from_display_ensures::<reqwest::Error>(e, s),
                AppError::HubApi { status, url, body } => s@ == "Hub API error: HTTP "@ + decimal(
                    *status as nat,
                ) + " for "@ + url@,
                AppError::NotFound { repo_id } => s@ == "Dataset not found: "@ + repo_id@,
                AppError::RateLimited { retry_after_secs } => s@ == "Rate limited by HF Hub, retry after "@
                    + decimal(*retry_after_secs as nat) + "s"@,
            },
    {
        let mut out: Vec<char> = Vec::new();
        match self {
            AppError::InvalidConfig { message } => {
                push_str(&mut out, "Invalid configuration: ");
                push_str(&mut out, message.as_str());
            },
            AppError::InvalidParam { message } => {
                push_str(&mut out, "Invalid parameter: ");
                push_str(&mut out, message.as_str());
            },
            AppError::Json(e) => {
                return e.to_string();
            },
            AppError::Http(e) => {
                return e.to_string();
            },
            AppError::HubApi { status, url, body: _ } => {
                push_str(&mut out, "Hub API error: HTTP ");
                push_decimal(&mut out, *status as u128);
                push_str(&mut out, " for ");
                push_str(&mut out, url.as_str());
            },
            AppError::NotFound { repo_id } => {
                push_str(&mut out, "Dataset not found: ");
                push_str(&mut out, repo_id.as_str());
            },
            AppError::RateLimited { retry_after_secs } => {
                push_str(&mut out, "Rate limited by HF Hub, retry after ");
                push_decimal(&mut out, *retry_after_secs as u128);
                push_str(&mut out, "s");
            },
        }
        string_from_chars(&out)
    }
}

} // verus!
