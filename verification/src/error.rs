//! Typed application errors.
//!
//! Each error maps to an HTTP status code and to the CSS class and icon the
//! HTML error fragment is styled with; rendering the fragment itself is the
//! web layer's concern.

use vstd::prelude::*;

verus! {

/// Application error taxonomy.
pub enum AppError {
    NotFound(String),
    BadRequest(String),
    Unauthorized,
    Validation(String),
    Internal(String),
    Database(String),
}

impl AppError {
    /// The HTTP status code for this error.
    pub open spec fn spec_status_code(&self) -> u16 {
        match self {
            AppError::NotFound(_) => 404,
            AppError::BadRequest(_) => 400,
            AppError::Validation(_) => 400,
            AppError::Unauthorized => 401,
            AppError::Internal(_) => 500,
            AppError::Database(_) => 500,
        }
    }

    /// The CSS class the error alert is styled with.
    pub open spec fn spec_alert_class(&self) -> Seq<char> {
        match self {
            AppError::NotFound(_) => "warning"@,
            AppError::BadRequest(_) => "warning"@,
            AppError::Validation(_) => "warning"@,
            AppError::Unauthorized => "danger"@,
            AppError::Internal(_) => "danger"@,
            AppError::Database(_) => "danger"@,
        }
    }

    /// The icon shown beside the error message.
    pub open spec fn spec_icon(&self) -> Seq<char> {
        match self {
            AppError::NotFound(_) => "search"@,
            AppError::BadRequest(_) => "exclamation-triangle"@,
            AppError::Validation(_) => "exclamation-triangle"@,
            AppError::Unauthorized => "lock"@,
            AppError::Internal(_) => "x-circle"@,
            AppError::Database(_) => "x-circle"@,
        }
    }

    /// HTTP status code for this error type.
    pub fn status_code(&self) -> (code: u16)
        ensures
            code == self.spec_status_code(),
    {
        match self {
            AppError::NotFound(_) => 404,
            AppError::BadRequest(_) | AppError::Validation(_) => 400,
            AppError::Unauthorized => 401,
            AppError::Internal(_) | AppError::Database(_) => 500,
        }
    }

    /// CSS class for styling the error alert.
    pub fn alert_class(&self) -> (class: &'static str)
        ensures
            class@ == self.spec_alert_class(),
    {
        match self {
            AppError::NotFound(_) | AppError::BadRequest(_) | AppError::Validation(_) => "warning",
            _ => "danger",
        }
    }

    /// Icon for the error type.
    pub fn icon(&self) -> (icon: &'static str)
        ensures
            icon@ == self.spec_icon(),
    {
        match self {
            AppError::NotFound(_) => "search",
            AppError::BadRequest(_) | AppError::Validation(_) => "exclamation-triangle",
            AppError::Unauthorized => "lock",
            _ => "x-circle",
        }
    }

    pub fn not_found(msg: &str) -> (e: Self)
        ensures
            e matches AppError::NotFound(m) && m@ == msg@,
    {
        AppError::NotFound(msg.to_owned())
    }

    pub fn bad_request(msg: &str) -> (e: Self)
        ensures
            e matches AppError::BadRequest(m) && m@ == msg@,
    {
        AppError::BadRequest(msg.to_owned())
    }

    pub fn internal(msg: &str) -> (e: Self)
        ensures
            e matches AppError::Internal(m) && m@ == msg@,
    {
        AppError::Internal(msg.to_owned())
    }

    pub fn validation(msg: &str) -> (e: Self)
        ensures
            e matches AppError::Validation(m) && m@ == msg@,
    {
        AppError::Validation(msg.to_owned())
    }
}

} // verus!
