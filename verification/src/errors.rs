//! The gateway's errors, each with the HTTP status and the short text it is
//! answered with.

use vstd::prelude::*;
use crate::text::{joined, owned};

verus! {

/// Why a request was not served.
#[derive(Debug, Clone, PartialEq, Eq)]
pub enum AppError {
    /// The client's bucket was empty.
    RateLimited,
    /// The route's circuit is open, or none of its destinations is healthy.
    ServiceUnavailable,
    /// The credential was malformed, unknown or revoked; holds the reason.
    AuthFailed(String),
    /// The request has no `Authorization` header.
    MissingAuthToken,
    /// The `Authorization` header is not of the form `Bearer <token>`.
    InvalidAuthHeader,
    /// The principal lacks a required role.
    InsufficientPermissions,
    /// The signed token's expiry has passed.
    TokenExpired,
    /// No route's prefix matches the path.
    RouteNotFound,
    /// The upstream could not be reached or answered badly; holds a description.
    ProxyError(String),
    /// The destination is misconfigured or not allowed; holds a description.
    InvalidDestination(String),
    /// Anything unexpected.
    InternalServerError,
    /// The request body is larger than the configured limit.
    RequestTooLarge,
    /// A configuration reload failed; holds a description.
    HotReloadError(String),
}

/// An error as plain values: the texts it holds taken as character sequences.
pub enum ErrorView {
    RateLimited,
    ServiceUnavailable,
    AuthFailed(Seq<char>),
    MissingAuthToken,
    InvalidAuthHeader,
    InsufficientPermissions,
    TokenExpired,
    RouteNotFound,
    ProxyError(Seq<char>),
    InvalidDestination(Seq<char>),
    InternalServerError,
    RequestTooLarge,
    HotReloadError(Seq<char>),
}

impl View for AppError {
    type V = ErrorView;

    open spec fn view(&self) -> ErrorView {
        match *self {
            AppError::RateLimited => ErrorView::RateLimited,
            AppError::ServiceUnavailable => ErrorView::ServiceUnavailable,
            AppError::AuthFailed(reason) => ErrorView::AuthFailed(reason@),
            AppError::MissingAuthToken => ErrorView::MissingAuthToken,
            AppError::InvalidAuthHeader => ErrorView::InvalidAuthHeader,
            AppError::InsufficientPermissions => ErrorView::InsufficientPermissions,
            AppError::TokenExpired => ErrorView::TokenExpired,
            AppError::RouteNotFound => ErrorView::RouteNotFound,
            AppError::ProxyError(what) => ErrorView::ProxyError(what@),
            AppError::InvalidDestination(what) => ErrorView::InvalidDestination(what@),
            AppError::InternalServerError => ErrorView::InternalServerError,
            AppError::RequestTooLarge => ErrorView::RequestTooLarge,
            AppError::HotReloadError(what) => ErrorView::HotReloadError(what@),
        }
    }
}

impl ErrorView {
    /// The HTTP status that answers this error.
    pub open spec fn status(self) -> u16 {
        match self {
            ErrorView::RateLimited => 429,
            ErrorView::ServiceUnavailable => 503,
            ErrorView::AuthFailed(_) => 401,
            ErrorView::MissingAuthToken => 401,
            ErrorView::InvalidAuthHeader => 401,
            ErrorView::InsufficientPermissions => 403,
            ErrorView::TokenExpired => 401,
            ErrorView::RouteNotFound => 404,
            ErrorView::ProxyError(_) => 502,
            ErrorView::InvalidDestination(_) => 500,
            ErrorView::InternalServerError => 500,
            ErrorView::RequestTooLarge => 413,
            ErrorView::HotReloadError(_) => 500,
        }
    }

    /// The text sent to the client with this error.
    pub open spec fn reply_text(self) -> Seq<char> {
        match self {
            ErrorView::RateLimited => "Too many requests"@,
            ErrorView::ServiceUnavailable => "Service Unavailable"@,
            ErrorView::AuthFailed(reason) => "Authentication failed: "@ + reason,
            ErrorView::MissingAuthToken => "Missing 'Authorization' header"@,
            ErrorView::InvalidAuthHeader =>
                "Invalid 'Authorization' header format. Expected 'Bearer <token>'."@,
            ErrorView::InsufficientPermissions =>
                "You do not have permission to access this resource."@,
            ErrorView::TokenExpired => "Token has expired"@,
            ErrorView::RouteNotFound => "Route not found"@,
            ErrorView::ProxyError(_) => "Error proxying request"@,
            ErrorView::InvalidDestination(_) => "Invalid gateway configuration"@,
            ErrorView::InternalServerError => "An internal server error occurred"@,
            ErrorView::RequestTooLarge => "Request too large"@,
            ErrorView::HotReloadError(_) => "Configuration reload failed"@,
        }
    }

    /// The text that describes this error in logs.
    pub open spec fn text(self) -> Seq<char> {
        match self {
            ErrorView::RateLimited => "Rate limited"@,
            ErrorView::ServiceUnavailable => "Service unavailable"@,
            ErrorView::AuthFailed(reason) => "Authentication failed: "@ + reason,
            ErrorView::MissingAuthToken => "Missing authorization token"@,
            ErrorView::InvalidAuthHeader => "Invalid authorization header"@,
            ErrorView::InsufficientPermissions => "Insufficient permissions"@,
            ErrorView::TokenExpired => "Token expired"@,
            ErrorView::RouteNotFound => "Route not found"@,
            ErrorView::ProxyError(_) => "Proxy error"@,
            ErrorView::InvalidDestination(url) => "Invalid destination: "@ + url,
            ErrorView::InternalServerError => "Internal server error"@,
            ErrorView::RequestTooLarge => "Request too large"@,
            ErrorView::HotReloadError(msg) => "Hot reload error: "@ + msg,
        }
    }
}

impl AppError {
    /// The HTTP status that answers this error.
    pub open spec fn spec_status_code(self) -> u16 {
        self@.status()
    }

    /// The text sent to the client with this error.
    pub open spec fn spec_response_message(self) -> Seq<char> {
        self@.reply_text()
    }

    /// The text that describes this error in logs.
    pub open spec fn spec_message(self) -> Seq<char> {
        self@.text()
    }

    /// The HTTP status that answers this error.
    pub fn status_code(&self) -> (code: u16)
        ensures
            code == self.spec_status_code(),
            400 <= code < 600,
    {
        match self {
            AppError::RateLimited => 429,
            AppError::ServiceUnavailable => 503,
            AppError::AuthFailed(_) => 401,
            AppError::MissingAuthToken => 401,
            AppError::InvalidAuthHeader => 401,
            AppError::InsufficientPermissions => 403,
            AppError::TokenExpired => 401,
            AppError::RouteNotFound => 404,
            AppError::ProxyError(_) => 502,
            AppError::InvalidDestination(_) => 500,
            AppError::InternalServerError => 500,
            AppError::RequestTooLarge => 413,
            AppError::HotReloadError(_) => 500,
        }
    }

    /// The text sent to the client with this error. What an error holds about
    /// destinations, upstreams and reloads is kept out of it.
    pub fn response_message(&self) -> (text: String)
        ensures
            text@ == self.spec_response_message(),
    {
        match self {
            AppError::RateLimited => owned("Too many requests"),
            AppError::ServiceUnavailable => owned("Service Unavailable"),
            AppError::AuthFailed(reason) => joined("Authentication failed: ", reason.as_str()),
            AppError::MissingAuthToken => owned("Missing 'Authorization' header"),
            AppError::InvalidAuthHeader => owned("Invalid 'Authorization' header format. Expected 'Bearer <token>'."),
            AppError::InsufficientPermissions => owned("You do not have permission to access this resource."),
            AppError::TokenExpired => owned("Token has expired"),
            AppError::RouteNotFound => owned("Route not found"),
            AppError::ProxyError(_) => owned("Error proxying request"),
            AppError::InvalidDestination(_) => owned("Invalid gateway configuration"),
            AppError::InternalServerError => owned("An internal server error occurred"),
            AppError::RequestTooLarge => owned("Request too large"),
            AppError::HotReloadError(_) => owned("Configuration reload failed"),
        }
    }

    /// The text that describes this error in logs.
    pub fn message(&self) -> (text: String)
        ensures
            text@ == self.spec_message(),
    {
        match self {
            AppError::RateLimited => owned("Rate limited"),
            AppError::ServiceUnavailable => owned("Service unavailable"),
            AppError::AuthFailed(reason) => joined("Authentication failed: ", reason.as_str()),
            AppError::MissingAuthToken => owned("Missing authorization token"),
            AppError::InvalidAuthHeader => owned("Invalid authorization header"),
            AppError::InsufficientPermissions => owned("Insufficient permissions"),
            AppError::TokenExpired => owned("Token expired"),
            AppError::RouteNotFound => owned("Route not found"),
            AppError::ProxyError(_) => owned("Proxy error"),
            AppError::InvalidDestination(url) => joined("Invalid destination: ", url.as_str()),
            AppError::InternalServerError => owned("Internal server error"),
            AppError::RequestTooLarge => owned("Request too large"),
            AppError::HotReloadError(msg) => joined("Hot reload error: ", msg.as_str()),
        }
    }
}

} // verus!
