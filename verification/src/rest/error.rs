//! The errors of the HTTP surface and the bodies they are answered with.

use vstd::prelude::*;

verus! {

/// An error of the HTTP surface, as a mathematical value.
pub enum ApiErrorView {
    BadRequest(Seq<char>),
    ServiceUnavailable(Seq<char>),
    InternalServerError,
    Forbidden,
}

/// An error of the HTTP surface.
#[derive(Debug, PartialEq, Eq)]
pub enum ApiError {
    /// A path or query parameter is malformed.
    BadRequest(String),
    /// A resource is not ready or is exhausted for the moment.
    ServiceUnavailable(String),
    /// A stored row could not be decoded, or an invariant is broken.
    InternalServerError,
    /// The route is not known.
    Forbidden,
}

impl View for ApiError {
    type V = ApiErrorView;

    open spec fn view(&self) -> ApiErrorView {
        match self {
            ApiError::BadRequest(reason) => ApiErrorView::BadRequest(reason@),
            ApiError::ServiceUnavailable(reason) => ApiErrorView::ServiceUnavailable(reason@),
            ApiError::InternalServerError => ApiErrorView::InternalServerError,
            ApiError::Forbidden => ApiErrorView::Forbidden,
        }
    }
}

/// The HTTP status code of an error.
pub open spec fn status_of(error: ApiErrorView) -> u16 {
    match error {
        ApiErrorView::BadRequest(_) => 400,
        ApiErrorView::ServiceUnavailable(_) => 503,
        ApiErrorView::InternalServerError => 500,
        ApiErrorView::Forbidden => 403,
    }
}

/// The status code of an error in decimal notation.
pub open spec fn status_text_of(error: ApiErrorView) -> Seq<char> {
    match error {
        ApiErrorView::BadRequest(_) => "400"@,
        ApiErrorView::ServiceUnavailable(_) => "503"@,
        ApiErrorView::InternalServerError => "500"@,
        ApiErrorView::Forbidden => "403"@,
    }
}

/// The short text that an error is reported with.
pub open spec fn message_of(error: ApiErrorView) -> Seq<char> {
    match error {
        ApiErrorView::BadRequest(reason) => "bad request: "@ + reason,
        ApiErrorView::ServiceUnavailable(reason) => "service unavailable: "@ + reason,
        ApiErrorView::InternalServerError => "internal server error"@,
        ApiErrorView::Forbidden => "forbidden"@,
    }
}

/// The body of the response to an unsuccessful request.
#[derive(Debug, Clone, PartialEq, Eq)]
pub struct ErrorResponse {
    pub error_code: String,
    pub error_message: String,
}

impl ApiError {
    /// The error for a path parameter that could not be read.
    pub fn bad_path(reason: &str) -> (error: ApiError)
        ensures
            error@ == ApiErrorView::BadRequest(reason@),
    {
        ApiError::BadRequest(String::from_str(reason))
    }

    /// The error for a connection that could not be had from the pool.
    pub fn no_connection(reason: &str) -> (error: ApiError)
        ensures
            error@ == ApiErrorView::ServiceUnavailable("failed to get connection: "@ + reason@),
    {
        ApiError::ServiceUnavailable(
            String::from_str("failed to get connection: ").concat(reason),
        )
    }

    /// The error for a stored row that does not decode: nothing of the row
    /// is told.
    pub fn corrupt_row(error: crate::models::CodecError) -> (api_error: ApiError)
        ensures
            api_error@ == ApiErrorView::InternalServerError,
    {
        ApiError::InternalServerError
    }

    /// The error for a route that is not known.
    pub fn fallback() -> (error: ApiError)
        ensures
            error@ == ApiErrorView::Forbidden,
    {
        ApiError::Forbidden
    }

    /// The HTTP status code that the error is answered with.
    pub fn status_code(&self) -> (code: u16)
        ensures
            code == status_of(self@),
    {
        match self {
            ApiError::BadRequest(_) => 400,
            ApiError::ServiceUnavailable(_) => 503,
            ApiError::InternalServerError => 500,
            ApiError::Forbidden => 403,
        }
    }

    /// The short text of the error.
    pub fn message(&self) -> (text: String)
        ensures
            text@ == message_of(self@),
    {
        match self {
            ApiError::BadRequest(reason) => String::from_str("bad request: ").concat(
                reason.as_str(),
            ),
            ApiError::ServiceUnavailable(reason) => String::from_str(
                "service unavailable: ",
            ).concat(reason.as_str()),
            ApiError::InternalServerError => String::from_str("internal server error"),
            ApiError::Forbidden => String::from_str("forbidden"),
        }
    }

    /// The status code and the body that the error is answered with: the
    /// body carries the code in decimal and the short text of the error.
    pub fn into_response(self) -> (response: (u16, ErrorResponse))
        ensures
            response.0 == status_of(self@),
            response.1.error_code@ == status_text_of(self@),
            response.1.error_message@ == message_of(self@),
    {
        let status_code = self.status_code();
        let error_code = match self {
            ApiError::BadRequest(_) => String::from_str("400"),
            ApiError::ServiceUnavailable(_) => String::from_str("503"),
            ApiError::InternalServerError => String::from_str("500"),
            ApiError::Forbidden => String::from_str("403"),
        };
        let error_message = self.message();
        (status_code, ErrorResponse { error_code, error_message })
    }
}

} // verus!
