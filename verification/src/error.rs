//! The errors that the client reports.

use vstd::prelude::*;

use crate::text::concat2;

verus! {

pub type AppResult<T> = Result<T, AppError>;

#[derive(Debug)]
pub enum AppError {
    Configuration(String),
    Api(String),
    Cancelled,
    Timeout,
    NotAuthenticated,
    Certificate(String),
    Internal,
}

/// An error with its message as a sequence of characters.
#[verifier::ext_equal]
pub enum ErrorView {
    Configuration(Seq<char>),
    Api(Seq<char>),
    Cancelled,
    Timeout,
    NotAuthenticated,
    Certificate(Seq<char>),
    Internal,
}

impl View for AppError {
    type V = ErrorView;

    open spec fn view(&self) -> ErrorView {
        match self {
            AppError::Configuration(m) => ErrorView::Configuration(m@),
            AppError::Api(m) => ErrorView::Api(m@),
            AppError::Cancelled => ErrorView::Cancelled,
            AppError::Timeout => ErrorView::Timeout,
            AppError::NotAuthenticated => ErrorView::NotAuthenticated,
            AppError::Certificate(m) => ErrorView::Certificate(m@),
            AppError::Internal => ErrorView::Internal,
        }
    }
}

impl ErrorView {
    /// The sentence that the user reads.
    pub open spec fn message(self) -> Seq<char> {
        match self {
            ErrorView::Configuration(m) => "Configuration error: "@ + m,
            ErrorView::Api(m) => "OpenBao request failed: "@ + m,
            ErrorView::Cancelled => "Authentication was cancelled"@,
            ErrorView::Timeout => "Authentication timed out"@,
            ErrorView::NotAuthenticated => "You must sign in first"@,
            ErrorView::Certificate(m) => "Certificate operation failed: "@ + m,
            ErrorView::Internal => "Internal error"@,
        }
    }
}

impl AppError {
    /// The sentence that the user reads.
    pub fn message(&self) -> (r: String)
        ensures
            r@ == self@.message(),
    {
        match self {
            AppError::Configuration(m) => concat2("Configuration error: ", m.as_str()),
            AppError::Api(m) => concat2("OpenBao request failed: ", m.as_str()),
            AppError::Cancelled => "Authentication was cancelled".to_owned(),
            AppError::Timeout => "Authentication timed out".to_owned(),
            AppError::NotAuthenticated => "You must sign in first".to_owned(),
            AppError::Certificate(m) => concat2("Certificate operation failed: ", m.as_str()),
            AppError::Internal => "Internal error".to_owned(),
        }
    }
}

/// An outcome with its error as a view.
pub open spec fn outcome<T>(r: AppResult<T>) -> Result<T, ErrorView> {
    match r {
        Ok(value) => Ok(value),
        Err(e) => Err(e@),
    }
}

/// An outcome with its value and its error as views.
pub open spec fn view_outcome<T: View>(r: AppResult<T>) -> Result<T::V, ErrorView> {
    match r {
        Ok(value) => Ok(value@),
        Err(e) => Err(e@),
    }
}

pub fn configuration_error(message: &str) -> (r: AppError)
    ensures
        r@ == ErrorView::Configuration(message@),
{
    AppError::Configuration(message.to_owned())
}

pub fn api_error(message: &str) -> (r: AppError)
    ensures
        r@ == ErrorView::Api(message@),
{
    AppError::Api(message.to_owned())
}

pub fn certificate_error(message: &str) -> (r: AppError)
    ensures
        r@ == ErrorView::Certificate(message@),
{
    AppError::Certificate(message.to_owned())
}

/// What a failed HTTP exchange is reported as.
pub open spec fn transport_view(timed_out: bool, connecting: bool) -> ErrorView {
    ErrorView::Api(
        if timed_out {
            "request timed out"@
        } else if connecting {
            "connection failed"@
        } else {
            "unexpected HTTP error"@
        },
    )
}

/// What a failed HTTP exchange is reported as: a timeout, a failed connection,
/// or neither.
pub fn transport_error(timed_out: bool, connecting: bool) -> (r: AppError)
    ensures
        r@ == transport_view(timed_out, connecting),
        r@ == ErrorView::Api(
            if timed_out {
                "request timed out"@
            } else if connecting {
                "connection failed"@
            } else {
                "unexpected HTTP error"@
            },
        ),
{
    if timed_out {
        api_error("request timed out")
    } else if connecting {
        api_error("connection failed")
    } else {
        api_error("unexpected HTTP error")
    }
}

/// A message says what kind of error it is, and then what the error itself
/// says.
pub proof fn law_messages_name_the_kind_of_error(m: Seq<char>)
    ensures
        ErrorView::Configuration(m).message() == "Configuration error: "@ + m,
        ErrorView::Api(m).message() == "OpenBao request failed: "@ + m,
        ErrorView::Certificate(m).message() == "Certificate operation failed: "@ + m,
        ErrorView::Cancelled.message() == "Authentication was cancelled"@,
        ErrorView::Timeout.message() == "Authentication timed out"@,
        ErrorView::NotAuthenticated.message() == "You must sign in first"@,
        ErrorView::Internal.message() == "Internal error"@,
{
}

/// A timeout is reported as one even where it struck while connecting.
pub proof fn law_timeouts_come_before_failed_connections(connecting: bool)
    ensures
        transport_view(true, connecting) == ErrorView::Api("request timed out"@),
        transport_view(false, true) == ErrorView::Api("connection failed"@),
        transport_view(false, false) == ErrorView::Api("unexpected HTTP error"@),
{
}

} // verus!
