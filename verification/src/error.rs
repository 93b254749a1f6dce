//! Errors of the request parser.
//!
//! An error is either about one method call, which is then recorded in the
//! batch as a failed call, or about the request as a whole, which fails it.

use vstd::prelude::*;
use vstd::string::*;

verus! {

/// The limit that a request went over.
#[derive(Clone, Copy, Debug, PartialEq, Eq, Structural)]
pub enum RequestLimitError {
    /// The request is longer than the largest request accepted.
    Size,
    /// The request holds more method calls than one request may.
    CallsIn,
}

/// What went wrong with one method call.
#[derive(Clone, Debug)]
pub enum MethodError {
    /// The call names no method that the server knows; holds the name.
    UnknownMethod(String),
    /// The arguments of the call cannot be read as the method's arguments.
    InvalidArguments,
}

/// What went wrong with a request as a whole.
#[derive(Clone, Debug)]
pub enum RequestError {
    /// The bytes are not JSON, or nest too deeply.
    Malformed,
    /// The JSON is not a request; holds the reason.
    NotRequest(String),
    /// The request is over one of the server's limits.
    Limit(RequestLimitError),
}

/// An error met while parsing.
#[derive(Clone, Debug)]
pub enum Error {
    Request(RequestError),
    Method(MethodError),
}

/// The mathematical value of a [`MethodError`].
pub enum MethodErrorView {
    UnknownMethod(Seq<char>),
    InvalidArguments,
}

/// The mathematical value of a [`RequestError`].
pub enum RequestErrorView {
    Malformed,
    NotRequest(Seq<char>),
    Limit(RequestLimitError),
}

/// The mathematical value of an [`Error`].
pub enum ErrorView {
    Request(RequestErrorView),
    Method(MethodErrorView),
}

impl View for MethodError {
    type V = MethodErrorView;

    open spec fn view(&self) -> MethodErrorView {
        match self {
            MethodError::UnknownMethod(name) => MethodErrorView::UnknownMethod(name@),
            MethodError::InvalidArguments => MethodErrorView::InvalidArguments,
        }
    }
}

impl View for RequestError {
    type V = RequestErrorView;

    open spec fn view(&self) -> RequestErrorView {
        match self {
            RequestError::Malformed => RequestErrorView::Malformed,
            RequestError::NotRequest(detail) => RequestErrorView::NotRequest(detail@),
            RequestError::Limit(limit) => RequestErrorView::Limit(*limit),
        }
    }
}

impl View for Error {
    type V = ErrorView;

    open spec fn view(&self) -> ErrorView {
        match self {
            Error::Request(err) => ErrorView::Request(err@),
            Error::Method(err) => ErrorView::Method(err@),
        }
    }
}

/// The error of a request that is not JSON.
pub open spec fn malformed() -> ErrorView {
    ErrorView::Request(RequestErrorView::Malformed)
}

/// The error of a request whose JSON has another shape than a request's.
pub open spec fn not_request() -> ErrorView {
    ErrorView::Request(RequestErrorView::NotRequest("Invalid JMAP request"@))
}

/// The error of a call whose arguments cannot be read.
pub open spec fn invalid_arguments() -> ErrorView {
    ErrorView::Method(MethodErrorView::InvalidArguments)
}

/// The error of a call that names the unknown method `name`.
pub open spec fn unknown_method(name: Seq<char>) -> ErrorView {
    ErrorView::Method(MethodErrorView::UnknownMethod(name))
}

/// The text that describes a method error.
pub open spec fn method_error_text(err: MethodErrorView) -> Seq<char> {
    match err {
        MethodErrorView::UnknownMethod(name) => "Unknown method: "@ + name,
        MethodErrorView::InvalidArguments => "Invalid arguments"@,
    }
}

/// The request error that an error stands for: a request error is itself,
/// and a method error met outside any call means that the JSON is no request.
pub open spec fn as_request_error(err: ErrorView) -> RequestErrorView {
    match err {
        ErrorView::Request(err) => err,
        ErrorView::Method(err) => RequestErrorView::NotRequest(method_error_text(err)),
    }
}

impl MethodError {
    /// The text that describes the error.
    pub fn to_string(&self) -> (text: String)
        ensures
            text@ == method_error_text(self@),
    {
        match self {
            MethodError::UnknownMethod(name) => {
                String::from_str("Unknown method: ").concat(name.as_str())
            },
            MethodError::InvalidArguments => String::from_str("Invalid arguments"),
        }
    }
}

impl RequestError {
    /// The error of a request over `limit`.
    pub fn limit(limit: RequestLimitError) -> (err: RequestError)
        ensures
            err@ == RequestErrorView::Limit(limit),
    {
        RequestError::Limit(limit)
    }

    /// The error of JSON that is no request, with the reason `detail`.
    pub fn not_request(detail: &str) -> (err: RequestError)
        ensures
            err@ == RequestErrorView::NotRequest(detail@),
    {
        RequestError::NotRequest(String::from_str(detail))
    }

    /// The request error that `value` stands for.
    pub fn from(value: Error) -> (err: RequestError)
        ensures
            err@ == as_request_error(value@),
    {
        match value {
            Error::Request(err) => err,
            Error::Method(err) => RequestError::NotRequest(err.to_string()),
        }
    }

    /// Whether the error is that the request is not JSON.
    pub fn is_malformed(&self) -> (b: bool)
        ensures
            b == (self@ == RequestErrorView::Malformed),
    {
        match self {
            RequestError::Malformed => true,
            _ => false,
        }
    }
}

impl Error {
    /// The error of bytes that are not JSON.
    pub fn malformed() -> (err: Error)
        ensures
            err@ == malformed(),
    {
        Error::Request(RequestError::Malformed)
    }

    /// The error of JSON with another shape than a request's.
    pub fn not_request() -> (err: Error)
        ensures
            err@ == not_request(),
    {
        Error::Request(RequestError::not_request("Invalid JMAP request"))
    }

    /// The error of a call whose arguments cannot be read.
    pub fn invalid_arguments() -> (err: Error)
        ensures
            err@ == invalid_arguments(),
    {
        Error::Method(MethodError::InvalidArguments)
    }
}

/// The mathematical value of a result: the value's view, or the error's.
pub open spec fn result_view<T: View>(r: Result<T, Error>) -> Result<T::V, ErrorView> {
    match r {
        Ok(v) => Ok(v@),
        Err(e) => Err(e@),
    }
}

} // verus!
