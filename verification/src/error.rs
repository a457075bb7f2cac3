//! The errors that the gateway answers with.

use crate::text::text_option;
use vstd::prelude::*;

verus! {

/// What went wrong.
#[derive(Clone, Copy, Debug, PartialEq, Eq, Structural)]
pub enum ApiErrorKind {
    /// The upstream service, or the way to it, failed.
    Upstream,
    /// The gateway itself failed.
    Server,
    /// What was asked for is not there.
    NotFound,
    /// The request is not acceptable.
    InvalidRequest,
}

/// An error with its message, and the parameter and code that it may name.
#[derive(Clone, Debug)]
pub struct ApiError {
    pub kind: ApiErrorKind,
    pub message: String,
    pub param: Option<String>,
    pub code: Option<String>,
}

/// The plain form of an [`ApiError`].
pub struct ApiErrorView {
    pub kind: ApiErrorKind,
    pub message: Seq<char>,
    pub param: Option<Seq<char>>,
    pub code: Option<Seq<char>>,
}

impl View for ApiError {
    type V = ApiErrorView;

    open spec fn view(&self) -> ApiErrorView {
        ApiErrorView {
            kind: self.kind,
            message: self.message@,
            param: text_option(self.param),
            code: text_option(self.code),
        }
    }
}

/// The error of a kind with a message and nothing else.
pub open spec fn plain_error(kind: ApiErrorKind, message: Seq<char>) -> ApiErrorView {
    ApiErrorView { kind, message, param: None, code: None }
}

/// The upstream error with a message.
pub open spec fn upstream_error(message: Seq<char>) -> ApiErrorView {
    plain_error(ApiErrorKind::Upstream, message)
}

/// The server error with a message.
pub open spec fn server_error(message: Seq<char>) -> ApiErrorView {
    plain_error(ApiErrorKind::Server, message)
}

/// The not-found error with a message.
pub open spec fn not_found_error(message: Seq<char>) -> ApiErrorView {
    plain_error(ApiErrorKind::NotFound, message)
}

/// The invalid-request error with a message.
pub open spec fn invalid_request_error(message: Seq<char>) -> ApiErrorView {
    plain_error(ApiErrorKind::InvalidRequest, message)
}

impl ApiError {
    fn plain(kind: ApiErrorKind, message: String) -> (r: ApiError)
        ensures
            r@ == plain_error(kind, message@),
    {
        ApiError { kind, message, param: None, code: None }
    }

    /// A failure of the upstream service.
    pub fn upstream(message: String) -> (r: ApiError)
        ensures
            r@ == upstream_error(message@),
    {
        ApiError::plain(ApiErrorKind::Upstream, message)
    }

    /// A failure of the gateway.
    pub fn server(message: String) -> (r: ApiError)
        ensures
            r@ == server_error(message@),
    {
        ApiError::plain(ApiErrorKind::Server, message)
    }

    /// Something that is not there.
    pub fn not_found(message: String) -> (r: ApiError)
        ensures
            r@ == not_found_error(message@),
    {
        ApiError::plain(ApiErrorKind::NotFound, message)
    }

    /// A request that is not acceptable.
    pub fn invalid_request(message: String) -> (r: ApiError)
        ensures
            r@ == invalid_request_error(message@),
    {
        ApiError::plain(ApiErrorKind::InvalidRequest, message)
    }

    /// The error with the parameter that it is about.
    pub fn with_param(self, param: &str) -> (r: ApiError)
        ensures
            r@ == (ApiErrorView { param: Some(param@), ..self@ }),
    {
        ApiError { param: Some(param.to_string()), ..self }
    }

    /// The error with a code for programs.
    pub fn with_code(self, code: &str) -> (r: ApiError)
        ensures
            r@ == (ApiErrorView { code: Some(code@), ..self@ }),
    {
        ApiError { code: Some(code.to_string()), ..self }
    }
}

/// An error has the kind that it is made for and its message, and names no
/// parameter and no code.
pub proof fn law_error_kinds(message: String, r: ApiError)
    ensures
        call_ensures(ApiError::upstream, (message,), r) ==> r.kind == ApiErrorKind::Upstream,
        call_ensures(ApiError::server, (message,), r) ==> r.kind == ApiErrorKind::Server,
        call_ensures(ApiError::not_found, (message,), r) ==> r.kind == ApiErrorKind::NotFound,
        call_ensures(ApiError::invalid_request, (message,), r) ==> r.kind
            == ApiErrorKind::InvalidRequest,
        call_ensures(ApiError::upstream, (message,), r) || call_ensures(
            ApiError::server,
            (message,),
            r,
        ) || call_ensures(ApiError::not_found, (message,), r) || call_ensures(
            ApiError::invalid_request,
            (message,),
            r,
        ) ==> r.message@ == message@ && r.param is None && r.code is None,
        forall|m: Seq<char>| (#[trigger] upstream_error(m)).message == m,
        forall|m: Seq<char>| (#[trigger] server_error(m)).message == m,
        forall|m: Seq<char>| (#[trigger] not_found_error(m)).message == m,
        forall|m: Seq<char>| (#[trigger] invalid_request_error(m)).message == m,
        forall|m: Seq<char>| (#[trigger] upstream_error(m)).kind == ApiErrorKind::Upstream,
        forall|m: Seq<char>| (#[trigger] server_error(m)).kind == ApiErrorKind::Server,
        forall|m: Seq<char>| (#[trigger] not_found_error(m)).kind == ApiErrorKind::NotFound,
        forall|m: Seq<char>|
            (#[trigger] invalid_request_error(m)).kind == ApiErrorKind::InvalidRequest,
{
}

/// A parameter and a code are added to an error that otherwise stays as it is.
pub proof fn law_error_details(e: ApiError, text: &str, r: ApiError)
    ensures
        call_ensures(ApiError::with_param, (e, text), r) ==> r.kind == e.kind && r.message@
            == e.message@ && text_option(r.param) == Some(text@) && text_option(r.code)
            == text_option(e.code),
        call_ensures(ApiError::with_code, (e, text), r) ==> r.kind == e.kind && r.message@
            == e.message@ && text_option(r.code) == Some(text@) && text_option(r.param)
            == text_option(e.param),
{
}

} // verus!
