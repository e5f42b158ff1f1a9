//! HTTP requests.

use axum::body::Body;
use axum::http::{Method, Request, Uri};
use vstd::prelude::*;

verus! {

/// A request.
#[verifier::external_type_specification]
#[verifier::external_body]
#[verifier::reject_recursive_types(T)]
pub struct ExRequest<T>(axum::http::Request<T>);

/// The body of a request.
#[verifier::external_type_specification]
#[verifier::external_body]
pub struct ExBody(axum::body::Body);

/// The method of a request.
#[verifier::external_type_specification]
#[verifier::external_body]
pub struct ExMethod(axum::http::Method);

/// The target of a request.
#[verifier::external_type_specification]
#[verifier::external_body]
pub struct ExUri(axum::http::Uri);

/// The method of a request.
pub uninterp spec fn request_method(request: Request<Body>) -> Method;

/// Calls `Request::method`: a function of the request.
#[verifier::external_body]
pub(crate) fn get_method(request: &Request<Body>) -> (method: &Method)
    ensures
        *method == request_method(*request),
{
    request.method()
}

/// The name of a method, such as `GET`.
pub uninterp spec fn method_name(method: Method) -> Seq<char>;

/// Calls `Method::as_str`: the name, a function of the method.
#[verifier::external_body]
pub(crate) fn get_method_name(method: &Method) -> (name: &str)
    ensures
        name@ == method_name(*method),
{
    method.as_str()
}

/// The target of a request.
pub uninterp spec fn request_uri(request: Request<Body>) -> Uri;

/// Calls `Request::uri`: a function of the request.
#[verifier::external_body]
pub(crate) fn get_uri(request: &Request<Body>) -> (uri: &Uri)
    ensures
        *uri == request_uri(*request),
{
    request.uri()
}

/// The path of a target.
pub uninterp spec fn uri_path(uri: Uri) -> Seq<char>;

/// Calls `Uri::path`: a function of the target.
#[verifier::external_body]
pub(crate) fn get_path(uri: &Uri) -> (path: &str)
    ensures
        path@ == uri_path(*uri),
{
    uri.path()
}

/// The query string of a target, if it has one.
pub uninterp spec fn uri_query(uri: Uri) -> Option<Seq<char>>;

/// Calls `Uri::query`: a function of the target.
#[verifier::external_body]
pub(crate) fn get_query(uri: &Uri) -> (query: Option<&str>)
    ensures
        query is Some <==> uri_query(*uri) is Some,
        query matches Some(found) ==> uri_query(*uri) == Some(found@),
{
    uri.query()
}

} // verus!
