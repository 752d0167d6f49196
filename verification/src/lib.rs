//! Declarative HTTP service descriptions, compiled into request templates and
//! bound to outbound requests.

use vstd::prelude::*;

use crate::error::{DefinitionError, DefinitionErrorView};
use crate::header::{parse_headers, HeaderView, Headers};
use crate::meta::{views, Entry, ExprView, Interface, MethodDecl};
use crate::request::{
    parse_args, parse_http, parse_path, path_literal, view_result, ArgView, Args, Http, HttpView,
};
use crate::response::parse_response;
use crate::service::{defined, ServiceDefinition};

pub mod text;
pub mod error;
pub mod meta;
pub mod request;
pub mod header;
pub mod template;
pub mod encode;
pub mod response;
pub mod service;
pub mod binder;
pub mod lifecycle;

verus! {

/// A request that is ready to be sent and can hand back its outcome later.
pub trait AsyncCall<T> {
    type Error: Send + Sync;

    type Future: std::future::Future<Output = Result<T, Self::Error>>;

    fn async_send(self) -> Self::Future;
}

/// A request that is ready to be sent: sending it gives the decoded result
/// or the call's error.
pub trait Call<T>: AsyncCall<T> {
    fn send(self) -> Result<T, Self::Error>;
}

/// What a service is able to carry: its error type, its body type and its
/// multipart form type.
pub trait Service {
    type Error: Send + Sync;

    type Body;

    type Form;
}

/// Compiles an annotated interface into a service, given the entries of
/// its service annotation.
pub fn service(attr: &Vec<Entry>, item: Interface) -> (r: Result<
    ServiceDefinition,
    DefinitionError,
>)
    ensures
        view_result(r) == match parse_args(views(attr@)) {
            Err(e) => Err(e),
            Ok(args) => defined(args, item@),
        },
        r matches Ok(definition) ==> definition@.well_formed(),
{
    match Args::parse(attr) {
        Err(e) => Err(e),
        Ok(args) => crate::service::service(args, item),
    }
}

/// Checks the entries of a client annotation: they must declare
/// arguments. The interface is handed back as it is.
pub fn client(attr: &Vec<Entry>, item: Interface) -> (r: Result<Interface, DefinitionError>)
    ensures
        match r {
            Ok(same) => parse_args(views(attr@)) is Ok && same == item,
            Err(e) => parse_args(views(attr@)) == Err::<Seq<ArgView>, DefinitionErrorView>(e@),
        },
{
    match Args::parse(attr) {
        Err(e) => Err(e),
        Ok(args) => crate::service::client(args, item),
    }
}

/// Checks the entries of an annotation of default headers: they must
/// declare headers. The interface is handed back as it is.
pub fn default_headers(attr: &Vec<Entry>, item: Interface) -> (r: Result<
    Interface,
    DefinitionError,
>)
    ensures
        match r {
            Ok(same) => parse_headers(views(attr@)) is Ok && same == item,
            Err(e) => parse_headers(views(attr@)) == Err::<Seq<HeaderView>, DefinitionErrorView>(
                e@,
            ),
        },
{
    match Headers::parse(attr) {
        Err(e) => Err(e),
        Ok(headers) => crate::header::default_headers(headers, item),
    }
}

/// Checks the entries of a GET annotation: they must be one text
/// literal, the path template. The method is handed back as it is.
pub fn get(attr: &Vec<Entry>, item: MethodDecl) -> (r: Result<MethodDecl, DefinitionError>)
    ensures
        match r {
            Ok(same) => parse_path(views(attr@)) is Ok && same == item,
            Err(e) => parse_path(views(attr@)) == Err::<Seq<char>, DefinitionErrorView>(e@),
        },
{
    match path_literal(attr) {
        Err(e) => Err(e),
        Ok(path) => crate::request::request(path.as_str(), item),
    }
}

/// Checks the entries of a HEAD annotation: they must be one text
/// literal, the path template. The method is handed back as it is.
pub fn head(attr: &Vec<Entry>, item: MethodDecl) -> (r: Result<MethodDecl, DefinitionError>)
    ensures
        match r {
            Ok(same) => parse_path(views(attr@)) is Ok && same == item,
            Err(e) => parse_path(views(attr@)) == Err::<Seq<char>, DefinitionErrorView>(e@),
        },
{
    match path_literal(attr) {
        Err(e) => Err(e),
        Ok(path) => crate::request::request(path.as_str(), item),
    }
}

/// Checks the entries of a POST annotation: they must be one text
/// literal, the path template. The method is handed back as it is.
pub fn post(attr: &Vec<Entry>, item: MethodDecl) -> (r: Result<MethodDecl, DefinitionError>)
    ensures
        match r {
            Ok(same) => parse_path(views(attr@)) is Ok && same == item,
            Err(e) => parse_path(views(attr@)) == Err::<Seq<char>, DefinitionErrorView>(e@),
        },
{
    match path_literal(attr) {
        Err(e) => Err(e),
        Ok(path) => crate::request::request(path.as_str(), item),
    }
}

/// Checks the entries of a PUT annotation: they must be one text
/// literal, the path template. The method is handed back as it is.
pub fn put(attr: &Vec<Entry>, item: MethodDecl) -> (r: Result<MethodDecl, DefinitionError>)
    ensures
        match r {
            Ok(same) => parse_path(views(attr@)) is Ok && same == item,
            Err(e) => parse_path(views(attr@)) == Err::<Seq<char>, DefinitionErrorView>(e@),
        },
{
    match path_literal(attr) {
        Err(e) => Err(e),
        Ok(path) => crate::request::request(path.as_str(), item),
    }
}

/// Checks the entries of a PATCH annotation: they must be one text
/// literal, the path template. The method is handed back as it is.
pub fn patch(attr: &Vec<Entry>, item: MethodDecl) -> (r: Result<MethodDecl, DefinitionError>)
    ensures
        match r {
            Ok(same) => parse_path(views(attr@)) is Ok && same == item,
            Err(e) => parse_path(views(attr@)) == Err::<Seq<char>, DefinitionErrorView>(e@),
        },
{
    match path_literal(attr) {
        Err(e) => Err(e),
        Ok(path) => crate::request::request(path.as_str(), item),
    }
}

/// Checks the entries of a DELETE annotation: they must be one text
/// literal, the path template. The method is handed back as it is.
pub fn delete(attr: &Vec<Entry>, item: MethodDecl) -> (r: Result<MethodDecl, DefinitionError>)
    ensures
        match r {
            Ok(same) => parse_path(views(attr@)) is Ok && same == item,
            Err(e) => parse_path(views(attr@)) == Err::<Seq<char>, DefinitionErrorView>(e@),
        },
{
    match path_literal(attr) {
        Err(e) => Err(e),
        Ok(path) => crate::request::request(path.as_str(), item),
    }
}

/// Checks the entries of a TRACE annotation: they must be one text
/// literal, the path template. The method is handed back as it is.
pub fn trace(attr: &Vec<Entry>, item: MethodDecl) -> (r: Result<MethodDecl, DefinitionError>)
    ensures
        match r {
            Ok(same) => parse_path(views(attr@)) is Ok && same == item,
            Err(e) => parse_path(views(attr@)) == Err::<Seq<char>, DefinitionErrorView>(e@),
        },
{
    match path_literal(attr) {
        Err(e) => Err(e),
        Ok(path) => crate::request::request(path.as_str(), item),
    }
}

/// Checks the entries of a OPTIONS annotation: they must be one text
/// literal, the path template. The method is handed back as it is.
pub fn options(attr: &Vec<Entry>, item: MethodDecl) -> (r: Result<MethodDecl, DefinitionError>)
    ensures
        match r {
            Ok(same) => parse_path(views(attr@)) is Ok && same == item,
            Err(e) => parse_path(views(attr@)) == Err::<Seq<char>, DefinitionErrorView>(e@),
        },
{
    match path_literal(attr) {
        Err(e) => Err(e),
        Ok(path) => crate::request::request(path.as_str(), item),
    }
}

/// Checks the entries of a custom verb annotation: they must be a token
/// and a path template. The method is handed back as it is.
pub fn http(attr: &Vec<Entry>, item: MethodDecl) -> (r: Result<MethodDecl, DefinitionError>)
    ensures
        match r {
            Ok(same) => parse_http(views(attr@)) is Ok && same == item,
            Err(e) => parse_http(views(attr@)) == Err::<HttpView, DefinitionErrorView>(e@),
        },
{
    match Http::parse(attr) {
        Err(e) => Err(e),
        Ok(verb) => crate::request::http(verb, item),
    }
}

/// Checks the entries of an annotation of arguments: they must declare
/// arguments. The method is handed back as it is.
pub fn args(attr: &Vec<Entry>, item: MethodDecl) -> (r: Result<MethodDecl, DefinitionError>)
    ensures
        match r {
            Ok(same) => parse_args(views(attr@)) is Ok && same == item,
            Err(e) => parse_args(views(attr@)) == Err::<Seq<ArgView>, DefinitionErrorView>(e@),
        },
{
    match Args::parse(attr) {
        Err(e) => Err(e),
        Ok(found) => crate::request::args(found, item),
    }
}

/// Checks the entries of an annotation of headers: they must declare
/// headers. The method is handed back as it is.
pub fn headers(attr: &Vec<Entry>, item: MethodDecl) -> (r: Result<MethodDecl, DefinitionError>)
    ensures
        match r {
            Ok(same) => parse_headers(views(attr@)) is Ok && same == item,
            Err(e) => parse_headers(views(attr@)) == Err::<Seq<HeaderView>, DefinitionErrorView>(
                e@,
            ),
        },
{
    match Headers::parse(attr) {
        Err(e) => Err(e),
        Ok(found) => crate::header::headers(found, item),
    }
}

/// Checks the entries of an annotation of request options: they must
/// declare arguments. The method is handed back as it is.
pub fn request(attr: &Vec<Entry>, item: MethodDecl) -> (r: Result<MethodDecl, DefinitionError>)
    ensures
        match r {
            Ok(same) => parse_args(views(attr@)) is Ok && same == item,
            Err(e) => parse_args(views(attr@)) == Err::<Seq<ArgView>, DefinitionErrorView>(e@),
        },
{
    match Args::parse(attr) {
        Err(e) => Err(e),
        Ok(found) => crate::request::args(found, item),
    }
}

/// Checks the entries of a response annotation: they must be one
/// expression. The method is handed back as it is.
pub fn response(attr: &Vec<Entry>, item: MethodDecl) -> (r: Result<MethodDecl, DefinitionError>)
    ensures
        match r {
            Ok(same) => parse_response(views(attr@)) is Ok && same == item,
            Err(e) => parse_response(views(attr@)) == Err::<ExprView, DefinitionErrorView>(e@),
        },
{
    match crate::response::decode_expr(attr) {
        Err(e) => Err(e),
        Ok(expr) => crate::response::response(expr, item),
    }
}

} // verus!
