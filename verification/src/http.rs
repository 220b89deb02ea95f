use std::sync::{Arc, Mutex};

use vstd::prelude::*;

use crate::arguments::{ArgumentValue, Arguments};
use crate::routing::RoutedInterface;
use crate::wasi::markers;
use crate::types::{Call, Direction, Failure};

verus! {

#[verifier::external_type_specification]
#[verifier::external_body]
pub struct ExHttpError(wasmtime_wasi_http::Error);

#[verifier::external_type_specification]
#[verifier::external_body]
pub struct ExParts(http::request::Parts);

#[verifier::external_type_specification]
#[verifier::external_body]
#[verifier::reject_recursive_types(T)]
pub struct ExMutex<T: ?Sized>(Mutex<T>);

/// Puts `value` behind a new lock (`Mutex::new`).
#[verifier::external_body]
fn new_mutex<T>(value: T) -> Mutex<T> {
    Mutex::new(value)
}

/// The synthetic function name used for complete outgoing requests.
pub const SEND_REQUEST: &'static str = "[send-request]";

/// The pseudo-interface used for complete outgoing request hooks.
///
/// Wasmtime uses the same hook for Preview 2 and Preview 3, so this name is
/// deliberately outside both versions' real interface sets.
pub const REQUEST_HOOK_INTERFACE: &'static str = "wasi:http/request-hook";

/// The interfaces routed by the Preview 2 HTTP gates.
pub fn http_p2_routed_interfaces() -> (routed: Vec<RoutedInterface>)
    ensures
        routed@.len() == 2,
        routed@[0]@ == "wasi:http/outgoing-handler"@,
        routed@[1]@ == "wasi:http/types"@,
{
    let names: [&'static str; 2] = ["wasi:http/outgoing-handler", "wasi:http/types"];
    markers(names.as_slice())
}

/// The interfaces routed by the Preview 3 HTTP gates.
pub fn http_p3_routed_interfaces() -> (routed: Vec<RoutedInterface>)
    ensures
        routed@.len() == 2,
        routed@[0]@ == "wasi:http/client"@,
        routed@[1]@ == "wasi:http/types"@,
{
    let names: [&'static str; 2] = ["wasi:http/client", "wasi:http/types"];
    markers(names.as_slice())
}

/// The text `String::from_utf8_lossy` decodes from `bytes`: the UTF-8 text
/// they hold, with each invalid sequence replaced by U+FFFD.
pub uninterp spec fn utf8_lossy(bytes: Seq<u8>) -> Seq<char>;

/// Decodes `bytes` as UTF-8, replacing invalid sequences
/// (`String::from_utf8_lossy`).
#[verifier::external_body]
fn lossy_text(bytes: &[u8]) -> (text: String)
    ensures
        text@ == utf8_lossy(bytes@),
{
    String::from_utf8_lossy(bytes).into_owned()
}

/// The method of a request with the head `parts` (`Parts::method`), as
/// text.
pub uninterp spec fn method_of(parts: http::request::Parts) -> Seq<char>;

/// The scheme of the URI of a request with the head `parts`
/// (`Uri::scheme_str`), if it has one.
pub uninterp spec fn scheme_of(parts: http::request::Parts) -> Option<Seq<char>>;

/// The authority of the URI of a request with the head `parts`
/// (`Uri::authority`), if it has one.
pub uninterp spec fn authority_of(parts: http::request::Parts) -> Option<Seq<char>>;

/// The path and query of the URI of a request with the head `parts`
/// (`Uri::path_and_query`), if it has one.
pub uninterp spec fn path_of(parts: http::request::Parts) -> Option<Seq<char>>;

/// The header names and raw values of a request with the head `parts`
/// (`Parts::headers`), in the order the header map iterates them.
pub uninterp spec fn headers_of(parts: http::request::Parts) -> Seq<(Seq<char>, Seq<u8>)>;

/// The characters of an optional text.
pub open spec fn option_text(part: Option<String>) -> Option<Seq<char>> {
    match part {
        Some(text) => Some(text@),
        None => None,
    }
}

/// The characters and bytes of each header.
pub open spec fn header_views(headers: Seq<(String, Vec<u8>)>) -> Seq<(Seq<char>, Seq<u8>)> {
    headers.map_values(|header: (String, Vec<u8>)| (header.0@, header.1@))
}

/// The request's method (`Parts::method`), as text.
#[verifier::external_body]
fn request_method(parts: &http::request::Parts) -> (method: String)
    ensures
        method@ == method_of(*parts),
{
    parts.method.as_str().to_owned()
}

/// The request URI's scheme (`Uri::scheme_str`), if it has one.
#[verifier::external_body]
fn request_scheme(parts: &http::request::Parts) -> (scheme: Option<String>)
    ensures
        option_text(scheme) == scheme_of(*parts),
{
    parts.uri.scheme_str().map(str::to_owned)
}

/// The request URI's authority (`Uri::authority`), if it has one.
#[verifier::external_body]
fn request_authority(parts: &http::request::Parts) -> (authority: Option<String>)
    ensures
        option_text(authority) == authority_of(*parts),
{
    parts.uri.authority().map(|authority| authority.as_str().to_owned())
}

/// The request URI's path and query (`Uri::path_and_query`), if it has one.
#[verifier::external_body]
fn request_path(parts: &http::request::Parts) -> (path: Option<String>)
    ensures
        option_text(path) == path_of(*parts),
{
    parts.uri.path_and_query().map(|path| path.as_str().to_owned())
}

/// The request's header names and raw values, in order (`Parts::headers`).
#[verifier::external_body]
fn request_headers(parts: &http::request::Parts) -> (headers: Vec<(String, Vec<u8>)>)
    ensures
        header_views(headers@) == headers_of(*parts),
{
    parts.headers.iter().map(|(name, value)| (name.as_str().to_owned(), value.as_bytes().to_vec())).collect()
}

/// What middleware sees of an outgoing request.
pub struct RequestHead {
    /// The method, such as `GET`.
    pub method: String,
    /// The URI's scheme, if it has one.
    pub scheme: Option<String>,
    /// The URI's authority, if it has one.
    pub authority: Option<String>,
    /// The URI's path and query, if it has one.
    pub path: Option<String>,
    /// Header names and raw values, in order.
    pub headers: Vec<(String, Vec<u8>)>,
}

/// Whether `head` holds what the request with the head `parts` shows.
pub open spec fn head_of(head: RequestHead, parts: http::request::Parts) -> bool {
    &&& head.method@ == method_of(parts)
    &&& option_text(head.scheme) == scheme_of(parts)
    &&& option_text(head.authority) == authority_of(parts)
    &&& option_text(head.path) == path_of(parts)
    &&& header_views(head.headers@) == headers_of(parts)
}

/// Reads what middleware sees of the request with the head `parts`.
pub fn request_head(parts: &http::request::Parts) -> (head: RequestHead)
    ensures
        head_of(head, *parts),
{
    RequestHead {
        method: request_method(parts),
        scheme: request_scheme(parts),
        authority: request_authority(parts),
        path: request_path(parts),
        headers: request_headers(parts),
    }
}

/// The text of an optional URI part; a missing part is empty.
pub open spec fn part_text(part: Option<String>) -> Seq<char> {
    match part {
        Some(text) => text@,
        None => Seq::empty(),
    }
}

/// How a header is shown: its name, a colon and a space, then its value
/// decoded as UTF-8 with invalid sequences replaced.
pub open spec fn header_text(header: (String, Vec<u8>)) -> Seq<char> {
    header.0@ + seq![':', ' '] + utf8_lossy(header.1@)
}

/// Whether `value` is text holding `expected`.
pub open spec fn holds_text(value: ArgumentValue, expected: Seq<char>) -> bool {
    value matches ArgumentValue::String(text) && text@ == expected
}

/// Whether `arguments` are those of the request `head`: its method, scheme,
/// authority and path as text (a missing part as empty text), then its
/// headers as a list of texts.
pub open spec fn request_arguments_of(head: RequestHead, arguments: Seq<(Seq<char>, ArgumentValue)>) -> bool {
    &&& arguments.len() == 5
    &&& arguments[0].0 == "method"@ && holds_text(arguments[0].1, head.method@)
    &&& arguments[1].0 == "scheme"@ && holds_text(arguments[1].1, part_text(head.scheme))
    &&& arguments[2].0 == "authority"@ && holds_text(arguments[2].1, part_text(head.authority))
    &&& arguments[3].0 == "path"@ && holds_text(arguments[3].1, part_text(head.path))
    &&& arguments[4].0 == "headers"@
    &&& arguments[4].1 matches ArgumentValue::List(items) && {
        &&& items@.len() == head.headers@.len()
        &&& forall|i: int| 0 <= i < items@.len() ==> holds_text(#[trigger] items@[i], header_text(head.headers@[i]))
    }
}

fn part_value(part: &Option<String>) -> (value: ArgumentValue)
    ensures
        holds_text(value, part_text(*part)),
{
    match part {
        Some(text) => ArgumentValue::String(text.clone()),
        None => ArgumentValue::String(String::new()),
    }
}

/// Builds the arguments middleware sees for the request `head`.
pub fn head_arguments(head: &RequestHead) -> (arguments: Arguments)
    ensures
        request_arguments_of(*head, arguments.view()),
{
    let mut headers: Vec<ArgumentValue> = Vec::new();
    let mut i: usize = 0;
    while i < head.headers.len()
        invariant
            i <= head.headers@.len(),
            headers@.len() == i,
            forall|j: int| 0 <= j < i ==> holds_text(#[trigger] headers@[j], header_text(head.headers@[j])),
        decreases head.headers@.len() - i,
    {
        proof {
            reveal_strlit(": ");
        }
        let mut line = head.headers[i].0.clone();
        line.append(": ");
        let value = lossy_text(head.headers[i].1.as_slice());
        line.append(value.as_str());
        assert(line@ == header_text(head.headers@[i as int]));
        let ghost before = headers@;
        headers.push(ArgumentValue::String(line));
        assert(holds_text(headers@[i as int], header_text(head.headers@[i as int])));
        assert(forall|j: int| 0 <= j < i ==> headers@[j] == before[j]);
        i = i + 1;
    }
    proof {
        reveal_strlit("method");
        reveal_strlit("scheme");
        reveal_strlit("authority");
        reveal_strlit("path");
        reveal_strlit("headers");
    }
    let arguments = Arguments::new()
        .with_value("method", ArgumentValue::String(head.method.clone()))
        .with_value("scheme", part_value(&head.scheme))
        .with_value("authority", part_value(&head.authority))
        .with_value("path", part_value(&head.path))
        .with_value("headers", ArgumentValue::List(headers));
    arguments
}

/// Builds the arguments middleware sees for the request with the head
/// `parts`.
pub fn request_arguments(parts: &http::request::Parts) -> (arguments: Arguments)
    ensures
        exists|head: RequestHead| head_of(head, *parts) && request_arguments_of(head, arguments.view()),
{
    let head = request_head(parts);
    head_arguments(&head)
}

/// Builds the synthetic call that brackets a complete outgoing request.
pub fn send_request_call<'a>(id: u64, arguments: &'a Arguments) -> (call: Call<'a>)
    ensures
        call.id == id,
        call.direction == Direction::Import,
        call.interface == Some(REQUEST_HOOK_INTERFACE),
        call.version.is_none(),
        call.function@ == SEND_REQUEST@,
        call.handles@ == Seq::<u32>::empty(),
        call.args.view() == arguments.view(),
{
    Call::new(id, Direction::Import, SEND_REQUEST).in_interface(REQUEST_HOOK_INTERFACE, None).with_args(arguments)
}

/// How a refused or failed outgoing request is reported to the component.
pub enum HttpFailure {
    /// A layer refused the request.
    RequestDenied,
    /// The request failed with an HTTP error.
    Http(wasmtime_wasi_http::Error),
    /// The request failed for another reason, with its message.
    Internal(String),
}

/// The HTTP error that the Wasmtime error `error` wraps, if it wraps one
/// (what `wasmtime::Error::downcast` recovers).
pub uninterp spec fn wrapped_http_error(error: wasmtime::Error) -> Option<wasmtime_wasi_http::Error>;

/// The text `to_string` gives of the Wasmtime error `error`.
pub uninterp spec fn error_text(error: wasmtime::Error) -> Seq<char>;

/// The `wasmtime_wasi_http::Error` built for `failure`.
pub uninterp spec fn http_error_for(failure: HttpFailure) -> wasmtime_wasi_http::Error;

/// Recovers an HTTP error from a Wasmtime error that wraps one
/// (`wasmtime::Error::downcast`), handing the error back unchanged
/// otherwise.
#[verifier::external_body]
fn downcast_http(error: wasmtime::Error) -> (recovered: Result<wasmtime_wasi_http::Error, wasmtime::Error>)
    ensures
        match recovered {
            Ok(http) => wrapped_http_error(error) == Some(http),
            Err(other) => wrapped_http_error(error).is_none() && other == error,
        },
{
    error.downcast::<wasmtime_wasi_http::Error>()
}

/// The message of a Wasmtime error (`ToString::to_string`).
#[verifier::external_body]
fn message_of(error: &wasmtime::Error) -> (message: String)
    ensures
        message@ == error_text(*error),
{
    error.to_string()
}

/// Builds the `wasmtime_wasi_http::Error` for a failure, one variant each:
/// `HttpRequestDenied`, the HTTP error itself, or `InternalError` with the
/// message.
#[verifier::external_body]
fn into_http_error(failure: HttpFailure) -> (error: wasmtime_wasi_http::Error)
    ensures
        error == http_error_for(failure),
        failure matches HttpFailure::Http(http) ==> error == http,
{
    match failure {
        HttpFailure::RequestDenied => wasmtime_wasi_http::Error::HttpRequestDenied,
        HttpFailure::Http(error) => error,
        HttpFailure::Internal(message) => wasmtime_wasi_http::Error::InternalError(Some(message)),
    }
}

/// How `failure` is reported: a refusal as a denied request; an error that
/// wraps an HTTP error as that error; any other error by its message.
pub open spec fn reported_as(failure: Failure, reported: HttpFailure) -> bool {
    match failure {
        Failure::Denied(_) => reported is RequestDenied,
        Failure::Error(error) => match wrapped_http_error(error) {
            Some(http) => reported == HttpFailure::Http(http),
            None => reported matches HttpFailure::Internal(message) && message@ == error_text(error),
        },
    }
}

/// Classifies why an outgoing request did not return: a refusal is reported
/// as a denied request; an error that is an HTTP error as itself; any other
/// error by its message.
pub fn classify_failure(failure: Failure) -> (reported: HttpFailure)
    ensures
        reported_as(failure, reported),
{
    match failure {
        Failure::Denied(_) => HttpFailure::RequestDenied,
        Failure::Error(error) => {
            let ghost original = error;
            match downcast_http(error) {
                Ok(http_error) => HttpFailure::Http(http_error),
                Err(other) => {
                    let message = message_of(&other);
                    assert(message@ == error_text(original));
                    HttpFailure::Internal(message)
                },
            }
        },
    }
}

/// Converts a refused or failed request into the error reported to the
/// component: a refusal becomes the error built for a denied request, an
/// HTTP error passes through unchanged, and any other error becomes the
/// internal error built for its message.
pub fn http_error(failure: Failure) -> (error: wasmtime_wasi_http::Error)
    ensures
        exists|reported: HttpFailure| reported_as(failure, reported) && error == http_error_for(reported),
        failure matches Failure::Error(e) ==> (wrapped_http_error(e) matches Some(http) ==> error == http),
{
    into_http_error(classify_failure(failure))
}

/// Applies a middleware chain to complete outgoing HTTP requests.
///
/// The policy state and the delegate hooks are shared behind locks that are
/// taken only while synchronous hooks run.
#[verifier::reject_recursive_types(S)]
#[verifier::reject_recursive_types(H)]
pub struct WasiHttpHooks<S, H> {
    state: Arc<Mutex<S>>,
    delegate: Arc<Mutex<H>>,
}

impl<S, H> WasiHttpHooks<S, H> {
    /// The shared policy state.
    pub closed spec fn state_view(&self) -> Arc<Mutex<S>> {
        self.state
    }

    /// The shared delegate hooks.
    pub closed spec fn delegate_view(&self) -> Arc<Mutex<H>> {
        self.delegate
    }

    /// Wraps `delegate` with middleware using the supplied policy state.
    pub fn new(state: S, delegate: H) -> (hooks: WasiHttpHooks<S, H>) {
        WasiHttpHooks { state: Arc::new(new_mutex(state)), delegate: Arc::new(new_mutex(delegate)) }
    }

    /// Returns the shared policy state.
    pub fn state(&self) -> (state: &Arc<Mutex<S>>)
        ensures
            *state == self.state_view(),
    {
        &self.state
    }

    /// Returns the shared delegate hooks.
    pub fn delegate(&self) -> (delegate: &Arc<Mutex<H>>)
        ensures
            *delegate == self.delegate_view(),
    {
        &self.delegate
    }
}

} // verus!
