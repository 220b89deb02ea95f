use wasm_component_middleware::{
    classify_failure, head_arguments, http_error, request_arguments, request_head, send_request_call, ArgumentValue, Denied,
    Direction, Failure, HttpFailure, RequestHead, WasiHttpHooks, REQUEST_HOOK_INTERFACE, SEND_REQUEST,
};

fn text(value: &ArgumentValue) -> &str {
    value.as_str().unwrap()
}

#[test]
fn request_metadata_becomes_named_arguments() {
    let request = http::Request::builder()
        .method("POST")
        .uri("https://example.com:8443/upload?x=1")
        .header("content-type", "text/plain")
        .header("x-raw", &[0x66, 0xff, 0x6f][..])
        .body(())
        .unwrap();

    let (parts, _) = request.into_parts();
    let arguments = request_arguments(&parts);
    let list = arguments.list();

    assert_eq!(list.len(), 5);
    assert_eq!(text(list.get("method").unwrap()), "POST");
    assert_eq!(text(list.get("scheme").unwrap()), "https");
    assert_eq!(text(list.get("authority").unwrap()), "example.com:8443");
    assert_eq!(text(list.get("path").unwrap()), "/upload?x=1");
    match list.get("headers").unwrap() {
        ArgumentValue::List(headers) => {
            assert_eq!(headers.len(), 2);
            assert_eq!(text(&headers[0]), "content-type: text/plain");
            assert_eq!(text(&headers[1]), "x-raw: f\u{fffd}o");
        },
        other => panic!("headers should be a list, not {other:?}"),
    }
}

#[test]
fn missing_uri_parts_are_empty_text() {
    let head = RequestHead { method: "GET".to_owned(), scheme: None, authority: None, path: None, headers: Vec::new() };

    let arguments = head_arguments(&head);

    assert_eq!(arguments.list().render(), "\"GET\", \"\", \"\", \"\", []");
}

#[test]
fn the_send_request_call_is_an_import_of_the_hook_interface() {
    let arguments = head_arguments(&RequestHead {
        method: "GET".to_owned(),
        scheme: Some("http".to_owned()),
        authority: Some("localhost".to_owned()),
        path: Some("/".to_owned()),
        headers: vec![("host".to_owned(), b"localhost".to_vec())],
    });

    let call = send_request_call(9, &arguments);

    assert_eq!(call.id, 9);
    assert_eq!(call.direction, Direction::Import);
    assert_eq!(call.interface, Some(REQUEST_HOOK_INTERFACE));
    assert_eq!(call.version, None);
    assert_eq!(call.function, SEND_REQUEST);
    assert_eq!(SEND_REQUEST, "[send-request]");
    assert_eq!(REQUEST_HOOK_INTERFACE, "wasi:http/request-hook");
    assert_eq!(call.args.render(), "\"GET\", \"http\", \"localhost\", \"/\", [\"host: localhost\"]");
}

#[test]
fn refusal_becomes_the_denied_request_error() {
    let reported = classify_failure(Failure::Denied(Denied::new("authority is not allowed")));
    assert!(matches!(reported, HttpFailure::RequestDenied));

    let error = http_error(Failure::Denied(Denied::new("authority is not allowed")));
    assert!(matches!(error, wasmtime_wasi_http::Error::HttpRequestDenied));
}

#[test]
fn http_errors_pass_through_and_others_become_internal_errors() {
    let wrapped = wasmtime::Error::new(wasmtime_wasi_http::Error::ConnectionRefused);
    assert!(matches!(http_error(Failure::Error(wrapped)), wasmtime_wasi_http::Error::ConnectionRefused));

    match classify_failure(Failure::Error(wasmtime::Error::msg("body failed"))) {
        HttpFailure::Internal(message) => assert_eq!(message, "body failed"),
        _ => panic!("a plain error should be internal"),
    }
    match http_error(Failure::Error(wasmtime::Error::msg("body failed"))) {
        wasmtime_wasi_http::Error::InternalError(Some(message)) => assert_eq!(message, "body failed"),
        other => panic!("unexpected {other:?}"),
    }
}

#[test]
fn hooks_share_their_state_and_delegate() {
    let hooks = WasiHttpHooks::new(5_u32, "delegate");

    assert_eq!(*hooks.state().lock().unwrap(), 5);
    assert_eq!(*hooks.delegate().lock().unwrap(), "delegate");
}

#[test]
fn request_head_reads_each_part_of_the_request() {
    let request = http::Request::builder()
        .method("PUT")
        .uri("http://localhost/items/7")
        .header("x-id", "7")
        .body(())
        .unwrap();
    let (parts, _) = request.into_parts();

    let head = request_head(&parts);
    assert_eq!(head.method, "PUT");
    assert_eq!(head.scheme.as_deref(), Some("http"));
    assert_eq!(head.authority.as_deref(), Some("localhost"));
    assert_eq!(head.path.as_deref(), Some("/items/7"));
    assert_eq!(head.headers, vec![(String::from("x-id"), b"7".to_vec())]);
}
