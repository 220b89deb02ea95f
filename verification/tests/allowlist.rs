use wasm_component_middleware::{Allowlist, Call, Direction, Layer};

fn call<'a>(direction: Direction, interface: Option<&'a str>, function: &'a str) -> Call<'a> {
    let call = Call::new(1, direction, function);
    match interface {
        Some(interface) => call.in_interface(interface, None),
        None => call,
    }
}

#[test]
fn allows_named_function() {
    let layer = Allowlist::new().allow_function(Some("example:hello/host"), "user-name");

    assert!(layer
        .before(&mut (), &call(Direction::Import, Some("example:hello/host"), "user-name"))
        .is_ok());
}

#[test]
fn allows_whole_interface() {
    let layer = Allowlist::new().allow_interface("example:hello/host");

    assert!(layer
        .before(&mut (), &call(Direction::Import, Some("example:hello/host"), "log"))
        .is_ok());
}

#[test]
fn allows_every_version_of_an_interface() {
    let layer = Allowlist::new().allow_interface("wasi:clocks/wall-clock");
    let mut call = call(Direction::Import, Some("wasi:clocks/wall-clock"), "now");
    call.version = Some("0.2.12");

    assert!(layer.before(&mut (), &call).is_ok());
}

#[test]
fn refuses_unnamed_function() {
    let layer = Allowlist::new().allow_function(Some("example:hello/host"), "log");
    let denied = layer
        .before(&mut (), &call(Direction::Import, Some("example:hello/host"), "user-name"))
        .unwrap_err();

    assert_eq!(denied.reason(), "import example:hello/host.user-name is not allowed");
}

#[test]
fn allows_root_export() {
    let layer = Allowlist::new().allow_function(None, "greet");

    assert!(layer.before(&mut (), &call(Direction::Export, None, "greet")).is_ok());
}

#[test]
fn does_not_match_another_interface() {
    let layer = Allowlist::new().allow_interface("example:other/host");

    assert!(layer
        .before(&mut (), &call(Direction::Import, Some("example:hello/host"), "log"))
        .is_err());
}

#[test]
fn an_empty_allowlist_refuses_a_root_export_by_name() {
    let layer = Allowlist::new();
    let denied = layer.before(&mut (), &call(Direction::Export, None, "greet")).unwrap_err();

    assert_eq!(denied.reason(), "export greet is not allowed");
}

#[test]
fn a_function_entry_does_not_cover_its_siblings_or_root_namesakes() {
    let layer = Allowlist::new().allow_function(Some("example:hello/host"), "log");

    assert!(layer.before(&mut (), &call(Direction::Import, Some("example:hello/host"), "log")).is_ok());
    assert!(layer.before(&mut (), &call(Direction::Import, None, "log")).is_err());
    assert!(layer.before(&mut (), &call(Direction::Import, Some("example:other/host"), "log")).is_err());
}

#[test]
fn adding_entries_keeps_earlier_ones() {
    let layer = Allowlist::new()
        .allow_function(None, "greet")
        .allow_interface("example:hello/host")
        .allow_function(Some("wasi:cli/exit"), "exit");

    assert!(layer.before(&mut (), &call(Direction::Export, None, "greet")).is_ok());
    assert!(layer.before(&mut (), &call(Direction::Import, Some("example:hello/host"), "anything")).is_ok());
    assert!(layer.before(&mut (), &call(Direction::Import, Some("wasi:cli/exit"), "exit")).is_ok());
    assert!(layer.before(&mut (), &call(Direction::Import, Some("wasi:cli/exit"), "exit-with-code")).is_err());
}
