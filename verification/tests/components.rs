use wasm_component_middleware::{
    http_p2_routed_interfaces, http_p3_routed_interfaces, import_list, p2_routed_interfaces, p3_routed_interfaces,
    verify_routing, verify_wasi_routing, ItemKind, RoutedInterface,
};
use wasmtime::component::Component;
use wasmtime::Engine;

const HELLO: &str = r#"
(component
  (import "example:hello/host@1.0.0" (instance
    (export "user-name" (func (result string)))
    (export "handle" (type (sub resource)))
  ))
  (import "plain" (func))
)
"#;

const CLOCKS: &str = r#"
(component
  (import "wasi:clocks/wall-clock@0.2.0" (instance
    (export "now" (func (result u64)))
  ))
)
"#;

fn component(engine: &Engine, text: &str) -> Component {
    Component::new(engine, text).unwrap()
}

#[test]
fn imports_are_listed_with_their_exports() {
    let engine = Engine::default();
    let imports = import_list(&engine, &component(&engine, HELLO));

    assert_eq!(imports.len(), 2);
    assert_eq!(imports[0].name, "example:hello/host@1.0.0");
    match &imports[0].kind {
        ItemKind::Instance(exports) => {
            let mut names = exports.iter().map(|export| export.name.as_str()).collect::<Vec<_>>();
            names.sort_unstable();
            assert_eq!(names, ["handle", "user-name"]);
            assert!(exports.iter().any(|export| export.name == "user-name" && matches!(export.kind, ItemKind::Function)));
            assert!(exports.iter().any(|export| export.name == "handle" && matches!(export.kind, ItemKind::Resource)));
        },
        _ => panic!("the host import should be an instance"),
    }
    assert_eq!(imports[1].name, "plain");
    assert!(matches!(imports[1].kind, ItemKind::Function));
}

const UNROUTED: &str = r#"
(component
  (import "wasi:cli/environment@0.2.0" (instance
    (export "get-arguments" (func (result (list string))))
  ))
  (import "example:hello/host" (instance
    (export "user-name" (func (result string)))
    (export "log" (func (param "message" string)))
  ))
  (import "example:unrouted/host" (instance
    (export "secret" (func (result string)))
    (export "classified" (func (result string)))
  ))
)
"#;

#[test]
fn hello_imports_are_routed() {
    let engine = Engine::default();
    let hello = component(&engine, HELLO_GUEST);

    verify_routing(&engine, &hello, &[RoutedInterface::from_static("example:hello/host")], &["wasi:"]).unwrap();
}

const HELLO_GUEST: &str = r#"
(component
  (import "wasi:cli/environment@0.2.0" (instance
    (export "get-arguments" (func (result (list string))))
  ))
  (import "example:hello/host" (instance
    (export "user-name" (func (result string)))
    (export "log" (func (param "message" string)))
  ))
)
"#;

#[test]
fn unrouted_import_is_named_before_instantiation() {
    let engine = Engine::default();
    let component = component(&engine, UNROUTED);
    let error = verify_routing(&engine, &component, &[RoutedInterface::from_static("example:hello/host")], &["wasi:"])
        .unwrap_err();

    assert_eq!(
        error.message(),
        "imports example:unrouted/host.secret, example:unrouted/host.classified are not routed through the middleware chain"
    );
    assert_eq!(error.functions(), ["example:unrouted/host.secret", "example:unrouted/host.classified"]);
}

#[test]
fn unlisted_imports_of_every_kind_are_named() {
    let engine = Engine::default();
    let hello = component(&engine, HELLO);
    let routed = [RoutedInterface::from_static("example:hello/host")];

    let unrouted = verify_routing(&engine, &hello, &routed, &[]).unwrap_err();
    assert_eq!(unrouted.functions(), ["plain".to_owned()]);

    let everything = verify_routing(&engine, &hello, &[], &[]).unwrap_err();
    let mut names = everything.functions().to_vec();
    names.sort();
    assert_eq!(
        names,
        [
            "example:hello/host@1.0.0.[resource-drop]handle".to_owned(),
            "example:hello/host@1.0.0.user-name".to_owned(),
            "plain".to_owned(),
        ]
    );
    assert!(verify_routing(&engine, &hello, &routed, &["plain"]).is_ok());
}

#[test]
fn wasi_interfaces_are_routed_automatically() {
    let engine = Engine::default();

    assert!(verify_wasi_routing(&engine, &component(&engine, CLOCKS), &[]).is_ok());
    let hello = component(&engine, HELLO);
    assert_eq!(
        verify_wasi_routing(&engine, &hello, &[RoutedInterface::from_static("example:hello/host")])
            .unwrap_err()
            .functions(),
        ["plain".to_owned()]
    );
}

#[test]
fn routed_interface_lists_name_each_interface() {
    let names = |list: Vec<RoutedInterface>| list.into_iter().map(RoutedInterface::name).collect::<Vec<_>>();

    assert_eq!(names(p2_routed_interfaces()), ["wasi:clocks/monotonic-clock", "wasi:clocks/wall-clock"]);
    assert_eq!(names(p3_routed_interfaces()).len(), 21);
    assert!(names(p3_routed_interfaces()).contains(&"wasi:filesystem/types"));
    assert_eq!(names(http_p2_routed_interfaces()), ["wasi:http/outgoing-handler", "wasi:http/types"]);
    assert_eq!(names(http_p3_routed_interfaces()), ["wasi:http/client", "wasi:http/types"]);
}
