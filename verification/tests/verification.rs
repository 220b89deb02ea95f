use wasm_component_middleware::{
    check_imports, unversioned_interface, ComponentImport, InstanceExport, ItemKind, RoutedInterface,
};

fn instance(name: &str, exports: &[(&str, ItemKind<()>)]) -> ComponentImport {
    ComponentImport {
        name: name.to_owned(),
        kind: ItemKind::Instance(
            exports
                .iter()
                .map(|(export, kind)| InstanceExport {
                    name: (*export).to_owned(),
                    kind: match kind {
                        ItemKind::Function => ItemKind::Function,
                        ItemKind::Resource => ItemKind::Resource,
                        ItemKind::Instance(()) => ItemKind::Instance(()),
                        ItemKind::Other => ItemKind::Other,
                    },
                })
                .collect(),
        ),
    }
}

#[test]
fn routed_interfaces_match_every_version() {
    let imports = vec![
        instance("example:hello/host@1.0.0", &[("user-name", ItemKind::Function)]),
        instance("wasi:cli/environment@0.2.0", &[("get-environment", ItemKind::Function)]),
    ];
    let routed = [
        RoutedInterface::from_static("example:hello/host"),
        RoutedInterface::from_static("wasi:cli/environment"),
    ];

    assert!(check_imports(&imports, &routed, &[]).is_ok());
}

#[test]
fn unrouted_functions_and_resources_are_named_in_import_order() {
    let imports = vec![
        instance("example:hello/host@1.0.0", &[("user-name", ItemKind::Function)]),
        instance(
            "wasi:io/streams@0.2.0",
            &[("input-stream", ItemKind::Resource), ("stream-error", ItemKind::Other), ("splice", ItemKind::Function)],
        ),
        ComponentImport { name: "plain-function".to_owned(), kind: ItemKind::Function },
    ];
    let routed = [RoutedInterface::from_static("example:hello/host")];

    let unrouted = check_imports(&imports, &routed, &[]).unwrap_err();

    assert_eq!(
        unrouted.functions(),
        [
            "wasi:io/streams@0.2.0.[resource-drop]input-stream".to_owned(),
            "wasi:io/streams@0.2.0.splice".to_owned(),
            "plain-function".to_owned(),
        ]
    );
    assert_eq!(
        unrouted.message(),
        "imports wasi:io/streams@0.2.0.[resource-drop]input-stream, wasi:io/streams@0.2.0.splice, plain-function are not routed through the middleware chain"
    );
}

#[test]
fn unchecked_prefixes_exempt_imports() {
    let imports = vec![
        instance("wasi:http/types@0.2.0", &[("fields", ItemKind::Resource)]),
        ComponentImport { name: "wasi:http/handler".to_owned(), kind: ItemKind::Other },
    ];

    assert!(check_imports(&imports, &[], &["wasi:http/"]).is_ok());
    assert_eq!(check_imports(&imports, &[], &["wasi:http/types"]).unwrap_err().functions(), ["wasi:http/handler".to_owned()]);
}

#[test]
fn the_interface_is_the_name_before_its_last_version_mark() {
    assert_eq!(unversioned_interface("wasi:cli/exit@0.2.0"), "wasi:cli/exit");
    assert_eq!(unversioned_interface("a@b@c"), "a@b");
    assert_eq!(unversioned_interface("plain"), "plain");
}
