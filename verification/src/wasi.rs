use vstd::prelude::*;
use wasmtime::Engine;
use wasmtime::component::Component;

use crate::routing::RoutedInterface;
use crate::verification::{check_imports, import_list, interface_names, listed_imports, prefix_texts, reports, Unrouted};

verus! {

/// Builds routed-interface markers for `names`, in order.
pub(crate) fn markers(names: &[&'static str]) -> (routed: Vec<RoutedInterface>)
    ensures
        routed@.len() == names@.len(),
        forall|i: int| 0 <= i < names@.len() ==> #[trigger] routed@[i]@ == names@[i]@,
{
    let mut routed: Vec<RoutedInterface> = Vec::new();
    let mut i: usize = 0;
    while i < names.len()
        invariant
            i <= names@.len(),
            routed@.len() == i,
            forall|j: int| 0 <= j < i ==> #[trigger] routed@[j]@ == names@[j]@,
        decreases names@.len() - i,
    {
        routed.push(RoutedInterface::from_static(names[i]));
        i = i + 1;
    }
    routed
}

/// The names of the WASI Preview 2 interfaces that the Preview 2 gates route.
pub open spec fn p2_interfaces() -> Seq<Seq<char>> {
    seq![
        "wasi:clocks/monotonic-clock"@,
        "wasi:clocks/wall-clock"@,
    ]
}

/// The names of the WASI Preview 3 interfaces that the Preview 3 gates route.
pub open spec fn p3_interfaces() -> Seq<Seq<char>> {
    seq![
        "wasi:cli/environment"@,
        "wasi:cli/exit"@,
        "wasi:cli/types"@,
        "wasi:cli/stdin"@,
        "wasi:cli/stdout"@,
        "wasi:cli/stderr"@,
        "wasi:cli/terminal-input"@,
        "wasi:cli/terminal-output"@,
        "wasi:cli/terminal-stdin"@,
        "wasi:cli/terminal-stdout"@,
        "wasi:cli/terminal-stderr"@,
        "wasi:clocks/types"@,
        "wasi:clocks/monotonic-clock"@,
        "wasi:clocks/system-clock"@,
        "wasi:filesystem/preopens"@,
        "wasi:filesystem/types"@,
        "wasi:random/insecure"@,
        "wasi:random/insecure-seed"@,
        "wasi:random/random"@,
        "wasi:sockets/ip-name-lookup"@,
        "wasi:sockets/types"@,
    ]
}

/// The WASI Preview 2 interfaces whose calls the Preview 2 gates route.
pub fn p2_routed_interfaces() -> (routed: Vec<RoutedInterface>)
    ensures
        interface_names(routed@) == p2_interfaces(),
        routed@.len() == 2,
        routed@[0]@ == "wasi:clocks/monotonic-clock"@,
        routed@[1]@ == "wasi:clocks/wall-clock"@,
{
    let names: [&'static str; 2] = ["wasi:clocks/monotonic-clock", "wasi:clocks/wall-clock"];
    let routed = markers(names.as_slice());
    assert(interface_names(routed@) =~= names@.map_values(|name: &'static str| name@));
    routed
}

/// The WASI Preview 3 interfaces whose calls the Preview 3 gates route.
pub fn p3_routed_interfaces() -> (routed: Vec<RoutedInterface>)
    ensures
        interface_names(routed@) == p3_interfaces(),
        routed@.len() == 21,
        routed@[0]@ == "wasi:cli/environment"@,
        routed@[1]@ == "wasi:cli/exit"@,
        routed@[2]@ == "wasi:cli/types"@,
        routed@[3]@ == "wasi:cli/stdin"@,
        routed@[4]@ == "wasi:cli/stdout"@,
        routed@[5]@ == "wasi:cli/stderr"@,
        routed@[6]@ == "wasi:cli/terminal-input"@,
        routed@[7]@ == "wasi:cli/terminal-output"@,
        routed@[8]@ == "wasi:cli/terminal-stdin"@,
        routed@[9]@ == "wasi:cli/terminal-stdout"@,
        routed@[10]@ == "wasi:cli/terminal-stderr"@,
        routed@[11]@ == "wasi:clocks/types"@,
        routed@[12]@ == "wasi:clocks/monotonic-clock"@,
        routed@[13]@ == "wasi:clocks/system-clock"@,
        routed@[14]@ == "wasi:filesystem/preopens"@,
        routed@[15]@ == "wasi:filesystem/types"@,
        routed@[16]@ == "wasi:random/insecure"@,
        routed@[17]@ == "wasi:random/insecure-seed"@,
        routed@[18]@ == "wasi:random/random"@,
        routed@[19]@ == "wasi:sockets/ip-name-lookup"@,
        routed@[20]@ == "wasi:sockets/types"@,
{
    let names: [&'static str; 21] = [
        "wasi:cli/environment",
        "wasi:cli/exit",
        "wasi:cli/types",
        "wasi:cli/stdin",
        "wasi:cli/stdout",
        "wasi:cli/stderr",
        "wasi:cli/terminal-input",
        "wasi:cli/terminal-output",
        "wasi:cli/terminal-stdin",
        "wasi:cli/terminal-stdout",
        "wasi:cli/terminal-stderr",
        "wasi:clocks/types",
        "wasi:clocks/monotonic-clock",
        "wasi:clocks/system-clock",
        "wasi:filesystem/preopens",
        "wasi:filesystem/types",
        "wasi:random/insecure",
        "wasi:random/insecure-seed",
        "wasi:random/random",
        "wasi:sockets/ip-name-lookup",
        "wasi:sockets/types",
    ];
    let routed = markers(names.as_slice());
    assert(interface_names(routed@) =~= names@.map_values(|name: &'static str| name@));
    routed
}

/// Checks that every component import is routed through middleware, with the
/// WASI Preview 2 and Preview 3 interfaces included automatically and no
/// import exempt.
///
/// Pass markers for application-defined and extension-package imports in
/// `routed`.
pub fn verify_wasi_routing(engine: &Engine, component: &Component, routed: &[RoutedInterface]) -> (result: Result<(), Unrouted>)
    ensures
        reports(result, listed_imports(*engine, *component), p2_interfaces() + p3_interfaces() + interface_names(routed@), Seq::empty()),
{
    let mut all = p2_routed_interfaces();
    let mut more = p3_routed_interfaces();
    all.append(&mut more);
    let mut i: usize = 0;
    let ghost base = all@;
    assert(interface_names(base) =~= p2_interfaces() + p3_interfaces());
    while i < routed.len()
        invariant
            i <= routed@.len(),
            base.len() == 23,
            interface_names(base) == p2_interfaces() + p3_interfaces(),
            all@ == base + routed@.subrange(0, i as int),
        decreases routed@.len() - i,
    {
        all.push(routed[i]);
        proof {
            assert(routed@.subrange(0, i as int).push(routed@[i as int]) =~= routed@.subrange(0, i + 1));
        }
        i = i + 1;
    }
    proof {
        assert(routed@.subrange(0, routed@.len() as int) =~= routed@);
        assert(all@.subrange(23, all@.len() as int) =~= routed@);
    }
    let no_prefixes: [&str; 0] = [];
    let imports = import_list(engine, component);
    let result = check_imports(&imports, all.as_slice(), no_prefixes.as_slice());
    proof {
        assert(prefix_texts(no_prefixes@) =~= Seq::<Seq<char>>::empty());
    }
    proof {
        assert(interface_names(all@) =~= p2_interfaces() + p3_interfaces() + interface_names(routed@));
    }
    result
}

} // verus!
