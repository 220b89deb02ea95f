use vstd::prelude::*;
use vstd::string::*;
use wasmtime::Engine;
use wasmtime::component::Component;
use wasmtime::component::types::{ComponentInstance, ComponentItem};

use crate::routing::RoutedInterface;
use crate::text::{find_last, has_prefix, last_index_of, same_text, starts_with};

verus! {

#[verifier::external_type_specification]
#[verifier::external_body]
pub struct ExEngine(Engine);

#[verifier::external_type_specification]
#[verifier::external_body]
pub struct ExComponent(Component);

#[verifier::external_type_specification]
#[verifier::external_body]
pub struct ExComponentItem(ComponentItem);

#[verifier::external_type_specification]
#[verifier::external_body]
pub struct ExComponentInstance(ComponentInstance);

/// The names and item types of a compiled component's imports, in the order
/// its type lists them: what `types::Component::imports` yields for the
/// type that `Component::component_type` gives.
pub uninterp spec fn component_imports_of(engine: Engine, component: Component) -> Seq<(Seq<char>, ComponentItem)>;

/// The names and item types of an instance type's exports, in the order
/// `ComponentInstance::exports` yields them.
pub uninterp spec fn instance_exports_of(engine: Engine, instance: ComponentInstance) -> Seq<(Seq<char>, ComponentItem)>;

/// Which variant of `ComponentItem` an item type is, as far as routing
/// tells them apart, with the instance type of an instance.
pub uninterp spec fn item_kind_of(item: ComponentItem) -> ItemKind<ComponentInstance>;

/// The names as characters, beside their item types.
pub open spec fn listed_items(listed: Seq<(String, ComponentItem)>) -> Seq<(Seq<char>, ComponentItem)> {
    listed.map_values(|entry: (String, ComponentItem)| (entry.0@, entry.1))
}

/// The names and item types of a compiled component's imports, in order
/// (`Component::component_type`, then `types::Component::imports`).
#[verifier::external_body]
fn component_imports(engine: &Engine, component: &Component) -> (listed: Vec<(String, ComponentItem)>)
    ensures
        listed_items(listed@) == component_imports_of(*engine, *component),
{
    component.component_type().imports(engine).map(|(name, import)| (name.to_owned(), import.ty)).collect()
}

/// The names and item types of an instance type's exports, in order
/// (`ComponentInstance::exports`).
#[verifier::external_body]
fn instance_exports(engine: &Engine, instance: &ComponentInstance) -> (listed: Vec<(String, ComponentItem)>)
    ensures
        listed_items(listed@) == instance_exports_of(*engine, *instance),
{
    instance.exports(engine).map(|(name, export)| (name.to_owned(), export.ty)).collect()
}

/// Which of the kinds routing distinguishes an item type is, telling the
/// variants of `ComponentItem` apart.
#[verifier::external_body]
fn classify(item: ComponentItem) -> (kind: ItemKind<ComponentInstance>)
    ensures
        kind == item_kind_of(item),
{
    match item {
        ComponentItem::ComponentFunc(_) => ItemKind::Function,
        ComponentItem::Resource(_) => ItemKind::Resource,
        ComponentItem::ComponentInstance(instance) => ItemKind::Instance(instance),
        _ => ItemKind::Other,
    }
}

/// The kind of a component item, as far as routing is concerned.
pub enum ItemKind<I> {
    /// A component function.
    Function,
    /// A resource type, which the guest drops through the host.
    Resource,
    /// An instance, which exports further items.
    Instance(I),
    /// Anything else: a type, a module, a core function or a component.
    Other,
}

/// One export of an imported instance.
pub struct InstanceExport {
    /// The export's name.
    pub name: String,
    /// Its kind; an instance export is not looked into.
    pub kind: ItemKind<()>,
}

/// One import of a component.
pub struct ComponentImport {
    /// The import's name, such as `wasi:cli/environment@0.2.0`.
    pub name: String,
    /// Its kind, with the exports of an instance.
    pub kind: ItemKind<Vec<InstanceExport>>,
}

/// The interface part of an import name: what precedes its last `@`, or the
/// whole name.
pub open spec fn unversioned(name: Seq<char>) -> Seq<char> {
    match last_index_of(name, '@') {
        Some(i) => name.subrange(0, i),
        None => name,
    }
}

/// Returns the interface part of an import name.
pub fn unversioned_interface(name: &str) -> (interface: &str)
    ensures
        interface@ == unversioned(name@),
{
    let found = find_last(name, '@');
    match found {
        Some(i) => {
            assert(last_index_of(name@, '@') == Some(i as int));
            name.substring_char(0, i)
        },
        None => name,
    }
}

/// The characters of each prefix.
pub open spec fn prefix_texts(prefixes: Seq<&str>) -> Seq<Seq<char>> {
    prefixes.map_values(|p: &str| p@)
}

/// Whether `name` begins with one of `prefixes`.
pub open spec fn exempt(name: Seq<char>, prefixes: Seq<Seq<char>>) -> bool {
    exists|i: int| 0 <= i < prefixes.len() && has_prefix(name, #[trigger] prefixes[i])
}

/// The interface name of each marker.
pub open spec fn interface_names(routed: Seq<RoutedInterface>) -> Seq<Seq<char>> {
    routed.map_values(|r: RoutedInterface| r@)
}

/// Whether `routed` holds `interface`.
pub open spec fn is_routed(interface: Seq<char>, routed: Seq<Seq<char>>) -> bool {
    exists|i: int| 0 <= i < routed.len() && #[trigger] routed[i] == interface
}

/// What routing reads of an instance export: its name and kind.
pub open spec fn export_view(export: InstanceExport) -> (Seq<char>, ItemKind<()>) {
    (export.name@, export.kind)
}

/// What routing reads of each export, in order.
pub open spec fn export_views(exports: Seq<InstanceExport>) -> Seq<(Seq<char>, ItemKind<()>)> {
    exports.map_values(|export: InstanceExport| export_view(export))
}

/// What routing reads of an import: its name and kind, with what it reads
/// of each export of an instance.
pub open spec fn import_view(import: ComponentImport) -> (Seq<char>, ItemKind<Seq<(Seq<char>, ItemKind<()>)>>) {
    (import.name@, match import.kind {
        ItemKind::Function => ItemKind::Function,
        ItemKind::Resource => ItemKind::Resource,
        ItemKind::Instance(exports) => ItemKind::Instance(export_views(exports@)),
        ItemKind::Other => ItemKind::Other,
    })
}

/// What routing reads of each import, in order.
pub open spec fn import_views(imports: Seq<ComponentImport>) -> Seq<(Seq<char>, ItemKind<Seq<(Seq<char>, ItemKind<()>)>>)> {
    imports.map_values(|import: ComponentImport| import_view(import))
}

/// The name reported for an export of the instance `instance`: the
/// function's qualified name, or the resource's drop function; nothing for
/// other exports.
pub open spec fn export_finding(instance: Seq<char>, export: (Seq<char>, ItemKind<()>)) -> Seq<Seq<char>> {
    match export.1 {
        ItemKind::Function => seq![instance + seq!['.'] + export.0],
        ItemKind::Resource => seq![instance + ".[resource-drop]"@ + export.0],
        _ => Seq::empty(),
    }
}

/// The names reported for the exports of the instance `instance`, in order.
pub open spec fn export_findings(instance: Seq<char>, exports: Seq<(Seq<char>, ItemKind<()>)>) -> Seq<Seq<char>>
    decreases exports.len(),
{
    if exports.len() == 0 {
        Seq::empty()
    } else {
        export_findings(instance, exports.drop_last()) + export_finding(instance, exports.last())
    }
}

/// The names an import contributes to the unrouted list: none when it is
/// exempt or an instance whose interface is routed; every function and
/// resource of an instance that is not; the import's own name otherwise.
pub open spec fn import_findings(
    import: (Seq<char>, ItemKind<Seq<(Seq<char>, ItemKind<()>)>>),
    routed: Seq<Seq<char>>,
    prefixes: Seq<Seq<char>>,
) -> Seq<Seq<char>> {
    if exempt(import.0, prefixes) {
        Seq::empty()
    } else {
        match import.1 {
            ItemKind::Instance(exports) => if is_routed(unversioned(import.0), routed) {
                Seq::empty()
            } else {
                export_findings(import.0, exports)
            },
            _ => seq![import.0],
        }
    }
}

/// The names all `imports` contribute to the unrouted list, in order.
pub open spec fn unrouted_names(
    imports: Seq<(Seq<char>, ItemKind<Seq<(Seq<char>, ItemKind<()>)>>)>,
    routed: Seq<Seq<char>>,
    prefixes: Seq<Seq<char>>,
) -> Seq<Seq<char>>
    decreases imports.len(),
{
    if imports.len() == 0 {
        Seq::empty()
    } else {
        unrouted_names(imports.drop_last(), routed, prefixes) + import_findings(imports.last(), routed, prefixes)
    }
}

/// An import whose name begins with any one of the unchecked prefixes, at
/// any position in the list, is exempt: it contributes no name to the
/// unrouted list, whatever it is and whatever is routed.
pub proof fn any_unchecked_prefix_exempts(
    import: (Seq<char>, ItemKind<Seq<(Seq<char>, ItemKind<()>)>>),
    routed: Seq<Seq<char>>,
    prefixes: Seq<Seq<char>>,
    index: int,
)
    requires
        0 <= index < prefixes.len(),
        has_prefix(import.0, prefixes[index]),
    ensures
        import_findings(import, routed, prefixes) == Seq::<Seq<char>>::empty(),
{
}

/// An import whose name begins with none of the unchecked prefixes is
/// checked: one that is not an instance is reported by its own name.
pub proof fn unexempt_imports_are_checked(
    import: (Seq<char>, ItemKind<Seq<(Seq<char>, ItemKind<()>)>>),
    routed: Seq<Seq<char>>,
    prefixes: Seq<Seq<char>>,
)
    requires
        forall|i: int| 0 <= i < prefixes.len() ==> !has_prefix(import.0, #[trigger] prefixes[i]),
        !(import.1 is Instance),
    ensures
        import_findings(import, routed, prefixes) == seq![import.0],
{
}

/// Whether `name` is what the routing check reports of some export of the
/// instance `instance`: a function export's qualified name, or a resource
/// export's drop function.
pub open spec fn export_shape(name: Seq<char>, instance: Seq<char>, exports: Seq<(Seq<char>, ItemKind<()>)>) -> bool {
    exists|e: int| 0 <= e < exports.len() && {
        ||| exports[e].1 is Function && name == instance + seq!['.'] + exports[e].0
        ||| exports[e].1 is Resource && name == instance + ".[resource-drop]"@ + exports[e].0
    }
}

/// Whether `name` is what the routing check reports of some import: the
/// import's own name, or the name of an export of an imported instance.
pub open spec fn report_shape(name: Seq<char>, imports: Seq<(Seq<char>, ItemKind<Seq<(Seq<char>, ItemKind<()>)>>)>) -> bool {
    exists|i: int| 0 <= i < imports.len() && {
        ||| name == imports[i].0
        ||| imports[i].1 matches ItemKind::Instance(exports) && export_shape(name, imports[i].0, exports)
    }
}

proof fn export_findings_have_export_shape(instance: Seq<char>, exports: Seq<(Seq<char>, ItemKind<()>)>)
    ensures
        forall|k: int| 0 <= k < export_findings(instance, exports).len()
            ==> export_shape(#[trigger] export_findings(instance, exports)[k], instance, exports),
    decreases exports.len(),
{
    if exports.len() > 0 {
        let rest = exports.drop_last();
        export_findings_have_export_shape(instance, rest);
        let found = export_findings(instance, exports);
        let head = export_findings(instance, rest);
        assert forall|k: int| 0 <= k < found.len() implies export_shape(#[trigger] found[k], instance, exports) by {
            if k < head.len() {
                assert(found[k] == head[k]);
                let e = choose|e: int| 0 <= e < rest.len() && {
                    ||| rest[e].1 is Function && head[k] == instance + seq!['.'] + rest[e].0
                    ||| rest[e].1 is Resource && head[k] == instance + ".[resource-drop]"@ + rest[e].0
                };
                assert(exports[e] == rest[e]);
            } else {
                let e = exports.len() - 1;
                assert(exports[e] == exports.last());
                assert(found[k] == export_finding(instance, exports.last())[k - head.len()]);
            }
        }
    }
}

/// Every name the routing check reports has one of three shapes: the name
/// of an import, or the name of an imported instance followed by `.` and one
/// of its function exports, or by `.[resource-drop]` and one of its resource
/// exports.
pub proof fn unrouted_names_have_three_shapes(
    imports: Seq<(Seq<char>, ItemKind<Seq<(Seq<char>, ItemKind<()>)>>)>,
    routed: Seq<Seq<char>>,
    prefixes: Seq<Seq<char>>,
)
    ensures
        forall|k: int| 0 <= k < unrouted_names(imports, routed, prefixes).len()
            ==> report_shape(#[trigger] unrouted_names(imports, routed, prefixes)[k], imports),
    decreases imports.len(),
{
    if imports.len() > 0 {
        let rest = imports.drop_last();
        let last = imports.last();
        unrouted_names_have_three_shapes(rest, routed, prefixes);
        let found = unrouted_names(imports, routed, prefixes);
        let head = unrouted_names(rest, routed, prefixes);
        if let ItemKind::Instance(exports) = last.1 {
            export_findings_have_export_shape(last.0, exports);
        }
        assert forall|k: int| 0 <= k < found.len() implies report_shape(#[trigger] found[k], imports) by {
            if k < head.len() {
                assert(found[k] == head[k]);
                let i = choose|i: int| 0 <= i < rest.len() && {
                    ||| head[k] == rest[i].0
                    ||| rest[i].1 matches ItemKind::Instance(exports) && export_shape(head[k], rest[i].0, exports)
                };
                assert(imports[i] == rest[i]);
            } else {
                let i = imports.len() - 1;
                assert(imports[i] == last);
                let tail = import_findings(last, routed, prefixes);
                assert(found[k] == tail[k - head.len()]);
            }
        }
    }
}

/// Lists component functions that are not routed through middleware.
#[derive(Debug, PartialEq, Eq)]
pub struct Unrouted {
    functions: Vec<String>,
}

/// The characters of each string.
pub open spec fn texts(strings: Seq<String>) -> Seq<Seq<char>> {
    strings.map_values(|s: String| s@)
}

impl Unrouted {
    /// The names of the unrouted functions, in order.
    pub closed spec fn view(&self) -> Seq<Seq<char>> {
        texts(self.functions@)
    }

    /// Returns every unrouted component function.
    pub fn functions(&self) -> (functions: &[String])
        ensures
            texts(functions@) == self@,
    {
        self.functions.as_slice()
    }

    /// Describes the unrouted imports: `imports `, their names separated by
    /// a comma and a space, then ` are not routed through the middleware
    /// chain`.
    pub fn message(&self) -> (message: String)
        ensures
            message@ == "imports "@ + joined(self@) + " are not routed through the middleware chain"@,
    {
        proof {
            reveal_strlit("imports ");
            reveal_strlit(" are not routed through the middleware chain");
        }
        let mut message = String::from_str("imports ");
        let mut i: usize = 0;
        while i < self.functions.len()
            invariant
                i <= self.functions@.len(),
                message@ == "imports "@ + joined(texts(self.functions@).subrange(0, i as int)),
            decreases self.functions@.len() - i,
        {
            let ghost names = texts(self.functions@);
            proof {
                reveal_strlit(", ");
            }
            if i > 0 {
                message.append(", ");
            }
            message.append(self.functions[i].as_str());
            proof {
                let done = names.subrange(0, i as int + 1);
                assert(done.drop_last() =~= names.subrange(0, i as int));
                assert(done.last() == self.functions@[i as int]@);
                if i == 0 {
                    assert(names.subrange(0, 0) =~= Seq::<Seq<char>>::empty());
                    assert(done =~= seq![self.functions@[0]@]);
                }
            }
            i = i + 1;
        }
        message.append(" are not routed through the middleware chain");
        proof {
            assert(texts(self.functions@).subrange(0, self.functions@.len() as int) =~= texts(self.functions@));
        }
        message
    }
}

/// `parts` separated by a comma and a space.
pub open spec fn joined(parts: Seq<Seq<char>>) -> Seq<char>
    decreases parts.len(),
{
    if parts.len() == 0 {
        Seq::empty()
    } else if parts.len() == 1 {
        parts[0]
    } else {
        joined(parts.drop_last()) + seq![',', ' '] + parts.last()
    }
}


fn exempt_name(name: &str, prefixes: &[&str]) -> (found: bool)
    ensures
        found == exempt(name@, prefix_texts(prefixes@)),
{
    let ghost views = prefix_texts(prefixes@);
    let mut i: usize = 0;
    while i < prefixes.len()
        invariant
            i <= prefixes@.len(),
            views == prefix_texts(prefixes@),
            forall|j: int| 0 <= j < i ==> !has_prefix(name@, #[trigger] views[j]),
        decreases prefixes@.len() - i,
    {
        if starts_with(name, prefixes[i]) {
            assert(has_prefix(name@, views[i as int]));
            return true;
        }
        i = i + 1;
    }
    false
}

fn routed_name(interface: &str, routed: &[RoutedInterface]) -> (found: bool)
    ensures
        found == is_routed(interface@, interface_names(routed@)),
{
    let mut i: usize = 0;
    while i < routed.len()
        invariant
            i <= routed@.len(),
            forall|j: int| 0 <= j < i ==> #[trigger] interface_names(routed@)[j] != interface@,
        decreases routed@.len() - i,
    {
        if same_text(routed[i].name(), interface) {
            assert(interface_names(routed@)[i as int] == interface@);
            return true;
        }
        assert(interface_names(routed@)[i as int] == routed@[i as int]@);
        i = i + 1;
    }
    false
}

fn push_export_findings(found: &mut Vec<String>, instance: &str, exports: &Vec<InstanceExport>)
    ensures
        texts(final(found)@) == texts(old(found)@) + export_findings(instance@, export_views(exports@)),
{
    let mut i: usize = 0;
    while i < exports.len()
        invariant
            i <= exports@.len(),
            texts(found@) == texts(old(found)@) + export_findings(instance@, export_views(exports@.subrange(0, i as int))),
        decreases exports@.len() - i,
    {
        let ghost before = found@;
        proof {
            reveal_strlit(".");
            reveal_strlit(".[resource-drop]");
        }
        let export = &exports[i];
        match export.kind {
            ItemKind::Function => {
                let mut name = String::from_str(instance);
                name.append(".");
                name.append(export.name.as_str());
                assert(name@ == instance@ + seq!['.'] + export.name@);
                found.push(name);
                assert(texts(found@) =~= texts(before).push(instance@ + seq!['.'] + export.name@));
            },
            ItemKind::Resource => {
                let mut name = String::from_str(instance);
                name.append(".[resource-drop]");
                name.append(export.name.as_str());
                assert(name@ == instance@ + ".[resource-drop]"@ + export.name@);
                found.push(name);
                assert(texts(found@) =~= texts(before).push(instance@ + ".[resource-drop]"@ + export.name@));
            },
            _ => {},
        }
        proof {
            let done = export_views(exports@.subrange(0, i as int + 1));
            assert(done.drop_last() =~= export_views(exports@.subrange(0, i as int)));
            assert(done.last() == export_view(exports@[i as int]));
            assert(texts(found@) =~= texts(before) + export_finding(instance@, export_view(exports@[i as int])));
            assert(texts(found@) =~= texts(old(found)@) + export_findings(instance@, done));
        }
        i = i + 1;
    }
    proof {
        assert(exports@.subrange(0, exports@.len() as int) =~= exports@);
    }
}

/// Checks a component's imports, listed by `imports`, against the routed
/// interfaces; imports whose names begin with one of `unchecked_prefixes`
/// are exempt.
///
/// Returns the unrouted functions, in import order, when there are any.
pub fn check_imports(imports: &Vec<ComponentImport>, routed: &[RoutedInterface], unchecked_prefixes: &[&str]) -> (result: Result<(), Unrouted>)
    ensures
        ({
            let names = unrouted_names(import_views(imports@), interface_names(routed@), prefix_texts(unchecked_prefixes@));
            match result {
                Ok(()) => names.len() == 0,
                Err(unrouted) => names.len() > 0 && unrouted@ == names,
            }
        }),
{
    let ghost prefixes = prefix_texts(unchecked_prefixes@);
    let mut found: Vec<String> = Vec::new();
    let mut i: usize = 0;
    while i < imports.len()
        invariant
            i <= imports@.len(),
            prefixes == prefix_texts(unchecked_prefixes@),
            texts(found@) == unrouted_names(import_views(imports@.subrange(0, i as int)), interface_names(routed@), prefixes),
        decreases imports@.len() - i,
    {
        let ghost before = found@;
        let import = &imports[i];
        if !exempt_name(import.name.as_str(), unchecked_prefixes) {
            match &import.kind {
                ItemKind::Instance(exports) => {
                    if !routed_name(unversioned_interface(import.name.as_str()), routed) {
                        push_export_findings(&mut found, import.name.as_str(), exports);
                    }
                },
                _ => {
                    found.push(import.name.clone());
                },
            }
        }
        proof {
            let done = import_views(imports@.subrange(0, i as int + 1));
            assert(done.drop_last() =~= import_views(imports@.subrange(0, i as int)));
            assert(done.last() == import_view(imports@[i as int]));
            assert(texts(found@) =~= texts(before) + import_findings(import_view(imports@[i as int]), interface_names(routed@), prefixes));
        }
        i = i + 1;
    }
    proof {
        assert(imports@.subrange(0, imports@.len() as int) =~= imports@);
    }
    if found.len() == 0 {
        Ok(())
    } else {
        Err(Unrouted { functions: found })
    }
}


/// Whether `result` reports exactly the unrouted names of `imports`.
pub open spec fn reports(
    result: Result<(), Unrouted>,
    imports: Seq<(Seq<char>, ItemKind<Seq<(Seq<char>, ItemKind<()>)>>)>,
    routed: Seq<Seq<char>>,
    prefixes: Seq<Seq<char>>,
) -> bool {
    let names = unrouted_names(imports, routed, prefixes);
    match result {
        Ok(()) => names.len() == 0,
        Err(unrouted) => names.len() > 0 && unrouted@ == names,
    }
}

/// What routing reads of an item kind, without the instance type.
pub open spec fn erased_kind(kind: ItemKind<ComponentInstance>) -> ItemKind<()> {
    match kind {
        ItemKind::Function => ItemKind::Function,
        ItemKind::Resource => ItemKind::Resource,
        ItemKind::Instance(_) => ItemKind::Instance(()),
        ItemKind::Other => ItemKind::Other,
    }
}

/// The exports of an instance type as routing reads them, in order.
pub open spec fn listed_exports(engine: Engine, instance: ComponentInstance) -> Seq<(Seq<char>, ItemKind<()>)> {
    instance_exports_of(engine, instance).map_values(
        |entry: (Seq<char>, ComponentItem)| (entry.0, erased_kind(item_kind_of(entry.1))),
    )
}

/// An import as routing reads it: an instance with its exports.
pub open spec fn listed_import(engine: Engine, entry: (Seq<char>, ComponentItem)) -> (Seq<char>, ItemKind<Seq<(Seq<char>, ItemKind<()>)>>) {
    (entry.0, match item_kind_of(entry.1) {
        ItemKind::Function => ItemKind::Function,
        ItemKind::Resource => ItemKind::Resource,
        ItemKind::Instance(instance) => ItemKind::Instance(listed_exports(engine, instance)),
        ItemKind::Other => ItemKind::Other,
    })
}

/// The imports of a compiled component as routing reads them, in order.
pub open spec fn listed_imports(engine: Engine, component: Component) -> Seq<(Seq<char>, ItemKind<Seq<(Seq<char>, ItemKind<()>)>>)> {
    component_imports_of(engine, component).map_values(|entry: (Seq<char>, ComponentItem)| listed_import(engine, entry))
}

fn export_list(engine: &Engine, instance: &ComponentInstance) -> (exports: Vec<InstanceExport>)
    ensures
        export_views(exports@) == listed_exports(*engine, *instance),
{
    let mut listed = instance_exports(engine, instance);
    let ghost all = listed_items(listed@);
    let mut exports: Vec<InstanceExport> = Vec::new();
    while listed.len() > 0
        invariant
            exports@.len() <= all.len(),
            listed_items(listed@) == all.subrange(exports@.len() as int, all.len() as int),
            export_views(exports@) == listed_exports(*engine, *instance).subrange(0, exports@.len() as int),
            all == instance_exports_of(*engine, *instance),
        decreases listed@.len(),
    {
        let ghost before = exports@;
        let ghost pending = listed@;
        assert(listed_items(pending).len() == pending.len());
        assert(all.subrange(before.len() as int, all.len() as int)[0] == all[before.len() as int]);
        assert(listed_items(pending)[0] == all[before.len() as int]);
        let (name, item) = listed.remove(0);
        let ghost taken = item;
        let kind: ItemKind<()> = match classify(item) {
            ItemKind::Function => ItemKind::Function,
            ItemKind::Resource => ItemKind::Resource,
            ItemKind::Instance(_) => ItemKind::Instance(()),
            ItemKind::Other => ItemKind::Other,
        };
        exports.push(InstanceExport { name, kind });
        proof {
            let k = before.len() as int;
            assert(pending[0] == (name, taken));
            assert(all[k] == (name@, taken));
            assert(listed_items(listed@) =~= listed_items(pending).subrange(1, pending.len() as int));
            assert(listed_items(listed@) =~= all.subrange(k + 1, all.len() as int));
            assert(export_views(exports@) =~= listed_exports(*engine, *instance).subrange(0, k + 1));
        }
    }
    proof {
        assert(listed_exports(*engine, *instance).subrange(0, all.len() as int) =~= listed_exports(*engine, *instance));
    }
    exports
}

/// Lists a component's imports, with the exports of each imported instance.
pub fn import_list(engine: &Engine, component: &Component) -> (imports: Vec<ComponentImport>)
    ensures
        import_views(imports@) == listed_imports(*engine, *component),
{
    let mut listed = component_imports(engine, component);
    let ghost all = listed_items(listed@);
    let mut imports: Vec<ComponentImport> = Vec::new();
    while listed.len() > 0
        invariant
            imports@.len() <= all.len(),
            listed_items(listed@) == all.subrange(imports@.len() as int, all.len() as int),
            import_views(imports@) == listed_imports(*engine, *component).subrange(0, imports@.len() as int),
            all == component_imports_of(*engine, *component),
        decreases listed@.len(),
    {
        let ghost before = imports@;
        let ghost pending = listed@;
        assert(listed_items(pending).len() == pending.len());
        assert(all.subrange(before.len() as int, all.len() as int)[0] == all[before.len() as int]);
        assert(listed_items(pending)[0] == all[before.len() as int]);
        let (name, item) = listed.remove(0);
        let ghost taken = item;
        let kind: ItemKind<Vec<InstanceExport>> = match classify(item) {
            ItemKind::Function => ItemKind::Function,
            ItemKind::Resource => ItemKind::Resource,
            ItemKind::Instance(instance) => ItemKind::Instance(export_list(engine, &instance)),
            ItemKind::Other => ItemKind::Other,
        };
        imports.push(ComponentImport { name, kind });
        proof {
            let k = before.len() as int;
            assert(pending[0] == (name, taken));
            assert(all[k] == (name@, taken));
            assert(listed_items(listed@) =~= listed_items(pending).subrange(1, pending.len() as int));
            assert(listed_items(listed@) =~= all.subrange(k + 1, all.len() as int));
            assert(import_views(imports@) =~= listed_imports(*engine, *component).subrange(0, k + 1));
        }
    }
    proof {
        assert(listed_imports(*engine, *component).subrange(0, all.len() as int) =~= listed_imports(*engine, *component));
    }
    imports
}

/// Checks a component's imports against the routed interfaces.
///
/// This checks the declared routing set, not a linker's actual wiring.
/// `unchecked_prefixes` exempts imports that are not routed yet.
///
/// Returns the unrouted functions, in import order, when there are any: the
/// functions and resources of each imported instance whose interface is not
/// routed, and every other import by name.
pub fn verify_routing(engine: &Engine, component: &Component, routed: &[RoutedInterface], unchecked_prefixes: &[&str]) -> (result: Result<(), Unrouted>)
    ensures
        reports(result, listed_imports(*engine, *component), interface_names(routed@), prefix_texts(unchecked_prefixes@)),
{
    let imports = import_list(engine, component);
    check_imports(&imports, routed, unchecked_prefixes)
}

} // verus!
