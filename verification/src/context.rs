use std::any::{Any, TypeId};
use std::collections::HashMap;
use std::sync::Arc;

use vstd::prelude::*;

use crate::chain::Chain;
use crate::open_files::OpenFileState;
use crate::types::IntoText;

verus! {

/// Type-keyed policy state, one value per type.
#[verifier::external_body]
pub struct Extensions {
    values: HashMap<TypeId, Box<dyn Any + Send + Sync>>,
}

/// Creates an empty extension store (`HashMap::new`), which holds no
/// open-file state.
#[verifier::external_body]
fn empty_extensions() -> (extensions: Extensions)
    ensures
        open_file_state_of(extensions).is_none(),
{
    Extensions { values: HashMap::new() }
}

/// Stores `value` under its type with `HashMap::insert`, handing back the
/// value previously stored under that type.
#[verifier::external_body]
fn insert_extension<T: Any + Send + Sync>(extensions: &mut Extensions, value: T) -> Option<T> {
    extensions.values.insert(TypeId::of::<T>(), Box::new(value)).and_then(|old| old.downcast().ok()).map(|old| *old)
}

/// Looks up the value stored under `T` with `HashMap::get`.
#[verifier::external_body]
fn get_extension<T: Any + Send + Sync>(extensions: &Extensions) -> Option<&T> {
    extensions.values.get(&TypeId::of::<T>()).and_then(|value| value.downcast_ref())
}

/// Looks up the value stored under `T` with `HashMap::get_mut`.
#[verifier::external_body]
fn get_extension_mut<T: Any + Send + Sync>(extensions: &mut Extensions) -> Option<&mut T> {
    extensions.values.get_mut(&TypeId::of::<T>()).and_then(|value| value.downcast_mut())
}

/// Hands out invocation identifiers, each one once, starting at one.
///
/// Every context that should have an identifier distinct from the others
/// draws it from the same counter.
pub struct InvocationIds {
    next: u64,
}

impl InvocationIds {
    #[verifier::type_invariant]
    spec fn starts_at_one(self) -> bool {
        self.next >= 1
    }

    /// The identifier the counter hands out next.
    pub closed spec fn next_view(&self) -> u64 {
        self.next
    }

    /// The identifiers handed out so far.
    pub open spec fn issued(&self) -> Set<u64> {
        Set::new(|id: u64| 1 <= id < self.next_view())
    }

    /// Whether the counter has an identifier left to hand out.
    pub open spec fn can_issue(&self) -> bool {
        self.next_view() < u64::MAX
    }

    /// A counter that has handed out nothing.
    pub fn new() -> (ids: InvocationIds)
        ensures
            ids.next_view() == 1,
            ids.issued() == Set::<u64>::empty(),
    {
        let ids = InvocationIds { next: 1 };
        assert(ids.issued() =~= Set::<u64>::empty());
        ids
    }

    /// Hands out the next identifier, which no earlier call handed out.
    pub fn issue(&mut self) -> (id: u64)
        requires
            old(self).can_issue(),
        ensures
            id == old(self).next_view(),
            !old(self).issued().contains(id),
            final(self).next_view() == old(self).next_view() + 1,
            final(self).issued() == old(self).issued().insert(id),
    {
        proof {
            use_type_invariant(&*self);
        }
        let id = self.next;
        self.next = self.next + 1;
        assert(self.issued() =~= old(self).issued().insert(id));
        id
    }
}

/// What an extension store holds under the type `OpenFileState`, if
/// anything.
pub uninterp spec fn open_file_state_of(extensions: Extensions) -> Option<OpenFileState>;

/// The open-file state stored under its type, after storing an empty one
/// when there is none (`HashMap::entry` at `TypeId::of::<OpenFileState>()`,
/// `Entry::or_insert_with`, then `downcast_mut`). Every value in the store
/// sits under its own type's key, so the downcast finds the state; what the
/// caller writes through the reference is what the store then holds.
#[verifier::external_body]
fn open_file_state_entry(extensions: &mut Extensions) -> (state: &mut OpenFileState)
    ensures
        match open_file_state_of(*old(extensions)) {
            Some(stored) => *state == stored,
            None => state.live() == Set::<u32>::empty() && state.pending() == 0,
        },
        open_file_state_of(*final(extensions)) == Some(*final(state)),
{
    let entry = extensions.values.entry(TypeId::of::<OpenFileState>()).or_insert_with(|| Box::new(OpenFileState::new()));
    entry.downcast_mut().unwrap()
}

/// Identifies a plugin invocation and carries policy-specific state.
pub struct InvocationContext {
    id: u64,
    plugin: String,
    extensions: Extensions,
}

impl InvocationContext {
    /// The plugin name as characters.
    pub closed spec fn plugin_view(&self) -> Seq<char> {
        self.plugin@
    }

    /// The invocation identifier assigned by the chain this context joins.
    pub closed spec fn id_view(&self) -> u64 {
        self.id
    }

    /// Creates an empty context for `plugin`, with the next identifier of
    /// `ids`, which no context drawn from `ids` before has.
    pub fn new<P: IntoText>(plugin: P, ids: &mut InvocationIds) -> (context: InvocationContext)
        requires
            old(ids).can_issue(),
        ensures
            context.plugin_view() == plugin.text_view(),
            context.id_view() == old(ids).next_view(),
            !old(ids).issued().contains(context.id_view()),
            final(ids).issued() == old(ids).issued().insert(context.id_view()),
            final(ids).next_view() == old(ids).next_view() + 1,
            context.open_files_view().is_none(),
    {
        let id = ids.issue();
        InvocationContext { id, plugin: plugin.into_text(), extensions: empty_extensions() }
    }

    /// The open-file state this context holds, if any.
    pub closed spec fn open_files_view(&self) -> Option<OpenFileState> {
        open_file_state_of(self.extensions)
    }

    /// Returns the open-file state of this invocation, storing an empty one
    /// first when it has none.
    pub(crate) fn open_files(&mut self) -> (files: &mut OpenFileState)
        ensures
            match old(self).open_files_view() {
                Some(stored) => *files == stored,
                None => files.live() == Set::<u32>::empty() && files.pending() == 0,
            },
            final(self).open_files_view() == Some(*final(files)),
            final(self).id_view() == old(self).id_view(),
            final(self).plugin_view() == old(self).plugin_view(),
    {
        open_file_state_entry(&mut self.extensions)
    }

    /// Returns the plugin name used by middleware diagnostics and policy.
    pub fn plugin(&self) -> (plugin: &str)
        ensures
            plugin@ == self.plugin_view(),
    {
        self.plugin.as_str()
    }

    /// Returns the invocation identifier.
    pub fn id(&self) -> (id: u64)
        ensures
            id == self.id_view(),
    {
        self.id
    }

    /// Inserts type-keyed policy state, returning the previous value if any.
    pub fn insert<T: Any + Send + Sync>(&mut self, value: T) -> (previous: Option<T>)
        ensures
            final(self).plugin_view() == old(self).plugin_view(),
            final(self).id_view() == old(self).id_view(),
    {
        insert_extension(&mut self.extensions, value)
    }

    /// Returns shared access to type-keyed policy state.
    pub fn get<T: Any + Send + Sync>(&self) -> Option<&T> {
        get_extension(&self.extensions)
    }

    /// Returns mutable access to type-keyed policy state.
    pub fn get_mut<T: Any + Send + Sync>(&mut self) -> (value: Option<&mut T>)
        ensures
            final(self).plugin_view() == old(self).plugin_view(),
            final(self).id_view() == old(self).id_view(),
    {
        get_extension_mut(&mut self.extensions)
    }
}

/// Middleware state embedded in an application's Wasmtime store data.
#[verifier::reject_recursive_types(S)]
pub struct MiddlewareCtx<S> {
    chain: Arc<Chain<S>>,
    context: InvocationContext,
}

impl<S> MiddlewareCtx<S> {
    /// The chain used to route calls for this store.
    pub closed spec fn chain_view(&self) -> Arc<Chain<S>> {
        self.chain
    }

    /// The invocation metadata and policy state.
    pub closed spec fn context_view(&self) -> InvocationContext {
        self.context
    }

    /// Combines a per-instance chain with invocation metadata.
    pub fn new(chain: Arc<Chain<S>>, context: InvocationContext) -> (ctx: MiddlewareCtx<S>)
        ensures
            ctx.chain_view() == chain,
            ctx.context_view() == context,
    {
        MiddlewareCtx { chain, context }
    }

    /// Returns the chain used to route calls for this store.
    pub fn chain(&self) -> (chain: &Arc<Chain<S>>)
        ensures
            *chain == self.chain_view(),
    {
        &self.chain
    }

    /// Returns the invocation metadata and policy state.
    pub fn context(&self) -> (context: &InvocationContext)
        ensures
            *context == self.context_view(),
    {
        &self.context
    }

    /// Returns mutable invocation metadata and policy state.
    pub fn context_mut(&mut self) -> (context: &mut InvocationContext)
        ensures
            *context == old(self).context_view(),
            final(self).chain_view() == old(self).chain_view(),
            final(self).context_view() == *final(context),
    {
        &mut self.context
    }
}

/// Projects middleware state out of an application's Wasmtime store data.
pub trait MiddlewareView: Sized + Send {
    /// Returns the chain and invocation context for this store.
    fn middleware(&mut self) -> &mut MiddlewareCtx<Self>;
}

} // verus!
