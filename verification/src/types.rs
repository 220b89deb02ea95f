use vstd::prelude::*;

use crate::arguments::{ArgumentList, ArgumentValue, Arguments};

verus! {

#[verifier::external_type_specification]
#[verifier::external_body]
pub struct ExWasmtimeError(wasmtime::Error);

/// Identifies which side of the component boundary initiated a call.
#[derive(Clone, Copy, Debug, PartialEq, Eq, Structural)]
pub enum Direction {
    /// A host caller is invoking a component export.
    Export,
    /// A component is invoking a host import.
    Import,
}

impl Direction {
    /// The word used for this direction in diagnostics.
    pub open spec fn label(self) -> Seq<char> {
        match self {
            Direction::Export => seq!['e', 'x', 'p', 'o', 'r', 't'],
            Direction::Import => seq!['i', 'm', 'p', 'o', 'r', 't'],
        }
    }

    /// Returns `"export"` or `"import"`.
    pub fn as_str(&self) -> (label: &'static str)
        ensures
            label@ == self.label(),
    {
        match self {
            Direction::Export => {
                proof {
                    reveal_strlit("export");
                }
                "export"
            },
            Direction::Import => {
                proof {
                    reveal_strlit("import");
                }
                "import"
            },
        }
    }
}

/// Describes one call observed by middleware.
#[derive(Clone, Copy, Debug)]
pub struct Call<'a> {
    /// The chain-local identifier used to correlate the call's two phases.
    pub id: u64,
    /// Whether the call enters or leaves the component.
    pub direction: Direction,
    /// The canonical WIT interface name, or `None` for a root function.
    pub interface: Option<&'a str>,
    /// The interface's package version, when the caller knows it.
    pub version: Option<&'a str>,
    /// The WIT function name.
    pub function: &'a str,
    /// Resource representations consumed by the call.
    pub handles: &'a [u32],
    /// Named argument values exposed to layers.
    pub args: ArgumentList<'a>,
}

impl<'a> Call<'a> {
    /// The interface name as characters, if the call belongs to one.
    pub open spec fn interface_view(self) -> Option<Seq<char>> {
        match self.interface {
            Some(name) => Some(name@),
            None => None,
        }
    }

    /// The version as characters, if the caller supplied one.
    pub open spec fn version_view(self) -> Option<Seq<char>> {
        match self.version {
            Some(version) => Some(version@),
            None => None,
        }
    }

    /// Creates a root-level call with no handles and no arguments.
    pub fn new(id: u64, direction: Direction, function: &'a str) -> (call: Call<'a>)
        ensures
            call.id == id,
            call.direction == direction,
            call.interface.is_none(),
            call.version.is_none(),
            call.function@ == function@,
            call.handles@ == Seq::<u32>::empty(),
            call.args.view() == Seq::<(Seq<char>, ArgumentValue)>::empty(),
    {
        Call {
            id,
            direction,
            interface: None,
            version: None,
            function,
            handles: &[],
            args: ArgumentList::empty(),
        }
    }

    /// Places the call in `interface`, optionally at `version`.
    pub fn in_interface(self, interface: &'a str, version: Option<&'a str>) -> (call: Call<'a>)
        ensures
            call.id == self.id,
            call.direction == self.direction,
            call.interface == Some(interface),
            call.version == version,
            call.function == self.function,
            call.handles == self.handles,
            call.args == self.args,
    {
        Call { interface: Some(interface), version, ..self }
    }

    /// Records the resource representations the call consumes.
    pub fn with_handles(self, handles: &'a [u32]) -> (call: Call<'a>)
        ensures
            call.id == self.id,
            call.direction == self.direction,
            call.interface == self.interface,
            call.version == self.version,
            call.function == self.function,
            call.handles == handles,
            call.args == self.args,
    {
        Call { handles, ..self }
    }

    /// Exposes `args` to the layers that observe the call.
    pub fn with_args(self, args: &'a Arguments) -> (call: Call<'a>)
        ensures
            call.id == self.id,
            call.direction == self.direction,
            call.interface == self.interface,
            call.version == self.version,
            call.function == self.function,
            call.handles == self.handles,
            call.args.view() == args.view(),
    {
        Call { args: args.list(), ..self }
    }
}

/// Describes resources produced by a completed call.
#[derive(Debug, Eq, PartialEq)]
pub struct Completion {
    /// Resource representations returned to the caller.
    pub produced: Vec<u32>,
}

impl Default for Completion {
    fn default() -> (completion: Self)
        ensures
            completion.produced@ == Seq::<u32>::empty(),
    {
        Completion { produced: Vec::new() }
    }
}

/// A policy refusal returned before the call body runs.
#[derive(Clone, Debug, Eq, PartialEq)]
pub struct Denied {
    reason: String,
}

/// Owned or borrowed text.
pub trait IntoText {
    /// The characters of the text.
    spec fn text_view(&self) -> Seq<char>;

    /// Converts the value into an owned string.
    fn into_text(self) -> (reason: String)
        ensures
            reason@ == self.text_view(),
    ;
}

impl<'a> IntoText for &'a str {
    open spec fn text_view(&self) -> Seq<char> {
        (**self)@
    }

    fn into_text(self) -> (reason: String) {
        self.to_owned()
    }
}

impl IntoText for String {
    open spec fn text_view(&self) -> Seq<char> {
        self@
    }

    fn into_text(self) -> (reason: String) {
        self
    }
}

impl Denied {
    /// The refusal reason as characters.
    pub closed spec fn view(&self) -> Seq<char> {
        self.reason@
    }

    /// Creates a refusal with a human-readable reason.
    pub fn new<R: IntoText>(reason: R) -> (denied: Denied)
        ensures
            denied.view() == reason.text_view(),
    {
        Denied { reason: reason.into_text() }
    }

    /// Returns the human-readable refusal reason.
    pub fn reason(&self) -> (reason: &str)
        ensures
            reason@ == self.view(),
    {
        self.reason.as_str()
    }
}

/// Why a routed call did not return a value.
#[derive(Debug)]
pub enum Failure {
    /// A layer refused the call before its body ran.
    Denied(Denied),
    /// The body, or the host implementation behind it, returned an error.
    Error(wasmtime::Error),
}

/// Describes how a call ended when it reaches a layer's `after` hook.
#[derive(Clone, Copy, Debug)]
#[non_exhaustive]
pub enum Outcome<'a> {
    /// The body returned successfully with completion metadata.
    Returned(&'a Completion),
    /// A layer refused the call or the body returned an error.
    Failed(&'a Failure),
    /// The asynchronous body was dropped before it completed.
    Cancelled,
}

/// Brackets component calls with a decision phase and an observation phase.
pub trait Layer<S>: Send + Sync {
    /// State retained by this layer while the body runs.
    type Frame: Send;

    /// Allows the call and returns its frame, or refuses it before any effect.
    fn before(&self, state: &mut S, call: &Call<'_>) -> Result<Self::Frame, Denied>;

    /// Observes the outcome of a call that this layer allowed.
    fn after(&self, state: &mut S, call: &Call<'_>, frame: Self::Frame, outcome: Outcome<'_>);
}

} // verus!
