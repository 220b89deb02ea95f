//! Middleware for calls across a WebAssembly component boundary.
//!
//! Layers bracket each routed call with a decision phase (`before`) and an
//! observation phase (`after`). A chain runs the decision phases outside-in,
//! runs the call body only when every layer allowed it, and then runs the
//! observation phases inside-out for exactly the layers that allowed it.

pub mod allowlist;
pub mod arguments;
pub mod budget;
pub mod cancel;
pub mod chain;
pub mod context;
pub mod http;
pub mod logger;
pub mod open_files;
pub mod relay;
pub mod routing;
mod text;
pub mod types;
pub mod verification;
pub mod wasi;

pub use allowlist::Allowlist;
pub use arguments::{ArgumentList, ArgumentValue, Arguments};
pub use budget::{charge, Budget};
pub use cancel::{Cancellations, OwnedCall};
pub use chain::{Chain, ChainBuilder, Frames, Hook, StateAccess};
pub use context::{Extensions, InvocationContext, InvocationIds, MiddlewareCtx, MiddlewareView};
pub use http::{
    classify_failure, head_arguments, http_error, http_p2_routed_interfaces, http_p3_routed_interfaces, request_arguments, request_head, send_request_call, HttpFailure,
    RequestHead, WasiHttpHooks, REQUEST_HOOK_INTERFACE, SEND_REQUEST,
};
pub use logger::{AnySink, CallDepths, LogSink, Logger};
pub use open_files::{OpenFileState, OpenFiles, DROP_DESCRIPTOR, FILESYSTEM_PREOPENS, FILESYSTEM_TYPES, GET_DIRECTORIES, OPEN_AT};
pub use relay::{chunk_arguments, chunk_call, chunk_decision, Accepted, Delivery, Intake, Offered, Origin, Produced, RelayQueue, StreamRelay, DEFAULT_STREAM_BUFFER_CAPACITY};
pub use routing::{dispatch_gated, dispatch_import, gated_call, route_export, Routed, RoutedInterface, Routing};
pub use types::{Call, Completion, Denied, Direction, Failure, IntoText, Layer, Outcome};
pub use verification::{
    check_imports, import_list, unversioned_interface, verify_routing, ComponentImport, InstanceExport, ItemKind,
    Unrouted,
};
pub use wasi::{p2_routed_interfaces, p3_routed_interfaces, verify_wasi_routing};
