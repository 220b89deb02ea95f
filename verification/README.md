# wasm-component-middleware

Middleware for calls across a WebAssembly component boundary, verified with
Verus. A chain of layers brackets each routed import or export: every layer's
`before` hook runs outside-in and may refuse the call, the body runs only when
all of them allow it, and the `after` hooks of exactly the layers that allowed
it run inside-out.

## Layout

- `src/` is the verified library.
  - `chain.rs`: the chain, its builder, and dispatch of import-like,
    export-like and state-lending bodies; the onion law.
  - `types.rs`, `arguments.rs`, `context.rs`: calls, outcomes, refusals,
    named argument values and their rendering, invocation contexts.
  - `allowlist.rs`, `budget.rs`, `logger.rs`, `open_files.rs`: the bundled
    layers, each with the laws that govern its state.
  - `relay.rs`: the bounded byte queue of relayed streams and the showing of
    each chunk to middleware.
  - `cancel.rs`: calls dropped while their body ran, whose layers observe the
    cancellation when the store is next available.
  - `routing.rs`, `verification.rs`, `wasi.rs`: routing host imports and
    component exports, and checking a component's imports against the routed
    interfaces.
  - `http.rs`: the synthetic call that brackets a complete outgoing HTTP
    request, and how refusals become WASI HTTP errors.
- `tests/` exercises the library, including real components written in the
  component text format.
- `app/` is the Wasmtime glue that the verifier does not see: `HasData`
  markers, the `route_imports!` macro, asynchronous dispatch with cancellation,
  the stream adapters that drive the relay queue, the WASI HTTP hooks and
  Preview 2 HTTP gates, the Preview 2 clock gates, the Preview 3 command-line,
  clock, random and filesystem gates, the Preview 3 HTTP gates, and a
  standard-error log sink.
