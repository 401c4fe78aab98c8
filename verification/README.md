# paperclip

Code generation for OpenAPI v2 specifications, with the clients and the
route bookkeeping that go with it, written in Verus: each function states
what it computes in its contract, and Verus proves it.

## Layout

- `src/` — the verified library.
  - `definitions.rs`, `emitter.rs` — building Rust definitions (structs,
    known types, maps, arrays) from schemas, and naming them.
  - `object.rs`, `impls.rs`, `sendable.rs` — the objects that stand for
    definitions, their builders, and the Rust source text written for them.
  - `collector.rs`, `requirements.rs` — collecting the parameters of
    operations and binding each operation to an object.
  - `modules.rs` — the module tree of the generated code.
  - `operation.rs` — the operation of a handler, from its arguments.
  - `mount.rs` — routes, resources, scopes, the paths of an application and
    the schema definitions of its handlers.
  - `base_url.rs` — the base URL of a generated client, with the host and
    base path of the specification applied.
  - `registry.rs` — the objects of the definition modules, by module.
  - `author.rs`, `meta.rs` — the metadata of a generated crate: its name
    and version from the specification, and its author from the
    environment and the git configuration.
  - `apis.rs`, `clients.rs`, `clients/` — requests of the generated clients
    and what their responses turn into.
  - `text.rs`, `models.rs`, `cli.rs`, `swagger.rs` — text helpers, the
    shared enums, the command line's version check, and errors.
- `tests/` — tests of the library.
- `app/` — the command line: reads a JSON specification, calls the library,
  and writes the generated modules.
