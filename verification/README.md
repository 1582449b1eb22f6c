# polypeek_core

A registry of transcoders between data formats, verified with Verus.

- `src/transcoder.rs`: format identity (`DataFormat`), the `Data` trait, type-erased
  payloads (`AnyData`), errors, and the type-erased hop (`downcast_any_data`, `transcode_any`).
- `src/text.rs`: the built-in raw-bytes and UTF-8 text formats and the conversions between them.
- `src/graph.rs`: the `petgraph` graph the registry is kept in, behind trusted wrappers.
- `src/registry.rs`: `Registry`, which adds formats and codecs and turns a route found through
  the graph into the codecs along it.
- `src/cli.rs`: which input the viewer's command line names.
- `app/`: the `f32`-weighted `Transcoder` trait, the A* search for the cheapest route, and the
  demo program.
