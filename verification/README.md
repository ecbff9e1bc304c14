# deltakernel (verified FFI core)

The logic behind the kernel's C interface, written in Verus and proved against its
contracts.

- `src/reference_set.rs`: the id table that hands kernel objects to an engine.
- `src/expressions.rs`, `src/visitor.rs`: the predicate visitor through which an
  engine builds kernel expressions bottom-up.
- `src/schema.rs`: schemas and the plan of callbacks by which a schema is walked
  for an engine's schema visitor, with the proof that every plan can be carried out.
- `src/table_url.rs`: the `file:` URL of a table's directory (through the `url` crate).
- `src/json.rs`: the JSON handler's `parse_json`: the checks and newline framing
  applied to a column of JSON strings, verified, and the `arrow_json` decoding behind
  a trusted wrapper.
- `src/engine.rs`: opaque engine handles.
- `app/`: the exported `extern "C"` functions and `#[repr(C)]` structs.
- `tests/`: tests of the library.

## Not carried over

The kernel's C interface also opens tables, takes snapshots and plans scans
(`get_default_client`, `snapshot`, `version`, `get_scan_files`, `test_client`), wraps
engine handlers as kernel traits (`EngineTraitWrapper`, `EngineTableClient`), and reads
JSON files into engine data (`read_json_files`). All of these rest on kernel modules
(table client and executor, snapshot, scan builder, engine data, the engine traits,
the kernel schema and its conversion to arrow) that are not part of this code, so they
are not here. The predicate half of `get_scan_files` is `app::ffi::engine_predicate_expression`.

`parse_json` takes its output schema as an arrow schema (`OutputSchema`) rather than
the kernel's schema, whose conversion to arrow is one of those absent modules.

On unix, a canonical table path that is not UTF-8 is turned into a URL by app/
itself: the library takes paths as `&str`, and raw OS path bytes (`std::os`) are kept
out of it.
