//! Opaque handles for the handlers that an engine provides to the kernel. The
//! kernel never looks inside them: it only passes references to them back to the
//! engine.

use vstd::prelude::*;

verus! {

/// The engine's file system client.
pub struct EngineFileSystemClient {}

/// The engine's JSON handler.
pub struct EngineJsonHandler {}

/// The engine's Parquet handler.
pub struct EngineParquetHandler {}

/// A batch of column data owned by the engine.
pub struct ColumnBatch;

} // verus!
