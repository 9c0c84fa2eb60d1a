//! Source location resolution for WebAssembly modules.
//!
//! Maps a raw execution address inside a WASM module back to a source file,
//! line and column by decoding the DWARF line-number program embedded in the
//! module's debug sections, and persists decoded mappings in a
//! content-addressed cache keyed by the SHA-256 hash of the module bytes.

pub mod byte_readers;
pub mod line_program;
pub mod source_map_cache;
pub mod source_mapper;
pub mod types;
pub mod vm;
pub mod wasm_types;
