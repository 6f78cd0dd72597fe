//! A verified loader core for the class-file format of a managed runtime:
//! the modified-UTF-8 string codec, the binary class-file parser, the
//! runtime constant-pool builder, and the class-resolution engine.
//!
//! Data flows strictly upward: bytes become the typed class-file model
//! through the parser, the parsed constant pool becomes a runtime constant
//! pool of symbolic references and literals, and the resolution engine
//! turns symbolic class references into linked, cached runtime classes on
//! demand. Every function of the library carries a contract; the parser
//! and the pool builder are pinned down exactly by specification functions,
//! and the resolution engine's caching, circularity and pending-set
//! discipline are stated in its contracts and proved.

pub mod attributes;
pub mod loader;
pub mod model;
pub mod mutf8;
pub mod parser;
pub mod runtime;
pub mod sig;
pub mod symref;
