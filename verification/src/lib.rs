//! Embeds a length-prefixed payload into an already-built binary module by
//! rewriting a conventionally named placeholder function.
//!
//! The library works on a structured in-memory representation of such a
//! module: its functions, imports, exports, linear memories and data
//! segments.  A patch run stamps export names onto functions as debug names,
//! appends one passive data segment holding the payload behind a big-endian
//! length prefix, replaces the placeholder's body with a single bulk copy
//! from that segment, removes the dummy import the placeholder carried to
//! survive dead-code elimination, and drops the placeholder's export entry.

pub mod module;
pub mod segment;
pub mod patch;
pub mod laws;
