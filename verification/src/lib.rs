//! An interpreter for programs that are computation graphs: a flat list of
//! node records that refer to each other by id, with a pool of constants,
//! in a chunked binary container.
//!
//! `format` holds the program, its wire format and the codec; `runtime`
//! the values, the heap, the computations that complete later, the state of
//! an execution and the executor; `types` an advisory type system.

pub mod format;
pub mod runtime;
pub mod types;
