//! Patterns for a native extension of a managed runtime: buffers shared
//! across the boundary without copying, the discipline around the runtime's
//! global lock, errors raised by managed callables, and the text form in
//! which a tracing context crosses the boundary.

pub mod arrow_spec;
pub mod buffer;
pub mod callback;
pub mod context;
pub mod lock;
pub mod metadata;
pub mod ownership;
pub mod propagation;
