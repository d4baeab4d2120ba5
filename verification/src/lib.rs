//! A nested-span accounting engine for metered guest execution.
//!
//! Callers mark named sections of a run with `start` and `end` events against
//! a monotonically decreasing compute-unit budget and, optionally, a heap
//! usage counter. The engine reconstructs the nesting of those sections from
//! sequence numbers alone and derives, per section, the total resource
//! consumed inside its span and the net resource attributable to the section
//! itself, with every subtraction clamped at zero.

pub mod laws;
pub mod model;
pub mod state;

pub use model::HEAP_CAPACITY;
pub use state::ActiveEntry;
pub use state::CompletedEntry;
pub use state::HeapMetrics;
pub use state::ProfilingState;
