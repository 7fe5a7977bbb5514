//! A build-and-bundle pipeline for virtual-machine actor modules.
//!
//! The library covers the logic of the pipeline: discovering buildable
//! units, constructing the batched compiler invocation, extracting each
//! unit's dispatch table from its entry-point source text, deriving the
//! numeric method selectors, encoding the canonical manifest, and
//! computing the artifact names and the run report.  Process control,
//! file reading and writing stay with the caller.

pub mod abi;
pub mod assemble;
pub mod bytes;
pub mod compile;
pub mod discover;
pub mod extract;
pub mod pipeline;
pub mod selector;
