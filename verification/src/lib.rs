//! Pull-based iteration over resumable computations.
//!
//! A resumable computation is an explicit state machine that hands out one
//! value per resumption until it completes.  [`YieldIter`] turns such a
//! computation into a "next item or end" interface, [`Fuse`] makes the end
//! of the sequence permanent, and the parallel bridge materialises every item
//! before it hands them to a data-parallel consumer.

pub mod generator;
pub mod adapter;
pub mod fuse;
pub mod parallel;
pub mod source;

pub use adapter::{Phase, YieldIter};
pub use fuse::{generator, Fuse};
pub use generator::{Generator, GeneratorState};
pub use source::{Counter, Repeat, Replay, Scaled};
