//! Encoder stack of a transformer whose layers share parameters in groups.
//!
//! The stack projects its input from the embedding size to the hidden size
//! and then walks its depth: each depth step hands the hidden states to one
//! group of blocks, and a group serves a run of consecutive steps, so that a
//! few groups reach a great depth. On the way the stack can collect the
//! hidden states that entered each step and the attention weights of each
//! block.
//!
//! - `config`: the configuration values that the stack reads.
//! - `path`: the names under which parameters are registered.
//! - `runtime`: the tensor operations, and the relations that describe them.
//! - `schedule`: which group serves which depth step.
//! - `layer`, `group`, `transformer`: a block, a group of blocks, the stack.
//! - `determinism`, `shapes`: what holds of a pass where the runtime is
//!   deterministic, and where it treats shapes as linear algebra does.

pub mod config;
pub mod determinism;
pub mod group;
pub mod layer;
pub mod path;
pub mod runtime;
pub mod schedule;
pub mod shapes;
pub mod transformer;
