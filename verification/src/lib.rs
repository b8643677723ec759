//! Verified core of a radiation-beam placement optimiser.
//!
//! The crate holds the integer logic of the planner: how a rectangular
//! patient volume is discretised and addressed, how clinical regions become
//! clamped bounding boxes, how every voxel is classified against those
//! regions, how a dose pass is cut into slices for parallel workers, and how
//! the evolutionary search selects, pairs and replaces candidates. Dose
//! values and fitness scores themselves are floating-point quantities that
//! are computed by the caller; here a fitness score is represented by an
//! integer key that orders the same way.

pub mod beam_utils;
pub mod mask;
pub mod cost;
pub mod dose;
pub mod ga;
