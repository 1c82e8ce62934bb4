//! Windowed audio loading: metadata validation, decode-window resolution,
//! bounded collection of decoded sample runs into a matrix, duration
//! arithmetic and playback interleaving.
use vstd::prelude::*;

pub mod error;
pub mod window;
pub mod meta;
mod arith;
pub mod matrix;
pub mod collector;
pub mod laws;
pub mod duration;
pub mod playback;

verus! {

} // verus!
