//! A feed-forward neural-network engine over saturating fixed-point
//! numbers, with hand-written gradients, five optimizers, three losses and
//! a deep Q-learning agent that drives the network through a turn-based
//! environment. Every contract is machine-checked; the laws module states
//! the properties the library warrants.

use vstd::prelude::*;

pub mod fx;
mod rng;
pub mod vecops;
pub mod optimizers;
pub mod layers;
pub mod losses;
pub mod tensor;
pub mod nn;
pub mod agent;
pub mod laws;

verus! {

} // verus!
