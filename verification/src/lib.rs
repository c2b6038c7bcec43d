//! A falling-sand cellular automaton: a fixed-size grid of cells, each holding
//! a substance, evolved one synchronous tick at a time under per-substance
//! local rules (gravity, erosion, moisture transfer, growth, combustion, decay).

pub mod substance;
pub mod grid;
pub mod rng;
pub mod rules;
pub mod tick;
pub mod laws;
