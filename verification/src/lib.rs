//! A verified interpreter for a minimal tape-based esoteric language:
//! eight single-character instructions over a fixed-size byte tape, with
//! bracket-delimited looping.
//!
//! The `semantics` module gives the mathematical model: a deterministic
//! small-step transition function over an abstract machine state, together
//! with the parsing and bracket-balance specifications.  The `interpreter`
//! module holds the executable parser, balance validator and run loop, each
//! proved to refine that model.  The `laws` module states and proves the
//! general properties that hold of the library as a whole.

pub mod interpreter;
pub mod laws;
pub mod semantics;
