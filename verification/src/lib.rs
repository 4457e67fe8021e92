//! Mood-driven track selection and randomized daily scheduling.
//!
//! All mood arithmetic is carried out in fixed-point integers: a value of
//! `1.0` is represented as `1_000_000` millionths ("micros"). Distances are
//! compared as squared distances, which keeps every comparison exact.

pub mod clock;
pub mod digits;
pub mod factors;
pub mod mood;
pub mod recent;
pub mod rng;
pub mod scheduler;
pub mod selector;
pub mod text;
