//! The core of a real-time, top-down tank combat simulation, in fixed-point arithmetic.
//!
//! Lengths are thousandths of an arena unit, speeds thousandths of a unit per second,
//! instants and durations milliseconds, and ratios thousandths. Time and chance come
//! from the caller: every operation that needs the time takes it as an argument, and
//! every operation that needs chance takes a seedable generator.
pub mod entities;
pub mod fixed;
pub mod game;
pub mod math_challenge;
pub mod random;
pub mod systems;
pub mod text;
