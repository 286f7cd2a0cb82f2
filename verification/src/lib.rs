//! Deterministic terrain generation from a text seed.
//!
//! An integer checksum of the seed text drives a trial-division prime search
//! that serves as a hash/diffusion primitive. A fixed-size grid of signed
//! integer heights is first filled through a diagonal hash recurrence, then
//! mutated by repeated 8-neighbor convolution passes until a continuity
//! heuristic judges the terrain settled: clear ground/water separation with
//! enough contiguous straight runs of ground.
//!
//! The contract of the whole pipeline is bit-for-bit reproducibility for a
//! given seed, not visual quality. Heights are plain 32-bit integers; every
//! addition, subtraction and multiplication on them wraps (two's complement),
//! and every division against a computed range or population count falls back
//! to the divisor 1 where the computed divisor is zero, so that the arithmetic
//! is total and the result remains a function of the seed alone.
pub mod arith;
pub mod conv;
pub mod heightmap;
pub mod metrics;
pub mod passes;
pub mod prime;
