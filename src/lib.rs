//! Monte Carlo estimation of the chance that an attack force, spread at
//! random over several targets, overflows a defense threshold.
//!
//! - `distribution`: the uniform distribution of attack magnitudes;
//! - `allocation`: how one attack is spread over the day's targets;
//! - `trials`: the hit count of repeated independent allocations;
//! - `sweep`: the estimate for one defense and the parallel sweep of defenses;
//! - `config`: the parameters, read from command options, and their checks;
//! - `response`, `signature`: the command's responses and request signatures.

pub mod sums;
pub mod distribution;
pub mod allocation;
pub mod trials;
pub mod config;
pub mod sweep;
pub mod response;
pub mod signature;
