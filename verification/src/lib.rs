//! A discrete-time, individual-based epidemic simulator over the five
//! compartments Susceptible, Exposed, Infectious, Resistant and Dead.
//!
//! Probabilities are fixed-point thresholds (see [`chance::Chance`]), durations
//! are whole hours, and the reproduction number is kept as an exact ratio, so
//! that every rule of the engine is stated and proved over integers. With a
//! scripted sampler a run is a function of the script, and the contracts say
//! which. The grammar of the disease file stands in [`config`].

pub mod chance;
pub mod config;
pub mod person;
pub mod sampler;
pub mod engine;
pub mod simulation;
pub mod render;
