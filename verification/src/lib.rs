//! Verified core of a simple gravity-pendulum simulator.
//!
//! The crate covers the three parts of the simulation with non-trivial
//! invariants: the symplectic-Euler integrator for the pendulum's equation
//! of motion, the step scheduler that turns a fractional steps-per-frame
//! rate into whole integrator steps without losing fractional work, and the
//! decimated, optionally bounded history buffer of displacement samples.
//!
//! All physical quantities are held in fixed-point form: an `i64` counts
//! billionths of a unit (nanoradians, nanoseconds, nanometers), so every
//! step of the integrator, the scheduler and the history buffer is exact
//! integer arithmetic. Presentation (windowing, plotting, settings forms)
//! is left to callers, which read the state and the history through the
//! snapshot methods.

pub mod application;
pub mod fixed;
pub mod history;
pub mod integrator;
pub mod scheduler;
pub mod simulate;
pub mod structs;
pub mod trig;

pub use fixed::SCALE;
