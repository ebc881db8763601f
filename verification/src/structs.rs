//! The simulation's data types.
//!
//! Every physical quantity is a fixed-point `i64` counting billionths of
//! its unit: angles in nanoradians, times in nanoseconds, lengths and
//! displacements in nanometers, rates in nano-steps per frame.

use vstd::prelude::*;
use crate::fixed::SCALE;

verus! {

/// A configuration the core rejects: a non-positive timestep or length,
/// or a negative steps-per-frame rate.
#[derive(Clone, Copy, PartialEq, Eq, Structural, Debug)]
pub enum SimError {
    InvalidConfiguration,
}

/// One recorded observation of the pendulum: the bob's linear displacement
/// (nanometers) at a simulation time (nanoseconds). Immutable once created.
#[derive(Clone, Copy, PartialEq, Eq, Structural, Debug)]
pub struct DisplacementPoint {
    pub displacement: i64,
    pub time: i64,
}

impl DisplacementPoint {
    pub fn new(displacement: i64, time: i64) -> (p: Self)
        ensures
            p == (DisplacementPoint { displacement, time }),
    {
        Self { displacement, time }
    }
}

/// Configuration read at each tick; edited freely by the caller and
/// validated by the core at the point of use.
#[derive(Clone, Copy, PartialEq, Eq, Structural, Debug)]
pub struct Settings {
    /// Simulated nanoseconds per integrator step; must be positive.
    pub timestep: i64,
    /// Integrator steps per frame, in nano-steps; fractional rates carry
    /// over between frames; must be nonnegative.
    pub steps_per_frame: i64,
    /// Number of integrator steps to skip between recorded samples.
    pub save_skip: usize,
    /// Whether the history buffer is bounded.
    pub limit_saved_points: bool,
    /// Bound on the history buffer when `limit_saved_points` is set.
    pub max_saved_points: usize,
}

impl Settings {
    /// The settings usable for stepping: a positive timestep and a
    /// nonnegative rate.
    pub open spec fn valid(self) -> bool {
        &&& self.timestep > 0
        &&& self.steps_per_frame >= 0
    }
}

impl Default for Settings {
    /// A hundredth of a second per step, one step per frame, no
    /// decimation, unbounded history.
    fn default() -> (d: Self)
        ensures
            d == (Settings {
                timestep: 10_000_000i64,
                steps_per_frame: SCALE,
                save_skip: 0usize,
                limit_saved_points: false,
                max_saved_points: 0usize,
            }),
    {
        Self {
            timestep: 10_000_000,
            steps_per_frame: SCALE,
            save_skip: 0,
            limit_saved_points: false,
            max_saved_points: 0,
        }
    }
}

/// The physical state of the pendulum. The acceleration is derived: the
/// integrator recomputes it from the angle and the length at each step.
#[derive(Clone, Copy, PartialEq, Eq, Structural, Debug)]
pub struct Pendulum {
    /// Angular displacement from the stable equilibrium, nanoradians.
    pub angle: i64,
    /// Nanoradians per second.
    pub angular_velocity: i64,
    /// Nanoradians per second squared; recomputed each step.
    pub angular_acceleration: i64,
    /// Length of the pendulum, nanometers; must stay positive.
    pub length: i64,
}

impl Pendulum {
    /// The pendulum's invariant: a positive length.
    pub open spec fn valid(self) -> bool {
        self.length > 0
    }
}

impl Default for Pendulum {
    /// At rest at the stable equilibrium, one meter long.
    fn default() -> (d: Self)
        ensures
            d == (Pendulum {
                angle: 0i64,
                angular_velocity: 0i64,
                angular_acceleration: 0i64,
                length: SCALE,
            }),
            d.valid(),
    {
        Self { angle: 0, angular_velocity: 0, angular_acceleration: 0, length: SCALE }
    }
}

/// Bookkeeping for time and step accounting, plus the caller's run and
/// window flags.
#[derive(Clone, Copy, PartialEq, Eq, Structural, Debug)]
pub struct State {
    /// Whether the external driver is advancing the simulation.
    pub running: bool,
    /// Fractional steps carried over between frames, in nano-steps;
    /// kept in `[0, SCALE)`.
    pub steps_left: i64,
    /// Elapsed simulated time, nanoseconds; nondecreasing while stepping.
    pub simulation_time: i64,
    /// Integrator steps since the last recorded sample.
    pub positions_since_save: usize,
    /// Whether the pendulum-settings window is shown.
    pub pendulum_info_active: bool,
    /// Whether the general settings window is shown.
    pub settings_active: bool,
}

impl State {
    /// The clock's invariant: the carry-over is a proper fraction of a
    /// step and elapsed time is nonnegative.
    pub open spec fn wf(self) -> bool {
        &&& 0 <= self.steps_left < SCALE
        &&& self.simulation_time >= 0
    }
}

impl Default for State {
    /// Paused at time zero with no carried-over fraction.
    fn default() -> (d: Self)
        ensures
            d == (State {
                running: false,
                steps_left: 0i64,
                simulation_time: 0i64,
                positions_since_save: 0usize,
                pendulum_info_active: false,
                settings_active: false,
            }),
            d.wf(),
    {
        Self {
            running: false,
            steps_left: 0,
            simulation_time: 0,
            positions_since_save: 0,
            pendulum_info_active: false,
            settings_active: false,
        }
    }
}

} // verus!
