//! The integrator: advances the pendulum by one fixed timestep with
//! semi-implicit (symplectic) Euler integration of the simple-pendulum
//! equation of motion under constant gravity.

use vstd::prelude::*;
use vstd::arithmetic::div_mod::lemma_basic_div;
use crate::fixed::{fp_mul, fp_div, sat_add, fp_mul_spec, fp_div_spec, sat_add_spec, SCALE};
use crate::trig::{sin_fp, sin_shifted, sin_approx, cos_approx, lemma_sin_approx_zero, PI_FP, HALF_PI_FP};
use crate::structs::Pendulum;

verus! {

/// Gravitational acceleration, in nano-units: 9.81 m/s^2.
pub const G_FP: i64 = 9_810_000_000;

impl Pendulum {
    /// The state after one integrator step of `timestep` nanoseconds:
    /// the acceleration is recomputed from the pre-update angle, the
    /// velocity is updated with the new acceleration, and the angle with
    /// the just-updated velocity. The update order is the symplectic
    /// choice and must not be swapped.
    pub open spec fn advance_spec(self, timestep: int) -> Pendulum {
        let acc = fp_mul_spec(
            fp_div_spec(-(G_FP as int), self.length as int),
            sin_approx(self.angle as int),
        );
        let vel = sat_add_spec(self.angular_velocity as int, fp_mul_spec(acc, timestep));
        let ang = sat_add_spec(self.angle as int, fp_mul_spec(vel, timestep));
        Pendulum {
            angle: ang as i64,
            angular_velocity: vel as i64,
            angular_acceleration: acc as i64,
            length: self.length,
        }
    }

    /// Advance the pendulum in place by exactly one `timestep`.
    pub fn advance(&mut self, timestep: i64)
        requires
            old(self).valid(),
            timestep > 0,
        ensures
            *final(self) == old(self).advance_spec(timestep as int),
            final(self).valid(),
    {
        let base = fp_div(-9_810_000_000i64, self.length);
        let s = sin_fp(self.angle);
        let acc = fp_mul(base, s);
        self.angular_acceleration = acc;
        self.angular_velocity = sat_add(self.angular_velocity, fp_mul(acc, timestep));
        self.angle = sat_add(self.angle, fp_mul(self.angular_velocity, timestep));
    }

    /// The bob's linear displacement from the vertical, in nanometers:
    /// `length * cos(angle + pi)` in fixed point.
    pub open spec fn displacement_spec(self) -> int {
        fp_mul_spec(cos_approx(self.angle + PI_FP), self.length as int)
    }

    /// Compute the displacement of the current state.
    pub fn displacement(&self) -> (d: i64)
        ensures
            d == self.displacement_spec(),
    {
        let c = sin_shifted((self.angle as i128) + (PI_FP as i128) + (HALF_PI_FP as i128));
        fp_mul(c, self.length)
    }
}

/// The pendulum after `n` integrator steps of the same timestep.
pub open spec fn advance_iter(p: Pendulum, timestep: int, n: nat) -> Pendulum
    decreases n,
{
    if n == 0 {
        p
    } else {
        advance_iter(p, timestep, (n - 1) as nat).advance_spec(timestep)
    }
}

/// Determinism: advancing equal states by the same timestep yields equal
/// states. The executable `advance` returns `advance_spec` exactly, so two
/// runs from identical states produce identical results.
pub proof fn lemma_advance_deterministic(a: Pendulum, b: Pendulum, timestep: int)
    requires
        a == b,
    ensures
        a.advance_spec(timestep) == b.advance_spec(timestep),
{
}

/// Equilibrium invariance, one step: at rest at the stable equilibrium an
/// integrator step recomputes a zero acceleration and moves nothing, so a
/// state whose acceleration already reads zero is left exactly unchanged.
pub proof fn lemma_equilibrium_fixed_point(p: Pendulum, timestep: int)
    requires
        p.angle == 0,
        p.angular_velocity == 0,
    ensures
        p.advance_spec(timestep) == (Pendulum {
            angle: 0i64,
            angular_velocity: 0i64,
            angular_acceleration: 0i64,
            length: p.length,
        }),
        p.angular_acceleration == 0 ==> p.advance_spec(timestep) == p,
{
    lemma_sin_approx_zero();
    lemma_basic_div(0int, SCALE as int);
    let base = fp_div_spec(-(G_FP as int), p.length as int);
    assert(base * 0int == 0int);
    assert(fp_mul_spec(base, 0) == 0);
    assert(0int * timestep == 0int);
    assert(fp_mul_spec(0, timestep) == 0);
    assert(sat_add_spec(0, 0) == 0);
}

/// Equilibrium invariance, any number of steps: the equilibrium is a fixed
/// point of the iterated integrator.
pub proof fn lemma_equilibrium_invariant(p: Pendulum, timestep: int, n: nat)
    requires
        p.angle == 0,
        p.angular_velocity == 0,
        p.angular_acceleration == 0,
    ensures
        advance_iter(p, timestep, n) == p,
    decreases n,
{
    if n > 0 {
        lemma_equilibrium_invariant(p, timestep, (n - 1) as nat);
        lemma_equilibrium_fixed_point(p, timestep);
    }
}

} // verus!
