//! The raw-calculation variant: integrate for a fixed span of simulated
//! time and return the whole trace, one `(time, angle)` record per
//! integrator step with no decimation. A sibling command-line tool prints
//! each record as `"<time>;<angle>"`.

use vstd::prelude::*;
use vstd::arithmetic::div_mod::{lemma_fundamental_div_mod, lemma_mod_division_less_than_divisor};
use crate::integrator::advance_iter;
use crate::structs::{Pendulum, SimError};

verus! {

/// How many whole integrator steps fit in the simulated span: zero for a
/// negative span, otherwise the integer part of `time_to_simulate /
/// timestep`.
pub open spec fn raw_steps(time_to_simulate: int, timestep: int) -> int
    recommends
        timestep > 0,
{
    if time_to_simulate < 0 {
        0
    } else {
        time_to_simulate / timestep
    }
}

/// Integrate a pendulum of length `pendulum_length` from `start_angle` and
/// `start_speed` for `raw_steps` whole steps of `timestep`; record `k *
/// timestep` and the angle after `k + 1` steps as the `k`-th entry. A
/// non-positive timestep or length is rejected.
pub fn simulate(
    start_angle: i64,
    start_speed: i64,
    timestep: i64,
    time_to_simulate: i64,
    pendulum_length: i64,
) -> (res: Result<Vec<(i64, i64)>, SimError>)
    ensures
        (timestep <= 0 || pendulum_length <= 0) ==> res == Err::<Vec<(i64, i64)>, SimError>(
            SimError::InvalidConfiguration,
        ),
        timestep > 0 && pendulum_length > 0 ==> {
            let init = Pendulum {
                angle: start_angle,
                angular_velocity: start_speed,
                angular_acceleration: 0i64,
                length: pendulum_length,
            };
            let n = raw_steps(time_to_simulate as int, timestep as int);
            &&& res is Ok
            &&& res->Ok_0@.len() == n
            &&& forall|k: int|
                0 <= k < n ==> (#[trigger] res->Ok_0@[k]).0 == k * timestep
            &&& forall|k: int|
                0 <= k < n ==> (#[trigger] res->Ok_0@[k]).1 == advance_iter(
                    init,
                    timestep as int,
                    (k + 1) as nat,
                ).angle
        },
{
    if timestep <= 0 || pendulum_length <= 0 {
        return Err(SimError::InvalidConfiguration);
    }
    let ghost dt = timestep as int;
    let steps: u64 = if time_to_simulate < 0 {
        0
    } else {
        (time_to_simulate as u64) / (timestep as u64)
    };
    let ghost span = if time_to_simulate < 0 {
        0int
    } else {
        time_to_simulate as int
    };
    proof {
        if time_to_simulate >= 0 {
            lemma_fundamental_div_mod(time_to_simulate as int, dt);
            lemma_mod_division_less_than_divisor(time_to_simulate as int, dt);
        }
        assert(steps as int * dt == dt * (steps as int)) by (nonlinear_arith);
        assert(steps as int * dt <= span);
    }
    let ghost init = Pendulum {
        angle: start_angle,
        angular_velocity: start_speed,
        angular_acceleration: 0i64,
        length: pendulum_length,
    };
    let mut p = Pendulum {
        angle: start_angle,
        angular_velocity: start_speed,
        angular_acceleration: 0,
        length: pendulum_length,
    };
    let mut res: Vec<(i64, i64)> = Vec::new();
    let mut time: i64 = 0;
    let mut k: u64 = 0;
    while k < steps
        invariant
            k <= steps,
            dt == timestep as int,
            dt > 0,
            steps as int * dt <= span,
            0 <= span <= i64::MAX,
            p == advance_iter(init, dt, k as nat),
            p.length == pendulum_length > 0,
            res@.len() == k as int,
            forall|j: int| 0 <= j < k ==> (#[trigger] res@[j]).0 == j * dt,
            forall|j: int|
                0 <= j < k ==> (#[trigger] res@[j]).1 == advance_iter(init, dt, (j + 1) as nat).angle,
            time == k as int * dt,
            time >= 0,
        decreases steps - k,
    {
        proof {
            assert((k + 1) as int * dt <= steps as int * dt && (k + 1) as int * dt == k as int * dt
                + dt) by (nonlinear_arith)
                requires
                    k + 1 <= steps,
                    dt > 0,
            ;
        }
        p.advance(timestep);
        res.push((time, p.angle));
        time = time + timestep;
        k = k + 1;
    }
    Ok(res)
}

} // verus!
