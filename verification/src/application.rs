//! The application: owns the pendulum, the clock, the settings and the
//! history buffer, and exposes the per-frame entry points a presenter
//! drives. The presenter itself (windowing, plotting, settings forms) is
//! external: it feeds configuration in and reads state and history out.

use vstd::prelude::*;
use crate::fixed::SCALE;
use crate::history::{
    counter_iter, enforce_retention, evict_spec, next_counter, record, records_at,
    strictly_increasing,
};
use crate::scheduler::{tick_rem, tick_whole};
use crate::structs::{DisplacementPoint, Pendulum, Settings, SimError, State};

verus! {

/// The simulation core and its recorded history.
pub struct Application {
    /// The decimated displacement trace, strictly increasing by time.
    pub past_displacement_points: Vec<DisplacementPoint>,
    /// The physical state.
    pub pendulum: Pendulum,
    /// The configuration read at each tick.
    pub settings: Settings,
    /// Time and step bookkeeping, plus the caller's window flags.
    pub state: State,
    /// A version tag for the presenter to display.
    pub version: String,
}

/// The parts of the application that one integrator step changes: the
/// mathematical model over which the stepping contracts are stated.
pub struct StepModel {
    pub buffer: Seq<DisplacementPoint>,
    pub pendulum: Pendulum,
    pub simulation_time: int,
    pub counter: int,
}

/// One integrator step on the model: count the step, advance the clock by
/// the timestep, advance the pendulum, and record the new displacement if
/// the decimation counter has passed `save_skip`.
pub open spec fn step_once(m: StepModel, timestep: int, save_skip: int) -> StepModel {
    let c = m.counter + 1;
    let t = m.simulation_time + timestep;
    let p = m.pendulum.advance_spec(timestep);
    let buffer = if c > save_skip {
        m.buffer.push(
            DisplacementPoint { displacement: p.displacement_spec() as i64, time: t as i64 },
        )
    } else {
        m.buffer
    };
    StepModel {
        buffer,
        pendulum: p,
        simulation_time: t,
        counter: next_counter(m.counter, save_skip),
    }
}

/// The model after `n` integrator steps.
pub open spec fn run_steps(m: StepModel, timestep: int, save_skip: int, n: nat) -> StepModel
    decreases n,
{
    if n == 0 {
        m
    } else {
        step_once(run_steps(m, timestep, save_skip, (n - 1) as nat), timestep, save_skip)
    }
}

/// The stepped model's decimation counter follows the counter recursion of
/// the history buffer, so the decimation-cadence law applies to it.
pub proof fn lemma_run_steps_counter(m: StepModel, timestep: int, save_skip: int, n: nat)
    ensures
        run_steps(m, timestep, save_skip, n).counter == counter_iter(m.counter, save_skip, n),
    decreases n,
{
    if n > 0 {
        lemma_run_steps_counter(m, timestep, save_skip, (n - 1) as nat);
    }
}

/// A sample is recorded at step `k` exactly when the counter recursion
/// records there: together with the decimation-cadence law this says that
/// between two buffer growths at least `save_skip + 1` steps elapse.
pub proof fn lemma_records_grow_buffer(m: StepModel, timestep: int, save_skip: int, k: nat)
    ensures
        run_steps(m, timestep, save_skip, (k + 1) as nat).buffer.len() == run_steps(
            m,
            timestep,
            save_skip,
            k,
        ).buffer.len() + (if records_at(m.counter, save_skip, k) {
            1int
        } else {
            0int
        }),
{
    lemma_run_steps_counter(m, timestep, save_skip, k);
}

/// History ordering: however many integrator steps run, the recorded trace
/// stays strictly increasing by time, no recorded sample lies in the
/// future, and the clock advances by exactly one timestep per step.
pub proof fn lemma_history_ordering(m: StepModel, timestep: int, save_skip: int, n: nat)
    requires
        strictly_increasing(m.buffer),
        m.buffer.len() > 0 ==> m.buffer.last().time <= m.simulation_time,
        0 <= m.simulation_time,
        timestep > 0,
        m.simulation_time + n * timestep <= i64::MAX,
    ensures
        ({
            let run = run_steps(m, timestep, save_skip, n);
            &&& run.simulation_time == m.simulation_time + n * timestep
            &&& strictly_increasing(run.buffer)
            &&& (run.buffer.len() > 0 ==> run.buffer.last().time <= run.simulation_time)
        }),
    decreases n,
{
    if n == 0 {
        assert(n * timestep == 0) by (nonlinear_arith)
            requires
                n == 0,
        ;
    } else {
        let k = (n - 1) as nat;
        assert(k * timestep + timestep == n * timestep && k * timestep <= n * timestep)
            by (nonlinear_arith)
            requires
                k + 1 == n,
                timestep > 0,
        ;
        lemma_history_ordering(m, timestep, save_skip, k);
        let prev = run_steps(m, timestep, save_skip, k);
        let t = prev.simulation_time + timestep;
        assert(0 <= t <= i64::MAX);
        if prev.counter + 1 > save_skip {
            let sample = DisplacementPoint {
                displacement: prev.pendulum.advance_spec(timestep).displacement_spec() as i64,
                time: t as i64,
            };
            assert(strictly_increasing(prev.buffer.push(sample)));
        }
    }
}

impl Application {
    /// The model of the current state.
    pub open spec fn step_model(self) -> StepModel {
        StepModel {
            buffer: self.past_displacement_points@,
            pendulum: self.pendulum,
            simulation_time: self.state.simulation_time as int,
            counter: self.state.positions_since_save as int,
        }
    }

    /// Well-formedness: the clock invariant holds, the history is strictly
    /// increasing by time, and no recorded sample lies in the future.
    pub open spec fn wf(self) -> bool {
        &&& self.state.wf()
        &&& strictly_increasing(self.past_displacement_points@)
        &&& (self.past_displacement_points@.len() > 0
            ==> self.past_displacement_points@.last().time <= self.state.simulation_time)
    }

    /// A fresh application: default pendulum, settings and clock, and an
    /// empty history.
    pub fn new(version: String) -> (app: Application)
        ensures
            app.past_displacement_points@ == Seq::<DisplacementPoint>::empty(),
            app.pendulum == (Pendulum {
                angle: 0i64,
                angular_velocity: 0i64,
                angular_acceleration: 0i64,
                length: SCALE,
            }),
            app.settings == (Settings {
                timestep: 10_000_000i64,
                steps_per_frame: SCALE,
                save_skip: 0usize,
                limit_saved_points: false,
                max_saved_points: 0usize,
            }),
            app.state == (State {
                running: false,
                steps_left: 0i64,
                simulation_time: 0i64,
                positions_since_save: 0usize,
                pendulum_info_active: false,
                settings_active: false,
            }),
            app.version == version,
            app.wf(),
            app.pendulum.valid(),
    {
        Application {
            past_displacement_points: Vec::new(),
            pendulum: Pendulum::default(),
            settings: Settings::default(),
            state: State::default(),
            version,
        }
    }

    /// One integrator step: count it toward the decimation counter, advance
    /// the clock by the timestep, advance the pendulum, and record the new
    /// displacement sample if the counter has passed `save_skip`.
    pub fn step(&mut self)
        requires
            old(self).wf(),
            old(self).pendulum.valid(),
            old(self).settings.timestep > 0,
            old(self).state.positions_since_save < usize::MAX,
            old(self).state.simulation_time + old(self).settings.timestep <= i64::MAX,
        ensures
            final(self).wf(),
            final(self).pendulum.valid(),
            final(self).step_model() == step_once(
                old(self).step_model(),
                old(self).settings.timestep as int,
                old(self).settings.save_skip as int,
            ),
            final(self).settings == old(self).settings,
            final(self).version == old(self).version,
            final(self).state == (State {
                simulation_time: final(self).state.simulation_time,
                positions_since_save: final(self).state.positions_since_save,
                ..old(self).state
            }),
    {
        self.state.positions_since_save = self.state.positions_since_save + 1;
        self.state.simulation_time = self.state.simulation_time + self.settings.timestep;
        self.pendulum.advance(self.settings.timestep);
        let displacement = self.pendulum.displacement();
        record(
            &mut self.past_displacement_points,
            &mut self.state.positions_since_save,
            self.settings.save_skip,
            displacement,
            self.state.simulation_time,
        );
    }

    /// The whole steps the scheduler will release this frame.
    pub open spec fn planned_steps(self) -> int {
        if self.state.running {
            tick_whole(self.state.steps_left as int, self.settings.steps_per_frame as int)
        } else {
            0
        }
    }

    /// The per-frame entry point: validate the configuration, release the
    /// whole steps owed by the fractional rate, run the integrator that
    /// many times, then enforce the retention limit on the history.
    pub fn tick_and_integrate(&mut self) -> (result: Result<(), SimError>)
        requires
            old(self).wf(),
            old(self).state.positions_since_save < usize::MAX,
            old(self).settings.save_skip < usize::MAX,
            old(self).settings.valid() && old(self).pendulum.valid()
                ==> old(self).state.simulation_time + old(self).planned_steps()
                    * old(self).settings.timestep <= i64::MAX,
        ensures
            final(self).wf(),
            !(old(self).settings.valid() && old(self).pendulum.valid()) ==> result == Err::<
                (),
                SimError,
            >(SimError::InvalidConfiguration) && *final(self) == *old(self),
            old(self).settings.valid() && old(self).pendulum.valid() ==> {
                let run = run_steps(
                    old(self).step_model(),
                    old(self).settings.timestep as int,
                    old(self).settings.save_skip as int,
                    old(self).planned_steps() as nat,
                );
                &&& result == Ok::<(), SimError>(())
                &&& final(self).pendulum == run.pendulum
                &&& final(self).pendulum.valid()
                &&& final(self).state.simulation_time as int == run.simulation_time
                &&& final(self).state.positions_since_save as int == run.counter
                &&& final(self).past_displacement_points@ == evict_spec(
                    run.buffer,
                    old(self).settings.limit_saved_points,
                    old(self).settings.max_saved_points as int,
                )
                &&& final(self).state.steps_left as int == if old(self).state.running {
                    tick_rem(
                        old(self).state.steps_left as int,
                        old(self).settings.steps_per_frame as int,
                    )
                } else {
                    old(self).state.steps_left as int
                }
                &&& old(self).settings.limit_saved_points
                    ==> final(self).past_displacement_points@.len()
                    <= old(self).settings.max_saved_points
                &&& final(self).settings == old(self).settings
                &&& final(self).version == old(self).version
                &&& final(self).state == (State {
                    steps_left: final(self).state.steps_left,
                    simulation_time: final(self).state.simulation_time,
                    positions_since_save: final(self).state.positions_since_save,
                    ..old(self).state
                })
            },
    {
        if self.settings.timestep <= 0 || self.settings.steps_per_frame < 0
            || self.pendulum.length <= 0 {
            return Err(SimError::InvalidConfiguration);
        }
        let ghost m0 = old(self).step_model();
        let ghost dt = old(self).settings.timestep as int;
        let ghost skip = old(self).settings.save_skip as int;
        let w: u64 = if self.state.running {
            let ticked = self.state.tick(self.settings.steps_per_frame);
            match ticked {
                Ok(w) => w,
                Err(_) => 0,
            }
        } else {
            0
        };
        let ghost st1 = self.state;
        proof {
            assert(w as int == old(self).planned_steps());
        }
        let mut i: u64 = 0;
        while i < w
            invariant
                i <= w,
                w as int == old(self).planned_steps(),
                self.step_model() == run_steps(m0, dt, skip, i as nat),
                self.wf(),
                self.pendulum.valid(),
                self.settings == old(self).settings,
                self.version == old(self).version,
                dt == old(self).settings.timestep as int,
                dt > 0,
                skip == old(self).settings.save_skip as int,
                skip < usize::MAX,
                self.state == (State {
                    simulation_time: self.state.simulation_time,
                    positions_since_save: self.state.positions_since_save,
                    ..st1
                }),
                self.state.simulation_time as int == m0.simulation_time + i * dt,
                m0.simulation_time + w * dt <= i64::MAX,
                i == 0 ==> self.state.positions_since_save == old(self).state.positions_since_save,
                i > 0 ==> self.state.positions_since_save <= old(self).settings.save_skip,
                old(self).state.positions_since_save < usize::MAX,
            decreases w - i,
        {
            proof {
                assert((i + 1) * dt <= w * dt && (i + 1) * dt == i * dt + dt) by (nonlinear_arith)
                    requires
                        i + 1 <= w,
                        dt > 0,
                ;
            }
            self.step();
            i = i + 1;
        }
        enforce_retention(
            &mut self.past_displacement_points,
            self.settings.limit_saved_points,
            self.settings.max_saved_points,
        );
        Ok(())
    }

    /// Reinitialize the pendulum, zero the clock, and clear the history.
    /// A non-positive length is rejected and nothing changes.
    pub fn reset(&mut self, initial_angle: i64, initial_velocity: i64, length: i64) -> (result:
        Result<(), SimError>)
        ensures
            length <= 0 ==> result == Err::<(), SimError>(SimError::InvalidConfiguration)
                && *final(self) == *old(self),
            length > 0 ==> {
                &&& result == Ok::<(), SimError>(())
                &&& final(self).pendulum == (Pendulum {
                    angle: initial_angle,
                    angular_velocity: initial_velocity,
                    angular_acceleration: 0i64,
                    length,
                })
                &&& final(self).past_displacement_points@ == Seq::<DisplacementPoint>::empty()
                &&& final(self).state == (State {
                    steps_left: 0i64,
                    simulation_time: 0i64,
                    positions_since_save: 0usize,
                    ..old(self).state
                })
                &&& final(self).settings == old(self).settings
                &&& final(self).version == old(self).version
                &&& final(self).wf()
                &&& final(self).pendulum.valid()
            },
    {
        if length <= 0 {
            return Err(SimError::InvalidConfiguration);
        }
        self.pendulum = Pendulum {
            angle: initial_angle,
            angular_velocity: initial_velocity,
            angular_acceleration: 0,
            length,
        };
        self.state.steps_left = 0;
        self.state.simulation_time = 0;
        self.state.positions_since_save = 0;
        self.past_displacement_points.clear();
        Ok(())
    }

    /// A read-only copy of the physical state.
    pub fn current_state(&self) -> (p: Pendulum)
        ensures
            p == self.pendulum,
    {
        self.pendulum
    }

    /// A read-only view of the recorded history, valid until the next
    /// mutating call.
    pub fn history_snapshot(&self) -> (h: &Vec<DisplacementPoint>)
        ensures
            h@ == self.past_displacement_points@,
    {
        &self.past_displacement_points
    }
}

} // verus!
