use pendulum::application::Application;
use pendulum::history::{enforce_retention, record};
use pendulum::simulate::simulate;
use pendulum::structs::{DisplacementPoint, Pendulum, Settings, SimError, State};

#[test]
fn fractional_rate_carries_over() {
    let mut st = State::default();
    // 2.5 steps per frame: 2 whole steps, then 3, alternating exactly.
    let w1 = st.tick(2_500_000_000).unwrap();
    assert_eq!(w1, 2);
    assert_eq!(st.steps_left, 500_000_000);
    let w2 = st.tick(2_500_000_000).unwrap();
    assert_eq!(w2, 3);
    assert_eq!(st.steps_left, 0);
}

#[test]
fn zero_rate_releases_no_steps() {
    let mut st = State::default();
    for _ in 0..5 {
        assert_eq!(st.tick(0).unwrap(), 0);
        assert_eq!(st.steps_left, 0);
    }
}

#[test]
fn negative_rate_is_rejected() {
    let mut st = State::default();
    assert_eq!(st.tick(-1), Err(SimError::InvalidConfiguration));
    assert_eq!(st.steps_left, 0);
}

#[test]
fn step_accounting_is_exact_over_many_ticks() {
    let mut st = State::default();
    let rates: Vec<i64> = vec![2_500_000_000, 300_000_000, 0, 1_700_000_000, 999_999_999, 1];
    let mut total: u64 = 0;
    let mut sum: i64 = 0;
    for r in rates {
        total += st.tick(r).unwrap();
        sum += r;
        assert!(st.steps_left >= 0 && st.steps_left < 1_000_000_000);
    }
    assert_eq!(total as i64 * 1_000_000_000 + st.steps_left, sum);
    assert_eq!(total as i64, sum / 1_000_000_000);
}

#[test]
fn record_appends_when_counter_passes_skip() {
    let mut buf: Vec<DisplacementPoint> = Vec::new();
    let mut counter: usize = 3;
    assert!(record(&mut buf, &mut counter, 2, 42, 10));
    assert_eq!(counter, 0);
    assert_eq!(buf.len(), 1);
    assert_eq!(buf[0], DisplacementPoint { displacement: 42, time: 10 });
    counter = 2;
    assert!(!record(&mut buf, &mut counter, 2, 43, 20));
    assert_eq!(counter, 2);
    assert_eq!(buf.len(), 1);
}

#[test]
fn retention_evicts_oldest_first() {
    let mut buf = vec![
        DisplacementPoint::new(10, 1),
        DisplacementPoint::new(20, 2),
        DisplacementPoint::new(30, 3),
    ];
    enforce_retention(&mut buf, true, 2);
    assert_eq!(buf.len(), 2);
    assert_eq!(buf[0].time, 2);
    assert_eq!(buf[1].time, 3);
    enforce_retention(&mut buf, false, 0);
    assert_eq!(buf.len(), 2);
    enforce_retention(&mut buf, true, 0);
    assert_eq!(buf.len(), 0);
}

#[test]
fn new_application_has_documented_defaults() {
    let app = Application::new(String::from("1.0.0"));
    assert_eq!(app.version, String::from("1.0.0"));
    assert_eq!(app.past_displacement_points.len(), 0);
    assert_eq!(app.pendulum, Pendulum {
        angle: 0,
        angular_velocity: 0,
        angular_acceleration: 0,
        length: 1_000_000_000,
    });
    assert_eq!(app.settings, Settings {
        timestep: 10_000_000,
        steps_per_frame: 1_000_000_000,
        save_skip: 0,
        limit_saved_points: false,
        max_saved_points: 0,
    });
    assert!(!app.state.running);
    assert_eq!(app.state.steps_left, 0);
    assert_eq!(app.state.simulation_time, 0);
    assert_eq!(app.state.positions_since_save, 0);
}

#[test]
fn step_records_on_the_first_step_past_the_skip() {
    let mut app = Application::new(String::from("t"));
    app.settings.save_skip = 1;
    app.settings.timestep = 1_000_000;
    app.pendulum.angle = 100_000_000;
    app.step();
    assert_eq!(app.history_snapshot().len(), 0);
    assert_eq!(app.state.positions_since_save, 1);
    assert_eq!(app.state.simulation_time, 1_000_000);
    app.step();
    assert_eq!(app.history_snapshot().len(), 1);
    assert_eq!(app.state.positions_since_save, 0);
    assert_eq!(app.history_snapshot()[0].time, 2_000_000);
}

#[test]
fn history_is_ordered_and_decimated() {
    let mut app = Application::new(String::from("t"));
    app.settings.save_skip = 2;
    app.settings.timestep = 1_000_000;
    app.settings.steps_per_frame = 3_000_000_000;
    app.state.running = true;
    app.reset(100_000_000, 0, 1_000_000_000).unwrap();
    for _ in 0..10 {
        app.tick_and_integrate().unwrap();
    }
    let h = app.history_snapshot();
    // 30 steps, one sample every 3rd step
    assert_eq!(h.len(), 10);
    for i in 1..h.len() {
        assert!(h[i - 1].time < h[i].time);
        // decimation cadence: at least save_skip + 1 steps between samples
        assert!(h[i].time - h[i - 1].time >= 3 * 1_000_000);
    }
    assert_eq!(h[0].time, 3_000_000);
}

#[test]
fn retention_limit_bounds_the_history() {
    let mut app = Application::new(String::from("t"));
    app.settings.save_skip = 0;
    app.settings.timestep = 1_000_000;
    app.settings.steps_per_frame = 7_000_000_000;
    app.settings.limit_saved_points = true;
    app.settings.max_saved_points = 5;
    app.state.running = true;
    app.pendulum.angle = 500_000_000;
    for _ in 0..13 {
        app.tick_and_integrate().unwrap();
        assert!(app.history_snapshot().len() <= 5);
    }
    let h = app.history_snapshot();
    assert_eq!(h.len(), 5);
    // the newest samples are the ones kept: 91 steps in all
    assert_eq!(h[4].time, 91_000_000);
    assert_eq!(h[0].time, 87_000_000);
}

#[test]
fn paused_application_only_enforces_retention() {
    let mut app = Application::new(String::from("t"));
    app.state.running = false;
    app.tick_and_integrate().unwrap();
    assert_eq!(app.state.simulation_time, 0);
    assert_eq!(app.history_snapshot().len(), 0);
}

#[test]
fn invalid_configuration_is_rejected() {
    let mut app = Application::new(String::new());
    app.settings.timestep = 0;
    assert_eq!(app.tick_and_integrate(), Err(SimError::InvalidConfiguration));
    app.settings.timestep = -5;
    assert_eq!(app.tick_and_integrate(), Err(SimError::InvalidConfiguration));
    app.settings.timestep = 10_000_000;
    app.settings.steps_per_frame = -1;
    assert_eq!(app.tick_and_integrate(), Err(SimError::InvalidConfiguration));
    app.settings.steps_per_frame = 0;
    app.pendulum.length = 0;
    assert_eq!(app.tick_and_integrate(), Err(SimError::InvalidConfiguration));
}

#[test]
fn reset_reinitializes_everything() {
    let mut app = Application::new(String::from("t"));
    app.settings.save_skip = 0;
    app.settings.timestep = 1_000_000;
    app.settings.steps_per_frame = 2_000_000_000;
    app.state.running = true;
    app.pendulum.angle = 700_000_000;
    app.tick_and_integrate().unwrap();
    assert!(app.history_snapshot().len() > 0);
    app.reset(300_000_000, -10, 2_000_000_000).unwrap();
    assert_eq!(app.pendulum, Pendulum {
        angle: 300_000_000,
        angular_velocity: -10,
        angular_acceleration: 0,
        length: 2_000_000_000,
    });
    assert_eq!(app.state.simulation_time, 0);
    assert_eq!(app.state.steps_left, 0);
    assert_eq!(app.state.positions_since_save, 0);
    assert_eq!(app.history_snapshot().len(), 0);
    assert_eq!(app.reset(1, 2, 0), Err(SimError::InvalidConfiguration));
}

#[test]
fn current_state_is_a_read_only_copy() {
    let mut app = Application::new(String::from("t"));
    app.pendulum.angle = 123;
    let p = app.current_state();
    assert_eq!(p, app.pendulum);
}

#[test]
fn raw_run_emits_one_record_per_step() {
    // 10 s at 0.001 s per step: exactly 10000 records, times k * 0.001 s.
    let res = simulate(3_124_000_000, 0, 1_000_000, 10_000_000_000, 1_000_000_000).unwrap();
    assert_eq!(res.len(), 10_000);
    for (k, rec) in res.iter().enumerate() {
        assert_eq!(rec.0, k as i64 * 1_000_000);
    }
    // the trace is the same as stepping a pendulum by hand
    let mut p = Pendulum {
        angle: 3_124_000_000,
        angular_velocity: 0,
        angular_acceleration: 0,
        length: 1_000_000_000,
    };
    for k in 0..100 {
        p.advance(1_000_000);
        assert_eq!(res[k].1, p.angle);
    }
}

#[test]
fn raw_run_rejects_bad_configuration() {
    assert_eq!(
        simulate(1, 0, 0, 10, 1_000_000_000),
        Err(SimError::InvalidConfiguration)
    );
    assert_eq!(
        simulate(1, 0, 1_000_000, 10, 0),
        Err(SimError::InvalidConfiguration)
    );
    // a negative span yields an empty trace
    assert_eq!(simulate(1, 0, 1_000_000, -5, 1_000_000_000).unwrap().len(), 0);
}
