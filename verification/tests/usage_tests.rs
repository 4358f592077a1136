use procmon::usage::{instant_usage, SystemClock, TemporalState, DEFAULT_TICKS_PER_SECOND};

fn ratio(num: u128, den: u128) -> f64 {
    num as f64 / den as f64
}

#[test]
fn calculator_is_exact_on_the_reference_inputs() {
    // prior ticks 0, current ticks 500, 100 ticks per second,
    // elapsed 5 seconds: exactly one core
    let clock = SystemClock::new(100);
    let prior = TemporalState::new();
    let u = instant_usage(1, 500, 500, &clock, &prior);
    assert_eq!(u.num, 50_000);
    assert_eq!(u.den, 50_000);
    assert_eq!(ratio(u.num, u.den), 1.0);
}

#[test]
fn cold_start_charges_whole_lifetime_to_one_interval() {
    // the process id is absent from the prior mapping: baseline zero
    let clock = SystemClock::new(100);
    let mut prior = TemporalState::new();
    prior.last_cpu_ticks.insert(7, 999);
    let u = instant_usage(3, 300, 200, &clock, &prior);
    assert_eq!(u.num, 30_000);
    assert_eq!(u.den, 20_000);
    assert_eq!(ratio(u.num, u.den), 1.5);
}

#[test]
fn warm_cycle_uses_the_recorded_baseline() {
    let clock = SystemClock::new(100);
    let mut prior = TemporalState::new();
    prior.last_uptime_cs = 100;
    prior.last_cpu_ticks.insert(5, 100);
    let u = instant_usage(5, 300, 600, &clock, &prior);
    assert_eq!(u.num, 20_000);
    assert_eq!(u.den, 50_000);
    assert_eq!(ratio(u.num, u.den), 0.4);
}

#[test]
fn no_elapsed_time_clamps_to_zero() {
    let clock = SystemClock::new(100);
    let mut prior = TemporalState::new();
    prior.last_uptime_cs = 500;
    // clock did not advance
    let u = instant_usage(1, 400, 500, &clock, &prior);
    assert_eq!(u.num, 0);
    assert_eq!(u.den, 1);
    assert_eq!(ratio(u.num, u.den), 0.0);
    // clock went backward
    let u2 = instant_usage(1, 400, 300, &clock, &prior);
    assert_eq!(u2.num, 0);
    assert_eq!(u2.den, 1);
    assert!(ratio(u2.num, u2.den) >= 0.0);
}

#[test]
fn recycled_id_with_fewer_ticks_clamps_to_zero() {
    let clock = SystemClock::new(100);
    let mut prior = TemporalState::new();
    prior.last_cpu_ticks.insert(9, 1000);
    let u = instant_usage(9, 10, 100, &clock, &prior);
    assert_eq!(u.num, 0);
    assert!(u.den >= 1);
}

#[test]
fn fraction_may_exceed_one_core() {
    // a multi-threaded process: 1200 ticks in 5 seconds at 100 Hz
    let clock = SystemClock::new(100);
    let prior = TemporalState::new();
    let u = instant_usage(1, 1200, 500, &clock, &prior);
    assert_eq!(ratio(u.num, u.den), 2.4);
}

#[test]
fn system_clock_resolves_to_a_positive_rate() {
    let c = SystemClock::from_system();
    assert!(c.ticks_per_second >= 1);
    assert_eq!(DEFAULT_TICKS_PER_SECOND, 100);
}

#[test]
fn reported_tick_rate_is_kept_and_nonsense_falls_back() {
    assert_eq!(SystemClock::from_report(Some(250)).ticks_per_second, 250);
    assert_eq!(SystemClock::from_report(Some(1)).ticks_per_second, 1);
    assert_eq!(SystemClock::from_report(Some(0)).ticks_per_second, 100);
    assert_eq!(SystemClock::from_report(Some(-7)).ticks_per_second, 100);
    assert_eq!(SystemClock::from_report(None).ticks_per_second, 100);
}
