use taskmon::rate::{CounterState, BYTES_PER_MB};

#[test]
fn first_observation_yields_zero_delta() {
    let mut c = CounterState::new();
    let delta = c.advance(500000);
    assert_eq!(delta, 0);
    assert_eq!(c.previous, Some(500000));
}

#[test]
fn counter_reset_yields_zero_delta() {
    let mut c = CounterState::new();
    c.advance(1000);
    let delta = c.advance(200);
    assert_eq!(delta, 0);
    assert_eq!(c.previous, Some(200));
}

#[test]
fn increase_yields_difference() {
    let mut c = CounterState::new();
    c.advance(1000);
    let delta = c.advance(1500);
    assert_eq!(delta, 500);
    let mb = delta as f64 / BYTES_PER_MB as f64;
    assert_eq!(mb, 500.0 / 1048576.0);
}

#[test]
fn unchanged_counter_yields_zero_delta() {
    let mut c = CounterState::new();
    c.advance(4242);
    let delta = c.advance(4242);
    assert_eq!(delta, 0);
}

#[test]
fn previous_updates_on_every_call() {
    let mut c = CounterState::new();
    c.advance(100);
    c.advance(50);
    let delta = c.advance(80);
    assert_eq!(delta, 30);
}
