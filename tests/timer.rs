use std::time::{Duration, Instant};

use chip8::timer::{value_after, Timer};

#[test]
fn timer_new_is_zero() {
    let mut t = Timer::new();
    assert_eq!(t.get(), 0);
}

#[test]
fn timer_set_then_get_immediately() {
    let mut t = Timer::new();
    t.set(10);
    assert_eq!(t.get(), 10);
}

#[test]
fn timer_reaches_zero_and_stays() {
    let mut t = Timer::new();
    t.set(10);
    let start = Instant::now();
    while start.elapsed() < Duration::from_millis(200) {}
    assert_eq!(t.get(), 0);
    let again = Instant::now();
    while again.elapsed() < Duration::from_millis(40) {}
    assert_eq!(t.get(), 0);
}

#[test]
fn timer_set_replaces_countdown() {
    let mut t = Timer::new();
    t.set(3);
    t.set(200);
    assert_eq!(t.get(), 200);
}

#[test]
fn timer_countdown_values() {
    assert_eq!(value_after(10, 0), 10);
    assert_eq!(value_after(10, 16_599), 10);
    assert_eq!(value_after(10, 16_600), 9);
    assert_eq!(value_after(10, 9 * 16_600 + 1), 1);
    assert_eq!(value_after(10, 10 * 16_600), 0);
    assert_eq!(value_after(10, 1_000_000_000), 0);
    assert_eq!(value_after(255, u128::MAX), 0);
    assert_eq!(value_after(0, 0), 0);
}
