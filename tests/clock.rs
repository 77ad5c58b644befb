use timeline::{ClockError, TimeSource};

#[test]
fn now_before_begin_fails() {
    let mut clock = TimeSource::new();
    assert!(!clock.is_started());
    assert_eq!(clock.now(), Err(ClockError::NotStarted));
}

#[test]
fn begin_twice_fails() {
    let mut clock = TimeSource::new();
    assert_eq!(clock.begin(), Ok(()));
    assert!(clock.is_started());
    assert_eq!(clock.begin(), Err(ClockError::AlreadyStarted));
}

#[test]
fn readings_never_decrease() {
    let mut clock = TimeSource::new();
    clock.begin().unwrap();
    let first = clock.now().unwrap();
    let second = clock.now().unwrap();
    assert!(second >= first);
    let mut prev = second;
    for _ in 0..1000 {
        let next = clock.now().unwrap();
        assert!(next >= prev);
        prev = next;
    }
}

#[test]
fn clock_advances() {
    let mut clock = TimeSource::new();
    clock.begin().unwrap();
    let first = clock.now().unwrap();
    let wall = std::time::Instant::now();
    while wall.elapsed() < std::time::Duration::from_millis(5) {}
    let second = clock.now().unwrap();
    assert!(second >= first + 5_000);
}

#[test]
fn observe_keeps_the_latest() {
    let mut clock = TimeSource::new();
    assert_eq!(clock.observe(5), 5);
    assert_eq!(clock.observe(3), 5);
    assert_eq!(clock.observe(9), 9);
    assert_eq!(clock.observe(0), 9);
}
