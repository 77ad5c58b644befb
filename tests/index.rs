use timeline::{IntervalIndex, ScheduleError};

#[test]
fn inside_is_found() {
    let mut idx = IntervalIndex::new();
    assert_eq!(idx.insert(100, 200), Ok(0));
    for t in [100u64, 101, 150, 199, 200] {
        assert_eq!(idx.query(t), vec![0]);
    }
}

#[test]
fn outside_is_excluded() {
    let mut idx = IntervalIndex::new();
    assert_eq!(idx.insert(100, 200), Ok(0));
    for t in [0u64, 99, 201, 1000, u64::MAX] {
        assert_eq!(idx.query(t), Vec::<u64>::new());
    }
}

#[test]
fn both_ends_are_inclusive() {
    let mut idx = IntervalIndex::new();
    idx.insert(5, 9).unwrap();
    assert_eq!(idx.query(5), vec![0]);
    assert_eq!(idx.query(9), vec![0]);
}

#[test]
fn single_instant_interval() {
    let mut idx = IntervalIndex::new();
    idx.insert(4, 4).unwrap();
    assert_eq!(idx.query(4), vec![0]);
    assert_eq!(idx.query(3), Vec::<u64>::new());
    assert_eq!(idx.query(5), Vec::<u64>::new());
}

#[test]
fn reversed_interval_is_refused_and_changes_nothing() {
    let mut idx = IntervalIndex::new();
    idx.insert(0, 10).unwrap();
    assert_eq!(idx.insert(20, 10), Err(ScheduleError::InvalidInterval));
    assert_eq!(idx.len(), 1);
    assert_eq!(idx.query(15), Vec::<u64>::new());
    assert_eq!(idx.query(5), vec![0]);
    assert_eq!(idx.insert(30, 40), Ok(1));
}

#[test]
fn overlapping_entries_come_in_registration_order() {
    let mut idx = IntervalIndex::new();
    let a = idx.insert(0, 10).unwrap();
    let b = idx.insert(5, 15).unwrap();
    assert_eq!((a, b), (0, 1));
    assert_eq!(idx.query(7), vec![a, b]);
}

#[test]
fn later_registration_with_earlier_start_still_comes_after() {
    let mut idx = IntervalIndex::new();
    idx.insert(50, 60).unwrap();
    idx.insert(0, 100).unwrap();
    assert_eq!(idx.query(55), vec![0, 1]);
}

#[test]
fn query_twice_gives_the_same_answer() {
    let mut idx = IntervalIndex::new();
    for k in 0..30u64 {
        idx.insert(k * 3, k * 3 + 10).unwrap();
    }
    let first = idx.query(40);
    let second = idx.query(40);
    assert_eq!(first, second);
    assert_eq!(first, vec![10, 11, 12, 13]);
}

#[test]
fn empty_index_answers_nothing() {
    let idx = IntervalIndex::new();
    assert_eq!(idx.len(), 0);
    assert_eq!(idx.query(0), Vec::<u64>::new());
}

#[test]
fn many_entries_match_a_linear_scan() {
    let mut idx = IntervalIndex::new();
    let mut all: Vec<(u64, u64)> = Vec::new();
    let mut seed: u64 = 12345;
    for _ in 0..200 {
        seed = seed.wrapping_mul(6364136223846793005).wrapping_add(1442695040888963407);
        let s = (seed >> 33) % 1000;
        let len = (seed >> 13) % 120;
        idx.insert(s, s + len).unwrap();
        all.push((s, s + len));
    }
    for t in (0..1200u64).step_by(7) {
        let expected: Vec<u64> = all
            .iter()
            .enumerate()
            .filter(|(_, (s, e))| *s <= t && t <= *e)
            .map(|(i, _)| i as u64)
            .collect();
        assert_eq!(idx.query(t), expected);
    }
}
