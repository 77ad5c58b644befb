use std::cell::RefCell;
use timeline::{Effect, ScheduleError, Scheduler};

const SECOND: u64 = 1_000_000;

struct Named(&'static str);

impl Effect<RefCell<Vec<(&'static str, u64)>>> for Named {
    fn render(&self, surface: &RefCell<Vec<(&'static str, u64)>>, time: u64) {
        surface.borrow_mut().push((self.0, time));
    }
}

#[test]
fn two_effects_over_time() {
    let mut sched = Scheduler::new();
    assert_eq!(sched.add_effect(0, 10 * SECOND, Named("X")), Ok(0));
    assert_eq!(sched.add_effect(8 * SECOND, 20 * SECOND, Named("Y")), Ok(1));

    let surface = RefCell::new(Vec::new());
    let t = 9 * SECOND;
    assert_eq!(sched.render(&surface, t), vec![0, 1]);
    assert_eq!(*surface.borrow(), vec![("X", t), ("Y", t)]);

    let surface = RefCell::new(Vec::new());
    let t = 10 * SECOND + SECOND / 2;
    assert_eq!(sched.render(&surface, t), vec![1]);
    assert_eq!(*surface.borrow(), vec![("Y", t)]);

    let surface = RefCell::new(Vec::new());
    let t = 25 * SECOND;
    assert_eq!(sched.render(&surface, t), Vec::<u64>::new());
    assert!(surface.borrow().is_empty());
}

#[test]
fn reversed_effect_is_refused() {
    let mut sched = Scheduler::new();
    sched.add_effect(0, 10, Named("A")).unwrap();
    assert_eq!(sched.add_effect(10, 0, Named("B")), Err(ScheduleError::InvalidInterval));
    assert_eq!(sched.add_effect(2, 3, Named("C")), Ok(1));
    let surface = RefCell::new(Vec::new());
    assert_eq!(sched.render(&surface, 2), vec![0, 1]);
    assert_eq!(*surface.borrow(), vec![("A", 2), ("C", 2)]);
}

#[test]
fn active_at_matches_render() {
    let mut sched = Scheduler::new();
    sched.add_effect(0, 10, Named("A")).unwrap();
    sched.add_effect(5, 15, Named("B")).unwrap();
    assert_eq!(sched.active_at(7), vec![0, 1]);
    assert_eq!(sched.active_at(12), vec![1]);
    let surface = RefCell::new(Vec::new());
    assert_eq!(sched.render(&surface, 7), sched.active_at(7));
}
