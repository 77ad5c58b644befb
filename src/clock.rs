use vstd::prelude::*;

verus! {

#[verifier::external_type_specification]
#[verifier::external_body]
pub struct ExInstant(instant::Instant);

/// Misuse of a `TimeSource`.
#[derive(Debug, Clone, Copy, PartialEq, Eq, Structural)]
pub enum ClockError {
    /// `begin` was called on a clock that had already begun.
    AlreadyStarted,
    /// `now` was called before `begin`.
    NotStarted,
}

/// Relies on `instant::Instant::now`: the present instant of the platform's
/// monotonic clock. Nothing is stated of its value.
#[verifier::external_body]
fn clock_now() -> instant::Instant {
    instant::Instant::now()
}

/// Relies on `instant::Instant::elapsed`: the time that has passed since
/// `epoch`. Nothing is stated of its value.
#[verifier::external_body]
fn elapsed_since(epoch: &instant::Instant) -> core::time::Duration {
    epoch.elapsed()
}

/// Relies on `core::time::Duration::as_micros`: the whole microseconds in `d`.
/// Nothing is stated of its value.
#[verifier::external_body]
fn whole_micros(d: &core::time::Duration) -> u128 {
    d.as_micros()
}

/// The larger of two readings.
pub open spec fn later(a: u64, b: u64) -> u64 {
    if a >= b { a } else { b }
}

/// Elapsed microseconds since a start instant recorded once, reported so
/// that successive readings never decrease.
pub struct TimeSource {
    epoch: Option<instant::Instant>,
    last: u64,
}

impl TimeSource {
    /// Whether `begin` has recorded the start instant.
    pub closed spec fn started(&self) -> bool {
        self.epoch is Some
    }

    /// The latest reading reported, or 0 before any.
    pub closed spec fn last_reading(&self) -> u64 {
        self.last
    }

    /// A clock that has not begun.
    pub fn new() -> (r: Self)
        ensures
            !r.started(),
            r.last_reading() == 0,
    {
        TimeSource { epoch: None, last: 0 }
    }

    /// Whether `begin` has recorded the start instant.
    pub fn is_started(&self) -> (r: bool)
        ensures
            r == self.started(),
    {
        self.epoch.is_some()
    }

    /// Records the start instant. Fails with `AlreadyStarted`, changing
    /// nothing, when it was recorded before.
    pub fn begin(&mut self) -> (r: Result<(), ClockError>)
        ensures
            old(self).started() ==> r == Err::<(), ClockError>(ClockError::AlreadyStarted)
                && *final(self) == *old(self),
            !old(self).started() ==> r is Ok && final(self).started()
                && final(self).last_reading() == 0,
    {
        if self.epoch.is_some() {
            return Err(ClockError::AlreadyStarted);
        }
        self.epoch = Some(clock_now());
        self.last = 0;
        Ok(())
    }

    /// Folds a raw reading of elapsed microseconds into the clock: the result
    /// is the raw reading, or the latest one reported if that is later, so
    /// that the reported time never goes backward.
    pub fn observe(&mut self, raw: u64) -> (r: u64)
        ensures
            r == later(old(self).last_reading(), raw),
            final(self).last_reading() == r,
            final(self).started() == old(self).started(),
    {
        if raw > self.last {
            self.last = raw;
        }
        self.last
    }

    /// Elapsed microseconds since `begin`, never less than any earlier
    /// reading. Fails with `NotStarted`, changing nothing, before `begin`.
    pub fn now(&mut self) -> (r: Result<u64, ClockError>)
        ensures
            !old(self).started() ==> r == Err::<u64, ClockError>(ClockError::NotStarted)
                && *final(self) == *old(self),
            old(self).started() ==> r is Ok && r->Ok_0 >= old(self).last_reading()
                && final(self).last_reading() == r->Ok_0 && final(self).started(),
    {
        let raw = match &self.epoch {
            Some(epoch) => {
                let micros = whole_micros(&elapsed_since(epoch));
                if micros > u64::MAX as u128 {
                    u64::MAX
                } else {
                    micros as u64
                }
            },
            None => {
                return Err(ClockError::NotStarted);
            },
        };
        Ok(self.observe(raw))
    }
}

} // verus!

verus! {

/// Folding in two raw readings one after the other never reports a smaller
/// time the second time, whatever the raw readings were.
pub proof fn law_readings_never_decrease(last: u64, raw1: u64, raw2: u64)
    ensures
        later(later(last, raw1), raw2) >= later(last, raw1),
        later(last, raw1) >= last,
{
}

} // verus!
