//! A temporal effect scheduler: closed time intervals bound to effects, an
//! index that answers which of them are active at a given instant, a
//! monotonic clock and the state machine of the frame pump that drives them.
//!
//! Times are integer ticks. The runtime's clock counts microseconds.
pub mod clock;
pub mod index;
pub mod interval;
pub mod runtime;
pub mod scheduler;

pub use clock::{ClockError, TimeSource};
pub use index::{IntervalIndex, ScheduleError};
pub use interval::IntervalNode;
pub use runtime::{Action, Environment, HostEvent, Pacing, Phase, Runtime};
pub use scheduler::{Effect, Scheduler};
