use vstd::prelude::*;

verus! {

/// Pause between frames of the cooperative loop, in milliseconds.
pub const FRAME_PERIOD_MS: u64 = 16;

/// The two kinds of host the frame pump runs on.
#[derive(Debug, Clone, Copy, PartialEq, Eq, Structural)]
pub enum Environment {
    /// A native window whose event loop blocks and signals each redraw.
    Native,
    /// A browser page driven by a single-threaded cooperative loop.
    Browser,
}

/// How the next frame is paced.
#[derive(Debug, Clone, Copy, PartialEq, Eq, Structural)]
pub enum Pacing {
    /// The host asks for each redraw; frames follow its signal.
    HostSignaled,
    /// The loop renders, then pauses for `period_ms` before the next tick.
    FixedInterval { period_ms: u64 },
}

/// Where a run stands.
#[derive(Debug, Clone, Copy, PartialEq, Eq, Structural)]
pub enum Phase {
    Idle,
    Running,
    Terminated,
}

/// What the host reports to the frame pump.
#[derive(Debug, Clone, Copy, PartialEq, Eq, Structural)]
pub enum HostEvent {
    /// The run was entered.
    Start,
    /// The host has no more pending events (native: time to ask for a redraw).
    EventsCleared,
    /// The host asks for a redraw.
    RedrawRequested,
    /// The cooperative loop's pause is over.
    TimerElapsed,
    /// The surface was resized.
    Resized { width: u32, height: u32 },
    /// The frame callback returned.
    FrameDone,
    /// The frame callback failed.
    FrameFailed,
    /// The host asks the run to stop (window closed, stop request).
    CloseRequested,
}

/// What the host is to do next.
#[derive(Debug, Clone, Copy, PartialEq, Eq, Structural)]
pub enum Action {
    Nothing,
    /// Record the clock's start instant.
    BeginClock,
    /// Ask the host for a redraw.
    RequestRedraw,
    /// Take the graphics surface, run the frame callback once, release it.
    RenderFrame,
    /// Show the frame just drawn (swap buffers).
    Present,
    /// Yield to the host for this many milliseconds, then report `TimerElapsed`.
    Sleep { millis: u64 },
    /// Give the surface's backing store a new size.
    ResizeSurface { width: u32, height: u32 },
    /// Stop: no frame follows.
    Exit,
}

impl Environment {
    /// The shading-language version tag that shader sources for this
    /// environment start with.
    pub fn profile(&self) -> (r: &'static str)
        ensures
            *self == Environment::Native ==> r@ == "#version 400"@,
            *self == Environment::Browser ==> r@ == "#version 300 es"@,
    {
        match self {
            Environment::Native => "#version 400",
            Environment::Browser => "#version 300 es",
        }
    }

    /// The pacing this environment uses.
    pub fn pacing(&self) -> (r: Pacing)
        ensures
            *self == Environment::Native ==> r == Pacing::HostSignaled,
            *self == Environment::Browser ==> r == (Pacing::FixedInterval { period_ms: FRAME_PERIOD_MS }),
    {
        match self {
            Environment::Native => Pacing::HostSignaled,
            Environment::Browser => Pacing::FixedInterval { period_ms: FRAME_PERIOD_MS },
        }
    }
}

/// The frame pump's decisions: from the host's events to the next action.
///
/// Frames run strictly one after another, and a stop request that arrives
/// while a frame runs takes effect when that frame ends.
#[derive(Debug, Clone, Copy, PartialEq, Eq, Structural)]
pub struct Runtime {
    pub phase: Phase,
    pub pacing: Pacing,
    /// A frame callback is running.
    pub in_frame: bool,
    /// A stop was requested while a frame ran.
    pub stop_pending: bool,
}

impl Runtime {
    /// Only a running pump can be inside a frame, and a stop is held back
    /// only while a frame runs.
    pub open spec fn wf(&self) -> bool {
        &&& self.in_frame ==> self.phase == Phase::Running
        &&& self.stop_pending ==> self.in_frame
    }

    /// An idle pump with the given pacing.
    pub fn new(pacing: Pacing) -> (r: Self)
        ensures
            r.wf(),
            r == (Runtime { phase: Phase::Idle, pacing, in_frame: false, stop_pending: false }),
    {
        Runtime { phase: Phase::Idle, pacing, in_frame: false, stop_pending: false }
    }

    /// Takes in one event of the host and answers with the action to take.
    pub fn on_event(&mut self, event: HostEvent) -> (r: Action)
        requires
            old(self).wf(),
        ensures
            final(self).wf(),
            final(self).pacing == old(self).pacing,
            // Before the run, only its start matters: it starts the clock.
            old(self).phase == Phase::Idle ==> if event == HostEvent::Start {
                r == Action::BeginClock && final(self).phase == Phase::Running
                    && !final(self).in_frame && !final(self).stop_pending
            } else {
                r == Action::Nothing && *final(self) == *old(self)
            },
            // After the run, nothing happens any more.
            old(self).phase == Phase::Terminated ==> r == Action::Nothing && *final(self)
                == *old(self),
            // A frame begins only in a running pump outside any frame.
            r == Action::RenderFrame ==> old(self).phase == Phase::Running && !old(self).in_frame
                && final(self).in_frame,
            // While a frame runs, nothing but its end, its failure or a stop
            // request changes the state.
            old(self).in_frame && event != HostEvent::FrameDone && event != HostEvent::FrameFailed
                && event != HostEvent::CloseRequested ==> *final(self) == *old(self)
                && r == Action::Nothing,
            // A failed frame ends the run.
            old(self).phase == Phase::Running && event == HostEvent::FrameFailed ==> r
                == Action::Exit && final(self).phase == Phase::Terminated,
            // A stop request ends the run at once between frames, and at the
            // end of the frame otherwise.
            old(self).phase == Phase::Running && event == HostEvent::CloseRequested ==> if old(
                self,
            ).in_frame {
                r == Action::Nothing && final(self).stop_pending && final(self).in_frame
                    && final(self).phase == Phase::Running
            } else {
                r == Action::Exit && final(self).phase == Phase::Terminated
            },
            old(self).phase == Phase::Running && old(self).in_frame && event == HostEvent::FrameDone
                ==> !final(self).in_frame && if old(self).stop_pending {
                r == Action::Exit && final(self).phase == Phase::Terminated
            } else {
                final(self).phase == Phase::Running && r == match old(self).pacing {
                    Pacing::HostSignaled => Action::Present,
                    Pacing::FixedInterval { period_ms } => Action::Sleep { millis: period_ms },
                }
            },
            // Outside a frame, the pacing decides when the next one begins.
            old(self).phase == Phase::Running && !old(self).in_frame ==> match event {
                HostEvent::EventsCleared => r == (if old(self).pacing == Pacing::HostSignaled {
                    Action::RequestRedraw
                } else {
                    Action::Nothing
                }) && *final(self) == *old(self),
                HostEvent::RedrawRequested => if old(self).pacing == Pacing::HostSignaled {
                    r == Action::RenderFrame
                } else {
                    r == Action::Nothing && *final(self) == *old(self)
                },
                HostEvent::TimerElapsed => if old(self).pacing == Pacing::HostSignaled {
                    r == Action::Nothing && *final(self) == *old(self)
                } else {
                    r == Action::RenderFrame
                },
                HostEvent::Resized { width, height } => r == (Action::ResizeSurface {
                    width,
                    height,
                }) && *final(self) == *old(self),
                HostEvent::Start => r == Action::Nothing && *final(self) == *old(self),
                HostEvent::FrameDone => r == Action::Nothing && *final(self) == *old(self),
                _ => true,
            },
            r == Action::RenderFrame ==> final(self).phase == Phase::Running
                && !final(self).stop_pending,
    {
        match self.phase {
            Phase::Idle => {
                if let HostEvent::Start = event {
                    self.phase = Phase::Running;
                    Action::BeginClock
                } else {
                    Action::Nothing
                }
            },
            Phase::Terminated => Action::Nothing,
            Phase::Running => {
                match event {
                    HostEvent::FrameFailed => {
                        self.phase = Phase::Terminated;
                        self.in_frame = false;
                        self.stop_pending = false;
                        Action::Exit
                    },
                    HostEvent::CloseRequested => {
                        if self.in_frame {
                            self.stop_pending = true;
                            Action::Nothing
                        } else {
                            self.phase = Phase::Terminated;
                            Action::Exit
                        }
                    },
                    HostEvent::FrameDone => {
                        if !self.in_frame {
                            Action::Nothing
                        } else if self.stop_pending {
                            self.phase = Phase::Terminated;
                            self.in_frame = false;
                            self.stop_pending = false;
                            Action::Exit
                        } else {
                            self.in_frame = false;
                            match self.pacing {
                                Pacing::HostSignaled => Action::Present,
                                Pacing::FixedInterval { period_ms } => Action::Sleep {
                                    millis: period_ms,
                                },
                            }
                        }
                    },
                    _ => {
                        if self.in_frame {
                            Action::Nothing
                        } else {
                            match event {
                                HostEvent::EventsCleared => {
                                    if let Pacing::HostSignaled = self.pacing {
                                        Action::RequestRedraw
                                    } else {
                                        Action::Nothing
                                    }
                                },
                                HostEvent::RedrawRequested => {
                                    if let Pacing::HostSignaled = self.pacing {
                                        self.in_frame = true;
                                        Action::RenderFrame
                                    } else {
                                        Action::Nothing
                                    }
                                },
                                HostEvent::TimerElapsed => {
                                    if let Pacing::HostSignaled = self.pacing {
                                        Action::Nothing
                                    } else {
                                        self.in_frame = true;
                                        Action::RenderFrame
                                    }
                                },
                                HostEvent::Resized { width, height } => Action::ResizeSurface {
                                    width,
                                    height,
                                },
                                _ => Action::Nothing,
                            }
                        }
                    },
                }
            },
        }
    }
}

} // verus!
