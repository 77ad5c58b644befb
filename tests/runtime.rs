use timeline::{Action, Environment, HostEvent, Pacing, Phase, Runtime};

#[test]
fn environments_pick_their_pacing_and_profile() {
    assert_eq!(Environment::Native.pacing(), Pacing::HostSignaled);
    assert_eq!(Environment::Browser.pacing(), Pacing::FixedInterval { period_ms: 16 });
    assert_eq!(Environment::Native.profile(), "#version 400");
    assert_eq!(Environment::Browser.profile(), "#version 300 es");
}

#[test]
fn native_run() {
    let mut rt = Runtime::new(Pacing::HostSignaled);
    assert_eq!(rt.on_event(HostEvent::RedrawRequested), Action::Nothing);
    assert_eq!(rt.phase, Phase::Idle);
    assert_eq!(rt.on_event(HostEvent::Start), Action::BeginClock);
    assert_eq!(rt.phase, Phase::Running);
    assert_eq!(rt.on_event(HostEvent::EventsCleared), Action::RequestRedraw);
    assert_eq!(rt.on_event(HostEvent::RedrawRequested), Action::RenderFrame);
    assert!(rt.in_frame);
    assert_eq!(rt.on_event(HostEvent::RedrawRequested), Action::Nothing);
    assert_eq!(rt.on_event(HostEvent::FrameDone), Action::Present);
    assert!(!rt.in_frame);
    assert_eq!(
        rt.on_event(HostEvent::Resized { width: 640, height: 480 }),
        Action::ResizeSurface { width: 640, height: 480 }
    );
    assert_eq!(rt.on_event(HostEvent::TimerElapsed), Action::Nothing);
    assert_eq!(rt.on_event(HostEvent::CloseRequested), Action::Exit);
    assert_eq!(rt.phase, Phase::Terminated);
    assert_eq!(rt.on_event(HostEvent::RedrawRequested), Action::Nothing);
    assert_eq!(rt.on_event(HostEvent::Start), Action::Nothing);
}

#[test]
fn browser_run() {
    let mut rt = Runtime::new(Environment::Browser.pacing());
    assert_eq!(rt.on_event(HostEvent::Start), Action::BeginClock);
    assert_eq!(rt.on_event(HostEvent::EventsCleared), Action::Nothing);
    assert_eq!(rt.on_event(HostEvent::RedrawRequested), Action::Nothing);
    assert_eq!(rt.on_event(HostEvent::TimerElapsed), Action::RenderFrame);
    assert_eq!(rt.on_event(HostEvent::TimerElapsed), Action::Nothing);
    assert_eq!(rt.on_event(HostEvent::FrameDone), Action::Sleep { millis: 16 });
    assert_eq!(rt.on_event(HostEvent::TimerElapsed), Action::RenderFrame);
}

#[test]
fn stop_during_frame_waits_for_its_end() {
    let mut rt = Runtime::new(Pacing::HostSignaled);
    rt.on_event(HostEvent::Start);
    assert_eq!(rt.on_event(HostEvent::RedrawRequested), Action::RenderFrame);
    assert_eq!(rt.on_event(HostEvent::CloseRequested), Action::Nothing);
    assert_eq!(rt.phase, Phase::Running);
    assert!(rt.stop_pending);
    assert_eq!(rt.on_event(HostEvent::FrameDone), Action::Exit);
    assert_eq!(rt.phase, Phase::Terminated);
}

#[test]
fn failed_frame_ends_the_run() {
    let mut rt = Runtime::new(Pacing::FixedInterval { period_ms: 16 });
    rt.on_event(HostEvent::Start);
    assert_eq!(rt.on_event(HostEvent::TimerElapsed), Action::RenderFrame);
    assert_eq!(rt.on_event(HostEvent::FrameFailed), Action::Exit);
    assert_eq!(rt.phase, Phase::Terminated);
    assert!(!rt.in_frame);
    assert_eq!(rt.on_event(HostEvent::TimerElapsed), Action::Nothing);
}
