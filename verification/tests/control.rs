use mandelbrot::color::ColorParameters;
use mandelbrot::control::{Controls, Event, FramePlan, Key, MouseEdge, Session};
use mandelbrot::recolor::{Outcome, RecolorJob, RecolorOrchestrator, RecolorState};

fn params(tag: u32) -> ColorParameters {
    ColorParameters { hue_modifier: tag as u64, saturation: tag, value: tag + 1, grayscale: false }
}

fn released(key: Key) -> Event {
    Event::KeyReleased { key }
}

#[test]
fn request_starts_a_worker_only_when_idle() {
    let mut m = RecolorOrchestrator::new();
    assert!(m.is_idle());
    let job = m.request(params(1)).unwrap();
    assert_eq!(job, RecolorJob { requested_params: params(1), generation: 0 });
    assert!(!m.is_idle());
    assert_eq!(m.request(params(2)), None);
    assert_eq!(m.request(params(3)), None);
    assert_eq!(m.state, RecolorState::Running { job, pending: Some(params(3)) });
}

#[test]
fn finished_worker_is_applied_when_nothing_waits() {
    let mut m = RecolorOrchestrator::new();
    let job = m.request(params(1)).unwrap();
    assert_eq!(m.finish(job.generation), Outcome::Apply);
    assert!(m.is_idle());
    let next = m.request(params(2)).unwrap();
    assert_eq!(next.generation, 1);
}

#[test]
fn requests_while_running_coalesce_into_the_latest() {
    let mut m = RecolorOrchestrator::new();
    let first = m.request(params(1)).unwrap();
    m.request(params(2));
    m.request(params(3));
    let second = RecolorJob { requested_params: params(3), generation: 1 };
    assert_eq!(m.finish(first.generation), Outcome::Restart(second));
    assert_eq!(m.state, RecolorState::Running { job: second, pending: None });
    assert_eq!(m.finish(second.generation), Outcome::Apply);
    assert!(m.is_idle());
}

#[test]
fn stale_reports_change_nothing() {
    let mut m = RecolorOrchestrator::new();
    assert_eq!(m.finish(0), Outcome::Stale);
    assert!(m.is_idle());
    let first = m.request(params(1)).unwrap();
    m.request(params(2));
    let before = m;
    assert_eq!(m.finish(first.generation + 1), Outcome::Stale);
    assert_eq!(m, before);
    let second = match m.finish(first.generation) {
        Outcome::Restart(job) => job,
        other => panic!("expected a restart, got {:?}", other),
    };
    assert_eq!(m.finish(first.generation), Outcome::Stale);
    assert_eq!(m.state, RecolorState::Running { job: second, pending: None });
}

#[test]
fn invalidate_reruns_the_job_in_flight() {
    let mut m = RecolorOrchestrator::new();
    m.invalidate();
    assert!(m.is_idle());
    let first = m.request(params(1)).unwrap();
    m.invalidate();
    assert_eq!(m.state, RecolorState::Running { job: first, pending: Some(params(1)) });
    m.request(params(2));
    m.invalidate();
    assert_eq!(m.state, RecolorState::Running { job: first, pending: Some(params(2)) });
    assert_eq!(
        m.finish(first.generation),
        Outcome::Restart(RecolorJob { requested_params: params(2), generation: 1 })
    );
}

#[test]
fn generation_counter_wraps() {
    let mut m = RecolorOrchestrator { state: RecolorState::Idle, next_generation: u64::MAX };
    let job = m.request(params(1)).unwrap();
    assert_eq!(job.generation, u64::MAX);
    assert_eq!(m.next_generation, 0);
}

#[test]
fn mouse_edges() {
    assert_eq!(MouseEdge::between(false, false), MouseEdge::Up);
    assert_eq!(MouseEdge::between(false, true), MouseEdge::Pressed);
    assert_eq!(MouseEdge::between(true, true), MouseEdge::Held);
    assert_eq!(MouseEdge::between(true, false), MouseEdge::Released);
}

#[test]
fn keys_change_the_controls() {
    let start = Controls::new(80);
    assert_eq!(
        start,
        Controls { open: true, do_gui: true, regen_colors: false, recompute: false, max_iterations: 80 }
    );
    let mut c = start;
    c.handle(released(Key::G));
    assert!(!c.do_gui);
    c.handle(released(Key::G));
    assert_eq!(c, start);
    c.handle(released(Key::R));
    assert_eq!(c, Controls { regen_colors: true, ..start });
    c.handle(released(Key::Add));
    assert_eq!(c, Controls { regen_colors: true, recompute: true, max_iterations: 90, ..start });
    let mut c = start;
    c.handle(released(Key::Subtract));
    assert_eq!(c, Controls { recompute: true, max_iterations: 70, ..start });
    let mut c = start;
    c.handle(released(Key::M));
    assert_eq!(c, Controls { recompute: true, ..start });
    let mut c = start;
    c.handle(released(Key::Other));
    c.handle(released(Key::Escape));
    c.handle(Event::Other);
    assert_eq!(c, start);
}

#[test]
fn iteration_limit_stops_at_both_ends() {
    let mut c = Controls::new(5);
    c.handle(released(Key::Subtract));
    assert_eq!((c.max_iterations, c.recompute), (0, true));
    let mut c = Controls::new(0);
    c.handle(released(Key::Subtract));
    assert_eq!((c.max_iterations, c.recompute), (0, false));
    let mut c = Controls::new(u32::MAX - 3);
    c.handle(released(Key::Add));
    assert_eq!((c.max_iterations, c.recompute), (u32::MAX, true));
    c.recompute = false;
    c.handle(released(Key::Add));
    assert_eq!((c.max_iterations, c.recompute), (u32::MAX, false));
}

#[test]
fn window_closes_on_close_and_on_plain_escape() {
    let pressed = |alt, ctrl, shift, system| Event::KeyPressed {
        key: Key::Escape,
        alt,
        ctrl,
        shift,
        system,
    };
    let mut c = Controls::new(80);
    c.handle(Event::Closed);
    assert!(!c.open);
    let mut c = Controls::new(80);
    c.handle(pressed(true, false, false, false));
    c.handle(pressed(false, true, false, false));
    c.handle(pressed(false, false, true, false));
    c.handle(pressed(false, false, false, true));
    c.handle(Event::KeyPressed { key: Key::R, alt: false, ctrl: false, shift: false, system: false });
    assert!(c.open);
    c.handle(pressed(false, false, false, false));
    assert!(!c.open);
}

#[test]
fn frames_plan_recolor_and_recompute() {
    let mut s = Session::new(80);
    assert_eq!(s.begin_frame(false, params(1)), FramePlan { recompute: None, recolor: None });
    let job = RecolorJob { requested_params: params(2), generation: 0 };
    assert_eq!(s.begin_frame(true, params(2)), FramePlan { recompute: None, recolor: Some(job) });
    s.controls.handle(released(Key::R));
    assert_eq!(s.begin_frame(false, params(3)), FramePlan { recompute: None, recolor: None });
    assert!(!s.controls.regen_colors);
    assert_eq!(s.recolor.state, RecolorState::Running { job, pending: Some(params(3)) });
    let next = RecolorJob { requested_params: params(3), generation: 1 };
    assert_eq!(s.worker_finished(0), Outcome::Restart(next));
    assert_eq!(s.worker_finished(1), Outcome::Apply);

    s.controls.handle(released(Key::Add));
    let job = RecolorJob { requested_params: params(4), generation: 2 };
    assert_eq!(s.begin_frame(false, params(4)), FramePlan { recompute: Some(90), recolor: Some(job) });
    assert!(!s.controls.recompute);
    s.controls.handle(released(Key::M));
    assert_eq!(s.begin_frame(false, params(4)), FramePlan { recompute: Some(90), recolor: None });
    assert_eq!(s.recolor.state, RecolorState::Running { job, pending: Some(params(4)) });
    assert_eq!(
        s.worker_finished(2),
        Outcome::Restart(RecolorJob { requested_params: params(4), generation: 3 })
    );
}
