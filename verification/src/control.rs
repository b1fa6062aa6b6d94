//! The decisions of the display loop: what the keys change, when the
//! field is computed anew, and when a recolour job starts. The loop itself,
//! with its window and its workers, belongs to the caller.

use vstd::prelude::*;
use crate::color::ColorParameters;
use crate::recolor::{Outcome, RecolorJob, RecolorOrchestrator, RecolorState};

verus! {

/// By how much one key press changes the iteration limit.
pub const ITERATION_STEP: u32 = 10;

/// The keys the loop reacts to.
#[derive(Clone, Copy, Debug, PartialEq, Eq, Structural)]
pub enum Key {
    Escape,
    R,
    G,
    Add,
    Subtract,
    M,
    Other,
}

/// A window event, reduced to what the loop reacts to.
#[derive(Clone, Copy, Debug, PartialEq, Eq, Structural)]
pub enum Event {
    Closed,
    KeyPressed { key: Key, alt: bool, ctrl: bool, shift: bool, system: bool },
    KeyReleased { key: Key },
    Other,
}

/// What the left mouse button did between two frames.
#[derive(Clone, Copy, Debug, PartialEq, Eq, Structural)]
pub enum MouseEdge {
    /// Up before and up now.
    Up,
    /// Up before, down now.
    Pressed,
    /// Down before and down now.
    Held,
    /// Down before, up now.
    Released,
}

impl MouseEdge {
    /// The edge between the button's state in the previous frame and in
    /// this one.
    pub fn between(previous: bool, current: bool) -> (edge: MouseEdge)
        ensures
            edge == (if previous {
                if current {
                    MouseEdge::Held
                } else {
                    MouseEdge::Released
                }
            } else {
                if current {
                    MouseEdge::Pressed
                } else {
                    MouseEdge::Up
                }
            }),
    {
        match (previous, current) {
            (false, false) => MouseEdge::Up,
            (false, true) => MouseEdge::Pressed,
            (true, true) => MouseEdge::Held,
            (true, false) => MouseEdge::Released,
        }
    }
}

/// What the keys have set.
#[derive(Clone, Copy, Debug, PartialEq, Eq, Structural)]
pub struct Controls {
    /// The window is open.
    pub open: bool,
    /// The overlay is drawn.
    pub do_gui: bool,
    /// A recolouring was asked for and has not been planned yet.
    pub regen_colors: bool,
    /// A new compute pass was asked for and has not been planned yet.
    pub recompute: bool,
    /// The iteration limit of the next compute pass.
    pub max_iterations: u32,
}

/// The limit one step up; it stops at the largest number.
pub open spec fn stepped_up(limit: u32) -> u32 {
    if limit > u32::MAX - ITERATION_STEP {
        u32::MAX
    } else {
        (limit + ITERATION_STEP) as u32
    }
}

/// The limit one step down; it stops at zero.
pub open spec fn stepped_down(limit: u32) -> u32 {
    if limit < ITERATION_STEP {
        0
    } else {
        (limit - ITERATION_STEP) as u32
    }
}

impl Controls {
    /// The controls after an event. Closing the window, or Escape pressed
    /// with no modifier, closes. On release, R asks for a recolouring, G
    /// shows or hides the overlay, M asks for a compute pass, and Add and
    /// Subtract move the iteration limit one step, which asks for a
    /// compute pass whenever the limit moved.
    pub open spec fn after(self, event: Event) -> Controls {
        match event {
            Event::Closed => Controls { open: false, ..self },
            Event::KeyPressed { key, alt, ctrl, shift, system } => if key == Key::Escape && !alt
                && !ctrl && !shift && !system {
                Controls { open: false, ..self }
            } else {
                self
            },
            Event::KeyReleased { key } => match key {
                Key::R => Controls { regen_colors: true, ..self },
                Key::G => Controls { do_gui: !self.do_gui, ..self },
                Key::M => Controls { recompute: true, ..self },
                Key::Add => Controls {
                    max_iterations: stepped_up(self.max_iterations),
                    recompute: self.recompute || stepped_up(self.max_iterations)
                        != self.max_iterations,
                    ..self
                },
                Key::Subtract => Controls {
                    max_iterations: stepped_down(self.max_iterations),
                    recompute: self.recompute || stepped_down(self.max_iterations)
                        != self.max_iterations,
                    ..self
                },
                _ => self,
            },
            Event::Other => self,
        }
    }

    /// The controls at startup: window open, overlay shown, nothing asked
    /// for.
    pub open spec fn initial(max_iterations: u32) -> Controls {
        Controls { open: true, do_gui: true, regen_colors: false, recompute: false, max_iterations }
    }

    /// The controls at startup.
    pub fn new(max_iterations: u32) -> (out: Controls)
        ensures
            out == Controls::initial(max_iterations),
    {
        Controls { open: true, do_gui: true, regen_colors: false, recompute: false, max_iterations }
    }

    /// Applies one event.
    pub fn handle(&mut self, event: Event)
        ensures
            *final(self) == old(self).after(event),
    {
        match event {
            Event::Closed => {
                self.open = false;
            },
            Event::KeyPressed { key, alt, ctrl, shift, system } => {
                match key {
                    Key::Escape => {
                        if !alt && !ctrl && !shift && !system {
                            self.open = false;
                        }
                    },
                    _ => {},
                }
            },
            Event::KeyReleased { key } => {
                match key {
                    Key::R => {
                        self.regen_colors = true;
                    },
                    Key::G => {
                        self.do_gui = !self.do_gui;
                    },
                    Key::M => {
                        self.recompute = true;
                    },
                    Key::Add => {
                        let limit: u32 = self.max_iterations;
                        let next: u32 = if limit > u32::MAX - ITERATION_STEP {
                            u32::MAX
                        } else {
                            limit + ITERATION_STEP
                        };
                        self.recompute = self.recompute || next != limit;
                        self.max_iterations = next;
                    },
                    Key::Subtract => {
                        let limit: u32 = self.max_iterations;
                        let next: u32 = if limit < ITERATION_STEP {
                            0
                        } else {
                            limit - ITERATION_STEP
                        };
                        self.recompute = self.recompute || next != limit;
                        self.max_iterations = next;
                    },
                    _ => {},
                }
            },
            Event::Other => {},
        }
    }
}

/// What the caller has to do in this frame.
#[derive(Clone, Copy, Debug, PartialEq, Eq, Structural)]
pub struct FramePlan {
    /// Run a compute pass with this iteration limit, and replace the
    /// field, before anything else.
    pub recompute: Option<u32>,
    /// Start the worker of this recolour job.
    pub recolor: Option<RecolorJob>,
}

/// The state that lives from frame to frame.
#[derive(Clone, Copy, Debug, PartialEq, Eq, Structural)]
pub struct Session {
    pub controls: Controls,
    pub recolor: RecolorOrchestrator,
}

impl Session {
    /// Whether this frame asks for colours: the parameters changed, a
    /// recolouring was asked for by key, or the field is computed anew.
    pub open spec fn wants_colors(self, params_changed: bool) -> bool {
        params_changed || self.controls.regen_colors || self.controls.recompute
    }

    /// The session after the frame was planned: the requests of the keys
    /// are taken, a field about to be replaced makes the job in flight
    /// stale, and a wish for colours goes to the recolour machine.
    pub open spec fn after_frame(self, params_changed: bool, params: ColorParameters) -> Session {
        let machine = if self.controls.recompute {
            self.recolor.after_invalidate()
        } else {
            self.recolor
        };
        Session {
            controls: Controls { regen_colors: false, recompute: false, ..self.controls },
            recolor: if self.wants_colors(params_changed) {
                machine.after_request(params)
            } else {
                machine
            },
        }
    }

    /// What the caller has to do for that frame.
    pub open spec fn plan_of(self, params_changed: bool, params: ColorParameters) -> FramePlan {
        FramePlan {
            recompute: if self.controls.recompute {
                Some(self.controls.max_iterations)
            } else {
                None
            },
            recolor: if self.wants_colors(params_changed) && self.recolor.state is Idle {
                Some(
                    RecolorJob {
                        requested_params: params,
                        generation: self.recolor.next_generation,
                    },
                )
            } else {
                None
            },
        }
    }

    /// A session at startup, for a field computed with `max_iterations`.
    pub fn new(max_iterations: u32) -> (out: Session)
        ensures
            out.controls == Controls::initial(max_iterations),
            out.recolor == (RecolorOrchestrator { state: RecolorState::Idle, next_generation: 0 }),
    {
        Session { controls: Controls::new(max_iterations), recolor: RecolorOrchestrator::new() }
    }

    /// Plans one frame, after its events were handled. `params` are the
    /// style parameters as the overlay shows them now, and `params_changed`
    /// says whether they moved since the last frame.
    pub fn begin_frame(&mut self, params_changed: bool, params: ColorParameters) -> (plan: FramePlan)
        ensures
            plan == old(self).plan_of(params_changed, params),
            *final(self) == old(self).after_frame(params_changed, params),
    {
        let recompute: Option<u32> = if self.controls.recompute {
            self.recolor.invalidate();
            Some(self.controls.max_iterations)
        } else {
            None
        };
        let wants: bool = params_changed || self.controls.regen_colors || self.controls.recompute;
        let recolor: Option<RecolorJob> = if wants {
            self.recolor.request(params)
        } else {
            None
        };
        self.controls.regen_colors = false;
        self.controls.recompute = false;
        FramePlan { recompute, recolor }
    }

    /// The worker started for `generation` was found finished when polled.
    pub fn worker_finished(&mut self, generation: u64) -> (outcome: Outcome)
        ensures
            outcome == old(self).recolor.outcome_of(generation),
            final(self).recolor == old(self).recolor.after_finish(generation),
            final(self).controls == old(self).controls,
    {
        self.recolor.finish(generation)
    }
}

} // verus!
