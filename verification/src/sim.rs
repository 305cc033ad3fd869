//! The simulation: body list, camera, focus selection and the tick loop.
//!
//! One tick resolves the focus target, updates the camera (free flight or
//! orbit), and, while running, integrates the system (the full velocity
//! pass, then the drift pass). Body removal is deferred: a request only
//! marks the index; `finish_frame` applies it after all reads of the
//! tick, and the following tick sees that a removal occurred and falls
//! back to the free camera instead of dereferencing a possibly stale
//! focus index. Indices are stable within a frame, not across removals.

use vstd::prelude::*;

verus! {

use vstd::string::StringSliceAdditionalSpecFns;

use crate::fixed::absi;
use crate::vec3::Vec3;
use crate::gravity::{Body, System, POS_MAX, VEL_MAX, MASS_MAX, DT_MAX, MAX_BODIES, vel_after,
    drift, center_spec};
use crate::camera::{Camera, CameraInput, free_updated, orbit_updated};
use crate::edit::{BodyField, parse_spec, parse_fixed};

/// What the orbit camera targets: nothing (free flight), the mass
/// center, or one body by index.
#[derive(Clone, Copy, PartialEq, Eq, Structural, Debug)]
pub enum FocusPoint {
    Free,
    MassCenter,
    Body(usize),
}

/// The per-field magnitude limit an edit must respect.
pub open spec fn field_limit(f: BodyField) -> int {
    match f {
        BodyField::Mass => MASS_MAX as int,
        BodyField::PosX => POS_MAX as int,
        BodyField::PosY => POS_MAX as int,
        BodyField::PosZ => POS_MAX as int,
        BodyField::VelX => VEL_MAX as int,
        BodyField::VelY => VEL_MAX as int,
        BodyField::VelZ => VEL_MAX as int,
    }
}

/// The body with one numeric field replaced.
pub open spec fn with_field(b: Body, f: BodyField, v: int) -> Body {
    match f {
        BodyField::Mass => Body { mass: v as i64, ..b },
        BodyField::PosX => Body {
            position: Vec3 { x: v as i64, ..b.position },
            ..b
        },
        BodyField::PosY => Body {
            position: Vec3 { y: v as i64, ..b.position },
            ..b
        },
        BodyField::PosZ => Body {
            position: Vec3 { z: v as i64, ..b.position },
            ..b
        },
        BodyField::VelX => Body {
            velocity: Vec3 { x: v as i64, ..b.velocity },
            ..b
        },
        BodyField::VelY => Body {
            velocity: Vec3 { y: v as i64, ..b.velocity },
            ..b
        },
        BodyField::VelZ => Body {
            velocity: Vec3 { z: v as i64, ..b.velocity },
            ..b
        },
    }
}

/// The whole interactive state, stepped one tick per rendered frame.
pub struct Simulation {
    pub system: System,
    pub camera: Camera,
    pub focused: FocusPoint,
    pub running: bool,
    pub pending_removal: Option<usize>,
    pub removed_last_tick: bool,
}

impl Simulation {
    /// The state invariant: system and camera well-formed, any pending
    /// removal within bounds, and — unless a removal just occurred — a
    /// body focus index within bounds.
    pub open spec fn pending(self) -> Option<usize> {
        self.pending_removal
    }

    pub open spec fn removed_flag(self) -> bool {
        self.removed_last_tick
    }

    pub open spec fn wf(self) -> bool {
        &&& self.system.wf()
        &&& self.camera.wf()
        &&& (self.pending() matches Some(i) ==> i < self.system@.len())
        &&& (!self.removed_flag() ==> (self.focused matches FocusPoint::Body(i) ==> i
            < self.system@.len()))
    }

    /// A paused, empty, free-camera simulation.
    pub fn new(mouse_x: i64, mouse_y: i64) -> (s: Simulation)
        requires
            absi(mouse_x as int) <= 1_000_000_000_000,
            absi(mouse_y as int) <= 1_000_000_000_000,
        ensures
            s.wf(),
            s.system@.len() == 0,
            s.focused == FocusPoint::Free,
            !s.running,
            s.pending() is None,
            !s.removed_flag(),
    {
        Simulation {
            system: System::new(),
            camera: Camera::new(mouse_x, mouse_y),
            focused: FocusPoint::Free,
            running: false,
            pending_removal: None,
            removed_last_tick: false,
        }
    }

    /// Append a fresh default body.
    pub fn add_body(&mut self)
        requires
            old(self).wf(),
            old(self).system@.len() < MAX_BODIES,
        ensures
            final(self).wf(),
            final(self).system@ == old(self).system@.push(Body::spec_default()),
            final(self).camera == old(self).camera,
            final(self).focused == old(self).focused,
            final(self).running == old(self).running,
            final(self).pending() == old(self).pending(),
            final(self).removed_flag() == old(self).removed_flag(),
    {
        let b = Body::new();
        proof {
            assert(b == Body::spec_default());
        }
        self.system.push_body(b);
    }

    /// Mark the body at `i` for removal at the end of the tick. A later
    /// request in the same tick replaces an earlier one.
    pub fn remove_body(&mut self, i: usize)
        requires
            old(self).wf(),
            i < old(self).system@.len(),
        ensures
            final(self).wf(),
            final(self).pending() == Some(i),
            final(self).system == old(self).system,
            final(self).camera == old(self).camera,
            final(self).focused == old(self).focused,
            final(self).running == old(self).running,
            final(self).removed_flag() == old(self).removed_flag(),
    {
        self.pending_removal = Some(i);
    }

    /// Apply a pending removal; the next tick's focus resolution sees
    /// that it happened.
    pub fn finish_frame(&mut self)
        requires
            old(self).wf(),
        ensures
            final(self).wf(),
            match old(self).pending() {
                Some(i) => {
                    &&& final(self).system@ == old(self).system@.remove(i as int)
                    &&& final(self).removed_flag()
                },
                None => {
                    &&& final(self).system == old(self).system
                    &&& final(self).removed_flag() == old(self).removed_flag()
                },
            },
            final(self).pending() is None,
            final(self).camera == old(self).camera,
            final(self).focused == old(self).focused,
            final(self).running == old(self).running,
    {
        if let Some(i) = self.pending_removal {
            self.system.remove_body(i);
            self.removed_last_tick = true;
            self.pending_removal = None;
        }
    }

    /// Toggle stepping. The caller resets its real-time reference when
    /// this turns the simulation on, so a pause does not leak into `dt`.
    pub fn set_running(&mut self, on: bool)
        requires
            old(self).wf(),
        ensures
            final(self).wf(),
            *final(self) == (Simulation { running: on, ..*old(self) }),
    {
        self.running = on;
    }

    /// Select the camera mode; a body focus must be in bounds.
    pub fn set_focus(&mut self, f: FocusPoint)
        requires
            old(self).wf(),
            f matches FocusPoint::Body(i) ==> i < old(self).system@.len(),
        ensures
            final(self).wf(),
            *final(self) == (Simulation { focused: f, ..*old(self) }),
    {
        self.focused = f;
    }

    /// Edit one numeric field of the body at `i` from raw text: a value
    /// that parses and lies within the field's range is assigned; any
    /// other text leaves the body exactly as it was.
    pub fn edit_body(&mut self, i: usize, field: BodyField, text: &str)
        requires
            old(self).wf(),
            i < old(self).system@.len(),
        ensures
            final(self).wf(),
            match parse_spec(text.spec_bytes()) {
                Some(v) => {
                    if absi(v) <= field_limit(field) {
                        final(self).system@ == old(self).system@.update(
                            i as int,
                            with_field(old(self).system@[i as int], field, v),
                        )
                    } else {
                        final(self).system == old(self).system
                    }
                },
                None => final(self).system == old(self).system,
            },
            final(self).camera == old(self).camera,
            final(self).focused == old(self).focused,
            final(self).running == old(self).running,
            final(self).pending() == old(self).pending(),
            final(self).removed_flag() == old(self).removed_flag(),
    {
        let parsed = parse_fixed(text);
        if let Some(v) = parsed {
            let limit: i64 = match field {
                BodyField::Mass => MASS_MAX,
                BodyField::PosX => POS_MAX,
                BodyField::PosY => POS_MAX,
                BodyField::PosZ => POS_MAX,
                BodyField::VelX => VEL_MAX,
                BodyField::VelY => VEL_MAX,
                BodyField::VelZ => VEL_MAX,
            };
            if -limit <= v && v <= limit {
                proof {
                    assert(self.system@[i as int].wf());
                }
                let mut b = self.system.bodies()[i];
                match field {
                    BodyField::Mass => {
                        b.mass = v;
                    },
                    BodyField::PosX => {
                        b.position.x = v;
                    },
                    BodyField::PosY => {
                        b.position.y = v;
                    },
                    BodyField::PosZ => {
                        b.position.z = v;
                    },
                    BodyField::VelX => {
                        b.velocity.x = v;
                    },
                    BodyField::VelY => {
                        b.velocity.y = v;
                    },
                    BodyField::VelZ => {
                        b.velocity.z = v;
                    },
                }
                self.system.set_body(i, b);
            }
        }
    }

    /// The camera pose handed to renderers.
    pub fn camera_pose(&self) -> (p: (Vec3, Vec3, Vec3, Vec3))
        ensures
            p == (self.camera.position, self.camera.front, self.camera.right, self.camera.up),
    {
        (self.camera.position, self.camera.front, self.camera.right, self.camera.up)
    }

    /// One tick: resolve the focus target and update the camera; a focus
    /// on a body is dropped to free flight if a removal occurred last
    /// tick, never indexing out of bounds. Then, if running, one full
    /// integration step.
    pub fn tick(&mut self, inp: &CameraInput, dt: i64)
        requires
            old(self).wf(),
            inp.wf(),
            0 <= dt <= DT_MAX,
        ensures
            final(self).wf(),
            // Focus fallback: a removal last tick forces free flight.
            old(self).removed_flag() && (old(self).focused matches FocusPoint::Body(_))
                ==> final(self).focused == FocusPoint::Free,
            !(old(self).removed_flag() && (old(self).focused matches FocusPoint::Body(_)))
                ==> final(self).focused == old(self).focused,
            !final(self).removed_flag(),
            final(self).pending() == old(self).pending(),
            final(self).running == old(self).running,
            // Camera: which update ran, and its exact relation.
            match old(self).focused {
                FocusPoint::Free => free_updated(old(self).camera, final(self).camera, *inp),
                FocusPoint::MassCenter => orbit_updated(
                    old(self).camera,
                    final(self).camera,
                    *inp,
                    center_spec(old(self).system@),
                ),
                FocusPoint::Body(i) => {
                    if old(self).removed_flag() {
                        free_updated(old(self).camera, final(self).camera, *inp)
                    } else {
                        orbit_updated(
                            old(self).camera,
                            final(self).camera,
                            *inp,
                            old(self).system@[i as int].position@,
                        )
                    }
                },
            },
            // Physics: one velocity pass then one drift pass, only while
            // running.
            final(self).system@.len() == old(self).system@.len(),
            !old(self).running ==> final(self).system == old(self).system,
            old(self).running ==> forall|i: int|
                0 <= i < old(self).system@.len() ==> {
                    let kicked = vel_after(old(self).system@, i, dt as int);
                    &&& (#[trigger] final(self).system@[i]).velocity@ == kicked
                    &&& final(self).system@[i].position@ == drift(
                        old(self).system@[i].position@,
                        kicked,
                        dt as int,
                    )
                    &&& final(self).system@[i].mass == old(self).system@[i].mass
                    &&& final(self).system@[i].radius == old(self).system@[i].radius
                    &&& final(self).system@[i].color == old(self).system@[i].color
                },
    {
        match self.focused {
            FocusPoint::Free => self.camera.update_free(inp),
            FocusPoint::MassCenter => {
                let c = self.system.mass_center();
                self.camera.update_with_point(inp, c);
            },
            FocusPoint::Body(i) => {
                if self.removed_last_tick {
                    self.focused = FocusPoint::Free;
                    self.camera.update_free(inp);
                } else {
                    proof {
                        assert(self.system@[i as int].wf());
                    }
                    let p = self.system.bodies()[i].position;
                    self.camera.update_with_point(inp, p);
                }
            },
        }
        self.removed_last_tick = false;
        if self.running {
            self.system.accelerate(dt);
            self.system.move_bodies(dt);
        }
    }
}

} // verus!
