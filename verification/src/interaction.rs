//! The per-pane interaction state machine: pointer, wheel and keyboard
//! input folded into an evolving `ViewState`.
//!
//! The mode is derived fresh from the current button/modifier flags on every
//! update; it is never transition history. Pointer coordinates are pixels;
//! wheel deltas, frame accumulators and transform factors are fixed-point
//! (`FP_ONE` is 1.0).

use crate::fixed::abs_int;
use crate::fixed::clamp_i64;
use crate::fixed::fp_round_abs;
use crate::fixed::fp_round_mag;
use crate::fixed::fp_scale;
use crate::fixed::sat_add;
use crate::fixed::sat_mul;
use crate::fixed::sgn;
use crate::fixed::tdiv;
use crate::fixed::FP_ONE;
use crate::time::elapsed_millis;
use crate::time::instant_now;
use crate::view_state::ViewState;
use vstd::prelude::*;

verus! {

/// Pointer coordinates handed to the state machine stay within this bound:
/// window coordinates translated into a pane's local frame fit it with a
/// wide margin.
pub const COORD_MAX: i64 = 17179869184;

/// The default cine playback rate, frames per second.
pub const CINE_FPS: i64 = 10;

/// The step of one cine-speed adjustment, frames per second.
pub const CINE_ADJUST: i64 = 10;

/// The interaction mode derived from the current flags.
#[derive(Debug, Copy, Clone, PartialEq, Eq, Hash, Structural)]
pub enum InteractionMode {
    Zoom,
    Pan,
    Scroll,
    FastScroll,
    Wl,
    Variate,
}

/// A side effect to propagate to sibling panes: the frame stepped by the
/// carried amount.
#[derive(Debug, Copy, Clone, PartialEq, Eq, Hash, Structural)]
pub enum SyncOperation {
    Scroll(i32),
}

/// A mouse button, as the state machine tells them apart.
#[derive(Debug, Copy, Clone, PartialEq, Eq, Structural)]
pub enum MouseButton {
    Left,
    Right,
    Middle,
    Other,
}

/// The per-pane state machine.
#[derive(Debug)]
pub struct InteractionState {
    pub anchor: Option<(i64, i64)>,
    pub mouse_position: Option<(i64, i64)>,
    /// Reciprocal of the device-sensitivity factor: deltas scaled by it are
    /// divided by this value (the owning pane's height in pixels).
    pub mouse_scale_den: u64,
    pub scroll_delta: Option<i64>,
    pub frame_acc: i64,
    pub left_mouse: bool,
    pub right_mouse: bool,
    pub middle_mouse: bool,
    pub ctrl_pressed: bool,
    pub mode: Option<InteractionMode>,
    pub image_count: Option<usize>,
    pub viewstate: ViewState,
    pub synchronized: bool,
    pub cine: bool,
    pub cine_timer: Option<std::time::Instant>,
    pub cine_fps: i64,
}

/// The mode derived from the flags, first match wins: both main buttons held
/// mean fast scroll; the left button zooms with control held and pans
/// otherwise; a pending wheel delta scrolls; the middle button adjusts the
/// variate with control held and window/level otherwise.
pub open spec fn derive_mode(
    left: bool,
    right: bool,
    middle: bool,
    ctrl: bool,
    has_scroll: bool,
) -> Option<InteractionMode> {
    if left && right {
        Some(InteractionMode::FastScroll)
    } else if left && ctrl {
        Some(InteractionMode::Zoom)
    } else if left {
        Some(InteractionMode::Pan)
    } else if has_scroll {
        Some(InteractionMode::Scroll)
    } else if middle && ctrl {
        Some(InteractionMode::Variate)
    } else if middle {
        Some(InteractionMode::Wl)
    } else {
        None
    }
}

/// The frame-count bound used for frame stepping: at least 1, so that a pane
/// without a case (count 0) pins the frame at index 0.
pub open spec fn image_bound(image_count: Option<usize>) -> int {
    let n: int = match image_count {
        Some(c) => c as int,
        None => 1,
    };
    if n < 1 {
        1
    } else {
        n
    }
}

/// The zoom factor for a vertical movement `dy`, fixed-point:
/// `max(0, 1 - dy/256)`.
pub open spec fn zoom_factor(dy: int) -> int {
    if FP_ONE - dy * 256 < 0 {
        0
    } else {
        FP_ONE - dy * 256
    }
}

/// The window/level factor for a movement component `d`, fixed-point:
/// `max(0, 1 + d/256)`.
pub open spec fn wl_factor(d: int) -> int {
    if FP_ONE + d * 256 < 0 {
        0
    } else {
        FP_ONE + d * 256
    }
}

impl InteractionState {
    /// Machine-limit invariant: the frame-count bound and the stored frame
    /// index fit `i32` (a sync delta is an `i32` on the wire), pointer
    /// coordinates are in window range, and the sensitivity divisor is
    /// positive.
    pub open spec fn wf(self) -> bool {
        &&& match self.image_count {
            Some(c) => c <= i32::MAX,
            None => true,
        }
        &&& match self.viewstate.frame {
            Some(f) => f <= i32::MAX,
            None => true,
        }
        &&& match self.anchor {
            Some(p) => -COORD_MAX <= p.0 <= COORD_MAX && -COORD_MAX <= p.1 <= COORD_MAX,
            None => true,
        }
        &&& match self.mouse_position {
            Some(p) => -COORD_MAX <= p.0 <= COORD_MAX && -COORD_MAX <= p.1 <= COORD_MAX,
            None => true,
        }
        &&& self.mouse_scale_den >= 1
    }

    /// The stored frame index lies within the case's frame-count bound.
    pub open spec fn frame_in_bound(self) -> bool {
        match self.viewstate.frame {
            Some(f) => (f as int) < image_bound(self.image_count),
            None => true,
        }
    }

    pub open spec fn spec_new() -> InteractionState {
        InteractionState {
            anchor: None,
            mouse_position: None,
            mouse_scale_den: 1,
            scroll_delta: None,
            frame_acc: 0,
            left_mouse: false,
            right_mouse: false,
            middle_mouse: false,
            ctrl_pressed: false,
            mode: None,
            image_count: None,
            viewstate: ViewState::spec_new(),
            synchronized: false,
            cine: false,
            cine_timer: None,
            cine_fps: CINE_FPS,
        }
    }

    pub fn new() -> (r: InteractionState)
        ensures
            r == InteractionState::spec_new(),
            r.wf(),
    {
        InteractionState {
            anchor: None,
            mouse_position: None,
            mouse_scale_den: 1,
            scroll_delta: None,
            frame_acc: 0,
            left_mouse: false,
            right_mouse: false,
            middle_mouse: false,
            ctrl_pressed: false,
            mode: None,
            image_count: None,
            viewstate: ViewState::new(),
            synchronized: false,
            cine: false,
            cine_timer: None,
            cine_fps: CINE_FPS,
        }
    }

    /// Bind the state machine to a case: set the frame-count bound and reset
    /// the playback position to frame 0.
    pub fn set_image_count(&mut self, image_count: usize)
        requires
            image_count <= i32::MAX,
        ensures
            *final(self) == (InteractionState {
                image_count: Some(image_count),
                viewstate: ViewState { frame: Some(0), ..old(self).viewstate },
                ..*old(self)
            }),
            old(self).wf() ==> final(self).wf(),
    {
        self.image_count = Some(image_count);
        self.viewstate.set_frame(Some(0));
    }

    /// Record the pointer position (pane-relative pixels) and the
    /// sensitivity divisor (the pane height, at least 1).
    pub fn handle_move(&mut self, position: (i64, i64), scale_den: u64)
        requires
            -COORD_MAX <= position.0 <= COORD_MAX,
            -COORD_MAX <= position.1 <= COORD_MAX,
            scale_den >= 1,
        ensures
            *final(self) == (InteractionState {
                mouse_position: Some(position),
                mouse_scale_den: scale_den,
                ..*old(self)
            }),
            old(self).wf() ==> final(self).wf(),
    {
        self.mouse_position = Some(position);
        self.mouse_scale_den = scale_den;
    }

    /// Record a button transition; buttons other than left, right and middle
    /// are ignored.
    pub fn handle_mouse_input(&mut self, button: MouseButton, pressed: bool)
        ensures
            *final(self) == (match button {
                MouseButton::Left => InteractionState { left_mouse: pressed, ..*old(self) },
                MouseButton::Right => InteractionState { right_mouse: pressed, ..*old(self) },
                MouseButton::Middle => InteractionState { middle_mouse: pressed, ..*old(self) },
                MouseButton::Other => *old(self),
            }),
            old(self).wf() ==> final(self).wf(),
    {
        match button {
            MouseButton::Left => {
                self.left_mouse = pressed;
            },
            MouseButton::Right => {
                self.right_mouse = pressed;
            },
            MouseButton::Middle => {
                self.middle_mouse = pressed;
            },
            MouseButton::Other => {},
        }
    }

    pub fn handle_modifiers(&mut self, ctrl: bool)
        ensures
            *final(self) == (InteractionState { ctrl_pressed: ctrl, ..*old(self) }),
            old(self).wf() ==> final(self).wf(),
    {
        self.ctrl_pressed = ctrl;
    }

    /// Record a wheel delta, in fixed-point frames; consumed by the next
    /// update.
    pub fn handle_mouse_wheel(&mut self, delta: i64)
        ensures
            *final(self) == (InteractionState { scroll_delta: Some(delta), ..*old(self) }),
            old(self).wf() ==> final(self).wf(),
    {
        self.scroll_delta = Some(delta);
    }

    /// The mode the current flags derive.
    pub open spec fn derived_mode(self) -> Option<InteractionMode> {
        derive_mode(
            self.left_mouse,
            self.right_mouse,
            self.middle_mouse,
            self.ctrl_pressed,
            self.scroll_delta is Some,
        )
    }

    fn mode_from_state(&self) -> (r: Option<InteractionMode>)
        ensures
            r == self.derived_mode(),
    {
        if self.left_mouse {
            if self.right_mouse {
                return Some(InteractionMode::FastScroll);
            }
            if self.ctrl_pressed {
                return Some(InteractionMode::Zoom);
            }
            return Some(InteractionMode::Pan);
        }
        if self.scroll_delta.is_some() {
            return Some(InteractionMode::Scroll);
        }
        if self.middle_mouse {
            if self.ctrl_pressed {
                return Some(InteractionMode::Variate);
            }
            return Some(InteractionMode::Wl);
        }
        None
    }

    /// The cursor is hidden exactly while the derived mode is `Pan`.
    pub fn hide_cursor(&self) -> (r: bool)
        ensures
            r == (self.derived_mode() == Some(InteractionMode::Pan)),
    {
        let mode = self.mode_from_state();
        match mode {
            Some(InteractionMode::Pan) => true,
            _ => false,
        }
    }

    /// The state and frame difference after folding a fixed-point frame
    /// delta into the accumulator: once the rounded accumulator magnitude
    /// reaches one frame, the frame index steps by that amount (with the
    /// accumulator's sign) and the accumulator resets; stepping clamps to
    /// `[0, bound-1]` normally and wraps around under cine.
    pub open spec fn spec_update_frame(self, delta: int) -> (InteractionState, int) {
        let acc1 = clamp_i64(self.frame_acc + delta);
        let steps = fp_round_mag(acc1);
        let sign = sgn(acc1);
        let acc2: int = if steps != 0 {
            0
        } else {
            acc1
        };
        let current: int = match self.viewstate.frame {
            Some(f) => f as int,
            None => 0,
        };
        let bound = image_bound(self.image_count);
        let next: int = if self.cine {
            let n0 = current + sign * (steps % bound);
            if n0 < 0 {
                bound + n0
            } else if n0 >= bound {
                n0 - bound
            } else {
                n0
            }
        } else {
            let n0 = current + sign * steps;
            if n0 < 0 {
                0
            } else if n0 > bound - 1 {
                bound - 1
            } else {
                n0
            }
        };
        let vs = if next != current {
            ViewState { frame: Some(next as u32), ..self.viewstate }
        } else {
            self.viewstate
        };
        (InteractionState { frame_acc: acc2 as i64, viewstate: vs, ..self }, next - current)
    }

    /// Fold a fixed-point frame delta into the accumulator and step the
    /// frame; returns the signed number of frames stepped.
    #[verifier::rlimit(100)]
    fn update_frame(&mut self, delta: i64) -> (diff: i32)
        requires
            old(self).wf(),
        ensures
            *final(self) == old(self).spec_update_frame(delta as int).0,
            diff as int == old(self).spec_update_frame(delta as int).1,
            final(self).wf(),
    {
        let acc1: i64 = sat_add(self.frame_acc, delta);
        let steps: u64 = fp_round_abs(acc1);
        let sign: i64 = if acc1 > 0 {
            1
        } else if acc1 < 0 {
            -1
        } else {
            0
        };
        if steps != 0 {
            self.frame_acc = 0;
        } else {
            self.frame_acc = acc1;
        }
        let current: i64 = match self.viewstate.frame {
            Some(f) => f as i64,
            None => 0,
        };
        let bound: i64 = match self.image_count {
            Some(c) => if c < 1 {
                1
            } else {
                c as i64
            },
            None => 1,
        };
        proof {
            // `|acc1| <= 2^63`, so the rounded step count is at most `2^47`.
            assert(steps <= 140737488355328u64) by {
                vstd::arithmetic::div_mod::lemma_div_is_ordered(
                    abs_int(acc1 as int) + 32768,
                    9223372036854808576,
                    FP_ONE as int,
                );
            }
        }
        let next: i64 = if self.cine {
            let wrapped_steps: i64 = (steps % (bound as u64)) as i64;
            proof {
                vstd::arithmetic::div_mod::lemma_mod_bound(steps as int, bound as int);
                lemma_sign_mul(sign as int, wrapped_steps as int);
            }
            let signed_steps: i64 = if sign == 1 {
                wrapped_steps
            } else if sign == -1 {
                -wrapped_steps
            } else {
                0
            };
            let n0: i64 = current + signed_steps;
            if n0 < 0 {
                bound + n0
            } else if n0 >= bound {
                n0 - bound
            } else {
                n0
            }
        } else {
            proof {
                lemma_sign_mul(sign as int, steps as int);
            }
            let signed_steps: i64 = if sign == 1 {
                steps as i64
            } else if sign == -1 {
                -(steps as i64)
            } else {
                0
            };
            let n0: i64 = current + signed_steps;
            if n0 < 0 {
                0
            } else if n0 > bound - 1 {
                bound - 1
            } else {
                n0
            }
        };
        if next != current {
            self.viewstate.set_frame(Some(next as u32));
        }
        (next - current) as i32
    }

    /// The full update step: derive the mode (resetting the movement anchor
    /// on a change), apply the mode's transform to the movement since the
    /// last update, consume any wheel delta, and re-anchor at the current
    /// pointer position. Returns whether anything changed and an optional
    /// sync side effect.
    pub open spec fn spec_update(self) -> (InteractionState, bool, Option<SyncOperation>) {
        let mode = self.derived_mode();
        let mode_change = mode != self.mode;
        let anchor0: Option<(i64, i64)> = if mode_change {
            None
        } else {
            self.anchor
        };
        let anchor: Option<(i64, i64)> = match anchor0 {
            Some(a) => Some(a),
            None => self.mouse_position,
        };
        let movement: Option<(int, int)> = match (self.mouse_position, anchor) {
            (Some(p), Some(a)) => Some((p.0 - a.0, p.1 - a.1)),
            _ => None,
        };
        let base = InteractionState {
            mode,
            anchor: anchor0,
            viewstate: ViewState { cursor: None, ..self.viewstate },
            ..self
        };
        let stepped = base.spec_apply_mode(movement);
        let after = stepped.0;
        (
            InteractionState { scroll_delta: None, anchor: self.mouse_position, ..after },
            stepped.1 || mode_change,
            stepped.2,
        )
    }

    /// The mode arm of the update step, applied to the movement delta.
    pub open spec fn spec_apply_mode(self, movement: Option<(int, int)>) -> (
        InteractionState,
        bool,
        Option<SyncOperation>,
    ) {
        match self.mode {
            Some(InteractionMode::Zoom) => match movement {
                Some(m) => (
                    InteractionState {
                        viewstate: self.viewstate.spec_update_magnification(zoom_factor(m.1)),
                        ..self
                    },
                    true,
                    None,
                ),
                None => (self, false, None),
            },
            Some(InteractionMode::Pan) => match movement {
                Some(m) => (
                    InteractionState {
                        viewstate: ViewState {
                            cursor: self.mouse_position,
                            ..self.viewstate.spec_update_position(
                                (clamp_i64(m.0 * FP_ONE), clamp_i64(m.1 * FP_ONE)),
                            )
                        },
                        ..self
                    },
                    true,
                    None,
                ),
                None => (self, false, None),
            },
            Some(InteractionMode::Scroll) => match self.scroll_delta {
                Some(d) => self.spec_step_and_sync(clamp_i64(-d)),
                None => (self, false, None),
            },
            Some(InteractionMode::FastScroll) => match movement {
                Some(m) => {
                    let count: int = match self.image_count {
                        Some(c) => c as int,
                        None => 1,
                    };
                    let scaled = clamp_i64(
                        tdiv(clamp_i64(m.1 * count) * FP_ONE, self.mouse_scale_den as int),
                    );
                    self.spec_step_and_sync(scaled)
                },
                None => (self, false, None),
            },
            Some(InteractionMode::Wl) => match movement {
                Some(m) => (
                    InteractionState {
                        viewstate: self.viewstate.spec_update_center(
                            wl_factor(m.1),
                        ).spec_update_width(wl_factor(m.0)),
                        ..self
                    },
                    true,
                    None,
                ),
                None => (self, false, None),
            },
            Some(InteractionMode::Variate) => match movement {
                Some(m) => (
                    InteractionState {
                        viewstate: self.viewstate.spec_update_variate(
                            Some(clamp_i64(tdiv(m.1 * FP_ONE, self.mouse_scale_den as int))),
                        ),
                        ..self
                    },
                    true,
                    None,
                ),
                None => (self, false, None),
            },
            None => (self, false, None),
        }
    }

    /// Step the frame by a fixed-point delta; when the frame index actually
    /// changed and this pane is synchronized, emit a scroll sync operation.
    pub open spec fn spec_step_and_sync(self, delta: int) -> (
        InteractionState,
        bool,
        Option<SyncOperation>,
    ) {
        let stepped = self.spec_update_frame(delta);
        let diff = stepped.1;
        if diff != 0 {
            (
                stepped.0,
                true,
                if self.synchronized {
                    Some(SyncOperation::Scroll(diff as i32))
                } else {
                    None
                },
            )
        } else {
            (stepped.0, false, None)
        }
    }

    /// One update step; see `spec_update`.
    pub fn update(&mut self) -> (r: (bool, Option<SyncOperation>))
        requires
            old(self).wf(),
        ensures
            *final(self) == old(self).spec_update().0,
            r.0 == old(self).spec_update().1,
            r.1 == old(self).spec_update().2,
            final(self).wf(),
    {
        let mode = self.mode_from_state();
        let mut mode_change = false;
        let same = match (mode, self.mode) {
            (None, None) => true,
            (Some(a), Some(b)) => a == b,
            _ => false,
        };
        if !same {
            self.mode = mode;
            self.anchor = None;
            mode_change = true;
        }
        let anchor: Option<(i64, i64)> = match self.anchor {
            Some(a) => Some(a),
            None => self.mouse_position,
        };
        let movement: Option<(i64, i64)> = match (self.mouse_position, anchor) {
            (Some(p), Some(a)) => Some((p.0 - a.0, p.1 - a.1)),
            _ => None,
        };

        let mut updated = false;
        self.viewstate.cursor = None;
        let mut sync_op: Option<SyncOperation> = None;
        match self.mode {
            Some(InteractionMode::Zoom) => {
                if let Some(m) = movement {
                    let factor: i64 = {
                        let f = FP_ONE - m.1 * 256;
                        if f < 0 {
                            0
                        } else {
                            f
                        }
                    };
                    self.viewstate.update_magnification(factor);
                    updated = true;
                }
            },
            Some(InteractionMode::Pan) => {
                if let Some(m) = movement {
                    let delta = (sat_mul(m.0, FP_ONE), sat_mul(m.1, FP_ONE));
                    self.viewstate.update_position(delta);
                    self.viewstate.cursor = self.mouse_position;
                    updated = true;
                }
            },
            Some(InteractionMode::Scroll) => {
                if let Some(d) = self.scroll_delta {
                    let neg: i64 = sat_mul(d, -1);
                    let diff = self.update_frame(neg);
                    if diff != 0 {
                        updated = true;
                        if self.synchronized {
                            sync_op = Some(SyncOperation::Scroll(diff));
                        }
                    }
                }
            },
            Some(InteractionMode::FastScroll) => {
                if let Some(m) = movement {
                    let count: i64 = match self.image_count {
                        Some(c) => c as i64,
                        None => 1,
                    };
                    let raw = sat_mul(m.1, count);
                    let delta = fp_scale(raw, FP_ONE, self.mouse_scale_den);
                    let diff = self.update_frame(delta);
                    if diff != 0 {
                        updated = true;
                        if self.synchronized {
                            sync_op = Some(SyncOperation::Scroll(diff));
                        }
                    }
                }
            },
            Some(InteractionMode::Wl) => {
                if let Some(m) = movement {
                    let delta_c: i64 = {
                        let f = FP_ONE + m.1 * 256;
                        if f < 0 {
                            0
                        } else {
                            f
                        }
                    };
                    let delta_w: i64 = {
                        let f = FP_ONE + m.0 * 256;
                        if f < 0 {
                            0
                        } else {
                            f
                        }
                    };
                    self.viewstate.update_center(delta_c);
                    self.viewstate.update_width(delta_w);
                    updated = true;
                }
            },
            Some(InteractionMode::Variate) => {
                if let Some(m) = movement {
                    let delta = fp_scale(m.1, FP_ONE, self.mouse_scale_den);
                    self.viewstate.update_variate(Some(delta));
                    updated = true;
                }
            },
            None => {},
        }

        self.scroll_delta = None;
        self.anchor = self.mouse_position;
        (updated || mode_change, sync_op)
    }

    pub fn get_render_state(&self) -> (r: ViewState)
        ensures
            r == self.viewstate,
    {
        self.viewstate.clone()
    }

    /// Install a render snapshot wholesale (used by park/restore).
    pub fn set_render_state(&mut self, state: ViewState)
        requires
            match state.frame {
                Some(f) => f <= i32::MAX,
                None => true,
            },
        ensures
            *final(self) == (InteractionState { viewstate: state, ..*old(self) }),
            old(self).wf() ==> final(self).wf(),
    {
        self.viewstate = state;
    }

    pub fn toggle_sync(&mut self)
        ensures
            *final(self) == (InteractionState {
                synchronized: !old(self).synchronized,
                ..*old(self)
            }),
            old(self).wf() ==> final(self).wf(),
    {
        self.synchronized = !self.synchronized;
    }

    pub fn is_synchronized(&self) -> (r: bool)
        ensures
            r == self.synchronized,
    {
        self.synchronized
    }

    pub open spec fn spec_synchronized(self) -> bool {
        self.synchronized
    }

    pub open spec fn spec_viewstate(self) -> ViewState {
        self.viewstate
    }

    pub open spec fn spec_cine(self) -> bool {
        self.cine
    }

    /// Toggle cine playback; starting it arms the real-time clock.
    pub fn toggle_cine(&mut self)
        ensures
            final(self).cine == !old(self).cine,
            final(self).cine_timer is Some <==> final(self).cine,
            *final(self) == (InteractionState {
                cine: final(self).cine,
                cine_timer: final(self).cine_timer,
                ..*old(self)
            }),
            old(self).wf() ==> final(self).wf(),
    {
        self.cine = !self.cine;
        self.cine_timer = if self.cine {
            Some(instant_now())
        } else {
            None
        };
    }

    /// Adjust the cine playback rate by `direction` steps of `CINE_ADJUST`
    /// frames per second, saturated.
    pub fn adjust_cine_speec(&mut self, direction: i32)
        ensures
            final(self).cine_fps == clamp_i64(
                old(self).cine_fps + clamp_i64(direction as int * CINE_ADJUST as int),
            ),
            *final(self) == (InteractionState { cine_fps: final(self).cine_fps, ..*old(self) }),
            old(self).wf() ==> final(self).wf(),
    {
        let step: i64 = sat_mul(direction as i64, CINE_ADJUST);
        self.cine_fps = sat_add(self.cine_fps, step);
    }

    /// The fixed-point frame advance that `elapsed_ms` of cine playback
    /// produces at `fps` frames per second; each intermediate step saturates
    /// at the `i64` range.
    pub open spec fn spec_cine_frames(fps: int, elapsed_ms: int) -> int {
        clamp_i64(tdiv(clamp_i64(clamp_i64(elapsed_ms) * fps) * FP_ONE, 1000))
    }

    /// Fold `elapsed_ms` of cine playback into a pending scroll delta: once
    /// the advance reaches a whole frame, it is injected (negated, matching
    /// the wheel convention) as the next update's scroll delta. Returns
    /// whether a delta was injected; the state is otherwise unchanged.
    pub fn cine_step(&mut self, elapsed_ms: u64) -> (r: bool)
        ensures
            r == (abs_int(Self::spec_cine_frames(old(self).cine_fps as int, elapsed_ms as int))
                >= FP_ONE),
            r ==> *final(self) == (InteractionState {
                scroll_delta: Some(
                    clamp_i64(
                        -Self::spec_cine_frames(old(self).cine_fps as int, elapsed_ms as int),
                    ) as i64,
                ),
                ..*old(self)
            }),
            !r ==> *final(self) == *old(self),
            old(self).wf() ==> final(self).wf(),
    {
        let ms: i64 = if elapsed_ms > i64::MAX as u64 {
            i64::MAX
        } else {
            elapsed_ms as i64
        };
        proof {
            assert(ms as int == clamp_i64(elapsed_ms as int));
        }
        let product: i64 = sat_mul(ms, self.cine_fps);
        let frames: i64 = fp_scale(product, FP_ONE, 1000);
        let mag: u64 = crate::fixed::abs_mag(frames);
        if mag >= FP_ONE as u64 {
            self.scroll_delta = Some(sat_mul(frames, -1));
            true
        } else {
            false
        }
    }

    /// Advance cine playback from the real-time clock: when cine is active
    /// and at least one whole frame has elapsed, inject the advance as a
    /// scroll delta and restart the clock. The clock reading is outside
    /// input, so the contract only fixes the shape of the change; the exact
    /// step for a given elapsed time is `cine_step`'s contract.
    pub fn cine_update(&mut self) -> (r: bool)
        ensures
            !(old(self).cine && old(self).cine_timer is Some) ==> *final(self) == *old(self) && !r,
            r ==> final(self).scroll_delta is Some && final(self).cine_timer is Some,
            r ==> *final(self) == (InteractionState {
                scroll_delta: final(self).scroll_delta,
                cine_timer: final(self).cine_timer,
                ..*old(self)
            }),
            !r ==> *final(self) == *old(self),
            old(self).wf() ==> final(self).wf(),
    {
        if self.cine {
            if let Some(timer) = &self.cine_timer {
                let elapsed = elapsed_millis(timer);
                let stepped = self.cine_step(elapsed);
                if stepped {
                    self.cine_timer = Some(instant_now());
                    return true;
                }
            }
        }
        false
    }
}

/// The product of a sign in `{-1, 0, 1}` and a value, spelled out.
proof fn lemma_sign_mul(s: int, x: int)
    requires
        s == 1 || s == -1 || s == 0,
    ensures
        s * x == if s == 1 {
            x
        } else if s == -1 {
            -x
        } else {
            0
        },
{
    vstd::arithmetic::mul::lemma_mul_basics(x);
    vstd::arithmetic::mul::lemma_mul_unary_negation(1, x);
}

/// The derived interaction mode follows the precedence table exactly, for
/// every combination of flags: both main buttons mean fast scroll whatever
/// else is held; the left button zooms with control and pans without; a
/// pending wheel delta scrolls; the middle button adjusts the variate with
/// control and window/level without; nothing held derives no mode.
pub proof fn lemma_mode_precedence(left: bool, right: bool, middle: bool, ctrl: bool, scroll: bool)
    ensures
        left && right ==> derive_mode(left, right, middle, ctrl, scroll) == Some(
            InteractionMode::FastScroll,
        ),
        left && !right && ctrl ==> derive_mode(left, right, middle, ctrl, scroll) == Some(
            InteractionMode::Zoom,
        ),
        left && !right && !ctrl ==> derive_mode(left, right, middle, ctrl, scroll) == Some(
            InteractionMode::Pan,
        ),
        !left && scroll ==> derive_mode(left, right, middle, ctrl, scroll) == Some(
            InteractionMode::Scroll,
        ),
        !left && !scroll && middle && ctrl ==> derive_mode(left, right, middle, ctrl, scroll)
            == Some(InteractionMode::Variate),
        !left && !scroll && middle && !ctrl ==> derive_mode(left, right, middle, ctrl, scroll)
            == Some(InteractionMode::Wl),
        !left && !scroll && !middle ==> derive_mode(left, right, middle, ctrl, scroll) is None,
{
}

/// A mode switch never applies a transform from the stale anchor: on a mode
/// change the update re-anchors at the pointer, the first post-switch
/// movement delta is zero, and zoom, position and window/level are left
/// unchanged; the frame, too, unless the new mode is `Scroll`, whose wheel
/// delta is independent of the anchor.
pub proof fn lemma_mode_switch_applies_no_transform(s: InteractionState)
    requires
        s.wf(),
        s.derived_mode() != s.mode,
    ensures
        s.spec_update().0.viewstate.zoom == s.viewstate.zoom,
        s.spec_update().0.viewstate.pos == s.viewstate.pos,
        s.spec_update().0.viewstate.wl == s.viewstate.wl,
        s.derived_mode() != Some(InteractionMode::Scroll) && fp_round_mag(s.frame_acc as int) == 0
            && s.frame_in_bound() ==> s.spec_update().0.viewstate.frame == s.viewstate.frame,
{
    let mode = s.derived_mode();
    let base = InteractionState {
        mode,
        anchor: None,
        viewstate: ViewState { cursor: None, ..s.viewstate },
        ..s
    };
    let movement: Option<(int, int)> = match s.mouse_position {
        Some(p) => Some((0int, 0int)),
        None => None,
    };
    assert(s.spec_update().0 == (InteractionState {
        scroll_delta: None,
        anchor: s.mouse_position,
        ..base.spec_apply_mode(movement).0
    }));
    if movement is Some {
        match mode {
            Some(InteractionMode::Zoom) => {
                lemma_fp_identity(s.viewstate.zoom.magnification());
            },
            Some(InteractionMode::Pan) => {
                assert(clamp_i64(0 * FP_ONE) == 0) by {
                    vstd::arithmetic::mul::lemma_mul_basics(FP_ONE as int);
                }
                assert(base.viewstate.spec_update_position((0, 0)).pos == s.viewstate.pos);
            },
            Some(InteractionMode::Wl) => {
                lemma_fp_identity(s.viewstate.wl.center as int);
                lemma_fp_identity(s.viewstate.wl.width as int);
            },
            Some(InteractionMode::FastScroll) => {
                let count: int = match s.image_count {
                    Some(c) => c as int,
                    None => 1,
                };
                assert(clamp_i64(0 * count) == 0) by {
                    vstd::arithmetic::mul::lemma_mul_basics(count);
                }
                assert(tdiv(0 * FP_ONE, s.mouse_scale_den as int) == 0) by {
                    vstd::arithmetic::mul::lemma_mul_basics(FP_ONE as int);
                    vstd::arithmetic::div_mod::lemma_div_basics(s.mouse_scale_den as int);
                }
                if fp_round_mag(s.frame_acc as int) == 0 && s.frame_in_bound() {
                    lemma_zero_delta_keeps_frame(base);
                }
            },
            _ => {},
        }
    }
}

/// Scaling a fixed-point value by the fixed-point factor 1.0 keeps it.
proof fn lemma_fp_identity(v: int)
    requires
        i64::MIN <= v <= i64::MAX,
    ensures
        crate::fixed::fp_scale_spec(v, FP_ONE as int, FP_ONE as int) == v,
{
    if v >= 0 {
        assert(v * FP_ONE / FP_ONE as int == v) by {
            vstd::arithmetic::div_mod::lemma_div_by_multiple(v, FP_ONE as int);
            vstd::arithmetic::mul::lemma_mul_is_commutative(v, FP_ONE as int);
        }
    } else {
        assert((-(v * FP_ONE)) == (-v) * FP_ONE) by {
            vstd::arithmetic::mul::lemma_mul_unary_negation(v, FP_ONE as int);
        }
        assert((-v) * FP_ONE / FP_ONE as int == -v) by {
            vstd::arithmetic::div_mod::lemma_div_by_multiple(-v, FP_ONE as int);
            vstd::arithmetic::mul::lemma_mul_is_commutative(-v, FP_ONE as int);
        }
        assert(v * FP_ONE < 0) by {
            vstd::arithmetic::mul::lemma_mul_strictly_positive(-v, FP_ONE as int);
            vstd::arithmetic::mul::lemma_mul_unary_negation(v, FP_ONE as int);
        }
    }
}

/// A zero frame delta on an accumulator that holds less than half a frame
/// leaves an in-bound frame index unchanged; in particular a fresh anchor
/// (zero movement) never steps the frame. A larger pending accumulator, or
/// an index beyond the bound, steps on its own account, not the switch's.
proof fn lemma_zero_delta_keeps_frame(s: InteractionState)
    requires
        s.wf(),
        fp_round_mag(s.frame_acc as int) == 0,
        s.frame_in_bound(),
    ensures
        s.spec_update_frame(0).0.viewstate.frame == s.viewstate.frame,
{
    let acc1 = clamp_i64(s.frame_acc + 0);
    assert(acc1 == s.frame_acc as int);
    let bound = image_bound(s.image_count);
    assert(0int % bound == 0) by {
        vstd::arithmetic::div_mod::lemma_mod_bound(0, bound);
        vstd::arithmetic::div_mod::lemma_small_mod(0, bound as nat);
    }
    lemma_sign_mul(sgn(acc1), 0);
    vstd::arithmetic::mul::lemma_mul_basics(sgn(acc1));
}

} // verus!
