//! A pane: the smallest interactive sub-region. Owns one interaction state
//! machine, a sub-rectangle and a case binding.

use crate::fixed::FP_ONE;
use crate::geom::LayoutRect;
use crate::input::InputEvent;
use crate::input::KeyAction;
use crate::interaction::InteractionState;
use crate::interaction::SyncOperation;
use crate::message::case_eq;
use crate::message::duplicate_case;
use crate::message::CaseMeta;
use crate::message::PaneState;
use crate::view_state::ViewState;
use vstd::prelude::*;

verus! {

/// The unit of direct manipulation inside a view.
#[derive(Debug)]
pub struct Pane {
    /// Identity as `(owning view, pane slot)`; sync operations carry it so
    /// the origin pane does not re-apply its own step.
    pub id: (usize, usize),
    pub layout: LayoutRect,
    pub interaction: InteractionState,
    pub dirty: bool,
    pub case: Option<CaseMeta>,
}

impl Pane {
    /// Machine-limit invariant, carried through every operation.
    pub open spec fn wf(self) -> bool {
        &&& self.interaction.wf()
        &&& match self.case {
            Some(c) => c.wf(),
            None => true,
        }
    }

    pub open spec fn spec_default() -> Pane {
        Pane {
            id: (0, 0),
            layout: LayoutRect { x: 0, y: 0, width: 0, height: 0 },
            interaction: InteractionState::spec_new(),
            dirty: false,
            case: None,
        }
    }
}

impl Default for Pane {
    fn default() -> (r: Pane)
        ensures
            r == Pane::spec_default(),
            r.wf(),
    {
        Pane {
            id: (0, 0),
            layout: LayoutRect { x: 0, y: 0, width: 0, height: 0 },
            interaction: InteractionState::new(),
            dirty: false,
            case: None,
        }
    }
}

impl Pane {
    /// What a window event does to the pane's interaction state: cursor
    /// positions are translated into the pane's local frame; sync, cine and
    /// cine-speed keys act here; other keys are not handled.
    pub open spec fn spec_handle_window_event(self, event: InputEvent) -> (Pane, bool) {
        match event {
            InputEvent::CursorMoved { x, y } => (
                Pane {
                    interaction: InteractionState {
                        mouse_position: Some(
                            ((x - self.layout.x) as i64, (y - self.layout.y) as i64),
                        ),
                        mouse_scale_den: if self.layout.height >= 1 {
                            self.layout.height as u64
                        } else {
                            1
                        },
                        ..self.interaction
                    },
                    ..self
                },
                true,
            ),
            InputEvent::MouseInput { button, pressed } => (
                Pane {
                    interaction: match button {
                        crate::interaction::MouseButton::Left => InteractionState {
                            left_mouse: pressed,
                            ..self.interaction
                        },
                        crate::interaction::MouseButton::Right => InteractionState {
                            right_mouse: pressed,
                            ..self.interaction
                        },
                        crate::interaction::MouseButton::Middle => InteractionState {
                            middle_mouse: pressed,
                            ..self.interaction
                        },
                        crate::interaction::MouseButton::Other => self.interaction,
                    },
                    ..self
                },
                true,
            ),
            InputEvent::ModifiersChanged { ctrl } => (
                Pane { interaction: InteractionState { ctrl_pressed: ctrl, ..self.interaction }, ..self },
                true,
            ),
            InputEvent::MouseWheel { delta } => (
                Pane {
                    interaction: InteractionState {
                        scroll_delta: Some(delta),
                        ..self.interaction
                    },
                    ..self
                },
                true,
            ),
            InputEvent::Key(action) => match action {
                KeyAction::ToggleSync => (
                    Pane {
                        interaction: InteractionState {
                            synchronized: !self.interaction.synchronized,
                            ..self.interaction
                        },
                        ..self
                    },
                    true,
                ),
                KeyAction::ToggleCine => (self, true),
                KeyAction::CineFaster => (
                    Pane {
                        interaction: InteractionState {
                            cine_fps: crate::fixed::clamp_i64(
                                self.interaction.cine_fps + 10,
                            ) as i64,
                            ..self.interaction
                        },
                        ..self
                    },
                    true,
                ),
                KeyAction::CineSlower => (
                    Pane {
                        interaction: InteractionState {
                            cine_fps: crate::fixed::clamp_i64(
                                self.interaction.cine_fps - 10,
                            ) as i64,
                            ..self.interaction
                        },
                        ..self
                    },
                    true,
                ),
                _ => (self, false),
            },
        }
    }

    /// Route a window event into the interaction state machine; returns
    /// whether the event was handled. Cine toggling arms the real-time
    /// clock, so its arm fixes everything but the opaque clock value;
    /// every other event follows `spec_handle_window_event` exactly (see
    /// `spec_event_outcome`).
    pub fn handle_window_event(&mut self, event: &InputEvent) -> (handled: bool)
        requires
            old(self).wf(),
            event.coords_within(3 * crate::input::EVENT_COORD_MAX as int),
        ensures
            final(self).wf(),
            handled == old(self).spec_handle_window_event(*event).1,
            spec_event_outcome(*old(self), *final(self), *event),
    {
        match event {
            InputEvent::CursorMoved { x, y } => {
                let translated = (*x - self.layout.x as i64, *y - self.layout.y as i64);
                let den: u64 = if self.layout.height >= 1 {
                    self.layout.height as u64
                } else {
                    1
                };
                self.interaction.handle_move(translated, den);
                true
            },
            InputEvent::MouseInput { button, pressed } => {
                self.interaction.handle_mouse_input(*button, *pressed);
                true
            },
            InputEvent::ModifiersChanged { ctrl } => {
                self.interaction.handle_modifiers(*ctrl);
                true
            },
            InputEvent::MouseWheel { delta } => {
                self.interaction.handle_mouse_wheel(*delta);
                true
            },
            InputEvent::Key(action) => match action {
                KeyAction::ToggleSync => {
                    self.interaction.toggle_sync();
                    true
                },
                KeyAction::ToggleCine => {
                    self.interaction.toggle_cine();
                    true
                },
                KeyAction::CineFaster => {
                    proof {
                        vstd::arithmetic::mul::lemma_mul_basics(
                            crate::interaction::CINE_ADJUST as int,
                        );
                    }
                    self.interaction.adjust_cine_speec(1);
                    true
                },
                KeyAction::CineSlower => {
                    proof {
                        vstd::arithmetic::mul::lemma_mul_basics(
                            crate::interaction::CINE_ADJUST as int,
                        );
                        vstd::arithmetic::mul::lemma_mul_unary_negation(
                            1,
                            crate::interaction::CINE_ADJUST as int,
                        );
                    }
                    self.interaction.adjust_cine_speec(-1);
                    true
                },
                _ => false,
            },
        }
    }

    /// The cursor is hidden exactly while this pane's derived mode is `Pan`.
    pub fn hide_cursor(&self) -> (r: bool)
        ensures
            r == (self.interaction.derived_mode() == Some(
                crate::interaction::InteractionMode::Pan,
            )),
    {
        self.interaction.hide_cursor()
    }

    /// The pane after one update step: the interaction update's state, with
    /// the dirty flag raised when anything changed.
    pub open spec fn spec_update(self) -> (Pane, Option<SyncOperation>) {
        let stepped = self.interaction.spec_update();
        (
            Pane { interaction: stepped.0, dirty: stepped.1 || self.dirty, ..self },
            stepped.2,
        )
    }

    /// Run one interaction update; marks the pane dirty when the step
    /// changed anything and hands back its sync side effect.
    pub fn update(&mut self) -> (sync: Option<SyncOperation>)
        requires
            old(self).wf(),
        ensures
            final(self).wf(),
            *final(self) == old(self).spec_update().0,
            sync == old(self).spec_update().1,
    {
        let (updated, sync) = self.interaction.update();
        self.dirty = updated || self.dirty;
        sync
    }

    /// The pane after receiving a sync operation from pane `origin`: a
    /// synchronized pane that did not issue the operation takes the step as
    /// an inverted synthetic wheel event; then a normal update runs.
    pub open spec fn spec_update_sync(self, origin: (usize, usize), op: SyncOperation) -> (
        Pane,
        Option<SyncOperation>,
    ) {
        let injected = if self.interaction.synchronized && self.id != origin {
            match op {
                SyncOperation::Scroll(delta) => Pane {
                    interaction: InteractionState {
                        scroll_delta: Some((-delta * FP_ONE) as i64),
                        ..self.interaction
                    },
                    ..self
                },
            }
        } else {
            self
        };
        injected.spec_update()
    }

    /// Apply a propagated sync operation (see `spec_update_sync`).
    pub fn update_sync(&mut self, sync: &((usize, usize), SyncOperation)) -> (r: Option<
        SyncOperation,
    >)
        requires
            old(self).wf(),
        ensures
            final(self).wf(),
            *final(self) == old(self).spec_update_sync(sync.0, sync.1).0,
            r == old(self).spec_update_sync(sync.0, sync.1).1,
    {
        if self.interaction.is_synchronized() && !(self.id.0 == sync.0.0 && self.id.1 == sync.0.1) {
            match sync.1 {
                SyncOperation::Scroll(delta) => {
                    self.interaction.handle_mouse_wheel(-(delta as i64) * FP_ONE);
                },
            }
        }
        proof {
            assert(old(self).id != sync.0 <==> !(old(self).id.0 == sync.0.0 && old(self).id.1
                == sync.0.1));
        }
        self.update()
    }

    /// Take the render snapshot and clear the dirty flag.
    pub fn get_state(&mut self) -> (r: PaneState)
        ensures
            *final(self) == (Pane { dirty: false, ..*old(self) }),
            r.view_state == old(self).interaction.viewstate,
            r.layout == old(self).layout,
            r.key is Some <==> old(self).case is Some,
            old(self).case is Some ==> r.key->0@ == old(self).case->0.key@,
    {
        self.dirty = false;
        let key: Option<String> = match &self.case {
            Some(c) => Some(c.key.clone()),
            None => None,
        };
        PaneState { view_state: self.interaction.get_render_state(), layout: self.layout, key }
    }

    /// Bind a case: reset the interaction state afresh, set the frame-count
    /// bound to the case's image count (0 without a case), and mark dirty.
    pub fn set_case(&mut self, case: Option<CaseMeta>)
        requires
            old(self).wf(),
            match case {
                Some(c) => c.wf(),
                None => true,
            },
        ensures
            final(self).wf(),
            spec_case_bound(*old(self), *final(self), case),
    {
        self.interaction = InteractionState::new();
        self.case = case;
        match &self.case {
            Some(c) => {
                let n = c.number_of_images;
                self.interaction.set_image_count(n);
            },
            None => {
                self.interaction.set_image_count(0);
            },
        }
        self.dirty = true;
    }

    pub fn get_case_key(&self) -> (r: Option<&String>)
        ensures
            r is Some <==> self.case is Some,
            self.case is Some ==> r->0@ == self.case->0.key@,
    {
        match &self.case {
            Some(c) => Some(&c.key),
            None => None,
        }
    }

    pub fn contains(&self, position: (i64, i64)) -> (r: bool)
        ensures
            r == self.layout.spec_contains(position),
    {
        self.layout.contains(position)
    }

    /// Move the pane to a new rectangle; the layout change makes it dirty.
    pub fn set_layout(&mut self, layout: LayoutRect)
        ensures
            *final(self) == (Pane { layout, dirty: true, ..*old(self) }),
            old(self).wf() ==> final(self).wf(),
    {
        self.layout = layout;
        self.dirty = true;
    }

    pub fn invalidate(&mut self)
        ensures
            *final(self) == (Pane { dirty: true, ..*old(self) }),
            old(self).wf() ==> final(self).wf(),
    {
        self.dirty = true;
    }

    pub fn id(&self) -> (r: (usize, usize))
        ensures
            r == self.id,
    {
        self.id
    }

    pub fn set_id(&mut self, id: (usize, usize))
        ensures
            *final(self) == (Pane { id, ..*old(self) }),
            old(self).wf() ==> final(self).wf(),
    {
        self.id = id;
    }

    /// The snapshot taken when parking: the case binding and the render
    /// state.
    pub fn park_state(&self) -> (r: (Option<CaseMeta>, ViewState))
        ensures
            case_eq(r.0, self.case),
            r.1 == self.interaction.viewstate,
    {
        (duplicate_case(&self.case), self.interaction.get_render_state())
    }

    /// Install a render snapshot wholesale and mark dirty.
    pub fn set_viewstate(&mut self, state: ViewState)
        requires
            match state.frame {
                Some(f) => f <= i32::MAX,
                None => true,
            },
        ensures
            *final(self) == (Pane {
                interaction: InteractionState { viewstate: state, ..old(self).interaction },
                dirty: true,
                ..*old(self)
            }),
            old(self).wf() ==> final(self).wf(),
    {
        self.interaction.set_render_state(state);
        self.dirty = true;
    }

    /// Advance cine playback from the clock; true when a frame advance was
    /// injected (the caller then runs a normal update step).
    pub fn handle_timer_event(&mut self) -> (r: bool)
        requires
            old(self).wf(),
        ensures
            final(self).wf(),
            !r ==> *final(self) == *old(self),
            r ==> final(self).interaction.scroll_delta is Some,
            r ==> *final(self) == (Pane {
                interaction: InteractionState {
                    scroll_delta: final(self).interaction.scroll_delta,
                    cine_timer: final(self).interaction.cine_timer,
                    ..old(self).interaction
                },
                ..*old(self)
            }),
    {
        self.interaction.cine_update()
    }
}


/// The pane `b` is `a` freshly bound to `case`: the interaction state is
/// reset (frame 0, the case's image count as bound), the pane is dirty,
/// and its place and identity are untouched.
pub open spec fn spec_case_bound(a: Pane, b: Pane, case: Option<CaseMeta>) -> bool {
    &&& b.id == a.id
    &&& b.layout == a.layout
    &&& b.dirty
    &&& case_eq(b.case, case)
    &&& b.interaction == (InteractionState {
        image_count: Some(
            match case {
                Some(c) => c.number_of_images,
                None => 0,
            },
        ),
        viewstate: ViewState { frame: Some(0), ..ViewState::spec_new() },
        ..InteractionState::spec_new()
    })
}

/// What one window event leaves of a pane: every event follows
/// `spec_handle_window_event` exactly, except the cine toggle, whose
/// re-armed clock value is outside input (the toggled flag and everything
/// else is still fixed).
pub open spec fn spec_event_outcome(a: Pane, b: Pane, event: InputEvent) -> bool {
    match event {
        InputEvent::Key(KeyAction::ToggleCine) => {
            &&& b == (Pane {
                interaction: InteractionState {
                    cine: !a.interaction.cine,
                    cine_timer: b.interaction.cine_timer,
                    ..a.interaction
                },
                ..a
            })
            &&& (b.interaction.cine_timer is Some <==> b.interaction.cine)
        },
        _ => b == a.spec_handle_window_event(event).0,
    }
}

/// `b` is `a` with the given cine advance injected as a pending wheel
/// delta and the clock re-armed, after one normal update step.
pub open spec fn spec_cine_stepped_with(
    a: Pane,
    b: Pane,
    delta: i64,
    clock: Option<std::time::Instant>,
) -> bool {
    b == (Pane {
        interaction: InteractionState {
            scroll_delta: Some(delta),
            cine_timer: clock,
            ..a.interaction
        },
        ..a
    }).spec_update().0
}

/// What one timer tick leaves of a pane: untouched (cine off, or less than
/// a whole frame elapsed), or a cine advance injected and folded by one
/// normal update step. The advance itself depends on the clock, so it is
/// existentially quantified; `InteractionState::cine_step` fixes it exactly
/// for a given elapsed time.
pub open spec fn spec_timer_stepped(a: Pane, b: Pane) -> bool {
    ||| b == a
    ||| exists|delta: i64, clock: Option<std::time::Instant>|
        #[trigger] spec_cine_stepped_with(a, b, delta, clock)
}

/// Sync propagation: when a scroll on an origin pane yields a sync
/// operation carrying `delta`, a synchronized sibling receives exactly one
/// synthetic wheel event with the sign inverted (then runs its normal
/// update, which consumes it), while a pane that is not synchronized
/// receives no operation at all: its sync-aware update is exactly its plain
/// update.
pub proof fn lemma_sync_propagation(
    origin: (usize, usize),
    delta: i32,
    synced: Pane,
    unsynced: Pane,
)
    requires
        synced.interaction.synchronized,
        synced.id != origin,
        !unsynced.interaction.synchronized,
    ensures
        synced.spec_update_sync(origin, SyncOperation::Scroll(delta)) == (Pane {
            interaction: InteractionState {
                scroll_delta: Some((-delta * FP_ONE) as i64),
                ..synced.interaction
            },
            ..synced
        }).spec_update(),
        unsynced.spec_update_sync(origin, SyncOperation::Scroll(delta))
            == unsynced.spec_update(),
{
}

} // verus!
