//! A view: a rectangle tiled into panes, bound to one remote media and data
//! stream slot.

use crate::geom::cell_side;
use crate::geom::grid_cell;
use crate::geom::LayoutRect;
use crate::geom::ViewportSize;
use crate::input::InputEvent;
use crate::input::KeyAction;
use crate::input::EVENT_COORD_MAX;
use crate::interaction::SyncOperation;
use crate::message::case_eq;
use crate::message::duplicate_case;
use crate::message::CaseMeta;
use crate::message::ClientConfig;
use crate::message::PaneState;
use crate::message::RenderState;
use crate::pane::Pane;
use crate::schedule::spec_bitrate;
use crate::schedule::spec_scaling;
use crate::schedule::Schedule;
use crate::time::elapsed_millis;
use crate::time::instant_now;
use crate::view_state::ViewState;
use vstd::prelude::*;
use vstd::view::View as _;

verus! {

/// What the frame size filter reads of a decoded frame: its pixel size. The frame
/// itself stays with the media collaborator.
#[derive(Debug, Clone, Copy, PartialEq, Eq, Structural)]
pub struct SampleMeta {
    pub width: u32,
    pub height: u32,
}

/// The name of the data channel bound to view slot `video_id`; relied on to
/// be a function of the slot index alone.
pub uninterp spec fn spec_data_label(video_id: int) -> Seq<char>;

/// The connection identity of view slot `video_id`; a function of the slot
/// index alone.
pub uninterp spec fn spec_client_label(video_id: int) -> Seq<char>;

/// Relies on `format!`: renders the slot index into the channel label text.
#[verifier::external_body]
fn data_label(video_id: usize) -> (r: String)
    ensures
        r@ == spec_data_label(video_id as int),
{
    format!("video{}-data", video_id)
}

/// Relies on `format!`: renders the slot index into the client identity.
#[verifier::external_body]
fn client_label(video_id: usize) -> (r: String)
    ensures
        r@ == spec_client_label(video_id as int),
{
    format!("NativeClient_{}", video_id)
}

/// The expected pixel area of an incoming frame: the view rectangle scaled
/// down by `scaling` percent in each dimension.
pub open spec fn spec_expected_area(layout: LayoutRect, scaling: int) -> int {
    (layout.width * layout.height) * (scaling * scaling) / 10000
}

/// The frame size filter: while the view is dirty (it expects a resolution change)
/// a frame is accepted only when its area is within 10% of the expected
/// area; otherwise every frame is accepted.
pub open spec fn spec_accept_sample(
    layout: LayoutRect,
    scaling: int,
    dirty: bool,
    sample: SampleMeta,
) -> bool {
    if dirty {
        let expected = spec_expected_area(layout, scaling);
        let area = sample.width * sample.height;
        10 * abs_diff(expected, area) < expected
    } else {
        true
    }
}

pub open spec fn abs_diff(a: int, b: int) -> int {
    if a >= b {
        a - b
    } else {
        b - a
    }
}

/// The bitrate multiplier after a `direction`-tenths adjustment: clamped to
/// at least one tenth, at most the representable maximum.
pub open spec fn spec_adjusted_scale(scale: int, direction: int) -> int {
    let t = scale + direction;
    if t > u32::MAX as int {
        u32::MAX as int
    } else if t < 1 {
        1
    } else {
        t
    }
}

/// The panes of `b` are those of `a` after the (already view-local) event
/// reached the focused pane: that pane changed by the pane event law, every
/// other pane untouched; with no pane focus, nothing changed.
pub open spec fn spec_panes_after_event(a: View, b: View, event: InputEvent) -> bool {
    match a.focus {
        Some(i) => {
            &&& b.panes@.len() == a.panes@.len()
            &&& crate::pane::spec_event_outcome(a.panes@[i as int], b.panes@[i as int], event)
            &&& forall|j: int|
                0 <= j < a.panes@.len() && j != i ==> b.panes@[j] == a.panes@[j]
        },
        None => b.panes@ == a.panes@,
    }
}

/// What one window event leaves of a view: cursor moves re-resolve the pane
/// focus and reach the newly focused pane translated; the bitrate keys
/// adjust the multiplier here; every other event reaches the focused pane
/// unchanged. Nothing else of the view moves.
pub open spec fn spec_view_event_outcome(a: View, b: View, event: InputEvent) -> bool {
    match event {
        InputEvent::CursorMoved { x, y } => {
            let position = ((x - a.layout.x) as i64, (y - a.layout.y) as i64);
            let translated = InputEvent::CursorMoved { x: position.0, y: position.1 };
            let focus = spec_focus_index(a.panes@, position);
            &&& b.focus == focus
            &&& spec_panes_after_event(View { focus, ..a }, b, translated)
            &&& b == (View { focus, panes: b.panes, ..a })
        },
        InputEvent::Key(KeyAction::BitrateUp) => {
            &&& b.bitrate_scale as int == spec_adjusted_scale(a.bitrate_scale as int, 1)
            &&& b == (View { bitrate_scale: b.bitrate_scale, ..a })
        },
        InputEvent::Key(KeyAction::BitrateDown) => {
            &&& b.bitrate_scale as int == spec_adjusted_scale(a.bitrate_scale as int, -1)
            &&& b == (View { bitrate_scale: b.bitrate_scale, ..a })
        },
        _ => {
            &&& spec_panes_after_event(a, b, event)
            &&& b == (View { panes: b.panes, ..a })
        },
    }
}

/// Every collected sync operation names one of the given panes as its
/// origin.
pub open spec fn spec_ops_from_panes(
    ops: Seq<((usize, usize), SyncOperation)>,
    panes: Seq<Pane>,
) -> bool {
    forall|t: int|
        0 <= t < ops.len() ==> exists|j: int|
            0 <= j < panes.len() && (#[trigger] ops[t]).0 == panes[j].id
}

/// Every pane of `b` is the matching pane of `a` freshly bound to `case`
/// (interaction reset, frame 0, dirty); nothing else of the view moves.
pub open spec fn spec_view_case_bound(a: View, b: View, case: Option<CaseMeta>) -> bool {
    &&& b.panes@.len() == a.panes@.len()
    &&& forall|k: int|
        0 <= k < b.panes@.len() ==> crate::pane::spec_case_bound(
            a.panes@[k],
            #[trigger] b.panes@[k],
            case,
        )
    &&& b == (View { panes: b.panes, ..a })
}

/// The view has something to send: it, or one of its panes, is dirty.
pub open spec fn spec_view_dirty_any(v: View) -> bool {
    v.dirty || exists|j: int| 0 <= j < v.panes@.len() && (#[trigger] v.panes@[j]).dirty
}

/// `m` is the outgoing message of view `v`: its sequence number, rectangle
/// and rate settings, with one snapshot per pane in order.
pub open spec fn spec_pushed_message(v: View, m: RenderState) -> bool {
    &&& m.seq == v.seq
    &&& m.layout == v.layout
    &&& m.bitrate == v.spec_bitrate_value()
    &&& m.scaling == v.video_scaling
    &&& !m.snapshot
    &&& m.panes@.len() == v.panes@.len()
    &&& forall|j: int|
        0 <= j < m.panes@.len() ==> (#[trigger] m.panes@[j]).view_state
            == v.panes@[j].interaction.viewstate && m.panes@[j].layout == v.panes@[j].layout
}

/// `b` is `a` after one push attempt: a dirty view advances its sequence
/// number and comes out with every pane clean; a clean view is untouched.
pub open spec fn spec_view_pushed(a: View, b: View) -> bool {
    if spec_view_dirty_any(a) {
        &&& b.seq as int == (if a.seq < u64::MAX {
            a.seq + 1
        } else {
            a.seq as int
        })
        &&& b.panes@.len() == a.panes@.len()
        &&& forall|j: int|
            0 <= j < b.panes@.len() ==> b.panes@[j] == (Pane { dirty: false, ..a.panes@[j] })
        &&& b == (View { seq: b.seq, panes: b.panes, ..a })
    } else {
        b == a
    }
}

/// Whether a view reports a window event as handled: a cursor move is
/// handled when it lands in a pane, the bitrate keys always, anything else
/// when the focused pane handles it.
pub open spec fn spec_view_event_handled(a: View, event: InputEvent) -> bool {
    match event {
        InputEvent::CursorMoved { x, y } => spec_focus_index(
            a.panes@,
            ((x - a.layout.x) as i64, (y - a.layout.y) as i64),
        ) is Some,
        InputEvent::Key(KeyAction::BitrateUp) => true,
        InputEvent::Key(KeyAction::BitrateDown) => true,
        _ => match a.focus {
            Some(i) => a.panes@[i as int].spec_handle_window_event(event).1,
            None => false,
        },
    }
}

/// One logical remote stream slot: its rectangle, its panes, its data
/// channel binding and its rate settings.
#[derive(Debug)]
pub struct View {
    pub video_id: usize,
    pub data_id: String,
    pub gpu: bool,
    pub preset: String,
    pub lossless: bool,
    /// Downscale factor, percent; re-derived from the schedule on resize.
    pub video_scaling: u32,
    pub fullrange: bool,
    /// Bitrate multiplier, tenths; adjusted in steps of one tenth, at least
    /// one tenth.
    pub bitrate_scale: u32,
    pub dirty: bool,
    pub layout: LayoutRect,
    pub current_sample: Option<SampleMeta>,
    /// Whether a data channel with the matching label has been bound.
    pub channel_bound: bool,
    pub panes: Vec<Pane>,
    pub focus: Option<usize>,
    pub seq: u64,
    pub timer: std::time::Instant,
    pub schedule: Schedule,
    /// The pane grid this view was last partitioned into.
    pub pane_grid: (usize, usize),
}

/// The first pane of `panes` containing `position`, in order.
pub open spec fn spec_focus_index(panes: Seq<Pane>, position: (i64, i64)) -> Option<usize>
    decreases panes.len(),
{
    if panes.len() == 0 {
        None
    } else if panes[0].layout.spec_contains(position) {
        Some(0usize)
    } else {
        match spec_focus_index(panes.skip(1), position) {
            Some(i) => Some((i + 1) as usize),
            None => None,
        }
    }
}

impl View {
    /// Machine-limit invariant: every pane is well-formed, the focus is in
    /// range, and the pane grid is a real partition.
    pub open spec fn wf(self) -> bool {
        &&& forall|i: int| 0 <= i < self.panes@.len() ==> (#[trigger] self.panes@[i]).wf()
        &&& match self.focus {
            Some(i) => i < self.panes@.len(),
            None => true,
        }
        &&& self.pane_grid.0 >= 1
        &&& self.pane_grid.1 >= 1
        &&& self.pane_grid.0 * self.pane_grid.1 <= usize::MAX
    }

    /// A fresh view for stream slot `video_id`: one default pane, no sample,
    /// no channel, the given quality settings.
    pub fn new(
        video_id: usize,
        layout: LayoutRect,
        bitrate_scale: u32,
        gpu: bool,
        preset: String,
        lossless: bool,
        video_scaling: u32,
        fullrange: bool,
        schedule: Schedule,
    ) -> (r: View)
        ensures
            r.wf(),
            r.video_id == video_id,
            r.data_id@ == spec_data_label(video_id as int),
            r.gpu == gpu,
            r.preset@ == preset@,
            r.lossless == lossless,
            r.video_scaling == video_scaling,
            r.fullrange == fullrange,
            r.bitrate_scale == bitrate_scale,
            !r.dirty,
            r.layout == layout,
            r.current_sample is None,
            !r.channel_bound,
            r.panes@.len() == 1,
            r.panes@[0] == Pane::spec_default(),
            r.focus is None,
            r.seq == 0,
            r.schedule == schedule,
            r.pane_grid == (1usize, 1usize),
    {
        let data_id = data_label(video_id);
        let mut panes: Vec<Pane> = Vec::new();
        panes.push(Pane::default());
        View {
            video_id,
            data_id,
            gpu,
            preset,
            lossless,
            video_scaling,
            fullrange,
            layout,
            current_sample: None,
            channel_bound: false,
            bitrate_scale,
            dirty: false,
            panes,
            focus: None,
            seq: 0,
            timer: instant_now(),
            schedule,
            pane_grid: (1, 1),
        }
    }

    pub fn video_id(&self) -> (r: usize)
        ensures
            r == self.video_id,
    {
        self.video_id
    }

    pub fn data_id(&self) -> (r: &String)
        ensures
            r@ == self.data_id@,
    {
        &self.data_id
    }

    /// Bind a data channel by its label: rejected when one is already bound
    /// or the label does not match this view's channel name; on success
    /// every pane is invalidated so the next tick resends the full state.
    pub fn set_datachannel(&mut self, label: &String) -> (r: bool)
        requires
            old(self).wf(),
        ensures
            final(self).wf(),
            r == (!old(self).channel_bound && label@ == old(self).data_id@),
            !r ==> *final(self) == *old(self),
            r ==> final(self).channel_bound,
            r ==> final(self).panes@.len() == old(self).panes@.len(),
            r ==> forall|i: int|
                0 <= i < final(self).panes@.len() ==> final(self).panes@[i] == (Pane {
                    dirty: true,
                    ..old(self).panes@[i]
                }),
            r ==> *final(self) == (View {
                channel_bound: true,
                panes: final(self).panes,
                ..*old(self)
            }),
    {
        if self.channel_bound {
            return false;
        }
        if !self.data_id.eq(label) {
            return false;
        }
        self.channel_bound = true;
        let n = self.panes.len();
        let mut i: usize = 0;
        while i < n
            invariant
                i <= n,
                n == self.panes@.len(),
                forall|j: int| 0 <= j < n ==> (#[trigger] self.panes@[j]).wf(),
                forall|j: int|
                    0 <= j < i ==> self.panes@[j] == (Pane { dirty: true, ..old(self).panes@[j] }),
                forall|j: int| i <= j < n ==> self.panes@[j] == old(self).panes@[j],
                *self == (View { channel_bound: true, panes: self.panes, ..*old(self) }),
            decreases n - i,
        {
            let p = &mut self.panes[i];
            p.invalidate();
            i = i + 1;
        }
        true
    }

    /// The frame size filter (see `spec_accept_sample`).
    pub fn accept_sample(&self, sample: &SampleMeta) -> (r: bool)
        ensures
            r == spec_accept_sample(self.layout, self.video_scaling as int, self.dirty, *sample),
    {
        if self.dirty {
            proof {
                vstd::arithmetic::mul::lemma_mul_nonnegative(
                    self.layout.width as int,
                    self.layout.height as int,
                );
                vstd::arithmetic::mul::lemma_mul_upper_bound(
                    self.layout.width as int,
                    u32::MAX as int,
                    self.layout.height as int,
                    u32::MAX as int,
                );
                vstd::arithmetic::mul::lemma_mul_nonnegative(
                    self.video_scaling as int,
                    self.video_scaling as int,
                );
                vstd::arithmetic::mul::lemma_mul_upper_bound(
                    self.video_scaling as int,
                    u32::MAX as int,
                    self.video_scaling as int,
                    u32::MAX as int,
                );
                vstd::arithmetic::mul::lemma_mul_nonnegative(
                    (self.layout.width * self.layout.height) as int,
                    (self.video_scaling * self.video_scaling) as int,
                );
                vstd::arithmetic::mul::lemma_mul_upper_bound(
                    (self.layout.width * self.layout.height) as int,
                    u32::MAX as int * u32::MAX as int,
                    (self.video_scaling * self.video_scaling) as int,
                    u32::MAX as int * u32::MAX as int,
                );
                vstd::arithmetic::div_mod::lemma_div_pos_is_pos(
                    (self.layout.width * self.layout.height) as int * (self.video_scaling
                        * self.video_scaling) as int,
                    10000,
                );
                vstd::arithmetic::mul::lemma_mul_nonnegative(
                    sample.width as int,
                    sample.height as int,
                );
                vstd::arithmetic::mul::lemma_mul_upper_bound(
                    sample.width as int,
                    u32::MAX as int,
                    sample.height as int,
                    u32::MAX as int,
                );
            }
            let lw: u128 = self.layout.width as u128;
            let lh: u128 = self.layout.height as u128;
            let p: u128 = self.video_scaling as u128;
            let expected: u128 = (lw * lh) * (p * p) / 10000;
            let area: u128 = (sample.width as u128) * (sample.height as u128);
            let diff: u128 = if expected >= area {
                expected - area
            } else {
                area - expected
            };
            proof {
                vstd::arithmetic::div_mod::lemma_div_is_ordered(
                    (self.layout.width * self.layout.height) as int * (self.video_scaling
                        * self.video_scaling) as int,
                    u32::MAX as int * u32::MAX as int * (u32::MAX as int * u32::MAX as int),
                    10000,
                );
            }
            10 * diff < expected
        } else {
            true
        }
    }

    /// Offer a frame to the view: a frame within the size tolerance
    /// replaces the buffered one (only the newest frame is ever kept) and
    /// clears the dirty expectation; any other frame changes nothing.
    pub fn push_sample(&mut self, sample: SampleMeta) -> (accepted: bool)
        requires
            old(self).wf(),
        ensures
            final(self).wf(),
            accepted == spec_accept_sample(
                old(self).layout,
                old(self).video_scaling as int,
                old(self).dirty,
                sample,
            ),
            accepted ==> *final(self) == (View {
                current_sample: Some(sample),
                dirty: false,
                ..*old(self)
            }),
            !accepted ==> *final(self) == *old(self),
    {
        if self.accept_sample(&sample) {
            self.current_sample = Some(sample);
            self.dirty = false;
            true
        } else {
            false
        }
    }

    pub fn get_current_sample(&self) -> (r: Option<SampleMeta>)
        ensures
            r == self.current_sample,
    {
        self.current_sample
    }

    pub fn get_layout(&self) -> (r: LayoutRect)
        ensures
            r == self.layout,
    {
        self.layout
    }

    /// Move the view to a new rectangle: re-derive the downscale factor from
    /// the schedule, drop the now stale frame, mark the resolution change
    /// expected, and re-tile the panes to the new rectangle.
    pub fn set_layout(&mut self, layout: LayoutRect)
        requires
            old(self).wf(),
        ensures
            final(self).wf(),
            final(self).layout == layout,
            final(self).video_scaling == spec_scaling(
                old(self).schedule,
                (layout.width, layout.height),
            ),
            final(self).current_sample is None,
            final(self).dirty,
            final(self).pane_grid == old(self).pane_grid,
            final(self).panes@.len() == old(self).panes@.len(),
            forall|j: int|
                0 <= j < final(self).panes@.len() ==> (#[trigger] final(self).panes@[j]).interaction
                    == old(self).panes@[j].interaction && final(self).panes@[j].case == old(
                    self,
                ).panes@[j].case,
            *final(self) == (View {
                layout,
                video_scaling: final(self).video_scaling,
                current_sample: None,
                dirty: true,
                panes: final(self).panes,
                ..*old(self)
            }),
    {
        self.layout = layout;
        self.video_scaling = self.schedule.scaling((self.layout.width, self.layout.height));
        self.current_sample = None;
        self.dirty = true;
        let rows = self.pane_grid.0;
        let columns = self.pane_grid.1;
        self.retile(rows, columns);
    }

    /// Re-tile the existing panes into a `rows x columns` grid of the
    /// current rectangle, assigning each its cell and its slot identity.
    fn retile(&mut self, rows: usize, columns: usize)
        requires
            old(self).wf(),
            rows >= 1,
            columns >= 1,
            rows * columns <= usize::MAX,
        ensures
            final(self).wf(),
            final(self).panes@.len() == old(self).panes@.len(),
            forall|j: int|
                0 <= j < final(self).panes@.len() ==> (#[trigger] final(self).panes@[j]).interaction
                    == old(self).panes@[j].interaction && final(self).panes@[j].case == old(
                    self,
                ).panes@[j].case,
            *final(self) == (View { panes: final(self).panes, ..*old(self) }),
    {
        let layouts = crate::geom::tile((self.layout.width, self.layout.height), rows, columns);
        let n = self.panes.len();
        let m = layouts.len();
        let count = if n < m {
            n
        } else {
            m
        };
        let vid = self.video_id;
        let mut i: usize = 0;
        while i < count
            invariant
                i <= count,
                count <= n,
                count <= m,
                n == self.panes@.len(),
                m == layouts@.len(),
                vid == self.video_id,
                forall|j: int| 0 <= j < n ==> (#[trigger] self.panes@[j]).wf(),
                forall|j: int|
                    0 <= j < i ==> (#[trigger] self.panes@[j]) == (Pane {
                        layout: layouts@[j],
                        id: (vid, j as usize),
                        dirty: true,
                        ..old(self).panes@[j]
                    }),
                forall|j: int| i <= j < n ==> self.panes@[j] == old(self).panes@[j],
                self.focus == old(self).focus,
                match self.focus {
                    Some(f) => f < n,
                    None => true,
                },
                *self == (View { panes: self.panes, ..*old(self) }),
            decreases count - i,
        {
            let rect = layouts[i];
            let p = &mut self.panes[i];
            p.set_layout(rect);
            p.set_id((vid, i));
            i = i + 1;
        }
    }

    /// Resize the pane vector to `rows * columns` panes (growing with
    /// default panes, shrinking by dropping trailing ones) and tile them
    /// into the view rectangle. Surviving panes keep their interaction
    /// state and case.
    pub fn partition(&mut self, rows: usize, columns: usize)
        requires
            old(self).wf(),
            rows >= 1,
            columns >= 1,
            rows * columns <= usize::MAX,
        ensures
            final(self).wf(),
            final(self).panes@.len() == rows * columns,
            final(self).pane_grid == (rows, columns),
            final(self).focus == old(self).focus || final(self).focus is None,
            forall|j: int|
                0 <= j < final(self).panes@.len() ==> (#[trigger] final(self).panes@[j]).interaction
                    == if j < old(self).panes@.len() {
                    old(self).panes@[j].interaction
                } else {
                    crate::interaction::InteractionState::spec_new()
                },
            forall|j: int|
                0 <= j < final(self).panes@.len() ==> case_eq(
                    (#[trigger] final(self).panes@[j]).case,
                    if j < old(self).panes@.len() {
                        old(self).panes@[j].case
                    } else {
                        None
                    },
                ),
            forall|j: int|
                0 <= j < final(self).panes@.len() ==> (#[trigger] final(self).panes@[j]).dirty,
            forall|j: int|
                0 <= j < final(self).panes@.len() ==> (#[trigger] final(self).panes@[j]).id == (
                    old(self).video_id,
                    j as usize,
                ) && final(self).panes@[j].layout == grid_cell(
                    j,
                    columns as int,
                    cell_side(old(self).layout.width as int, columns as int),
                    cell_side(old(self).layout.height as int, rows as int),
                ),
            *final(self) == (View {
                panes: final(self).panes,
                focus: final(self).focus,
                pane_grid: (rows, columns),
                ..*old(self)
            }),
    {
        let target = rows * columns;
        proof {
            assert(old(self).panes@.take(old(self).panes@.len() as int) =~= old(self).panes@);
        }
        while self.panes.len() > target
            invariant
                self.panes@.len() <= old(self).panes@.len(),
                self.panes@ == old(self).panes@.take(self.panes@.len() as int),
                self.panes@.len() >= target || self.panes@.len() == old(self).panes@.len(),
                *self == (View { panes: self.panes, ..*old(self) }),
            decreases self.panes@.len(),
        {
            let ghost len = self.panes@.len() as int;
            self.panes.pop();
            proof {
                assert(self.panes@ =~= old(self).panes@.take(len - 1));
            }
        }
        proof {
            assert(forall|j: int|
                0 <= j < self.panes@.len() ==> (#[trigger] self.panes@[j]) == old(self).panes@[j]);
        }
        while self.panes.len() < target
            invariant
                self.panes@.len() <= target,
                self.panes@.len() >= old(self).panes@.len() || self.panes@.len() >= target,
                forall|j: int|
                    0 <= j < self.panes@.len() ==> (#[trigger] self.panes@[j]) == (if j < old(
                        self,
                    ).panes@.len() {
                        old(self).panes@[j]
                    } else {
                        Pane::spec_default()
                    }),
                *self == (View { panes: self.panes, ..*old(self) }),
            decreases target - self.panes@.len(),
        {
            self.panes.push(Pane::default());
        }
        proof {
            assert(self.panes@.len() == target);
        }
        if let Some(f) = self.focus {
            if f >= target {
                self.focus = None;
            }
        }
        self.pane_grid = (rows, columns);
        self.retile_with_ids(rows, columns);
    }

    /// Tile all panes into the grid, with full pointwise layout and identity
    /// contracts.
    fn retile_with_ids(&mut self, rows: usize, columns: usize)
        requires
            old(self).wf(),
            rows >= 1,
            columns >= 1,
            rows * columns <= usize::MAX,
            old(self).panes@.len() == rows * columns,
        ensures
            final(self).wf(),
            final(self).panes@.len() == old(self).panes@.len(),
            forall|j: int|
                0 <= j < final(self).panes@.len() ==> final(self).panes@[j] == (Pane {
                    layout: grid_cell(
                        j,
                        columns as int,
                        cell_side(old(self).layout.width as int, columns as int),
                        cell_side(old(self).layout.height as int, rows as int),
                    ),
                    id: (old(self).video_id, j as usize),
                    dirty: true,
                    ..old(self).panes@[j]
                }),
            *final(self) == (View { panes: final(self).panes, ..*old(self) }),
    {
        let layouts = crate::geom::tile((self.layout.width, self.layout.height), rows, columns);
        let n = self.panes.len();
        let vid = self.video_id;
        let mut i: usize = 0;
        while i < n
            invariant
                i <= n,
                n == self.panes@.len(),
                n == layouts@.len(),
                vid == self.video_id,
                forall|j: int|
                    0 <= j < layouts@.len() ==> layouts@[j] == grid_cell(
                        j,
                        columns as int,
                        cell_side(old(self).layout.width as int, columns as int),
                        cell_side(old(self).layout.height as int, rows as int),
                    ),
                forall|j: int| 0 <= j < n ==> (#[trigger] self.panes@[j]).wf(),
                forall|j: int|
                    0 <= j < i ==> self.panes@[j] == (Pane {
                        layout: layouts@[j],
                        id: (vid, j as usize),
                        dirty: true,
                        ..old(self).panes@[j]
                    }),
                forall|j: int| i <= j < n ==> self.panes@[j] == old(self).panes@[j],
                self.layout == old(self).layout,
                *self == (View { panes: self.panes, ..*old(self) }),
            decreases n - i,
        {
            let rect = layouts[i];
            let p = &mut self.panes[i];
            p.set_layout(rect);
            p.set_id((vid, i));
            i = i + 1;
        }
    }

    /// The view with its pane focus dropped.
    pub open spec fn spec_unfocused(self) -> View {
        View { focus: None, ..self }
    }

    /// Drop the pane focus.
    pub fn clear_focus_pane(&mut self)
        ensures
            *final(self) == old(self).spec_unfocused(),
            old(self).wf() ==> final(self).wf(),
    {
        self.focus = None;
    }

    pub fn contains(&self, position: (i64, i64)) -> (r: bool)
        ensures
            r == self.layout.spec_contains(position),
    {
        self.layout.contains(position)
    }

    /// Focus the first pane containing the (view-local) position, or none.
    fn handle_focus(&mut self, position: (i64, i64))
        requires
            old(self).wf(),
        ensures
            final(self).wf(),
            *final(self) == (View {
                focus: spec_focus_index(old(self).panes@, position),
                ..*old(self)
            }),
    {
        self.focus = None;
        let n = self.panes.len();
        let mut i: usize = 0;
        while i < n
            invariant
                i <= n,
                n == self.panes@.len(),
                old(self).wf(),
                forall|j: int| 0 <= j < i ==> !(#[trigger] self.panes@[j]).layout.spec_contains(
                    position,
                ),
                self.focus is None,
                *self == (View { focus: None, ..*old(self) }),
            decreases n - i,
        {
            let contained = self.panes[i].contains(position);
            if contained {
                self.focus = Some(i);
                proof {
                    lemma_focus_index_found(old(self).panes@, position, i as int);
                }
                return ;
            }
            i = i + 1;
        }
        proof {
            lemma_focus_index_none(old(self).panes@, position);
        }
    }

    fn clear_focus(&mut self)
        ensures
            *final(self) == (View { focus: None, ..*old(self) }),
            old(self).wf() ==> final(self).wf(),
    {
        self.focus = None;
    }

    /// Route a window event: cursor moves re-resolve the pane focus and are
    /// forwarded translated into this view's frame; the bitrate keys act
    /// here; everything else goes to the focused pane.
    pub fn handle_window_event(&mut self, event: &InputEvent) -> (handled: bool)
        requires
            old(self).wf(),
            event.coords_within(2 * EVENT_COORD_MAX as int),
        ensures
            final(self).wf(),
            final(self).panes@.len() == old(self).panes@.len(),
            spec_view_event_outcome(*old(self), *final(self), *event),
            handled == spec_view_event_handled(*old(self), *event),
    {
        match event {
            InputEvent::CursorMoved { x, y } => {
                let translated = InputEvent::CursorMoved {
                    x: *x - self.layout.x as i64,
                    y: *y - self.layout.y as i64,
                };
                match translated {
                    InputEvent::CursorMoved { x: tx, y: ty } => {
                        self.handle_focus((tx, ty));
                    },
                    _ => {},
                }
                self.handle_translated_event(&translated)
            },
            InputEvent::Key(KeyAction::BitrateUp) => {
                self.adjust_bitrate_scaling(1);
                true
            },
            InputEvent::Key(KeyAction::BitrateDown) => {
                self.adjust_bitrate_scaling(-1);
                true
            },
            _ => self.handle_translated_event(event),
        }
    }

    /// Forward an already view-local event to the focused pane.
    fn handle_translated_event(&mut self, event: &InputEvent) -> (handled: bool)
        requires
            old(self).wf(),
            event.coords_within(3 * EVENT_COORD_MAX as int),
        ensures
            final(self).wf(),
            final(self).panes@.len() == old(self).panes@.len(),
            spec_panes_after_event(*old(self), *final(self), *event),
            *final(self) == (View { panes: final(self).panes, ..*old(self) }),
            handled == (match old(self).focus {
                Some(i) => old(self).panes@[i as int].spec_handle_window_event(*event).1,
                None => false,
            }),
    {
        match self.focus {
            Some(idx) => {
                let p = &mut self.panes[idx];
                p.handle_window_event(event)
            },
            None => false,
        }
    }

    /// The cursor is hidden exactly while the focused pane's derived mode is
    /// `Pan`.
    pub fn hide_cursor(&self) -> (r: bool)
        requires
            self.wf(),
        ensures
            r == match self.focus {
                Some(i) => self.panes@[i as int].interaction.derived_mode() == Some(
                    crate::interaction::InteractionMode::Pan,
                ),
                None => false,
            },
    {
        match self.focus {
            Some(idx) => self.panes[idx].hide_cursor(),
            None => false,
        }
    }

    /// Run one update step on every pane; pane-level sync requests are
    /// dropped here (the orchestrator collects them through the focused
    /// path or the timer path).
    pub fn update(&mut self)
        requires
            old(self).wf(),
        ensures
            final(self).wf(),
            final(self).panes@.len() == old(self).panes@.len(),
            forall|j: int|
                0 <= j < final(self).panes@.len() ==> final(self).panes@[j] == old(
                    self,
                ).panes@[j].spec_update().0,
            *final(self) == (View { panes: final(self).panes, ..*old(self) }),
    {
        let n = self.panes.len();
        let mut i: usize = 0;
        while i < n
            invariant
                i <= n,
                n == self.panes@.len(),
                forall|j: int| 0 <= j < n ==> (#[trigger] self.panes@[j]).wf(),
                forall|j: int| 0 <= j < i ==> self.panes@[j] == old(self).panes@[j].spec_update().0,
                forall|j: int| i <= j < n ==> self.panes@[j] == old(self).panes@[j],
                *self == (View { panes: self.panes, ..*old(self) }),
            decreases n - i,
        {
            let p = &mut self.panes[i];
            p.update();
            i = i + 1;
        }
    }

    /// Apply a propagated sync operation to every pane (each one decides by
    /// its own synchronized flag and identity), then run its normal update.
    pub fn update_sync(&mut self, sync: &((usize, usize), SyncOperation))
        requires
            old(self).wf(),
        ensures
            final(self).wf(),
            final(self).panes@.len() == old(self).panes@.len(),
            forall|j: int|
                0 <= j < final(self).panes@.len() ==> final(self).panes@[j] == old(
                    self,
                ).panes@[j].spec_update_sync(sync.0, sync.1).0,
            *final(self) == (View { panes: final(self).panes, ..*old(self) }),
    {
        let n = self.panes.len();
        let mut i: usize = 0;
        while i < n
            invariant
                i <= n,
                n == self.panes@.len(),
                forall|j: int| 0 <= j < n ==> (#[trigger] self.panes@[j]).wf(),
                forall|j: int|
                    0 <= j < i ==> self.panes@[j] == old(self).panes@[j].spec_update_sync(
                        sync.0,
                        sync.1,
                    ).0,
                forall|j: int| i <= j < n ==> self.panes@[j] == old(self).panes@[j],
                *self == (View { panes: self.panes, ..*old(self) }),
            decreases n - i,
        {
            let p = &mut self.panes[i];
            p.update_sync(sync);
            i = i + 1;
        }
    }

    /// Milliseconds of the view clock, wrapped at one second.
    pub fn get_timestamp(&self) -> (r: u32)
        ensures
            r < 1000,
    {
        let ms = elapsed_millis(&self.timer);
        proof {
            vstd::arithmetic::div_mod::lemma_mod_bound(ms as int, 1000);
        }
        (ms % 1000) as u32
    }

    /// The rate to request: the lossless sentinel 0, or the schedule's rate
    /// scaled by the bitrate multiplier, saturated at `u64`.
    pub fn get_bitrate(&self) -> (r: u64)
        ensures
            r == self.spec_bitrate_value(),
    {
        if self.lossless {
            return 0;
        }
        let base: u64 = self.schedule.bitrate((self.layout.width, self.layout.height));
        proof {
            vstd::arithmetic::mul::lemma_mul_nonnegative(base as int, self.bitrate_scale as int);
            vstd::arithmetic::mul::lemma_mul_upper_bound(
                base as int,
                u64::MAX as int,
                self.bitrate_scale as int,
                u32::MAX as int,
            );
            vstd::arithmetic::div_mod::lemma_div_pos_is_pos(
                base as int * self.bitrate_scale as int,
                10,
            );
        }
        let wide: u128 = (base as u128) * (self.bitrate_scale as u128) / 10;
        if wide > u64::MAX as u128 {
            u64::MAX
        } else if wide < 1 {
            1
        } else {
            wide as u64
        }
    }

    /// The requested rate: 0 when lossless, else the schedule rate times the
    /// scale in tenths, saturated above and floored at 1 so that a tiny
    /// region can never truncate onto the lossless sentinel.
    pub open spec fn spec_bitrate_value(self) -> int {
        if self.lossless {
            0
        } else {
            let scaled = spec_bitrate(self.schedule, (self.layout.width, self.layout.height))
                * self.bitrate_scale / 10;
            if scaled > u64::MAX {
                u64::MAX as int
            } else if scaled < 1 {
                1
            } else {
                scaled
            }
        }
    }

    /// The connection-request payload for this view.
    pub fn get_client_config(&self) -> (r: ClientConfig)
        ensures
            r.id@ == spec_client_label(self.video_id as int),
            r.viewport == (ViewportSize {
                width: self.layout.width,
                height: self.layout.height,
            }),
            r.bitrate == self.spec_bitrate_value(),
            r.gpu == self.gpu,
            r.preset@ == self.preset@,
            r.lossless == self.lossless,
            r.video_scaling == self.video_scaling,
            r.fullrange == self.fullrange,
    {
        ClientConfig {
            id: client_label(self.video_id),
            viewport: ViewportSize { width: self.layout.width, height: self.layout.height },
            bitrate: self.get_bitrate(),
            gpu: self.gpu,
            preset: self.preset.clone(),
            lossless: self.lossless,
            video_scaling: self.video_scaling,
            fullrange: self.fullrange,
        }
    }

    /// When any pane is dirty (or the view itself is), take every pane's
    /// snapshot into one `RenderState` carrying the next sequence number,
    /// and advance the sequence; otherwise produce nothing. The caller
    /// transmits the message over the data channel (a no-op send when the
    /// channel is not open).
    pub fn push_state(&mut self) -> (r: Option<RenderState>)
        requires
            old(self).wf(),
        ensures
            final(self).wf(),
            r is Some <==> spec_view_dirty_any(*old(self)),
            r is None ==> *final(self) == *old(self),
            spec_view_pushed(*old(self), *final(self)),
            r is Some ==> spec_pushed_message(*old(self), r->0),
    {
        let n = self.panes.len();
        let mut any_dirty = self.dirty;
        let mut i: usize = 0;
        while i < n
            invariant
                i <= n,
                n == self.panes@.len(),
                *self == *old(self),
                any_dirty == (old(self).dirty || exists|j: int|
                    0 <= j < i && (#[trigger] old(self).panes@[j]).dirty),
            decreases n - i,
        {
            if self.panes[i].dirty {
                any_dirty = true;
            }
            i = i + 1;
        }
        if !any_dirty {
            return None;
        }
        let mut pane_states: Vec<PaneState> = Vec::new();
        let mut i: usize = 0;
        while i < n
            invariant
                i <= n,
                n == self.panes@.len(),
                pane_states@.len() == i,
                forall|j: int| 0 <= j < n ==> (#[trigger] self.panes@[j]).wf(),
                forall|j: int|
                    0 <= j < i ==> self.panes@[j] == (Pane { dirty: false, ..old(self).panes@[j] }),
                forall|j: int| i <= j < n ==> self.panes@[j] == old(self).panes@[j],
                forall|j: int|
                    0 <= j < i ==> (#[trigger] pane_states@[j]).view_state == old(
                        self,
                    ).panes@[j].interaction.viewstate && pane_states@[j].layout == old(
                        self,
                    ).panes@[j].layout,
                *self == (View { panes: self.panes, ..*old(self) }),
            decreases n - i,
        {
            let p = &mut self.panes[i];
            let st = p.get_state();
            pane_states.push(st);
            i = i + 1;
        }
        let timestamp = self.get_timestamp();
        let bitrate = self.get_bitrate();
        let state = RenderState {
            layout: self.layout,
            seq: self.seq,
            panes: pane_states,
            snapshot: false,
            timestamp,
            bitrate,
            scaling: self.video_scaling,
        };
        if self.seq < u64::MAX {
            self.seq = self.seq + 1;
        }
        Some(state)
    }

    /// Bind every pane to (a copy of) the case.
    pub fn set_case(&mut self, case: Option<CaseMeta>)
        requires
            old(self).wf(),
            match case {
                Some(c) => c.wf(),
                None => true,
            },
        ensures
            final(self).wf(),
            final(self).panes@.len() == old(self).panes@.len(),
            forall|j: int|
                0 <= j < final(self).panes@.len() ==> crate::pane::spec_case_bound(
                    old(self).panes@[j],
                    #[trigger] final(self).panes@[j],
                    case,
                ),
            *final(self) == (View { panes: final(self).panes, ..*old(self) }),
    {
        let n = self.panes.len();
        let mut i: usize = 0;
        while i < n
            invariant
                i <= n,
                n == self.panes@.len(),
                match case {
                    Some(c) => c.wf(),
                    None => true,
                },
                forall|j: int| 0 <= j < n ==> (#[trigger] self.panes@[j]).wf(),
                forall|j: int|
                    0 <= j < i ==> crate::pane::spec_case_bound(
                        old(self).panes@[j],
                        #[trigger] self.panes@[j],
                        case,
                    ),
                forall|j: int| i <= j < n ==> self.panes@[j] == old(self).panes@[j],
                *self == (View { panes: self.panes, ..*old(self) }),
            decreases n - i,
        {
            let c = duplicate_case(&case);
            let p = &mut self.panes[i];
            p.set_case(c);
            proof {
                assert(case_eq(self.panes@[i as int].case, case));
            }
            i = i + 1;
        }
    }

    /// Install a render snapshot on every pane.
    pub fn set_viewstate(&mut self, state: ViewState)
        requires
            old(self).wf(),
            match state.frame {
                Some(f) => f <= i32::MAX,
                None => true,
            },
        ensures
            final(self).wf(),
            final(self).panes@.len() == old(self).panes@.len(),
            forall|j: int|
                0 <= j < final(self).panes@.len() ==> final(self).panes@[j] == (Pane {
                    interaction: crate::interaction::InteractionState {
                        viewstate: state,
                        ..old(self).panes@[j].interaction
                    },
                    dirty: true,
                    ..old(self).panes@[j]
                }),
            *final(self) == (View { panes: final(self).panes, ..*old(self) }),
    {
        let n = self.panes.len();
        let mut i: usize = 0;
        while i < n
            invariant
                i <= n,
                n == self.panes@.len(),
                match state.frame {
                    Some(f) => f <= i32::MAX,
                    None => true,
                },
                forall|j: int| 0 <= j < n ==> (#[trigger] self.panes@[j]).wf(),
                forall|j: int|
                    0 <= j < i ==> self.panes@[j] == (Pane {
                        interaction: crate::interaction::InteractionState {
                            viewstate: state,
                            ..old(self).panes@[j].interaction
                        },
                        dirty: true,
                        ..old(self).panes@[j]
                    }),
                forall|j: int| i <= j < n ==> self.panes@[j] == old(self).panes@[j],
                *self == (View { panes: self.panes, ..*old(self) }),
            decreases n - i,
        {
            let p = &mut self.panes[i];
            p.set_viewstate(state);
            i = i + 1;
        }
    }

    /// Bind each pane, in order, to the next case of the pool starting at
    /// `offset`; slots beyond the pool get no case. Returns the offset the
    /// next view should continue from.
    pub fn set_cases(&mut self, cases: &Vec<Option<CaseMeta>>, offset: usize) -> (next: usize)
        requires
            old(self).wf(),
            forall|j: int|
                0 <= j < cases@.len() ==> match #[trigger] cases@[j] {
                    Some(c) => c.wf(),
                    None => true,
                },
        ensures
            final(self).wf(),
            next as int == if offset + old(self).panes@.len() <= usize::MAX {
                offset + old(self).panes@.len()
            } else {
                usize::MAX as int
            },
            final(self).panes@.len() == old(self).panes@.len(),
            forall|j: int|
                0 <= j < final(self).panes@.len() ==> crate::pane::spec_case_bound(
                    old(self).panes@[j],
                    #[trigger] final(self).panes@[j],
                    if offset + j < cases@.len() {
                        cases@[offset + j]
                    } else {
                        None
                    },
                ),
            *final(self) == (View { panes: final(self).panes, ..*old(self) }),
    {
        let n = self.panes.len();
        let mut i: usize = 0;
        while i < n
            invariant
                i <= n,
                n == self.panes@.len(),
                forall|j: int|
                    0 <= j < cases@.len() ==> match #[trigger] cases@[j] {
                        Some(c) => c.wf(),
                        None => true,
                    },
                forall|j: int| 0 <= j < n ==> (#[trigger] self.panes@[j]).wf(),
                forall|j: int|
                    0 <= j < i ==> crate::pane::spec_case_bound(
                        old(self).panes@[j],
                        #[trigger] self.panes@[j],
                        if offset + j < cases@.len() {
                            cases@[offset + j]
                        } else {
                            None
                        },
                    ),
                forall|j: int| i <= j < n ==> self.panes@[j] == old(self).panes@[j],
                *self == (View { panes: self.panes, ..*old(self) }),
            decreases n - i,
        {
            let c: Option<CaseMeta> = if offset < cases.len() && i < cases.len() - offset {
                duplicate_case(&cases[offset + i])
            } else {
                None
            };
            let p = &mut self.panes[i];
            p.set_case(c);
            i = i + 1;
        }
        if offset <= usize::MAX - n {
            offset + n
        } else {
            usize::MAX
        }
    }

    /// Snapshot every pane's `(case, render state)` pair, in pane order.
    pub fn park_state(&self) -> (r: Vec<(Option<CaseMeta>, ViewState)>)
        ensures
            r@.len() == self.panes@.len(),
            forall|j: int|
                0 <= j < r@.len() ==> case_eq((#[trigger] r@[j]).0, self.panes@[j].case)
                    && r@[j].1 == self.panes@[j].interaction.viewstate,
    {
        let n = self.panes.len();
        let mut r: Vec<(Option<CaseMeta>, ViewState)> = Vec::new();
        let mut i: usize = 0;
        while i < n
            invariant
                i <= n,
                n == self.panes@.len(),
                r@.len() == i,
                forall|j: int|
                    0 <= j < i ==> case_eq((#[trigger] r@[j]).0, self.panes@[j].case) && r@[j].1
                        == self.panes@[j].interaction.viewstate,
            decreases n - i,
        {
            r.push(self.panes[i].park_state());
            i = i + 1;
        }
        r
    }

    /// Restore parked `(case, render state)` pairs onto the panes, in order,
    /// as many as both sides have.
    pub fn restore_parked(&mut self, parked: Vec<(Option<CaseMeta>, ViewState)>)
        requires
            old(self).wf(),
            forall|j: int|
                0 <= j < parked@.len() ==> (match (#[trigger] parked@[j]).0 {
                    Some(c) => c.wf(),
                    None => true,
                } && match parked@[j].1.frame {
                    Some(f) => f <= i32::MAX,
                    None => true,
                }),
        ensures
            final(self).wf(),
            final(self).panes@.len() == old(self).panes@.len(),
            forall|j: int|
                0 <= j < final(self).panes@.len() && j < parked@.len() ==> case_eq(
                    (#[trigger] final(self).panes@[j]).case,
                    parked@[j].0,
                ) && final(self).panes@[j].interaction.viewstate == parked@[j].1,
            forall|j: int|
                parked@.len() <= j < final(self).panes@.len() ==> final(self).panes@[j] == old(
                    self,
                ).panes@[j],
            *final(self) == (View { panes: final(self).panes, ..*old(self) }),
    {
        let n = self.panes.len();
        let m = parked.len();
        let count = if n < m {
            n
        } else {
            m
        };
        let mut i: usize = 0;
        while i < count
            invariant
                i <= count,
                count <= n,
                count <= m,
                n == self.panes@.len(),
                m == parked@.len(),
                forall|j: int|
                    0 <= j < parked@.len() ==> (match (#[trigger] parked@[j]).0 {
                        Some(c) => c.wf(),
                        None => true,
                    } && match parked@[j].1.frame {
                        Some(f) => f <= i32::MAX,
                        None => true,
                    }),
                forall|j: int| 0 <= j < n ==> (#[trigger] self.panes@[j]).wf(),
                forall|j: int|
                    0 <= j < i ==> case_eq((#[trigger] self.panes@[j]).case, parked@[j].0)
                        && self.panes@[j].interaction.viewstate == parked@[j].1,
                forall|j: int| i <= j < n ==> self.panes@[j] == old(self).panes@[j],
                *self == (View { panes: self.panes, ..*old(self) }),
            decreases count - i,
        {
            let c = duplicate_case(&parked[i].0);
            let vs = parked[i].1;
            let p = &mut self.panes[i];
            p.set_case(c);
            p.set_viewstate(vs);
            i = i + 1;
        }
    }

    pub fn invalidate(&mut self)
        ensures
            *final(self) == (View { dirty: true, ..*old(self) }),
            old(self).wf() ==> final(self).wf(),
    {
        self.dirty = true;
    }

    /// Advance cine playback on every pane; each pane whose cine step
    /// produced a frame advance immediately runs a normal update, and its
    /// sync request, if any, is collected with the pane's identity.
    pub fn handle_timer_event(&mut self) -> (sync_ops: Vec<((usize, usize), SyncOperation)>)
        requires
            old(self).wf(),
        ensures
            final(self).wf(),
            final(self).panes@.len() == old(self).panes@.len(),
            forall|j: int|
                0 <= j < final(self).panes@.len() ==> crate::pane::spec_timer_stepped(
                    old(self).panes@[j],
                    #[trigger] final(self).panes@[j],
                ),
            spec_ops_from_panes(sync_ops@, old(self).panes@),
            *final(self) == (View { panes: final(self).panes, ..*old(self) }),
    {
        let mut sync_ops: Vec<((usize, usize), SyncOperation)> = Vec::new();
        let n = self.panes.len();
        let mut i: usize = 0;
        while i < n
            invariant
                i <= n,
                n == self.panes@.len(),
                n == old(self).panes@.len(),
                forall|j: int| 0 <= j < n ==> (#[trigger] self.panes@[j]).wf(),
                forall|j: int|
                    0 <= j < i ==> crate::pane::spec_timer_stepped(
                        old(self).panes@[j],
                        #[trigger] self.panes@[j],
                    ),
                forall|j: int| i <= j < n ==> self.panes@[j] == old(self).panes@[j],
                spec_ops_from_panes(sync_ops@, old(self).panes@),
                *self == (View { panes: self.panes, ..*old(self) }),
            decreases n - i,
        {
            let ghost before = self.panes@[i as int];
            let ghost ops_before = sync_ops@;
            let p = &mut self.panes[i];
            if p.handle_timer_event() {
                let ghost mid = *p;
                let id = p.id();
                if let Some(op) = p.update() {
                    sync_ops.push((id, op));
                }
                proof {
                    assert(crate::pane::spec_cine_stepped_with(
                        before,
                        self.panes@[i as int],
                        mid.interaction.scroll_delta->0,
                        mid.interaction.cine_timer,
                    ));
                }
            }
            proof {
                assert forall|t: int| 0 <= t < sync_ops@.len() implies exists|j: int|
                    0 <= j < old(self).panes@.len() && (#[trigger] sync_ops@[t]).0 == old(
                    self,
                ).panes@[j].id by {
                    if t < ops_before.len() {
                        assert(sync_ops@[t] == ops_before[t]);
                        let j = choose|j: int|
                            0 <= j < old(self).panes@.len() && ops_before[t].0 == old(
                                self,
                            ).panes@[j].id;
                        assert(sync_ops@[t].0 == old(self).panes@[j].id);
                    } else {
                        assert(sync_ops@[t].0 == old(self).panes@[i as int].id);
                    }
                };
            }
            i = i + 1;
        }
        sync_ops
    }

    /// Adjust the bitrate multiplier by `direction` tenths, clamped to at
    /// least one tenth (and at most the representable maximum).
    pub fn adjust_bitrate_scaling(&mut self, direction: i32)
        ensures
            *final(self) == (View { bitrate_scale: final(self).bitrate_scale, ..*old(self) }),
            final(self).bitrate_scale as int == spec_adjusted_scale(
                old(self).bitrate_scale as int,
                direction as int,
            ),
            old(self).wf() ==> final(self).wf(),
    {
        if direction >= 0 {
            let step = direction as u32;
            let raised = if self.bitrate_scale > u32::MAX - step {
                u32::MAX
            } else {
                self.bitrate_scale + step
            };
            self.bitrate_scale = if raised < 1 {
                1
            } else {
                raised
            };
        } else {
            let step = (-(direction as i64)) as u32;
            if self.bitrate_scale <= step {
                self.bitrate_scale = 1;
            } else {
                let next = self.bitrate_scale - step;
                self.bitrate_scale = if next < 1 {
                    1
                } else {
                    next
                };
            }
        }
    }

    /// The focused pane's identity and one update step on it, when a pane
    /// has focus and the step requested sync propagation.
    pub fn update_focused_pane(&mut self) -> (r: Option<((usize, usize), SyncOperation)>)
        requires
            old(self).wf(),
        ensures
            final(self).wf(),
            final(self).panes@.len() == old(self).panes@.len(),
            old(self).focus is None ==> *final(self) == *old(self) && r is None,
            *final(self) == (View { panes: final(self).panes, ..*old(self) }),
            match old(self).focus {
                Some(i) => {
                    &&& final(self).panes@[i as int] == old(
                        self,
                    ).panes@[i as int].spec_update().0
                    &&& forall|j: int|
                        0 <= j < old(self).panes@.len() && j != i ==> final(self).panes@[j] == old(
                            self,
                        ).panes@[j]
                    &&& r == match old(self).panes@[i as int].spec_update().1 {
                        Some(op) => Some((old(self).panes@[i as int].id, op)),
                        None => None,
                    }
                },
                None => r is None,
            },
    {
        match self.focus {
            Some(idx) => {
                let p = &mut self.panes[idx];
                let id = p.id();
                match p.update() {
                    Some(op) => Some((id, op)),
                    None => None,
                }
            },
            None => None,
        }
    }

    /// The focused pane's case key, when a pane has focus and has a case.
    pub fn focused_case_key(&self) -> (r: Option<String>)
        requires
            self.wf(),
        ensures
            match self.focus {
                Some(i) => (r is Some <==> self.panes@[i as int].case is Some) && (r is Some
                    ==> r->0@ == self.panes@[i as int].case->0.key@),
                None => r is None,
            },
    {
        match self.focus {
            Some(idx) => match self.panes[idx].get_case_key() {
                Some(k) => Some(k.clone()),
                None => None,
            },
            None => None,
        }
    }

    /// The focused pane's park snapshot, when a pane has focus.
    pub fn focused_park_state(&self) -> (r: Option<(Option<CaseMeta>, ViewState)>)
        requires
            self.wf(),
        ensures
            r is Some <==> self.focus is Some,
            match self.focus {
                Some(i) => case_eq((r->0).0, self.panes@[i as int].case) && (r->0).1
                    == self.panes@[i as int].interaction.viewstate,
                None => true,
            },
    {
        match self.focus {
            Some(idx) => Some(self.panes[idx].park_state()),
            None => None,
        }
    }

    /// Bind the focused pane, when there is one, to the case.
    pub fn set_focused_case(&mut self, case: Option<CaseMeta>)
        requires
            old(self).wf(),
            match case {
                Some(c) => c.wf(),
                None => true,
            },
        ensures
            final(self).wf(),
            final(self).panes@.len() == old(self).panes@.len(),
            old(self).focus is None ==> *final(self) == *old(self),
            *final(self) == (View { panes: final(self).panes, ..*old(self) }),
            match old(self).focus {
                Some(i) => crate::pane::spec_case_bound(
                    old(self).panes@[i as int],
                    final(self).panes@[i as int],
                    case,
                ) && forall|j: int|
                    0 <= j < old(self).panes@.len() && j != i ==> final(self).panes@[j] == old(
                        self,
                    ).panes@[j],
                None => true,
            },
    {
        match self.focus {
            Some(idx) => {
                let p = &mut self.panes[idx];
                p.set_case(case);
            },
            None => {},
        }
    }
}

proof fn lemma_focus_index_found(panes: Seq<Pane>, position: (i64, i64), i: int)
    requires
        panes.len() <= usize::MAX,
        0 <= i < panes.len(),
        panes[i].layout.spec_contains(position),
        forall|j: int| 0 <= j < i ==> !(#[trigger] panes[j]).layout.spec_contains(position),
    ensures
        spec_focus_index(panes, position) == Some(i as usize),
    decreases i,
{
    if i == 0 {
    } else {
        lemma_focus_index_found(panes.skip(1), position, i - 1);
    }
}

proof fn lemma_focus_index_none(panes: Seq<Pane>, position: (i64, i64))
    requires
        forall|j: int| 0 <= j < panes.len() ==> !(#[trigger] panes[j]).layout.spec_contains(
            position,
        ),
    ensures
        spec_focus_index(panes, position) is None,
    decreases panes.len(),
{
    if panes.len() > 0 {
        lemma_focus_index_none(panes.skip(1), position);
    }
}

} // verus!
