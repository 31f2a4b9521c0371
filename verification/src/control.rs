//! The orchestrator: owns all views, the active subset, focus routing, the
//! case/protocol catalog, the partition policy, park/restore and cross-pane
//! scroll synchronization.

use crate::config::AppConfig;
use crate::geom::cell_side;
use crate::geom::grid_cell;
use crate::geom::LayoutRect;
use crate::input::InputEvent;
use crate::input::KeyAction;
use crate::input::EVENT_COORD_MAX;
use crate::interaction::SyncOperation;
use crate::message::case_eq;
use crate::message::duplicate_case;
use crate::message::CaseMeta;
use crate::message::ClientConfig;
use crate::message::LayoutCfg;
use crate::message::PaneCfg;
use crate::message::Protocols;
use crate::message::RenderState;
use crate::pane::Pane;
use crate::time::elapsed_millis;
use crate::time::instant_now;
use crate::view::spec_accept_sample;
use crate::view::SampleMeta;
use crate::view::View;
use crate::view_state::ViewState;
use vstd::prelude::*;
use vstd::view::View as _;

verus! {

/// How a requested `rows x columns` pane grid is distributed over a pool of
/// `n_views` views: each pane its own view when they all fit, else each row
/// its own view, else a single view carrying the whole grid. The result is
/// `((view grid), (per-view pane grid))`.
pub open spec fn spec_policy(rows: int, columns: int, n_views: int) -> ((int, int), (int, int)) {
    if rows * columns <= n_views {
        ((rows, columns), (1, 1))
    } else if rows <= n_views {
        ((rows, 1), (1, columns))
    } else {
        ((1, 1), (rows, columns))
    }
}

/// The number of views the policy activates.
pub open spec fn spec_policy_views(rows: int, columns: int, n_views: int) -> int {
    spec_policy(rows, columns, n_views).0.0 * spec_policy(rows, columns, n_views).0.1
}

/// The number of panes each active view carries under the policy.
pub open spec fn spec_policy_panes(rows: int, columns: int, n_views: int) -> int {
    spec_policy(rows, columns, n_views).1.0 * spec_policy(rows, columns, n_views).1.1
}

/// The snapshot taken when collapsing to a single pane: the partition to
/// restore and, per then-active view, each pane's `(case, render state)`.
#[derive(Debug)]
pub struct ParkedState {
    pub partition: (usize, usize),
    pub states: Vec<Vec<(Option<CaseMeta>, ViewState)>>,
}

impl ParkedState {
    pub open spec fn wf(self) -> bool {
        &&& self.partition.0 >= 1
        &&& self.partition.1 >= 1
        &&& self.partition.0 * self.partition.1 <= usize::MAX
        &&& forall|j: int, k: int|
            0 <= j < self.states@.len() && 0 <= k < self.states@[j]@.len() ==> (match (
            #[trigger] self.states@[j]@[k]).0 {
                Some(c) => c.wf(),
                None => true,
            } && match self.states@[j]@[k].1.frame {
                Some(f) => f <= i32::MAX,
                None => true,
            })
    }
}

/// The first index of `active` (in order) naming a view that contains the
/// position.
pub open spec fn spec_active_focus(views: Seq<View>, active: Seq<usize>, position: (i64, i64)) -> Option<
    usize,
>
    decreases active.len(),
{
    if active.len() == 0 {
        None
    } else if active[0] < views.len() && views[active[0] as int].layout.spec_contains(position) {
        Some(active[0])
    } else {
        spec_active_focus(views, active.skip(1), position)
    }
}

/// The first case of the catalog carrying `key`.
pub open spec fn spec_find_case(cases: Seq<CaseMeta>, key: Seq<char>) -> Option<int>
    decreases cases.len(),
{
    if cases.len() == 0 {
        None
    } else if cases[0].key@ == key {
        Some(0int)
    } else {
        match spec_find_case(cases.skip(1), key) {
            Some(i) => Some(i + 1),
            None => None,
        }
    }
}

/// The case keys of a layout template's pane slots, in template order.
pub open spec fn spec_template_slots(protocol: LayoutCfg) -> Seq<Seq<char>> {
    protocol.panes@.map(|i: int, p: PaneCfg| p.case@)
}

/// The catalog case that pane slot `idx` of a template receives: the first
/// catalog entry carrying the slot's key; none when the key is unknown, the
/// catalog is missing, or the slot is past the template's list.
pub open spec fn spec_slot_case(
    cases: Option<Vec<CaseMeta>>,
    slots: Seq<Seq<char>>,
    idx: int,
) -> Option<CaseMeta> {
    if 0 <= idx < slots.len() {
        match cases {
            Some(cs) => match spec_find_case(cs@, slots[idx]) {
                Some(i) => Some(cs@[i]),
                None => None,
            },
            None => None,
        }
    } else {
        None
    }
}

/// Active view `j` of `b` carries the template's cases on its pane slots,
/// in template order: pane `k` of view `j` is freshly bound to the catalog
/// case of slot `j * panes_per + k`.
pub open spec fn spec_view_slots_bound(
    a: ViewControl,
    v: View,
    j: int,
    rows: int,
    columns: int,
    slots: Seq<Seq<char>>,
) -> bool {
    let panes_per = spec_policy_panes(rows, columns, a.views@.len() as int);
    forall|k: int|
        0 <= k < v.panes@.len() ==> {
            let case = spec_slot_case(a.cases, slots, j * panes_per + k);
            &&& case_eq((#[trigger] v.panes@[k]).case, case)
            &&& v.panes@[k].interaction == (crate::interaction::InteractionState {
                image_count: Some(
                    match case {
                        Some(cm) => cm.number_of_images,
                        None => 0,
                    },
                ),
                viewstate: ViewState { frame: Some(0), ..ViewState::spec_new() },
                ..crate::interaction::InteractionState::spec_new()
            })
            &&& v.panes@[k].dirty
        }
}

/// A layout template applied to the control: its name recorded, the
/// partition policy re-applied over its grid, and its case keys handed out
/// to the resulting pane slots across the active views in template order
/// (unknown keys yield empty panes). A degenerate grid leaves the state
/// unchanged.
pub open spec fn spec_protocol_applied(
    a: ViewControl,
    b: ViewControl,
    name: Seq<char>,
    rows: int,
    columns: int,
    slots: Seq<Seq<char>>,
) -> bool {
    if rows >= 1 && columns >= 1 && rows * columns <= usize::MAX as int {
        &&& b.current_protocol_key is Some && b.current_protocol_key->0@ == name
        &&& b.partition == (rows as usize, columns as usize)
        &&& b.views@.len() == a.views@.len()
        &&& spec_policy_shape(b, rows, columns, a.views@.len() as int)
        &&& b.focus is None
        &&& forall|j: int|
            0 <= j < b.active@.len() ==> #[trigger] spec_view_slots_bound(
                a,
                b.views@[j],
                j,
                rows,
                columns,
                slots,
            )
        &&& b == (ViewControl {
            views: b.views,
            active: b.active,
            focus: None,
            current_protocol_key: b.current_protocol_key,
            partition: b.partition,
            ..a
        })
    } else {
        b == a
    }
}

/// One case-cycling step: with no current case the first catalog entry is
/// chosen (an empty or missing catalog with a current case changes
/// nothing); the chosen case is bound to the focused pane, everything else
/// untouched.
pub open spec fn spec_case_cycled(a: ViewControl, b: ViewControl, dir: int) -> bool {
    &&& (spec_cycle_target(a, dir) is None ==> spec_views_unchanged(a, b))
    &&& (a.focus is None ==> spec_views_unchanged(a, b))
    &&& match (spec_cycle_target(a, dir), a.focus) {
        (Some(ci), Some(f)) => match a.views@[f as int].focus {
            Some(_) => spec_focused_case_set(
                a,
                b,
                f as int,
                if a.cases is Some && 0 <= ci < spec_case_seq(a.cases).len() {
                    Some(spec_case_seq(a.cases)[ci])
                } else {
                    None
                },
            ),
            None => spec_views_unchanged(a, b),
        },
        _ => true,
    }
}

/// One protocol-cycling step: the current template's catalog position is
/// advanced by `dir`, wrapping both ways (an unknown current name counts as
/// position 0), and the template it lands on is applied; with no current
/// protocol, no catalog or an empty one, nothing changes.
pub open spec fn spec_protocol_cycled(a: ViewControl, b: ViewControl, dir: int) -> bool {
    match (a.current_protocol_key, a.protocols) {
        (Some(current), Some(protocols)) => {
            let ls = protocols.layout@;
            if ls.len() == 0 {
                b == a
            } else {
                let base = match spec_find_protocol(ls, current@) {
                    Some(i) => i + dir,
                    None => 0int,
                };
                let t = base % ls.len() as int;
                spec_protocol_applied(
                    a,
                    b,
                    ls[t].name@,
                    ls[t].rows as int,
                    ls[t].columns as int,
                    spec_template_slots(ls[t]),
                )
            }
        },
        _ => b == a,
    }
}

/// The template carrying `key` applied; an unknown name (or no catalog)
/// changes nothing.
pub open spec fn spec_protocol_key_applied(a: ViewControl, b: ViewControl, key: Seq<char>) -> bool {
    match a.protocols {
        Some(p) => match spec_find_protocol(p.layout@, key) {
            Some(i) => spec_protocol_applied(
                a,
                b,
                p.layout@[i].name@,
                p.layout@[i].rows as int,
                p.layout@[i].columns as int,
                spec_template_slots(p.layout@[i]),
            ),
            None => b == a,
        },
        None => b == a,
    }
}

/// The catalog case carrying `key` bound to every active view; an unknown
/// key (or no catalog) changes nothing.
pub open spec fn spec_case_key_applied(a: ViewControl, b: ViewControl, key: Seq<char>) -> bool {
    &&& (!(a.cases is Some && spec_find_case(spec_case_seq(a.cases), key) is Some) ==> b == a)
    &&& ((a.cases is Some && spec_find_case(spec_case_seq(a.cases), key) is Some) ==> exists|
        c: CaseMeta,
    |
        c.key@ == key && #[trigger] spec_case_selected(a, b, Some(c)))
}

/// The configured default case applied: the configured key when one is set,
/// else the catalog's first case; with neither, nothing changes.
pub open spec fn spec_default_case_applied(a: ViewControl, b: ViewControl) -> bool {
    match a.default_case_key {
        Some(k) => spec_case_key_applied(a, b, k@),
        None => match a.cases {
            Some(cs) => if cs@.len() > 0 {
                exists|c: CaseMeta|
                    c.key@ == cs@[0].key@ && c.number_of_images == cs@[0].number_of_images
                        && #[trigger] spec_case_selected(a, b, Some(c))
            } else {
                b == a
            },
            None => b == a,
        },
    }
}

/// One toggle of the exclusive single-pane park: restore when a snapshot is
/// outstanding; else, with a focused pane, snapshot everything, collapse to
/// one pane per view and replicate the focused pane's case and state; with
/// nothing focused, nothing changes.
pub open spec fn spec_toggled(a: ViewControl, b: ViewControl) -> bool {
    &&& b.views@.len() == a.views@.len()
    &&& (a.parked is Some ==> spec_restores(a, b))
    &&& (a.parked is None && spec_focused_settings(a) is Some ==> {
        &&& b.parked is Some
        &&& spec_parks(a, b.parked->0)
        &&& b.partition == (1usize, 1usize)
        &&& forall|j: int|
            0 <= j < b.active@.len() ==> #[trigger] spec_view_shows(
                b.views@[b.active@[j] as int],
                spec_focused_settings(a)->0,
            )
    })
    &&& (a.parked is None && spec_focused_settings(a) is None ==> b == a)
}

/// An event forwarded untranslated to the focused view; with none, nothing
/// changes.
pub open spec fn spec_forwarded(a: ViewControl, b: ViewControl, event: InputEvent) -> bool {
    match a.focus {
        Some(f) => {
            &&& b.views@.len() == a.views@.len()
            &&& crate::view::spec_view_event_outcome(a.views@[f as int], b.views@[f as int], event)
            &&& forall|j: int|
                0 <= j < a.views@.len() && j != f ==> b.views@[j] == a.views@[j]
            &&& b == (ViewControl { views: b.views, ..a })
        },
        None => b == a,
    }
}

/// A cursor move: the view focus is re-resolved over the active list and
/// the translated event forwarded into the newly focused view.
pub open spec fn spec_control_cursor(a: ViewControl, b: ViewControl, x: i64, y: i64) -> bool {
    let position = ((x - a.layout.x) as i64, (y - a.layout.y) as i64);
    let focus = spec_active_focus(a.views@, a.active@, position);
    spec_forwarded(
        ViewControl { focus, ..a },
        b,
        InputEvent::CursorMoved { x: position.0, y: position.1 },
    )
}

/// The position of the first occurrence of `x` in `s` (the length when it
/// never occurs).
pub open spec fn spec_first_index(s: Seq<usize>, x: usize) -> int
    decreases s.len(),
{
    if s.len() == 0 {
        0
    } else if s[0] == x {
        0
    } else {
        1 + spec_first_index(s.skip(1), x)
    }
}

/// The first view whose channel name is `label`.
pub open spec fn spec_find_label(views: Seq<View>, label: Seq<char>) -> Option<int>
    decreases views.len(),
{
    if views.len() == 0 {
        None
    } else if views[0].data_id@ == label {
        Some(0int)
    } else {
        match spec_find_label(views.skip(1), label) {
            Some(i) => Some(i + 1),
            None => None,
        }
    }
}

/// The first layout template of the catalog carrying `name`.
pub open spec fn spec_find_protocol(layouts: Seq<LayoutCfg>, name: Seq<char>) -> Option<int>
    decreases layouts.len(),
{
    if layouts.len() == 0 {
        None
    } else if layouts[0].name@ == name {
        Some(0int)
    } else {
        match spec_find_protocol(layouts.skip(1), name) {
            Some(i) => Some(i + 1),
            None => None,
        }
    }
}

/// The process-wide singleton owning every view.
#[derive(Debug)]
pub struct ViewControl {
    pub views: Vec<View>,
    pub active: Vec<usize>,
    pub focus: Option<usize>,
    pub layout: LayoutRect,
    pub default_case_key: Option<String>,
    pub default_protocol_key: Option<String>,
    pub current_protocol_key: Option<String>,
    pub protocols: Option<Protocols>,
    pub cases: Option<Vec<CaseMeta>>,
    pub partition: (usize, usize),
    pub last_click: Option<std::time::Instant>,
    pub parked: Option<ParkedState>,
}

pub const DEFAULT_VIEW_WIDTH: u32 = 256;

pub const DEFAULT_VIEW_HEIGHT: u32 = 256;

/// The double-click window, milliseconds.
pub const DOUBLE_CLICK_MS: u64 = 200;

impl ViewControl {
    /// Machine-limit invariant plus the structural invariants: active
    /// indices are valid and unique, the focus (when set) is active, the
    /// partition is a real grid, and the catalogs and the parked snapshot
    /// are element-wise well-formed.
    pub open spec fn wf(self) -> bool {
        &&& self.views@.len() >= 1
        &&& forall|i: int| 0 <= i < self.views@.len() ==> (#[trigger] self.views@[i]).wf()
        &&& forall|i: int| 0 <= i < self.active@.len() ==> (#[trigger] self.active@[i])
            < self.views@.len()
        &&& forall|i: int, j: int|
            0 <= i < self.active@.len() && 0 <= j < self.active@.len() && i != j
                ==> self.active@[i] != self.active@[j]
        &&& match self.focus {
            Some(f) => f < self.views@.len() && self.active@.contains(f),
            None => true,
        }
        &&& self.partition.0 >= 1
        &&& self.partition.1 >= 1
        &&& self.partition.0 * self.partition.1 <= usize::MAX
        &&& match self.cases {
            Some(cs) => forall|i: int| 0 <= i < cs@.len() ==> (#[trigger] cs@[i]).wf(),
            None => true,
        }
        &&& match self.parked {
            Some(p) => p.wf(),
            None => true,
        }
    }

    /// One view per configured stream slot, the first one active, a `1x1`
    /// partition, no catalog yet.
    pub fn new(config: &AppConfig) -> (r: ViewControl)
        requires
            config.n_views >= 1,
        ensures
            r.wf(),
            r.views@.len() == config.n_views,
            forall|i: int|
                0 <= i < r.views@.len() ==> (#[trigger] r.views@[i]).video_id == i
                    && r.views@[i].bitrate_scale == config.bitrate_scale
                    && r.views@[i].gpu == config.gpu && r.views@[i].lossless == config.lossless
                    && r.views@[i].video_scaling == config.video_scaling
                    && r.views@[i].fullrange == !config.narrow && r.views@[i].schedule
                    == config.schedule && r.views@[i].layout == (LayoutRect {
                    x: 0,
                    y: 0,
                    width: DEFAULT_VIEW_WIDTH,
                    height: DEFAULT_VIEW_HEIGHT,
                }),
            r.active@ == seq![0usize],
            r.focus is None,
            r.layout == (LayoutRect { x: 0, y: 0, width: 0, height: 0 }),
            r.partition == (1usize, 1usize),
            r.parked is None,
            r.cases is None,
            r.protocols is None,
            r.current_protocol_key is None,
            r.default_case_key is Some <==> config.case_key is Some,
            r.default_protocol_key is Some <==> config.protocol_key is Some,
    {
        let n = config.n_views;
        let mut views: Vec<View> = Vec::new();
        let mut i: usize = 0;
        while i < n
            invariant
                i <= n,
                views@.len() == i,
                forall|j: int|
                    0 <= j < i ==> (#[trigger] views@[j]).wf() && views@[j].video_id == j
                        && views@[j].bitrate_scale == config.bitrate_scale && views@[j].gpu
                        == config.gpu && views@[j].lossless == config.lossless
                        && views@[j].video_scaling == config.video_scaling && views@[j].fullrange
                        == !config.narrow && views@[j].schedule == config.schedule
                        && views@[j].layout == (LayoutRect {
                        x: 0,
                        y: 0,
                        width: DEFAULT_VIEW_WIDTH,
                        height: DEFAULT_VIEW_HEIGHT,
                    }),
            decreases n - i,
        {
            let v = View::new(
                i,
                LayoutRect { x: 0, y: 0, width: DEFAULT_VIEW_WIDTH, height: DEFAULT_VIEW_HEIGHT },
                config.bitrate_scale,
                config.gpu,
                config.preset.clone(),
                config.lossless,
                config.video_scaling,
                !config.narrow,
                config.schedule,
            );
            views.push(v);
            i = i + 1;
        }
        let mut active: Vec<usize> = Vec::new();
        active.push(0);
        let default_case_key = match &config.case_key {
            Some(k) => Some(k.clone()),
            None => None,
        };
        let default_protocol_key = match &config.protocol_key {
            Some(k) => Some(k.clone()),
            None => None,
        };
        ViewControl {
            views,
            active,
            focus: None,
            layout: LayoutRect { x: 0, y: 0, width: 0, height: 0 },
            default_case_key,
            default_protocol_key,
            current_protocol_key: None,
            cases: None,
            protocols: None,
            partition: (1, 1),
            last_click: Some(instant_now()),
            parked: None,
        }
    }

    pub fn get_layout(&self) -> (r: LayoutRect)
        ensures
            r == self.layout,
    {
        self.layout
    }

    /// The connection-request payload of every view, in slot order.
    pub fn get_config(&self) -> (r: Vec<ClientConfig>)
        requires
            self.wf(),
        ensures
            r@.len() == self.views@.len(),
            forall|i: int|
                0 <= i < r@.len() ==> (#[trigger] r@[i]).bitrate
                    == self.views@[i].spec_bitrate_value() && r@[i].viewport.width
                    == self.views@[i].layout.width && r@[i].viewport.height
                    == self.views@[i].layout.height && r@[i].video_scaling
                    == self.views@[i].video_scaling,
    {
        let n = self.views.len();
        let mut r: Vec<ClientConfig> = Vec::new();
        let mut i: usize = 0;
        while i < n
            invariant
                i <= n,
                n == self.views@.len(),
                self.wf(),
                r@.len() == i,
                forall|j: int|
                    0 <= j < i ==> (#[trigger] r@[j]).bitrate
                        == self.views@[j].spec_bitrate_value() && r@[j].viewport.width
                        == self.views@[j].layout.width && r@[j].viewport.height
                        == self.views@[j].layout.height && r@[j].video_scaling
                        == self.views@[j].video_scaling,
            decreases n - i,
        {
            r.push(self.views[i].get_client_config());
            i = i + 1;
        }
        r
    }

    /// Focus the first active view containing the (layout-relative)
    /// position.
    fn handle_focus(&mut self, position: (i64, i64))
        requires
            old(self).wf(),
        ensures
            final(self).wf(),
            *final(self) == (ViewControl {
                focus: spec_active_focus(old(self).views@, old(self).active@, position),
                ..*old(self)
            }),
    {
        self.focus = None;
        let n = self.active.len();
        let mut i: usize = 0;
        while i < n
            invariant
                i <= n,
                n == self.active@.len(),
                old(self).wf(),
                forall|j: int|
                    0 <= j < i ==> (#[trigger] old(self).active@[j]) < old(self).views@.len()
                        && !old(self).views@[old(self).active@[j] as int].layout.spec_contains(
                        position,
                    ),
                self.focus is None,
                *self == (ViewControl { focus: None, ..*old(self) }),
            decreases n - i,
        {
            let idx = self.active[i];
            let contained = self.views[idx].contains(position);
            if contained {
                self.focus = Some(idx);
                proof {
                    lemma_active_focus_found(old(self).views@, old(self).active@, position, i as int);
                }
                return ;
            }
            i = i + 1;
        }
        proof {
            lemma_active_focus_none(old(self).views@, old(self).active@, position);
        }
    }

    /// Drop the focus, here and in every view.
    fn clear_focus(&mut self)
        requires
            old(self).wf(),
        ensures
            final(self).wf(),
            final(self).focus is None,
            final(self).views@.len() == old(self).views@.len(),
            forall|i: int|
                0 <= i < final(self).views@.len() ==> final(self).views@[i] == (View {
                    focus: None,
                    ..old(self).views@[i]
                }),
            *final(self) == (ViewControl {
                focus: None,
                views: final(self).views,
                ..*old(self)
            }),
    {
        self.focus = None;
        let n = self.views.len();
        let mut i: usize = 0;
        while i < n
            invariant
                i <= n,
                n == self.views@.len(),
                forall|j: int| 0 <= j < n ==> (#[trigger] self.views@[j]).wf(),
                forall|j: int|
                    0 <= j < i ==> self.views@[j] == (View { focus: None, ..old(self).views@[j] }),
                forall|j: int| i <= j < n ==> self.views@[j] == old(self).views@[j],
                self.focus is None,
                *self == (ViewControl { focus: None, views: self.views, ..*old(self) }),
            decreases n - i,
        {
            let v = &mut self.views[i];
            v.clear_focus_pane();
            i = i + 1;
        }
    }

    /// Route a window event: cursor moves re-resolve the view focus and are
    /// forwarded translated; the arrow-key actions cycle cases and
    /// protocols; a second left press within the double-click window
    /// toggles the single-pane park; everything else goes to the focused
    /// view.
    #[verifier::rlimit(100)]
    pub fn handle_window_event(&mut self, event: &InputEvent) -> (handled: bool)
        requires
            old(self).wf(),
            event.wf(),
        ensures
            final(self).wf(),
            final(self).views@.len() == old(self).views@.len(),
            *event matches InputEvent::CursorMoved { x, y } ==> spec_control_cursor(
                *old(self),
                *final(self),
                x,
                y,
            ),
            *event == InputEvent::Key(KeyAction::NextCase) ==> spec_case_cycled(
                *old(self),
                *final(self),
                1,
            ),
            *event == InputEvent::Key(KeyAction::PreviousCase) ==> spec_case_cycled(
                *old(self),
                *final(self),
                -1,
            ),
            *event == InputEvent::Key(KeyAction::NextProtocol) ==> spec_protocol_cycled(
                *old(self),
                *final(self),
                1,
            ),
            *event == InputEvent::Key(KeyAction::PreviousProtocol) ==> spec_protocol_cycled(
                *old(self),
                *final(self),
                -1,
            ),
            // a left press first re-arms the double-click clock, so the
            // park/forward laws hold relative to that one changed field
            *event == (InputEvent::MouseInput {
                button: crate::interaction::MouseButton::Left,
                pressed: true,
            }) ==> spec_toggled(
                ViewControl { last_click: final(self).last_click, ..*old(self) },
                *final(self),
            ) || spec_forwarded(
                ViewControl { last_click: final(self).last_click, ..*old(self) },
                *final(self),
                *event,
            ),
            (*event matches InputEvent::MouseInput { .. } && *event != (InputEvent::MouseInput {
                button: crate::interaction::MouseButton::Left,
                pressed: true,
            })) ==> spec_forwarded(*old(self), *final(self), *event),
            (*event matches InputEvent::ModifiersChanged { ctrl: _ } || *event
                matches InputEvent::MouseWheel { delta: _ } || *event matches InputEvent::Key(
                KeyAction::ToggleSync,
            ) || *event matches InputEvent::Key(KeyAction::ToggleCine) || *event
                matches InputEvent::Key(KeyAction::CineFaster) || *event matches InputEvent::Key(
                KeyAction::CineSlower,
            ) || *event matches InputEvent::Key(KeyAction::BitrateUp) || *event
                matches InputEvent::Key(KeyAction::BitrateDown)) ==> spec_forwarded(
                *old(self),
                *final(self),
                *event,
            ),
    {
        let ev = *event;
        match ev {
            InputEvent::CursorMoved { x, y } => self.handle_cursor_moved(x, y),
            InputEvent::Key(KeyAction::NextCase) => {
                self.select_next_case();
                true
            },
            InputEvent::Key(KeyAction::PreviousCase) => {
                self.select_previous_case();
                true
            },
            InputEvent::Key(KeyAction::NextProtocol) => {
                self.select_next_protocol();
                true
            },
            InputEvent::Key(KeyAction::PreviousProtocol) => {
                self.select_previous_protocol();
                true
            },
            InputEvent::MouseInput { button: crate::interaction::MouseButton::Left, pressed: true
            } => {
                let since_last: u64 = match &self.last_click {
                    Some(t) => elapsed_millis(t),
                    None => u64::MAX,
                };
                self.last_click = Some(instant_now());
                let ghost rearmed = *self;
                if since_last < DOUBLE_CLICK_MS {
                    self.toggle_1x1();
                    proof {
                        assert(spec_toggled(rearmed, *self));
                    }
                    true
                } else {
                    let routed = self.handle_translated_event(event);
                    proof {
                        assert(spec_forwarded(rearmed, *self, *event));
                    }
                    routed
                }
            },
            _ => self.handle_translated_event(event),
        }
    }

    /// Route a cursor move: re-resolve the view focus over the active list
    /// and forward the translated event into the newly focused view.
    fn handle_cursor_moved(&mut self, x: i64, y: i64) -> (handled: bool)
        requires
            old(self).wf(),
            -EVENT_COORD_MAX <= x <= EVENT_COORD_MAX,
            -EVENT_COORD_MAX <= y <= EVENT_COORD_MAX,
        ensures
            final(self).wf(),
            final(self).views@.len() == old(self).views@.len(),
            spec_control_cursor(*old(self), *final(self), x, y),
    {
        let translated = InputEvent::CursorMoved {
            x: x - self.layout.x as i64,
            y: y - self.layout.y as i64,
        };
        match translated {
            InputEvent::CursorMoved { x: tx, y: ty } => {
                self.handle_focus((tx, ty));
            },
            _ => {},
        }
        let ghost mid = *self;
        let was_routed = self.handle_translated_event(&translated);
        proof {
            assert(spec_forwarded(mid, *self, translated));
        }
        was_routed
    }

    /// Forward an already layout-relative event to the focused view.
    fn handle_translated_event(&mut self, event: &InputEvent) -> (handled: bool)
        requires
            old(self).wf(),
            event.coords_within(2 * EVENT_COORD_MAX as int),
        ensures
            final(self).wf(),
            final(self).views@.len() == old(self).views@.len(),
            final(self).focus == old(self).focus,
            spec_forwarded(*old(self), *final(self), *event),
    {
        match self.focus {
            Some(idx) => {
                proof {
                    assert(old(self).active@.contains(idx));
                }
                let v = &mut self.views[idx];
                let handled = v.handle_window_event(event);
                handled
            },
            None => false,
        }
    }

    /// The cursor is hidden exactly while the focused view's focused pane
    /// derives the `Pan` mode.
    pub fn hide_cursor(&self) -> (r: bool)
        requires
            self.wf(),
        ensures
            r == match self.focus {
                Some(f) => match self.views@[f as int].focus {
                    Some(p) => self.views@[f as int].panes@[p as int].interaction.derived_mode()
                        == Some(crate::interaction::InteractionMode::Pan),
                    None => false,
                },
                None => false,
            },
    {
        match self.focus {
            Some(idx) => self.views[idx].hide_cursor(),
            None => false,
        }
    }

    /// One update step on the focused view's focused pane; its sync
    /// request, if any, is then propagated across the active views (see
    /// `spec_focused_pane_step` and `spec_applied_update`).
    pub fn update_focused(&mut self)
        requires
            old(self).wf(),
        ensures
            final(self).wf(),
            final(self).views@.len() == old(self).views@.len(),
            exists|mid: ViewControl, su: Option<((usize, usize), SyncOperation)>|
                #[trigger] spec_focused_pane_step(*old(self), mid, su) && spec_applied_update(
                    mid,
                    *final(self),
                    su,
                ),
    {
        let sync_update: Option<((usize, usize), SyncOperation)> = match self.focus {
            Some(idx) => {
                proof {
                    assert(old(self).active@.contains(idx));
                }
                let v = &mut self.views[idx];
                v.update_focused_pane()
            },
            None => None,
        };
        let ghost mid = *self;
        let ghost su = sync_update;
        proof {
            if old(self).focus is Some && old(self).views@[old(self).focus->0 as int].focus
                is None {
                assert(mid.views@ =~= old(self).views@);
            }
            assert(spec_focused_pane_step(*old(self), mid, su));
        }
        self.apply_update(sync_update);
        proof {
            assert(spec_focused_pane_step(*old(self), mid, su) && spec_applied_update(
                mid,
                *final(self),
                su,
            ));
        }
    }

    /// Propagate one update across the active views: with a sync request,
    /// every active view runs the sync-aware update (each pane deciding by
    /// its own synchronized flag and identity); without one, every active
    /// view runs a plain update.
    pub fn apply_update(&mut self, sync_update: Option<((usize, usize), SyncOperation)>)
        requires
            old(self).wf(),
        ensures
            final(self).wf(),
            final(self).views@.len() == old(self).views@.len(),
            spec_applied_update(*old(self), *final(self), sync_update),
    {
        let n = self.active.len();
        let nv = self.views.len();
        let mut i: usize = 0;
        while i < n
            invariant
                i <= n,
                n == self.active@.len(),
                nv == self.views@.len(),
                self.active@ == old(self).active@,
                self.views@.len() == old(self).views@.len(),
                forall|j: int| 0 <= j < self.active@.len() ==> (#[trigger] self.active@[j])
                    < self.views@.len(),
                forall|j1: int, j2: int|
                    0 <= j1 < self.active@.len() && 0 <= j2 < self.active@.len() && j1 != j2
                        ==> self.active@[j1] != self.active@[j2],
                forall|v: int| 0 <= v < self.views@.len() ==> (#[trigger] self.views@[v]).wf(),
                forall|v: int|
                    0 <= v < self.views@.len() && !old(self).active@.take(i as int).contains(
                        v as usize,
                    ) ==> self.views@[v] == old(self).views@[v],
                forall|j: int|
                    0 <= j < i ==> #[trigger] spec_view_updated(
                        old(self).views@[old(self).active@[j] as int],
                        self.views@[old(self).active@[j] as int],
                        sync_update,
                    ),
                *self == (ViewControl { views: self.views, ..*old(self) }),
            decreases n - i,
        {
            let idx = self.active[i];
            proof {
                assert(old(self).active@.take(i as int + 1)[i as int] == old(
                    self,
                ).active@[i as int]);
                assert(old(self).active@.take(i as int + 1).contains(old(self).active@[i as int]));
                assert forall|v: usize|
                    old(self).active@.take(i as int).contains(v) implies old(self).active@.take(
                    i as int + 1,
                ).contains(v) by {
                    let t = choose|t: int|
                        0 <= t < i && old(self).active@.take(i as int)[t] == v;
                    assert(old(self).active@.take(i as int + 1)[t] == v);
                };
            }
            let v = &mut self.views[idx];
            match &sync_update {
                Some(su) => {
                    v.update_sync(su);
                },
                None => {
                    v.update();
                },
            }
            i = i + 1;
        }
        proof {
            assert(old(self).active@.take(n as int) =~= old(self).active@);
            assert forall|t: int|
                0 <= t < self.views@.len() && old(self).active@.contains(t as usize) implies #[trigger] spec_view_updated(
                old(self).views@[t],
                self.views@[t],
                sync_update,
            ) by {
                let j = choose|j: int|
                    0 <= j < old(self).active@.len() && old(self).active@[j] == t as usize;
                assert(old(self).active@[j] as int == t);
                assert(spec_view_updated(
                    old(self).views@[old(self).active@[j] as int],
                    self.views@[old(self).active@[j] as int],
                    sync_update,
                ));
            };
        }
    }

    /// Collect the dirty views' outgoing `RenderState` messages, tagged by
    /// view slot, advancing each view's sequence number; each message came
    /// from an active view and carries that view's rectangle.
    pub fn push_state(&mut self) -> (out: Vec<(usize, RenderState)>)
        requires
            old(self).wf(),
        ensures
            final(self).wf(),
            final(self).views@.len() == old(self).views@.len(),
            forall|i: int|
                0 <= i < final(self).views@.len() && !old(self).active@.contains(i as usize)
                    ==> final(self).views@[i] == old(self).views@[i],
            forall|i: int|
                0 <= i < final(self).views@.len() && old(self).active@.contains(i as usize)
                    ==> #[trigger] crate::view::spec_view_pushed(
                    old(self).views@[i],
                    final(self).views@[i],
                ),
            forall|t: int|
                0 <= t < out@.len() ==> (#[trigger] out@[t]).0 < old(self).views@.len() && old(
                    self,
                ).active@.contains(out@[t].0) && crate::view::spec_view_dirty_any(
                    old(self).views@[out@[t].0 as int],
                ) && crate::view::spec_pushed_message(
                    old(self).views@[out@[t].0 as int],
                    out@[t].1,
                ),
            forall|i: int|
                0 <= i < final(self).views@.len() && old(self).active@.contains(i as usize)
                    && #[trigger] crate::view::spec_view_dirty_any(old(self).views@[i])
                    ==> exists|t: int| 0 <= t < out@.len() && (#[trigger] out@[t]).0 == i,
            *final(self) == (ViewControl { views: final(self).views, ..*old(self) }),
    {
        let mut out: Vec<(usize, RenderState)> = Vec::new();
        let n = self.active.len();
        let nv = self.views.len();
        let mut i: usize = 0;
        while i < n
            invariant
                i <= n,
                n == self.active@.len(),
                nv == self.views@.len(),
                self.active@ == old(self).active@,
                self.views@.len() == old(self).views@.len(),
                forall|j: int| 0 <= j < self.active@.len() ==> (#[trigger] self.active@[j])
                    < self.views@.len(),
                forall|j1: int, j2: int|
                    0 <= j1 < self.active@.len() && 0 <= j2 < self.active@.len() && j1 != j2
                        ==> self.active@[j1] != self.active@[j2],
                forall|v: int| 0 <= v < self.views@.len() ==> (#[trigger] self.views@[v]).wf(),
                forall|v: int|
                    0 <= v < self.views@.len() && !old(self).active@.take(i as int).contains(
                        v as usize,
                    ) ==> self.views@[v] == old(self).views@[v],
                forall|j: int|
                    0 <= j < i ==> #[trigger] crate::view::spec_view_pushed(
                        old(self).views@[old(self).active@[j] as int],
                        self.views@[old(self).active@[j] as int],
                    ),
                forall|t: int|
                    0 <= t < out@.len() ==> (#[trigger] out@[t]).0 < old(self).views@.len() && old(
                        self,
                    ).active@.contains(out@[t].0) && crate::view::spec_view_dirty_any(
                        old(self).views@[out@[t].0 as int],
                    ) && crate::view::spec_pushed_message(
                        old(self).views@[out@[t].0 as int],
                        out@[t].1,
                    ),
                forall|j: int|
                    0 <= j < i && #[trigger] crate::view::spec_view_dirty_any(
                        old(self).views@[old(self).active@[j] as int],
                    ) ==> exists|t: int|
                        0 <= t < out@.len() && (#[trigger] out@[t]).0 == old(self).active@[j],
                *self == (ViewControl { views: self.views, ..*old(self) }),
            decreases n - i,
        {
            let idx = self.active[i];
            proof {
                assert(old(self).active@.take(i as int + 1)[i as int] == old(
                    self,
                ).active@[i as int]);
                assert(old(self).active@.take(i as int + 1).contains(old(self).active@[i as int]));
                assert forall|v: usize|
                    old(self).active@.take(i as int).contains(v) implies old(self).active@.take(
                    i as int + 1,
                ).contains(v) by {
                    let t = choose|t: int|
                        0 <= t < i && old(self).active@.take(i as int)[t] == v;
                    assert(old(self).active@.take(i as int + 1)[t] == v);
                };
                assert(old(self).active@.contains(old(self).active@[i as int]));
            }
            let ghost out_before = out@;
            let idx_copy = idx;
            let v = &mut self.views[idx];
            if let Some(state) = v.push_state() {
                out.push((idx_copy, state));
                proof {
                    assert(out@[out_before.len() as int].0 == old(self).active@[i as int]);
                }
            }
            proof {
                assert forall|j: int|
                    0 <= j < i + 1 && #[trigger] crate::view::spec_view_dirty_any(
                        old(self).views@[old(self).active@[j] as int],
                    ) implies exists|t: int|
                    0 <= t < out@.len() && (#[trigger] out@[t]).0 == old(self).active@[j] by {
                    if j < i {
                        let t = choose|t: int|
                            0 <= t < out_before.len() && out_before[t].0 == old(self).active@[j];
                        assert(out@[t].0 == old(self).active@[j]);
                    } else {
                        assert(out@[out@.len() - 1].0 == old(self).active@[i as int]);
                    }
                };
            }
            i = i + 1;
        }
        proof {
            assert(old(self).active@.take(n as int) =~= old(self).active@);
            assert forall|t: int|
                0 <= t < self.views@.len() && old(self).active@.contains(t as usize) implies #[trigger] crate::view::spec_view_pushed(
                old(self).views@[t],
                self.views@[t],
            ) by {
                let j = choose|j: int|
                    0 <= j < old(self).active@.len() && old(self).active@[j] == t as usize;
                assert(old(self).active@[j] as int == t);
                assert(crate::view::spec_view_pushed(
                    old(self).views@[old(self).active@[j] as int],
                    self.views@[old(self).active@[j] as int],
                ));
            };
            assert forall|t: int|
                0 <= t < self.views@.len() && old(self).active@.contains(t as usize)
                    && #[trigger] crate::view::spec_view_dirty_any(old(self).views@[t]) implies exists|u: int|
                0 <= u < out@.len() && (#[trigger] out@[u]).0 == t by {
                let j = choose|j: int|
                    0 <= j < old(self).active@.len() && old(self).active@[j] == t as usize;
                assert(old(self).active@[j] as int == t);
                assert(crate::view::spec_view_dirty_any(
                    old(self).views@[old(self).active@[j] as int],
                ));
                let u = choose|u: int|
                    0 <= u < out@.len() && out@[u].0 == old(self).active@[j];
                assert(out@[u].0 == t as usize);
            };
        }
        out
    }

    /// Bind every active view (all its panes) to the case.
    pub fn set_case(&mut self, case: Option<CaseMeta>)
        requires
            old(self).wf(),
            match case {
                Some(c) => c.wf(),
                None => true,
            },
        ensures
            final(self).wf(),
            final(self).views@.len() == old(self).views@.len(),
            forall|i: int|
                0 <= i < final(self).views@.len() && !old(self).active@.contains(i as usize)
                    ==> final(self).views@[i] == old(self).views@[i],
            forall|i: int|
                0 <= i < final(self).views@.len() && old(self).active@.contains(i as usize)
                    ==> #[trigger] crate::view::spec_view_case_bound(
                    old(self).views@[i],
                    final(self).views@[i],
                    case,
                ),
            *final(self) == (ViewControl { views: final(self).views, ..*old(self) }),
    {
        let n = self.active.len();
        let nv = self.views.len();
        let mut i: usize = 0;
        while i < n
            invariant
                i <= n,
                n == self.active@.len(),
                nv == self.views@.len(),
                self.active@ == old(self).active@,
                self.views@.len() == old(self).views@.len(),
                match case {
                    Some(c) => c.wf(),
                    None => true,
                },
                forall|j: int| 0 <= j < self.active@.len() ==> (#[trigger] self.active@[j])
                    < self.views@.len(),
                forall|j1: int, j2: int|
                    0 <= j1 < self.active@.len() && 0 <= j2 < self.active@.len() && j1 != j2
                        ==> self.active@[j1] != self.active@[j2],
                forall|v: int| 0 <= v < self.views@.len() ==> (#[trigger] self.views@[v]).wf(),
                forall|v: int|
                    0 <= v < self.views@.len() && !old(self).active@.take(i as int).contains(
                        v as usize,
                    ) ==> self.views@[v] == old(self).views@[v],
                forall|j: int|
                    0 <= j < i ==> #[trigger] crate::view::spec_view_case_bound(
                        old(self).views@[old(self).active@[j] as int],
                        self.views@[old(self).active@[j] as int],
                        case,
                    ),
                *self == (ViewControl { views: self.views, ..*old(self) }),
            decreases n - i,
        {
            let idx = self.active[i];
            proof {
                assert(old(self).active@.take(i as int + 1)[i as int] == old(
                    self,
                ).active@[i as int]);
                assert(old(self).active@.take(i as int + 1).contains(old(self).active@[i as int]));
                assert forall|v: usize|
                    old(self).active@.take(i as int).contains(v) implies old(self).active@.take(
                    i as int + 1,
                ).contains(v) by {
                    let t = choose|t: int|
                        0 <= t < i && old(self).active@.take(i as int)[t] == v;
                    assert(old(self).active@.take(i as int + 1)[t] == v);
                };
            }
            let c = duplicate_case(&case);
            let v = &mut self.views[idx];
            v.set_case(c);
            i = i + 1;
        }
        proof {
            assert(old(self).active@.take(n as int) =~= old(self).active@);
            assert forall|t: int|
                0 <= t < self.views@.len() && old(self).active@.contains(t as usize) implies #[trigger] crate::view::spec_view_case_bound(
                old(self).views@[t],
                self.views@[t],
                case,
            ) by {
                let j = choose|j: int|
                    0 <= j < old(self).active@.len() && old(self).active@[j] == t as usize;
                assert(old(self).active@[j] as int == t);
                assert(crate::view::spec_view_case_bound(
                    old(self).views@[old(self).active@[j] as int],
                    self.views@[old(self).active@[j] as int],
                    case,
                ));
            };
        }
    }

    /// Replace the active list: out-of-range and repeated indices are
    /// dropped, the order of first occurrences is kept (focus routing is
    /// first-match over this order); a focus no longer active is cleared.
    /// No retiling happens here; callers re-apply the partition policy
    /// separately.
    pub fn set_active(&mut self, idxs: &Vec<usize>)
        requires
            old(self).wf(),
        ensures
            final(self).wf(),
            final(self).views@ == old(self).views@,
            forall|i: int|
                0 <= i < final(self).active@.len() ==> (#[trigger] final(self).active@[i])
                    < final(self).views@.len() && idxs@.contains(final(self).active@[i]),
            forall|i: int|
                0 <= i < idxs@.len() && idxs@[i] < old(self).views@.len() ==> final(self).active@.contains(idxs@[i]),
            forall|t1: int, t2: int|
                0 <= t1 < t2 < final(self).active@.len() ==> spec_first_index(
                    idxs@,
                    final(self).active@[t1],
                ) < spec_first_index(idxs@, final(self).active@[t2]),
            *final(self) == (ViewControl {
                active: final(self).active,
                focus: final(self).focus,
                ..*old(self)
            }),
    {
        let mut fresh: Vec<usize> = Vec::new();
        let m = idxs.len();
        let views_len = self.views.len();
        let mut i: usize = 0;
        while i < m
            invariant
                i <= m,
                m == idxs@.len(),
                views_len == self.views@.len(),
                forall|j: int| 0 <= j < fresh@.len() ==> (#[trigger] fresh@[j]) < views_len
                    && idxs@.contains(fresh@[j]),
                forall|j1: int, j2: int|
                    0 <= j1 < fresh@.len() && 0 <= j2 < fresh@.len() && j1 != j2 ==> fresh@[j1]
                        != fresh@[j2],
                forall|j: int|
                    0 <= j < i && idxs@[j] < views_len ==> fresh@.contains(#[trigger] idxs@[j]),
                forall|j: int|
                    0 <= j < fresh@.len() ==> 0 <= spec_first_index(idxs@, #[trigger] fresh@[j])
                        < i,
                forall|t1: int, t2: int|
                    0 <= t1 < t2 < fresh@.len() ==> spec_first_index(idxs@, fresh@[t1])
                        < spec_first_index(idxs@, fresh@[t2]),
                *self == *old(self),
            decreases m - i,
        {
            let candidate = idxs[i];
            if candidate < views_len {
                let mut present = false;
                let k = fresh.len();
                let mut j: usize = 0;
                while j < k
                    invariant
                        j <= k,
                        k == fresh@.len(),
                        present == exists|t: int| 0 <= t < j && fresh@[t] == candidate,
                    decreases k - j,
                {
                    if fresh[j] == candidate {
                        present = true;
                    }
                    j = j + 1;
                }
                let ghost before = fresh@;
                if !present {
                    fresh.push(candidate);
                }
                proof {
                    assert forall|x: usize| before.contains(x) implies fresh@.contains(x) by {
                        let t = choose|t: int| 0 <= t < before.len() && before[t] == x;
                        assert(fresh@[t] == x);
                    };
                    if !present {
                        assert(fresh@[before.len() as int] == candidate);
                        assert(fresh@.contains(candidate));
                        // this is the first occurrence of the candidate: any
                        // earlier one would already have been kept
                        assert forall|j2: int| 0 <= j2 < i implies idxs@[j2] != candidate by {
                            if idxs@[j2] == candidate {
                                assert(fresh@.contains(idxs@[j2]));
                            }
                        };
                        lemma_first_index_here(idxs@, candidate, i as int);
                    } else {
                        assert(before.contains(candidate));
                    }
                }
            }
            i = i + 1;
        }
        self.active = fresh;
        match self.focus {
            Some(f) => {
                let mut still = false;
                let k = self.active.len();
                let mut j: usize = 0;
                while j < k
                    invariant
                        j <= k,
                        k == self.active@.len(),
                        still == exists|t: int| 0 <= t < j && self.active@[t] == f,
                    decreases k - j,
                {
                    if self.active[j] == f {
                        still = true;
                    }
                    j = j + 1;
                }
                if !still {
                    self.focus = None;
                }
            },
            None => {},
        }
    }

    /// Move the whole control to a new rectangle and re-apply the partition
    /// policy over it.
    pub fn set_layout(&mut self, layout: LayoutRect)
        requires
            old(self).wf(),
        ensures
            final(self).wf(),
            final(self).layout == layout,
            final(self).views@.len() == old(self).views@.len(),
            final(self).partition == old(self).partition,
            spec_partitioned(
                ViewControl { layout, ..*old(self) },
                *final(self),
                old(self).partition.0 as int,
                old(self).partition.1 as int,
            ),
    {
        self.layout = layout;
        self.update_partitions();
    }

    /// Center the layout in a window of the given size and invalidate every
    /// active view.
    pub fn set_window_size(&mut self, size: (u32, u32))
        requires
            old(self).wf(),
        ensures
            final(self).wf(),
            final(self).layout.x == (if size.0 > old(self).layout.width {
                ((size.0 - old(self).layout.width) / 2) as int
            } else {
                0
            }),
            final(self).layout.y == (if size.1 > old(self).layout.height {
                ((size.1 - old(self).layout.height) / 2) as int
            } else {
                0
            }),
            final(self).layout.width == old(self).layout.width,
            final(self).layout.height == old(self).layout.height,
            final(self).views@.len() == old(self).views@.len(),
            spec_actives_invalidated(
                ViewControl { layout: final(self).layout, ..*old(self) },
                *final(self),
            ),
    {
        self.layout.x = if size.0 > self.layout.width {
            (size.0 - self.layout.width) / 2
        } else {
            0
        };
        self.layout.y = if size.1 > self.layout.height {
            (size.1 - self.layout.height) / 2
        } else {
            0
        };
        self.invalidate();
    }

    /// Bind a data channel to the first view whose channel name matches the
    /// label: true exactly when such a view exists and had no channel yet,
    /// and then exactly that view is bound (its panes invalidated); in every
    /// other case nothing changes.
    pub fn set_datachannel(&mut self, label: &String) -> (r: bool)
        requires
            old(self).wf(),
        ensures
            final(self).wf(),
            final(self).views@.len() == old(self).views@.len(),
            spec_find_label(old(self).views@, label@) is None ==> !r && *final(self) == *old(
                self,
            ),
            match spec_find_label(old(self).views@, label@) {
                Some(f) => {
                    &&& r == !old(self).views@[f].channel_bound
                    &&& !r ==> final(self).views@ == old(self).views@
                    &&& r ==> final(self).views@[f] == (View {
                        channel_bound: true,
                        panes: final(self).views@[f].panes,
                        ..old(self).views@[f]
                    }) && final(self).views@[f].panes@.len() == old(self).views@[f].panes@.len()
                        && (forall|k: int|
                        0 <= k < old(self).views@[f].panes@.len()
                            ==> final(self).views@[f].panes@[k] == (Pane {
                            dirty: true,
                            ..old(self).views@[f].panes@[k]
                        }))
                    &&& forall|j: int|
                        0 <= j < old(self).views@.len() && j != f ==> final(self).views@[j] == old(
                            self,
                        ).views@[j]
                },
                None => true,
            },
            *final(self) == (ViewControl { views: final(self).views, ..*old(self) }),
    {
        let n = self.views.len();
        let mut i: usize = 0;
        while i < n
            invariant
                i <= n,
                n == self.views@.len(),
                self.wf(),
                forall|j: int| 0 <= j < i ==> (#[trigger] self.views@[j]).data_id@ != label@,
                *self == *old(self),
            decreases n - i,
        {
            let matches_label = self.views[i].data_id().eq(label);
            if matches_label {
                proof {
                    lemma_find_label_found(old(self).views@, label@, i as int);
                }
                let v = &mut self.views[i];
                let r = v.set_datachannel(label);
                proof {
                    if !r {
                        assert(self.views@ =~= old(self).views@);
                    }
                }
                return r;
            }
            i = i + 1;
        }
        proof {
            lemma_find_label_none(old(self).views@, label@);
        }
        false
    }

    /// Hand an incoming frame to the view it names; false when the slot is
    /// unknown or the frame size filter dropped it.
    pub fn push_sample(&mut self, id: usize, sample: SampleMeta) -> (accepted: bool)
        requires
            old(self).wf(),
        ensures
            final(self).wf(),
            final(self).views@.len() == old(self).views@.len(),
            id >= old(self).views@.len() ==> !accepted && *final(self) == *old(self),
            id < old(self).views@.len() ==> accepted == spec_accept_sample(
                old(self).views@[id as int].layout,
                old(self).views@[id as int].video_scaling as int,
                old(self).views@[id as int].dirty,
                sample,
            ),
            id < old(self).views@.len() && accepted ==> final(self).views@[id as int] == (View {
                current_sample: Some(sample),
                dirty: false,
                ..old(self).views@[id as int]
            }) && forall|j: int|
                0 <= j < final(self).views@.len() && j != id ==> final(self).views@[j] == old(
                    self,
                ).views@[j],
            id < old(self).views@.len() && !accepted ==> final(self).views@ == old(self).views@
                && *final(self) == (ViewControl { views: final(self).views, ..*old(self) }),
    {
        if id < self.views.len() {
            let v = &mut self.views[id];
            let r = v.push_sample(sample);
            proof {
                if !r {
                    assert(self.views@ =~= old(self).views@);
                }
            }
            r
        } else {
            false
        }
    }

    /// Record the catalogs delivered by the signaling collaborator.
    pub fn set_case_meta(&mut self, protocols: Option<Protocols>, cases: Vec<CaseMeta>)
        requires
            old(self).wf(),
            forall|i: int| 0 <= i < cases@.len() ==> (#[trigger] cases@[i]).wf(),
        ensures
            final(self).wf(),
            *final(self) == (ViewControl {
                cases: Some(cases),
                protocols,
                ..*old(self)
            }),
    {
        self.cases = Some(cases);
        self.protocols = protocols;
    }

    /// Set the requested pane grid and re-apply the partition policy.
    pub fn partition(&mut self, rows: usize, columns: usize)
        requires
            old(self).wf(),
            rows >= 1,
            columns >= 1,
            rows * columns <= usize::MAX,
        ensures
            final(self).wf(),
            final(self).partition == (rows, columns),
            final(self).views@.len() == old(self).views@.len(),
            spec_partitioned(*old(self), *final(self), rows as int, columns as int),
            *final(self) == (ViewControl {
                views: final(self).views,
                active: final(self).active,
                focus: None,
                partition: (rows, columns),
                ..*old(self)
            }),
    {
        self.partition = (rows, columns);
        self.update_partitions();
    }

    /// Distribute the requested pane grid over the view pool (see
    /// `spec_policy`): activate as many views as the policy needs, tile
    /// them into the control's rectangle and partition each into its pane
    /// grid. The focus is dropped, since the pane set changes.
    pub fn update_partitions(&mut self)
        requires
            old(self).wf(),
        ensures
            final(self).wf(),
            final(self).views@.len() == old(self).views@.len(),
            final(self).partition == old(self).partition,
            spec_partitioned(
                *old(self),
                *final(self),
                old(self).partition.0 as int,
                old(self).partition.1 as int,
            ),
            *final(self) == (ViewControl {
                views: final(self).views,
                active: final(self).active,
                focus: None,
                ..*old(self)
            }),
    {
        self.clear_focus();
        let rows = self.partition.0;
        let columns = self.partition.1;
        let n_views = self.views.len();
        let (view_rows, view_columns, pane_rows, pane_columns): (usize, usize, usize, usize) = if rows
            * columns <= n_views {
            (rows, columns, 1, 1)
        } else if rows <= n_views {
            (rows, 1, 1, columns)
        } else {
            (1, 1, rows, columns)
        };
        proof {
            vstd::arithmetic::mul::lemma_mul_basics(rows as int);
            vstd::arithmetic::mul::lemma_mul_basics(columns as int);
            vstd::arithmetic::mul::lemma_mul_basics(1int);
            assert(view_rows * view_columns <= usize::MAX && view_rows >= 1 && view_columns >= 1);
            assert(pane_rows * pane_columns <= usize::MAX && pane_rows >= 1 && pane_columns >= 1);
        }
        let view_layouts = crate::geom::tile(
            (self.layout.width, self.layout.height),
            view_rows,
            view_columns,
        );
        let k = view_layouts.len();
        proof {
            assert(k <= n_views) by {
                if rows * columns <= n_views {
                } else if rows <= n_views {
                    vstd::arithmetic::mul::lemma_mul_basics(rows as int);
                } else {
                    vstd::arithmetic::mul::lemma_mul_basics(1int);
                }
            }
        }
        let mut fresh_active: Vec<usize> = Vec::new();
        let mut i: usize = 0;
        while i < k
            invariant
                i <= k,
                fresh_active@.len() == i,
                forall|j: int| 0 <= j < i ==> fresh_active@[j] == j,
            decreases k - i,
        {
            fresh_active.push(i);
            i = i + 1;
        }
        self.active = fresh_active;
        let mut i: usize = 0;
        while i < k
            invariant
                i <= k,
                k <= n_views,
                k == self.active@.len(),
                n_views == self.views@.len(),
                k == view_layouts@.len(),
                pane_rows >= 1,
                pane_columns >= 1,
                pane_rows * pane_columns <= usize::MAX,
                forall|j: int| 0 <= j < k ==> self.active@[j] == j,
                forall|v: int| 0 <= v < n_views ==> (#[trigger] self.views@[v]).wf(),
                forall|v: int| i <= v < n_views ==> self.views@[v] == old(self).views@[v].spec_unfocused(),
                forall|j: int|
                    0 <= j < i ==> {
                        let v = #[trigger] self.views@[j];
                        &&& v.layout == view_layouts@[j]
                        &&& v.pane_grid == (pane_rows, pane_columns)
                        &&& v.panes@.len() == pane_rows * pane_columns
                        &&& v.video_scaling == crate::schedule::spec_scaling(
                            old(self).views@[j].schedule,
                            (view_layouts@[j].width, view_layouts@[j].height),
                        )
                        &&& v.current_sample is None
                        &&& v.dirty
                        &&& v.focus is None
                        &&& forall|p: int|
                            0 <= p < v.panes@.len() ==> (#[trigger] v.panes@[p]).interaction == (
                            if p < old(self).views@[j].panes@.len() {
                                old(self).views@[j].panes@[p].interaction
                            } else {
                                crate::interaction::InteractionState::spec_new()
                            })
                        &&& forall|p: int|
                            0 <= p < v.panes@.len() ==> case_eq(
                                (#[trigger] v.panes@[p]).case,
                                if p < old(self).views@[j].panes@.len() {
                                    old(self).views@[j].panes@[p].case
                                } else {
                                    None
                                },
                            )
                        &&& forall|p: int|
                            0 <= p < v.panes@.len() ==> (#[trigger] v.panes@[p]).layout
                                == grid_cell(
                                p,
                                pane_columns as int,
                                cell_side(v.layout.width as int, pane_columns as int),
                                cell_side(v.layout.height as int, pane_rows as int),
                            ) && v.panes@[p].id == (old(self).views@[j].video_id, p as usize)
                                && v.panes@[p].dirty
                        &&& v == (View {
                            layout: v.layout,
                            video_scaling: v.video_scaling,
                            current_sample: None,
                            dirty: true,
                            panes: v.panes,
                            focus: None,
                            pane_grid: (pane_rows, pane_columns),
                            ..old(self).views@[j]
                        })
                    },
                *self == (ViewControl {
                    views: self.views,
                    active: self.active,
                    focus: None,
                    ..*old(self)
                }),
            decreases k - i,
        {
            let rect = view_layouts[i];
            let v = &mut self.views[i];
            v.set_layout(rect);
            v.partition(pane_rows, pane_columns);
            i = i + 1;
        }
    }

    /// Invalidate every active view, so each one re-arms its frame size
    /// filter and resends its state on the next tick.
    pub fn invalidate(&mut self)
        requires
            old(self).wf(),
        ensures
            final(self).wf(),
            final(self).views@.len() == old(self).views@.len(),
            spec_actives_invalidated(*old(self), *final(self)),
    {
        let n = self.active.len();
        let nv = self.views.len();
        let mut i: usize = 0;
        while i < n
            invariant
                i <= n,
                n == self.active@.len(),
                nv == self.views@.len(),
                self.active@ == old(self).active@,
                self.views@.len() == old(self).views@.len(),
                forall|j: int| 0 <= j < self.active@.len() ==> (#[trigger] self.active@[j])
                    < self.views@.len(),
                forall|j1: int, j2: int|
                    0 <= j1 < self.active@.len() && 0 <= j2 < self.active@.len() && j1 != j2
                        ==> self.active@[j1] != self.active@[j2],
                forall|v: int| 0 <= v < self.views@.len() ==> (#[trigger] self.views@[v]).wf(),
                forall|v: int|
                    0 <= v < self.views@.len() && !old(self).active@.take(i as int).contains(
                        v as usize,
                    ) ==> self.views@[v] == old(self).views@[v],
                forall|j: int|
                    0 <= j < i ==> self.views@[old(self).active@[j] as int] == (View {
                        dirty: true,
                        ..old(self).views@[old(self).active@[j] as int]
                    }),
                *self == (ViewControl { views: self.views, ..*old(self) }),
            decreases n - i,
        {
            let idx = self.active[i];
            proof {
                assert(old(self).active@.take(i as int + 1)[i as int] == old(
                    self,
                ).active@[i as int]);
                assert(old(self).active@.take(i as int + 1).contains(old(self).active@[i as int]));
                assert forall|v: usize|
                    old(self).active@.take(i as int).contains(v) implies old(self).active@.take(
                    i as int + 1,
                ).contains(v) by {
                    let t = choose|t: int|
                        0 <= t < i && old(self).active@.take(i as int)[t] == v;
                    assert(old(self).active@.take(i as int + 1)[t] == v);
                };
            }
            let v = &mut self.views[idx];
            v.invalidate();
            i = i + 1;
        }
        proof {
            assert(old(self).active@.take(n as int) =~= old(self).active@);
            assert forall|t: int|
                0 <= t < self.views@.len() && old(self).active@.contains(t as usize) implies self.views@[t]
                == (View { dirty: true, ..old(self).views@[t] }) by {
                let j = choose|j: int|
                    0 <= j < old(self).active@.len() && old(self).active@[j] == t as usize;
                assert(old(self).active@[j] as int == t);
                assert(self.views@[old(self).active@[j] as int] == (View {
                    dirty: true,
                    ..old(self).views@[old(self).active@[j] as int]
                }));
            };
        }
    }

    /// Advance cine playback across the active views; of all the sync
    /// requests this tick produced, only the oldest is applied (the rest
    /// are dropped, preventing feedback loops).
    pub fn handle_timer_event(&mut self)
        requires
            old(self).wf(),
        ensures
            final(self).wf(),
            final(self).views@.len() == old(self).views@.len(),
            exists|mid: ViewControl, su: Option<((usize, usize), SyncOperation)>|
                #[trigger] spec_timer_round(*old(self), mid, *final(self), su),
    {
        let mut sync_ops: Vec<((usize, usize), SyncOperation)> = Vec::new();
        let n = self.active.len();
        let nv = self.views.len();
        let mut i: usize = 0;
        while i < n
            invariant
                i <= n,
                n == self.active@.len(),
                nv == self.views@.len(),
                self.active@ == old(self).active@,
                self.views@.len() == old(self).views@.len(),
                forall|j: int| 0 <= j < self.active@.len() ==> (#[trigger] self.active@[j])
                    < self.views@.len(),
                forall|j1: int, j2: int|
                    0 <= j1 < self.active@.len() && 0 <= j2 < self.active@.len() && j1 != j2
                        ==> self.active@[j1] != self.active@[j2],
                forall|v: int| 0 <= v < self.views@.len() ==> (#[trigger] self.views@[v]).wf(),
                forall|v: int|
                    0 <= v < self.views@.len() && !old(self).active@.take(i as int).contains(
                        v as usize,
                    ) ==> self.views@[v] == old(self).views@[v],
                forall|j: int|
                    0 <= j < i ==> #[trigger] spec_view_ticked(
                        old(self).views@[old(self).active@[j] as int],
                        self.views@[old(self).active@[j] as int],
                    ),
                *self == (ViewControl { views: self.views, ..*old(self) }),
            decreases n - i,
        {
            let idx = self.active[i];
            proof {
                assert(old(self).active@.take(i as int + 1)[i as int] == old(
                    self,
                ).active@[i as int]);
                assert(old(self).active@.take(i as int + 1).contains(old(self).active@[i as int]));
                assert forall|v: usize|
                    old(self).active@.take(i as int).contains(v) implies old(self).active@.take(
                    i as int + 1,
                ).contains(v) by {
                    let t = choose|t: int|
                        0 <= t < i && old(self).active@.take(i as int)[t] == v;
                    assert(old(self).active@.take(i as int + 1)[t] == v);
                };
            }
            let v = &mut self.views[idx];
            let mut ops = v.handle_timer_event();
            sync_ops.append(&mut ops);
            i = i + 1;
        }
        proof {
            assert(old(self).active@.take(n as int) =~= old(self).active@);
            assert forall|t: int|
                0 <= t < self.views@.len() && old(self).active@.contains(t as usize) implies #[trigger] spec_view_ticked(
                old(self).views@[t],
                self.views@[t],
            ) by {
                let j = choose|j: int|
                    0 <= j < old(self).active@.len() && old(self).active@[j] == t as usize;
                assert(old(self).active@[j] as int == t);
                assert(spec_view_ticked(
                    old(self).views@[old(self).active@[j] as int],
                    self.views@[old(self).active@[j] as int],
                ));
            };
        }
        let ghost mid = *self;
        proof {
            assert(spec_ticked_actives(*old(self), mid));
        }
        if sync_ops.len() > 0 {
            let first = sync_ops[0];
            self.apply_update(Some(first));
            proof {
                assert(spec_timer_round(*old(self), mid, *self, Some(first)));
            }
        } else {
            proof {
                assert(spec_timer_round(
                    *old(self),
                    mid,
                    *self,
                    None::<((usize, usize), SyncOperation)>,
                ));
            }
        }
    }
}

/// What the partition policy guarantees after re-partitioning: the active
/// set is exactly the first `spec_policy_views` slots, and each active view
/// is tiled into its policy cell and carries the policy's pane grid, its
/// panes keeping their interaction state and case where they survive.
pub open spec fn spec_partitioned(
    before: ViewControl,
    after: ViewControl,
    rows: int,
    columns: int,
) -> bool {
    let n_views = before.views@.len() as int;
    let vgrid = spec_policy(rows, columns, n_views).0;
    let pgrid = spec_policy(rows, columns, n_views).1;
    &&& after.active@.len() == vgrid.0 * vgrid.1
    &&& after.active@.len() <= after.views@.len()
    &&& forall|j: int| 0 <= j < after.active@.len() ==> after.active@[j] == j
    &&& forall|j: int|
        0 <= j < after.active@.len() ==> {
            let v = #[trigger] after.views@[j];
            &&& v.layout == grid_cell(
                j,
                vgrid.1,
                cell_side(before.layout.width as int, vgrid.1),
                cell_side(before.layout.height as int, vgrid.0),
            )
            &&& v.pane_grid == (pgrid.0 as usize, pgrid.1 as usize)
            &&& v.panes@.len() == pgrid.0 * pgrid.1
            &&& forall|p: int|
                0 <= p < v.panes@.len() ==> (#[trigger] v.panes@[p]).interaction == (if p
                    < before.views@[j].panes@.len() {
                    before.views@[j].panes@[p].interaction
                } else {
                    crate::interaction::InteractionState::spec_new()
                })
            &&& forall|p: int|
                0 <= p < v.panes@.len() ==> case_eq(
                    (#[trigger] v.panes@[p]).case,
                    if p < before.views@[j].panes@.len() {
                        before.views@[j].panes@[p].case
                    } else {
                        None
                    },
                )
            &&& forall|p: int|
                0 <= p < v.panes@.len() ==> (#[trigger] v.panes@[p]).layout == grid_cell(
                    p,
                    pgrid.1,
                    cell_side(v.layout.width as int, pgrid.1),
                    cell_side(v.layout.height as int, pgrid.0),
                ) && v.panes@[p].id == (before.views@[j].video_id, p as usize)
                    && v.panes@[p].dirty
        }
    &&& forall|j: int|
        after.active@.len() <= j < after.views@.len() ==> after.views@[j]
            == before.views@[j].spec_unfocused()
}


impl ViewControl {
    /// Cycle the focused pane's case by `direction` through the catalog,
    /// wrapping in both directions (see `spec_cycle_target`).
    pub fn change_case(&mut self, direction: i32)
        requires
            old(self).wf(),
        ensures
            final(self).wf(),
            final(self).views@.len() == old(self).views@.len(),
            spec_case_cycled(*old(self), *final(self), direction as int),
    {
        proof {
            assert(old(self).views@.take(old(self).views@.len() as int) =~= old(self).views@);
        }
        let current_case: Option<String> = match self.focus {
            Some(f) => {
                proof {
                    assert(old(self).active@.contains(f));
                }
                self.views[f].focused_case_key()
            },
            None => None,
        };
        let new_index: Option<usize> = match &current_case {
            None => Some(0),
            Some(cc) => match &self.cases {
                Some(cs) => {
                    let len = cs.len();
                    if len == 0 {
                        None
                    } else {
                        let pos = find_case_index(cs, cc);
                        Some(wrap_catalog_index(pos, direction, len))
                    }
                },
                None => None,
            },
        };
        proof {
            match new_index {
                Some(ci) => {
                    assert(spec_cycle_target(*old(self), direction as int) == Some(ci as int));
                },
                None => {
                    assert(spec_cycle_target(*old(self), direction as int) is None);
                },
            }
        }
        if let Some(ci) = new_index {
            let case: Option<CaseMeta> = match &self.cases {
                Some(cs) => if ci < cs.len() {
                    Some(cs[ci].duplicate())
                } else {
                    None
                },
                None => None,
            };
            match self.focus {
                Some(f) => {
                    proof {
                        assert(old(self).active@.contains(f));
                    }
                    let v = &mut self.views[f];
                    v.set_focused_case(case);
                    proof {
                        if old(self).views@[f as int].focus is None {
                            assert(self.views@ =~= old(self).views@);
                        }
                    }
                },
                None => {},
            }
        }
    }

    /// Cycle the current protocol by `direction` through the catalog and
    /// re-apply the one it lands on.
    pub fn change_protocol(&mut self, direction: i32)
        requires
            old(self).wf(),
        ensures
            final(self).wf(),
            final(self).views@.len() == old(self).views@.len(),
            spec_protocol_cycled(*old(self), *final(self), direction as int),
    {
        let selected: Option<LayoutCfg> = match (&self.current_protocol_key, &self.protocols) {
            (Some(current), Some(protocols)) => {
                let len = protocols.layout.len();
                if len == 0 {
                    None
                } else {
                    let pos = find_protocol_index(&protocols.layout, current);
                    let ni = wrap_catalog_index(pos, direction, len);
                    let ghost target = protocols.layout@[ni as int];
                    let copy = duplicate_layout_cfg(&protocols.layout[ni]);
                    proof {
                        assert(spec_template_slots(copy) =~= spec_template_slots(target));
                    }
                    Some(copy)
                }
            },
            _ => None,
        };
        if let Some(layout) = selected {
            self.set_protocol(layout);
        }
    }

    pub fn select_next_case(&mut self)
        requires
            old(self).wf(),
        ensures
            final(self).wf(),
            final(self).views@.len() == old(self).views@.len(),
            spec_case_cycled(*old(self), *final(self), 1),
    {
        self.change_case(1);
    }

    pub fn select_previous_case(&mut self)
        requires
            old(self).wf(),
        ensures
            final(self).wf(),
            final(self).views@.len() == old(self).views@.len(),
            spec_case_cycled(*old(self), *final(self), -1),
    {
        self.change_case(-1);
    }

    pub fn select_next_protocol(&mut self)
        requires
            old(self).wf(),
        ensures
            final(self).wf(),
            final(self).views@.len() == old(self).views@.len(),
            spec_protocol_cycled(*old(self), *final(self), 1),
    {
        self.change_protocol(1);
    }

    pub fn select_previous_protocol(&mut self)
        requires
            old(self).wf(),
        ensures
            final(self).wf(),
            final(self).views@.len() == old(self).views@.len(),
            spec_protocol_cycled(*old(self), *final(self), -1),
    {
        self.change_protocol(-1);
    }

    /// Apply a layout template: remember its name, re-partition to its
    /// grid, and hand its case keys out to the resulting pane slots in
    /// template order (slots past the list get no case). A degenerate
    /// template (a zero or overflowing grid) leaves the state unchanged.
    pub fn set_protocol(&mut self, protocol: LayoutCfg)
        requires
            old(self).wf(),
        ensures
            final(self).wf(),
            final(self).views@.len() == old(self).views@.len(),
            spec_protocol_applied(
                *old(self),
                *final(self),
                protocol.name@,
                protocol.rows as int,
                protocol.columns as int,
                spec_template_slots(protocol),
            ),
    {
        if protocol.rows < 1 || protocol.columns < 1 {
            return ;
        }
        if protocol.rows > usize::MAX / protocol.columns {
            proof {
                lemma_grid_overflow(protocol.rows as int, protocol.columns as int);
            }
            return ;
        }
        proof {
            lemma_grid_fits(protocol.rows as int, protocol.columns as int);
        }
        let rows = protocol.rows;
        let columns = protocol.columns;
        let ghost nv = self.views@.len() as int;
        let ghost slots = spec_template_slots(protocol);
        proof {
            lemma_policy_total(rows as int, columns as int, nv);
        }
        self.current_protocol_key = Some(protocol.name);
        self.partition(rows, columns);
        let ghost mid = *self;
        let m = protocol.panes.len();
        let mut pool: Vec<Option<CaseMeta>> = Vec::new();
        let mut i: usize = 0;
        while i < m
            invariant
                i <= m,
                m == protocol.panes@.len(),
                slots == spec_template_slots(protocol),
                slots.len() == m,
                self.wf(),
                pool@.len() == i,
                forall|j: int|
                    0 <= j < pool@.len() ==> match #[trigger] pool@[j] {
                        Some(c) => c.wf(),
                        None => true,
                    },
                forall|j: int|
                    0 <= j < pool@.len() ==> case_eq(
                        #[trigger] pool@[j],
                        spec_slot_case(old(self).cases, slots, j),
                    ),
                self.cases == old(self).cases,
                *self == mid,
            decreases m - i,
        {
            let c = self.get_case_for_key(&protocol.panes[i].case);
            proof {
                assert(slots[i as int] == protocol.panes@[i as int].case@);
            }
            pool.push(c);
            i = i + 1;
        }
        let n = self.active.len();
        let ghost panes_per = spec_policy_panes(rows as int, columns as int, nv);
        proof {
            assert(n as int == spec_policy_views(rows as int, columns as int, nv));
        }
        let mut offset: usize = 0;
        let mut i: usize = 0;
        while i < n
            invariant
                i <= n,
                n == self.active@.len(),
                nv == self.views@.len() as int,
                nv == old(self).views@.len() as int,
                n as int == spec_policy_views(rows as int, columns as int, nv),
                panes_per == spec_policy_panes(rows as int, columns as int, nv),
                spec_policy_views(rows as int, columns as int, nv) * panes_per == rows as int
                    * columns as int,
                rows as int * columns as int <= usize::MAX,
                panes_per >= 1,
                self.wf(),
                slots.len() == pool@.len(),
                forall|j: int|
                    0 <= j < pool@.len() ==> match #[trigger] pool@[j] {
                        Some(c) => c.wf(),
                        None => true,
                    },
                forall|j: int|
                    0 <= j < pool@.len() ==> case_eq(
                        #[trigger] pool@[j],
                        spec_slot_case(old(self).cases, slots, j),
                    ),
                forall|j: int| 0 <= j < n ==> #[trigger] self.active@[j] == j,
                forall|j: int|
                    0 <= j < n ==> #[trigger] self.views@[j].panes@.len() == panes_per,
                offset as int == i as int * panes_per,
                forall|j: int|
                    0 <= j < i ==> #[trigger] spec_view_slots_bound(
                        *old(self),
                        self.views@[j],
                        j,
                        rows as int,
                        columns as int,
                        slots,
                    ),
                *self == (ViewControl { views: self.views, ..mid }),
            decreases n - i,
        {
            proof {
                assert((i as int + 1) * panes_per <= n as int * panes_per) by {
                    vstd::arithmetic::mul::lemma_mul_inequality(
                        i as int + 1,
                        n as int,
                        panes_per,
                    );
                }
                assert((i as int + 1) * panes_per == i as int * panes_per + panes_per) by {
                    vstd::arithmetic::mul::lemma_mul_is_distributive_add_other_way(
                        panes_per,
                        i as int,
                        1,
                    );
                }
                vstd::arithmetic::mul::lemma_mul_nonnegative(i as int, panes_per);
            }
            let idx = self.active[i];
            let ghost view_before = self.views@[idx as int];
            let v = &mut self.views[idx];
            offset = v.set_cases(&pool, offset);
            proof {
                assert(spec_view_slots_bound(
                    *old(self),
                    self.views@[i as int],
                    i as int,
                    rows as int,
                    columns as int,
                    slots,
                )) by {
                    assert forall|k: int| 0 <= k < self.views@[i as int].panes@.len() implies {
                        let case = spec_slot_case(
                            old(self).cases,
                            slots,
                            i as int * panes_per + k,
                        );
                        &&& case_eq(
                            (#[trigger] self.views@[i as int].panes@[k]).case,
                            case,
                        )
                        &&& self.views@[i as int].panes@[k].interaction
                            == (crate::interaction::InteractionState {
                            image_count: Some(
                                match case {
                                    Some(cm) => cm.number_of_images,
                                    None => 0,
                                },
                            ),
                            viewstate: ViewState { frame: Some(0), ..ViewState::spec_new() },
                            ..crate::interaction::InteractionState::spec_new()
                        })
                        &&& self.views@[i as int].panes@[k].dirty
                    } by {
                        let entry: Option<CaseMeta> = if i as int * panes_per + k
                            < pool@.len() {
                            pool@[i as int * panes_per + k]
                        } else {
                            None
                        };
                        assert(crate::pane::spec_case_bound(
                            view_before.panes@[k],
                            self.views@[i as int].panes@[k],
                            entry,
                        ));
                        if i as int * panes_per + k < pool@.len() {
                            assert(case_eq(
                                pool@[i as int * panes_per + k],
                                spec_slot_case(old(self).cases, slots, i as int * panes_per + k),
                            ));
                        }
                    };
                }
            }
            i = i + 1;
        }
        proof {
            assert(spec_policy_shape(*self, rows as int, columns as int, nv));
        }
    }

    /// The catalog case carrying `key`, when the catalog has one.
    pub fn get_case_for_key(&self, case_key: &String) -> (r: Option<CaseMeta>)
        requires
            self.wf(),
        ensures
            r is Some <==> (self.cases is Some && spec_find_case(
                spec_case_seq(self.cases),
                case_key@,
            ) is Some),
            r is Some ==> r->0.wf() && r->0.key@ == case_key@ && case_eq(
                r,
                Some(
                    spec_case_seq(self.cases)[spec_find_case(
                        spec_case_seq(self.cases),
                        case_key@,
                    )->0],
                ),
            ),
    {
        match &self.cases {
            Some(cs) => match find_case_index(cs, case_key) {
                Some(i) => Some(cs[i].duplicate()),
                None => None,
            },
            None => None,
        }
    }

    /// Bind the case carrying `key` to every active view; an unknown key (or
    /// a missing catalog) leaves the state unchanged.
    pub fn select_case_from_key(&mut self, case_key: &String)
        requires
            old(self).wf(),
        ensures
            final(self).wf(),
            final(self).views@.len() == old(self).views@.len(),
            spec_case_key_applied(*old(self), *final(self), case_key@),
    {
        let selected = self.get_case_for_key(case_key);
        if let Some(case) = selected {
            let ghost witness = case;
            self.set_case(Some(case));
            proof {
                assert(spec_case_selected(*old(self), *self, Some(witness)));
            }
        }
    }

    /// Apply the configured default case, or the catalog's first case when
    /// none is configured; with no catalog nothing changes.
    pub fn select_default_case(&mut self)
        requires
            old(self).wf(),
        ensures
            final(self).wf(),
            final(self).views@.len() == old(self).views@.len(),
            spec_default_case_applied(*old(self), *final(self)),
    {
        let case_key: Option<String> = match &self.default_case_key {
            Some(k) => Some(k.clone()),
            None => None,
        };
        match case_key {
            Some(k) => {
                self.select_case_from_key(&k);
            },
            None => {
                let selected: Option<CaseMeta> = match &self.cases {
                    Some(cs) => if cs.len() > 0 {
                        Some(cs[0].duplicate())
                    } else {
                        None
                    },
                    None => None,
                };
                if let Some(case) = selected {
                    let ghost witness = case;
                    self.set_case(Some(case));
                    proof {
                        assert(spec_case_selected(*old(self), *self, Some(witness)));
                    }
                }
            },
        }
    }

    /// Apply the layout template carrying `key`; an unknown name (or no
    /// catalog) leaves the state unchanged.
    pub fn select_protocol_from_key(&mut self, protocol_key: &String)
        requires
            old(self).wf(),
        ensures
            final(self).wf(),
            final(self).views@.len() == old(self).views@.len(),
            spec_protocol_key_applied(*old(self), *final(self), protocol_key@),
    {
        let selected: Option<LayoutCfg> = match &self.protocols {
            Some(p) => match find_protocol_index(&p.layout, protocol_key) {
                Some(i) => {
                    let ghost target = p.layout@[i as int];
                    let copy = duplicate_layout_cfg(&p.layout[i]);
                    proof {
                        assert(spec_template_slots(copy) =~= spec_template_slots(target));
                    }
                    Some(copy)
                },
                None => None,
            },
            None => None,
        };
        if let Some(layout) = selected {
            self.set_protocol(layout);
        }
    }

    /// Apply the configured default protocol when one is set, else fall
    /// back to the default case.
    pub fn select_default_display(&mut self)
        requires
            old(self).wf(),
        ensures
            final(self).wf(),
            final(self).views@.len() == old(self).views@.len(),
            match old(self).default_protocol_key {
                Some(k) => spec_protocol_key_applied(*old(self), *final(self), k@),
                None => spec_default_case_applied(*old(self), *final(self)),
            },
    {
        let protocol_key: Option<String> = match &self.default_protocol_key {
            Some(k) => Some(k.clone()),
            None => None,
        };
        match protocol_key {
            Some(k) => {
                self.select_protocol_from_key(&k);
            },
            None => {
                self.select_default_case();
            },
        }
    }

    /// The loaded case keys, one per line; a placeholder without a catalog.
    pub fn get_case_string(&self) -> (r: String)
        requires
            self.wf(),
        ensures
            match self.cases {
                Some(cs) => r@ == spec_join_lines(
                    cs@.map(|i: int, c: CaseMeta| c.key@),
                    cs@.len() as int,
                ),
                None => r@ == "<No cases loaded>"@,
            },
    {
        match &self.cases {
            Some(cs) => {
                let ghost keys = cs@.map(|i: int, c: CaseMeta| c.key@);
                let mut s = String::new();
                let n = cs.len();
                let mut i: usize = 0;
                while i < n
                    invariant
                        i <= n,
                        n == cs@.len(),
                        keys == cs@.map(|t: int, c: CaseMeta| c.key@),
                        s@ == spec_join_lines(keys, i as int),
                    decreases n - i,
                {
                    if i > 0 {
                        s.append("\n");
                    }
                    s.append(cs[i].key.as_str());
                    i = i + 1;
                }
                s
            },
            None => "<No cases loaded>".to_owned(),
        }
    }

    /// The loaded protocol names, one per line; a placeholder without a
    /// catalog.
    pub fn get_protocol_string(&self) -> (r: String)
        requires
            self.wf(),
        ensures
            match self.protocols {
                Some(p) => r@ == spec_join_lines(
                    p.layout@.map(|i: int, l: LayoutCfg| l.name@),
                    p.layout@.len() as int,
                ),
                None => r@ == "<No protocols loaded>"@,
            },
    {
        match &self.protocols {
            Some(p) => {
                let ghost keys = p.layout@.map(|i: int, l: LayoutCfg| l.name@);
                let mut s = String::new();
                let n = p.layout.len();
                let mut i: usize = 0;
                while i < n
                    invariant
                        i <= n,
                        n == p.layout@.len(),
                        keys == p.layout@.map(|t: int, l: LayoutCfg| l.name@),
                        s@ == spec_join_lines(keys, i as int),
                    decreases n - i,
                {
                    if i > 0 {
                        s.append("\n");
                    }
                    s.append(p.layout[i].name.as_str());
                    i = i + 1;
                }
                s
            },
            None => "<No protocols loaded>".to_owned(),
        }
    }

    /// The exclusive single-pane toggle. With no snapshot outstanding and a
    /// focused pane: snapshot the partition and every active pane's
    /// `(case, render state)`, collapse to a `1x1` grid, and show the
    /// focused pane's case and state everywhere. With a snapshot
    /// outstanding: restore the saved partition and per-pane states and
    /// discard the snapshot.
    pub fn toggle_1x1(&mut self)
        requires
            old(self).wf(),
        ensures
            final(self).wf(),
            final(self).views@.len() == old(self).views@.len(),
            spec_toggled(*old(self), *final(self)),
    {
        if self.parked.is_some() {
            self.restore_parked();
        } else {
            let focused_settings: Option<(Option<CaseMeta>, ViewState)> = match self.focus {
                Some(f) => {
                    proof {
                        assert(old(self).active@.contains(f));
                    }
                    self.views[f].focused_park_state()
                },
                None => None,
            };
            if let Some(settings) = focused_settings {
                proof {
                    let f = old(self).focus->0;
                    assert(old(self).active@.contains(f));
                    assert(old(self).views@[f as int].wf());
                    let pf = old(self).views@[f as int].focus->0;
                    assert(old(self).views@[f as int].panes@[pf as int].wf());
                }
                self.park_state();
                self.partition(1, 1);
                let ghost shown = spec_focused_settings(*old(self))->0;
                proof {
                    assert(case_eq(settings.0, shown.0));
                    assert(settings.1 == shown.1);
                }
                let n = self.active.len();
                let ghost fixed_active = self.active@;
                let mut i: usize = 0;
                while i < n
                    invariant
                        i <= n,
                        n == self.active@.len(),
                        self.active@ == fixed_active,
                        self.wf(),
                        self.views@.len() == old(self).views@.len(),
                        self.partition == (1usize, 1usize),
                        self.parked is Some,
                        spec_parks(*old(self), self.parked->0),
                        case_eq(settings.0, shown.0),
                        settings.1 == shown.1,
                        match settings.0 {
                            Some(c) => c.wf(),
                            None => true,
                        },
                        match settings.1.frame {
                            Some(f) => f <= i32::MAX,
                            None => true,
                        },
                        forall|j: int|
                            0 <= j < i ==> #[trigger] spec_view_shows(
                                self.views@[self.active@[j] as int],
                                shown,
                            ),
                    decreases n - i,
                {
                    let idx = self.active[i];
                    let c = duplicate_case(&settings.0);
                    let vs = settings.1;
                    let v = &mut self.views[idx];
                    v.set_case(c);
                    v.set_viewstate(vs);
                    i = i + 1;
                }
            }
        }
    }

    /// Snapshot the current partition and every active view's pane states.
    fn park_state(&mut self)
        requires
            old(self).wf(),
        ensures
            final(self).wf(),
            final(self).parked is Some,
            spec_parks(*old(self), final(self).parked->0),
            *final(self) == (ViewControl { parked: final(self).parked, ..*old(self) }),
    {
        let n = self.active.len();
        let mut states: Vec<Vec<(Option<CaseMeta>, ViewState)>> = Vec::new();
        let mut i: usize = 0;
        while i < n
            invariant
                i <= n,
                n == self.active@.len(),
                self.wf(),
                *self == *old(self),
                states@.len() == i,
                forall|j: int|
                    0 <= j < i ==> (#[trigger] states@[j])@.len()
                        == self.views@[self.active@[j] as int].panes@.len(),
                forall|j: int, k: int|
                    0 <= j < i && 0 <= k < states@[j]@.len() ==> case_eq(
                        (#[trigger] states@[j]@[k]).0,
                        self.views@[self.active@[j] as int].panes@[k].case,
                    ) && states@[j]@[k].1
                        == self.views@[self.active@[j] as int].panes@[k].interaction.viewstate,
            decreases n - i,
        {
            let idx = self.active[i];
            let vs = self.views[idx].park_state();
            states.push(vs);
            i = i + 1;
        }
        self.parked = Some(ParkedState { partition: self.partition, states });
        proof {
            let p = final(self).parked->0;
            assert forall|j: int, k: int|
                0 <= j < p.states@.len() && 0 <= k < p.states@[j]@.len() implies (match (
            #[trigger] p.states@[j]@[k]).0 {
                Some(c) => c.wf(),
                None => true,
            } && match p.states@[j]@[k].1.frame {
                Some(f) => f <= i32::MAX,
                None => true,
            }) by {
                let v = old(self).views@[old(self).active@[j] as int];
                assert(v.wf());
                assert(v.panes@[k].wf());
            }
        }
    }

    /// Restore the parked partition and pane states, discarding the
    /// snapshot; without one, nothing changes.
    fn restore_parked(&mut self)
        requires
            old(self).wf(),
        ensures
            final(self).wf(),
            final(self).views@.len() == old(self).views@.len(),
            old(self).parked is Some ==> spec_restores(*old(self), *final(self)),
            old(self).parked is None ==> *final(self) == *old(self),
    {
        let parked = self.parked.take();
        if let Some(parked) = parked {
            let ghost p = old(self).parked->0;
            let mut states = parked.states;
            self.partition(parked.partition.0, parked.partition.1);
            let ghost shaped = *self;
            proof {
                assert(spec_policy_shape(
                    shaped,
                    p.partition.0 as int,
                    p.partition.1 as int,
                    old(self).views@.len() as int,
                ));
            }
            let n = self.active.len();
            let m = states.len();
            let count = if n < m {
                n
            } else {
                m
            };
            let mut i: usize = 0;
            while i < count
                invariant
                    i <= count,
                    count <= n,
                    count <= m,
                    n == self.active@.len(),
                    m == states@.len(),
                    self.wf(),
                    self.views@.len() == old(self).views@.len(),
                    self.partition == old(self).parked->0.partition,
                    self.parked is None,
                    self.active@ == shaped.active@,
                    p == old(self).parked->0,
                    spec_policy_shape(
                        shaped,
                        p.partition.0 as int,
                        p.partition.1 as int,
                        old(self).views@.len() as int,
                    ),
                    forall|j: int|
                        0 <= j < self.views@.len() ==> (#[trigger] self.views@[j]).panes@.len()
                            == shaped.views@[j].panes@.len(),
                    forall|j: int, k: int|
                        0 <= j < states@.len() && 0 <= k < states@[j]@.len() ==> (match (
                        #[trigger] states@[j]@[k]).0 {
                            Some(c) => c.wf(),
                            None => true,
                        } && match states@[j]@[k].1.frame {
                            Some(f) => f <= i32::MAX,
                            None => true,
                        }),
                    forall|j: int|
                        i <= j < states@.len() ==> states@[j] == old(self).parked->0.states@[j],
                    forall|j: int|
                        0 <= j < i ==> #[trigger] spec_view_restored(
                            self.views@[self.active@[j] as int],
                            old(self).parked->0.states@[j]@,
                        ),
                decreases count - i,
            {
                let idx = self.active[i];
                let mut taken: Vec<(Option<CaseMeta>, ViewState)> = Vec::new();
                let slot = &mut states[i];
                core::mem::swap(slot, &mut taken);
                proof {
                    assert(taken == old(self).parked->0.states@[i as int]);
                }
                let v = &mut self.views[idx];
                v.restore_parked(taken);
                i = i + 1;
            }
            proof {
                assert(spec_policy_shape(
                    *self,
                    p.partition.0 as int,
                    p.partition.1 as int,
                    old(self).views@.len() as int,
                ));
            }
        }
    }
}

/// `b` is `a` after one propagated update across the active views: each
/// active view's panes take one step (sync-aware when an operation is
/// supplied, plain otherwise), every other view and the rest of the control
/// are untouched.
pub open spec fn spec_applied_update(
    a: ViewControl,
    b: ViewControl,
    sync_update: Option<((usize, usize), SyncOperation)>,
) -> bool {
    &&& b.views@.len() == a.views@.len()
    &&& forall|i: int|
        0 <= i < b.views@.len() && !a.active@.contains(i as usize) ==> b.views@[i] == a.views@[i]
    &&& forall|i: int|
        0 <= i < b.views@.len() && a.active@.contains(i as usize)
            ==> #[trigger] spec_view_updated(a.views@[i], b.views@[i], sync_update)
    &&& b == (ViewControl { views: b.views, ..a })
}

/// `b` is `a` after one update step of the focused view's focused pane, and
/// `su` is that step's sync request tagged with the pane's identity; with
/// no focused pane, nothing changes and no request arises.
pub open spec fn spec_focused_pane_step(
    a: ViewControl,
    b: ViewControl,
    su: Option<((usize, usize), SyncOperation)>,
) -> bool {
    match a.focus {
        None => b == a && su is None,
        Some(f) => {
            let v = a.views@[f as int];
            match v.focus {
                None => {
                    &&& su is None
                    &&& b.views@ == a.views@
                    &&& b == (ViewControl { views: b.views, ..a })
                },
                Some(p) => {
                    &&& b.views@.len() == a.views@.len()
                    &&& b.views@[f as int].panes@.len() == v.panes@.len()
                    &&& b.views@[f as int].panes@[p as int] == v.panes@[p as int].spec_update().0
                    &&& forall|k: int|
                        0 <= k < v.panes@.len() && k != p ==> b.views@[f as int].panes@[k]
                            == v.panes@[k]
                    &&& b.views@[f as int] == (View {
                        panes: b.views@[f as int].panes,
                        ..v
                    })
                    &&& forall|j: int|
                        0 <= j < a.views@.len() && j != f ==> b.views@[j] == a.views@[j]
                    &&& b == (ViewControl { views: b.views, ..a })
                    &&& su == (match v.panes@[p as int].spec_update().1 {
                        Some(op) => Some((v.panes@[p as int].id, op)),
                        None => None::<((usize, usize), SyncOperation)>,
                    })
                },
            }
        },
    }
}

/// The view `b` is `a` after one timer tick: every pane is untouched or has
/// folded a cine advance (see `Pane::spec_timer_stepped`); nothing else of
/// the view moves.
pub open spec fn spec_view_ticked(a: View, b: View) -> bool {
    &&& b.panes@.len() == a.panes@.len()
    &&& forall|j: int|
        0 <= j < b.panes@.len() ==> crate::pane::spec_timer_stepped(
            a.panes@[j],
            #[trigger] b.panes@[j],
        )
    &&& b == (View { panes: b.panes, ..a })
}

/// `b` is `a` with every active view's panes freshly bound to the case,
/// every other view untouched.
pub open spec fn spec_case_selected(a: ViewControl, b: ViewControl, case: Option<CaseMeta>) -> bool {
    &&& b.views@.len() == a.views@.len()
    &&& forall|i: int|
        0 <= i < b.views@.len() && !a.active@.contains(i as usize) ==> b.views@[i] == a.views@[i]
    &&& forall|i: int|
        0 <= i < b.views@.len() && a.active@.contains(i as usize)
            ==> #[trigger] crate::view::spec_view_case_bound(a.views@[i], b.views@[i], case)
    &&& b == (ViewControl { views: b.views, ..a })
}

/// Every pane of the view carries (a copy of) the case and the render
/// state, and is dirty.
pub open spec fn spec_view_shows(v: View, settings: (Option<CaseMeta>, ViewState)) -> bool {
    forall|k: int|
        0 <= k < v.panes@.len() ==> {
            &&& case_eq((#[trigger] v.panes@[k]).case, settings.0)
            &&& v.panes@[k].interaction.viewstate == settings.1
            &&& v.panes@[k].dirty
        }
}

/// `b` is `a` with every active view invalidated (marked dirty), every
/// other view untouched.
pub open spec fn spec_actives_invalidated(a: ViewControl, b: ViewControl) -> bool {
    &&& b.views@.len() == a.views@.len()
    &&& forall|i: int|
        0 <= i < b.views@.len() && !a.active@.contains(i as usize) ==> b.views@[i] == a.views@[i]
    &&& forall|i: int|
        0 <= i < b.views@.len() && a.active@.contains(i as usize) ==> b.views@[i] == (View {
            dirty: true,
            ..a.views@[i]
        })
    &&& b == (ViewControl { views: b.views, ..a })
}

/// One whole timer tick: `mid` is `a` after the cine pass over the active
/// views, and `b` applies the oldest collected sync request to `mid` (or is
/// `mid` itself when no pane requested one).
pub open spec fn spec_timer_round(
    a: ViewControl,
    mid: ViewControl,
    b: ViewControl,
    su: Option<((usize, usize), SyncOperation)>,
) -> bool {
    &&& spec_ticked_actives(a, mid)
    &&& match su {
        Some(_) => spec_applied_update(mid, b, su),
        None => b == mid,
    }
}

/// `b` is `a` after the cine pass of one timer tick: each active view
/// ticked, every other view untouched.
pub open spec fn spec_ticked_actives(a: ViewControl, b: ViewControl) -> bool {
    &&& b.views@.len() == a.views@.len()
    &&& forall|i: int|
        0 <= i < b.views@.len() && !a.active@.contains(i as usize) ==> b.views@[i] == a.views@[i]
    &&& forall|i: int|
        0 <= i < b.views@.len() && a.active@.contains(i as usize)
            ==> #[trigger] spec_view_ticked(a.views@[i], b.views@[i])
    &&& b == (ViewControl { views: b.views, ..a })
}

/// The view `b` is `a` after one update step of every pane: a sync-aware
/// step when an operation is supplied, a plain step otherwise.
pub open spec fn spec_view_updated(a: View, b: View, sync_update: Option<((usize, usize), SyncOperation)>) -> bool {
    &&& b.panes@.len() == a.panes@.len()
    &&& forall|k: int|
        0 <= k < b.panes@.len() ==> b.panes@[k] == (match sync_update {
            Some(su) => (#[trigger] a.panes@[k]).spec_update_sync(su.0, su.1).0,
            None => a.panes@[k].spec_update().0,
        })
    &&& b == (View { panes: b.panes, ..a })
}

/// The key text of the focused pane's case, when a view has focus, it has
/// a focused pane, and that pane has a case.
pub open spec fn spec_focused_key(vc: ViewControl) -> Option<Seq<char>> {
    match vc.focus {
        Some(f) => match vc.views@[f as int].focus {
            Some(p) => match vc.views@[f as int].panes@[p as int].case {
                Some(c) => Some(c.key@),
                None => None,
            },
            None => None,
        },
        None => None,
    }
}

/// The catalog index case cycling lands on from the control's current
/// state: without a current case the first entry; with one, the found index
/// advanced by `dir` and wrapped around the catalog (an unknown key counts
/// as index 0); nothing when a current case exists but the catalog is
/// missing or empty.
pub open spec fn spec_cycle_target(vc: ViewControl, dir: int) -> Option<int> {
    let cs = spec_case_seq(vc.cases);
    match spec_focused_key(vc) {
        None => Some(0int),
        Some(key) => if !(vc.cases is Some) || cs.len() == 0 {
            None
        } else {
            let base = match spec_find_case(cs, key) {
                Some(i) => i + dir,
                None => 0int,
            };
            Some(base % cs.len() as int)
        },
    }
}

/// `b` is `a` with the focused pane of view `f` rebound to `case`: that
/// pane carries the case, every other pane and view is untouched, and the
/// rest of the control is unchanged.
pub open spec fn spec_focused_case_set(
    a: ViewControl,
    b: ViewControl,
    f: int,
    case: Option<CaseMeta>,
) -> bool {
    &&& b.views@.len() == a.views@.len()
    &&& crate::pane::spec_case_bound(
        a.views@[f].panes@[a.views@[f].focus->0 as int],
        b.views@[f].panes@[a.views@[f].focus->0 as int],
        case,
    )
    &&& forall|j: int| 0 <= j < b.views@.len() && j != f ==> b.views@[j] == a.views@[j]
    &&& forall|k: int|
        0 <= k < b.views@[f].panes@.len() && k != a.views@[f].focus->0 as int
            ==> b.views@[f].panes@[k] == a.views@[f].panes@[k]
    &&& b == (ViewControl { views: b.views, ..a })
}

/// `b` is `a` with at most harmless churn: the same view values.
pub open spec fn spec_views_unchanged(a: ViewControl, b: ViewControl) -> bool {
    &&& b.views@ == a.views@
    &&& b == (ViewControl { views: b.views, ..a })
}

/// The focused pane's `(case, render state)`, when a view has focus and it
/// has a focused pane.
pub open spec fn spec_focused_settings(vc: ViewControl) -> Option<(Option<CaseMeta>, ViewState)> {
    match vc.focus {
        Some(f) => match vc.views@[f as int].focus {
            Some(p) => Some(
                (
                    vc.views@[f as int].panes@[p as int].case,
                    vc.views@[f as int].panes@[p as int].interaction.viewstate,
                ),
            ),
            None => None,
        },
        None => None,
    }
}

/// The park snapshot records the pre-park partition and, per active view in
/// order, every pane's `(case, render state)`.
pub open spec fn spec_parks(a: ViewControl, p: ParkedState) -> bool {
    &&& p.partition == a.partition
    &&& p.states@.len() == a.active@.len()
    &&& forall|j: int|
        0 <= j < p.states@.len() ==> (#[trigger] p.states@[j])@.len()
            == a.views@[a.active@[j] as int].panes@.len()
    &&& forall|j: int, k: int|
        0 <= j < p.states@.len() && 0 <= k < p.states@[j]@.len() ==> case_eq(
            (#[trigger] p.states@[j]@[k]).0,
            a.views@[a.active@[j] as int].panes@[k].case,
        ) && p.states@[j]@[k].1 == a.views@[a.active@[j] as int].panes@[k].interaction.viewstate
}

/// Restoring applies the parked partition through the policy and installs
/// the parked `(case, render state)` pairs onto the re-activated views'
/// panes, in order, as far as the shapes reach.
pub open spec fn spec_restores(a: ViewControl, b: ViewControl) -> bool {
    let p = a.parked->0;
    &&& b.partition == p.partition
    &&& b.parked is None
    &&& spec_policy_shape(b, p.partition.0 as int, p.partition.1 as int, a.views@.len() as int)
    &&& forall|j: int|
        0 <= j < b.active@.len() && j < p.states@.len() ==> #[trigger] spec_view_restored(
            b.views@[b.active@[j] as int],
            p.states@[j]@,
        )
}

/// The active set and per-view pane counts the partition policy yields for
/// a `rows x columns` grid over `n_views` views.
pub open spec fn spec_policy_shape(b: ViewControl, rows: int, columns: int, n_views: int) -> bool {
    &&& b.active@.len() == spec_policy_views(rows, columns, n_views)
    &&& b.active@.len() <= b.views@.len()
    &&& forall|j: int| 0 <= j < b.active@.len() ==> #[trigger] b.active@[j] == j
    &&& forall|j: int|
        0 <= j < b.active@.len() ==> #[trigger] b.views@[j].panes@.len() == spec_policy_panes(
            rows,
            columns,
            n_views,
        )
}

/// Every pane of the view carries the snapshot's `(case, render state)`, as
/// far as both sides reach.
pub open spec fn spec_view_restored(v: View, states: Seq<(Option<CaseMeta>, ViewState)>) -> bool {
    forall|k: int|
        0 <= k < v.panes@.len() && k < states.len() ==> case_eq(
            (#[trigger] v.panes@[k]).case,
            states[k].0,
        ) && v.panes@[k].interaction.viewstate == states[k].1
}

/// Keys joined with one line break between each adjacent pair, over the
/// first `i` keys.
pub open spec fn spec_join_lines(keys: Seq<Seq<char>>, i: int) -> Seq<char>
    decreases i,
{
    if i <= 0 {
        Seq::empty()
    } else if i == 1 {
        keys[0]
    } else {
        spec_join_lines(keys, i - 1) + "\n"@ + keys[i - 1]
    }
}

/// The case sequence a catalog holds (empty without one).
pub open spec fn spec_case_seq(cases: Option<Vec<CaseMeta>>) -> Seq<CaseMeta> {
    match cases {
        Some(cs) => cs@,
        None => Seq::empty(),
    }
}

/// The first catalog index whose case carries `key`.
fn find_case_index(cases: &Vec<CaseMeta>, key: &String) -> (r: Option<usize>)
    ensures
        r is Some <==> spec_find_case(cases@, key@) is Some,
        r is Some ==> Some(r->0 as int) == spec_find_case(cases@, key@) && r->0 < cases@.len()
            && cases@[r->0 as int].key@ == key@,
{
    let n = cases.len();
    let mut i: usize = 0;
    while i < n
        invariant
            i <= n,
            n == cases@.len(),
            forall|j: int| 0 <= j < i ==> (#[trigger] cases@[j]).key@ != key@,
        decreases n - i,
    {
        let hit = cases[i].key.eq(key);
        if hit {
            proof {
                lemma_find_case_found(cases@, key@, i as int);
            }
            return Some(i);
        }
        i = i + 1;
    }
    proof {
        lemma_find_case_none(cases@, key@);
    }
    None
}

/// The first catalog index whose layout template carries `name`.
fn find_protocol_index(layouts: &Vec<LayoutCfg>, name: &String) -> (r: Option<usize>)
    ensures
        r is Some <==> spec_find_protocol(layouts@, name@) is Some,
        r is Some ==> Some(r->0 as int) == spec_find_protocol(layouts@, name@) && r->0
            < layouts@.len() && layouts@[r->0 as int].name@ == name@,
{
    let n = layouts.len();
    let mut i: usize = 0;
    while i < n
        invariant
            i <= n,
            n == layouts@.len(),
            forall|j: int| 0 <= j < i ==> (#[trigger] layouts@[j]).name@ != name@,
        decreases n - i,
    {
        let hit = layouts[i].name.eq(name);
        if hit {
            proof {
                lemma_find_protocol_found(layouts@, name@, i as int);
            }
            return Some(i);
        }
        i = i + 1;
    }
    proof {
        lemma_find_protocol_none(layouts@, name@);
    }
    None
}

/// An equal copy of a layout template.
fn duplicate_layout_cfg(l: &LayoutCfg) -> (r: LayoutCfg)
    ensures
        r.name@ == l.name@,
        r.rows == l.rows,
        r.columns == l.columns,
        r.panes@.len() == l.panes@.len(),
        forall|j: int| 0 <= j < r.panes@.len() ==> (#[trigger] r.panes@[j]).case@
            == l.panes@[j].case@,
{
    let n = l.panes.len();
    let mut panes: Vec<PaneCfg> = Vec::new();
    let mut i: usize = 0;
    while i < n
        invariant
            i <= n,
            n == l.panes@.len(),
            panes@.len() == i,
            forall|j: int| 0 <= j < i ==> (#[trigger] panes@[j]).case@ == l.panes@[j].case@,
        decreases n - i,
    {
        panes.push(PaneCfg { case: l.panes[i].case.clone() });
        i = i + 1;
    }
    LayoutCfg { name: l.name.clone(), rows: l.rows, columns: l.columns, panes }
}

/// The wrapped catalog index that cycling by `direction` from `pos` lands
/// on: `(pos + direction) mod len`, counting an unknown position as 0.
fn wrap_catalog_index(pos: Option<usize>, direction: i32, len: usize) -> (r: usize)
    requires
        len >= 1,
        match pos {
            Some(i) => i < len,
            None => true,
        },
    ensures
        r < len,
        r as int == (match pos {
            Some(i) => i + direction,
            None => 0int,
        }) % (len as int),
{
    let base: i128 = match pos {
        Some(i) => i as i128 + direction as i128,
        None => 0,
    };
    if base >= 0 {
        proof {
            vstd::arithmetic::div_mod::lemma_mod_bound(base as int, len as int);
        }
        ((base as u128) % (len as u128)) as usize
    } else {
        let mag: u128 = (-base) as u128;
        let rem: u128 = mag % (len as u128);
        proof {
            vstd::arithmetic::div_mod::lemma_mod_bound(mag as int, len as int);
            vstd::arithmetic::div_mod::lemma_fundamental_div_mod(mag as int, len as int);
            let q = mag as int / len as int;
            let r0 = mag as int % len as int;
            if r0 == 0 {
                assert(base as int == (-q) * len) by {
                    vstd::arithmetic::mul::lemma_mul_unary_negation(q, len as int);
                    vstd::arithmetic::mul::lemma_mul_is_commutative(len as int, q);
                }
                assert((-q) * len % (len as int) == 0) by {
                    vstd::arithmetic::div_mod::lemma_mod_multiples_basic(-q, len as int);
                }
            } else {
                assert(base as int == (-q - 1) * len + (len - r0)) by {
                    vstd::arithmetic::mul::lemma_mul_is_distributive_sub_other_way(
                        len as int,
                        -q,
                        1,
                    );
                    vstd::arithmetic::mul::lemma_mul_unary_negation(q, len as int);
                    vstd::arithmetic::mul::lemma_mul_is_commutative(len as int, q);
                    vstd::arithmetic::mul::lemma_mul_basics(len as int);
                }
                assert(base as int % (len as int) == len - r0) by {
                    vstd::arithmetic::div_mod::lemma_fundamental_div_mod_converse_mod(
                        base as int,
                        len as int,
                        -q - 1,
                        len as int - r0,
                    );
                }
            }
        }
        if rem == 0 {
            0
        } else {
            len - (rem as usize)
        }
    }
}

proof fn lemma_find_case_found(cases: Seq<CaseMeta>, key: Seq<char>, i: int)
    requires
        0 <= i < cases.len(),
        cases[i].key@ == key,
        forall|j: int| 0 <= j < i ==> (#[trigger] cases[j]).key@ != key,
    ensures
        spec_find_case(cases, key) == Some(i),
    decreases i,
{
    if i == 0 {
    } else {
        lemma_find_case_found(cases.skip(1), key, i - 1);
    }
}

proof fn lemma_find_case_none(cases: Seq<CaseMeta>, key: Seq<char>)
    requires
        forall|j: int| 0 <= j < cases.len() ==> (#[trigger] cases[j]).key@ != key,
    ensures
        spec_find_case(cases, key) is None,
    decreases cases.len(),
{
    if cases.len() > 0 {
        lemma_find_case_none(cases.skip(1), key);
    }
}

/// When `x` first occurs at position `i`, its first-occurrence index is
/// `i`.
proof fn lemma_first_index_here(s: Seq<usize>, x: usize, i: int)
    requires
        0 <= i < s.len(),
        s[i] == x,
        forall|j: int| 0 <= j < i ==> s[j] != x,
    ensures
        spec_first_index(s, x) == i,
    decreases i,
{
    if i == 0 {
    } else {
        lemma_first_index_here(s.skip(1), x, i - 1);
    }
}

proof fn lemma_find_label_found(views: Seq<View>, label: Seq<char>, i: int)
    requires
        0 <= i < views.len(),
        views[i].data_id@ == label,
        forall|j: int| 0 <= j < i ==> (#[trigger] views[j]).data_id@ != label,
    ensures
        spec_find_label(views, label) == Some(i),
    decreases i,
{
    if i == 0 {
    } else {
        lemma_find_label_found(views.skip(1), label, i - 1);
    }
}

proof fn lemma_find_label_none(views: Seq<View>, label: Seq<char>)
    requires
        forall|j: int| 0 <= j < views.len() ==> (#[trigger] views[j]).data_id@ != label,
    ensures
        spec_find_label(views, label) is None,
    decreases views.len(),
{
    if views.len() > 0 {
        lemma_find_label_none(views.skip(1), label);
    }
}

proof fn lemma_find_protocol_found(layouts: Seq<LayoutCfg>, name: Seq<char>, i: int)
    requires
        0 <= i < layouts.len(),
        layouts[i].name@ == name,
        forall|j: int| 0 <= j < i ==> (#[trigger] layouts[j]).name@ != name,
    ensures
        spec_find_protocol(layouts, name) == Some(i),
    decreases i,
{
    if i == 0 {
    } else {
        lemma_find_protocol_found(layouts.skip(1), name, i - 1);
    }
}

proof fn lemma_find_protocol_none(layouts: Seq<LayoutCfg>, name: Seq<char>)
    requires
        forall|j: int| 0 <= j < layouts.len() ==> (#[trigger] layouts[j]).name@ != name,
    ensures
        spec_find_protocol(layouts, name) is None,
    decreases layouts.len(),
{
    if layouts.len() > 0 {
        lemma_find_protocol_none(layouts.skip(1), name);
    }
}

/// The policy's view count times its per-view pane count is exactly the
/// requested grid size, in every precedence branch.
proof fn lemma_policy_total(rows: int, columns: int, n_views: int)
    requires
        rows >= 1,
        columns >= 1,
        n_views >= 1,
    ensures
        spec_policy_views(rows, columns, n_views) * spec_policy_panes(rows, columns, n_views)
            == rows * columns,
        spec_policy_views(rows, columns, n_views) >= 1,
        spec_policy_panes(rows, columns, n_views) >= 1,
{
    vstd::arithmetic::mul::lemma_mul_basics(rows);
    vstd::arithmetic::mul::lemma_mul_basics(columns);
    vstd::arithmetic::mul::lemma_mul_basics(rows * columns);
    vstd::arithmetic::mul::lemma_mul_strictly_positive(rows, columns);
    if rows * columns <= n_views {
    } else if rows <= n_views {
        assert((rows * 1) * (1 * columns) == rows * columns) by {
            vstd::arithmetic::mul::lemma_mul_basics(rows);
            vstd::arithmetic::mul::lemma_mul_basics(columns);
        }
    } else {
        assert((1int * 1) * (rows * columns) == rows * columns) by {
            vstd::arithmetic::mul::lemma_mul_basics(rows * columns);
        }
    }
}

proof fn lemma_grid_fits(rows: int, columns: int)
    requires
        rows >= 1,
        columns >= 1,
        rows <= usize::MAX as int / columns,
    ensures
        rows * columns <= usize::MAX as int,
{
    vstd::arithmetic::mul::lemma_mul_inequality(rows, usize::MAX as int / columns, columns);
    vstd::arithmetic::div_mod::lemma_fundamental_div_mod(usize::MAX as int, columns);
    vstd::arithmetic::div_mod::lemma_mod_bound(usize::MAX as int, columns);
    vstd::arithmetic::mul::lemma_mul_is_commutative(usize::MAX as int / columns, columns);
}

proof fn lemma_grid_overflow(rows: int, columns: int)
    requires
        rows >= 1,
        columns >= 1,
        rows > usize::MAX as int / columns,
    ensures
        rows * columns > usize::MAX as int,
{
    vstd::arithmetic::mul::lemma_mul_inequality(usize::MAX as int / columns + 1, rows, columns);
    vstd::arithmetic::div_mod::lemma_fundamental_div_mod(usize::MAX as int, columns);
    vstd::arithmetic::div_mod::lemma_mod_bound(usize::MAX as int, columns);
    vstd::arithmetic::mul::lemma_mul_is_distributive_add_other_way(
        columns,
        usize::MAX as int / columns,
        1,
    );
    vstd::arithmetic::mul::lemma_mul_is_commutative(usize::MAX as int / columns, columns);
}

proof fn lemma_active_focus_found(
    views: Seq<View>,
    active: Seq<usize>,
    position: (i64, i64),
    i: int,
)
    requires
        0 <= i < active.len(),
        active[i] < views.len(),
        views[active[i] as int].layout.spec_contains(position),
        forall|j: int|
            0 <= j < i ==> (#[trigger] active[j]) < views.len() && !views[active[j] as int].layout.spec_contains(
                position,
            ),
    ensures
        spec_active_focus(views, active, position) == Some(active[i]),
    decreases i,
{
    if i == 0 {
    } else {
        lemma_active_focus_found(views, active.skip(1), position, i - 1);
    }
}

proof fn lemma_active_focus_none(views: Seq<View>, active: Seq<usize>, position: (i64, i64))
    requires
        forall|j: int|
            0 <= j < active.len() ==> (#[trigger] active[j]) < views.len()
                && !views[active[j] as int].layout.spec_contains(position),
    ensures
        spec_active_focus(views, active, position) is None,
    decreases active.len(),
{
    if active.len() > 0 {
        lemma_active_focus_none(views, active.skip(1), position);
    }
}


/// Park/restore round trip: parking a control whose shape follows its own
/// partition policy and then restoring reproduces the pre-park partition,
/// the same active set, and every active pane's `(case, render state)`.
pub proof fn lemma_park_restore_round_trip(s0: ViewControl, s1: ViewControl, s2: ViewControl)
    requires
        s0.wf(),
        spec_policy_shape(
            s0,
            s0.partition.0 as int,
            s0.partition.1 as int,
            s0.views@.len() as int,
        ),
        s0.active@.len() <= s0.views@.len(),
        s1.parked is Some,
        spec_parks(s0, s1.parked->0),
        s1.views@.len() == s0.views@.len(),
        spec_restores(s1, s2),
        s2.views@.len() == s1.views@.len(),
    ensures
        s2.partition == s0.partition,
        s2.active@ == s0.active@,
        forall|j: int, k: int|
            0 <= j < s0.active@.len() && 0 <= k
                < s0.views@[s0.active@[j] as int].panes@.len() ==> case_eq(
                (#[trigger] s2.views@[s0.active@[j] as int].panes@[k]).case,
                s0.views@[s0.active@[j] as int].panes@[k].case,
            ) && s2.views@[s0.active@[j] as int].panes@[k].interaction.viewstate
                == s0.views@[s0.active@[j] as int].panes@[k].interaction.viewstate,
{
    let p = s1.parked->0;
    let rows = s0.partition.0 as int;
    let columns = s0.partition.1 as int;
    let n = s0.views@.len() as int;
    assert(p.partition == s0.partition);
    assert(spec_policy_shape(s2, rows, columns, n));
    assert(s2.active@.len() == s0.active@.len());
    assert(s2.active@ =~= s0.active@);
    assert forall|j: int, k: int|
        0 <= j < s0.active@.len() && 0 <= k
            < s0.views@[s0.active@[j] as int].panes@.len() implies case_eq(
        (#[trigger] s2.views@[s0.active@[j] as int].panes@[k]).case,
        s0.views@[s0.active@[j] as int].panes@[k].case,
    ) && s2.views@[s0.active@[j] as int].panes@[k].interaction.viewstate
        == s0.views@[s0.active@[j] as int].panes@[k].interaction.viewstate by {
        assert(s0.active@[j] == j);
        assert(s0.views@[j].panes@.len() == spec_policy_panes(rows, columns, n));
        assert(p.states@[j]@.len() == s0.views@[j].panes@.len());
        assert(s2.active@[j] == j);
        assert(s2.views@[j].panes@.len() == spec_policy_panes(rows, columns, n));
        assert(spec_view_restored(s2.views@[j], p.states@[j]@));
        assert(case_eq(p.states@[j]@[k].0, s0.views@[j].panes@[k].case));
        assert(case_eq(s2.views@[j].panes@[k].case, p.states@[j]@[k].0));
        assert(s2.views@[j].panes@[k].interaction.viewstate == p.states@[j]@[k].1);
    };
}

} // verus!
