//! The catalog and wire data types exchanged with the remote peer.
//!
//! Rates are in thousandths of a megabyte per second, scale factors in
//! percent, timestamps in milliseconds; the serialization boundary converts.

use crate::geom::LayoutRect;
use crate::geom::ViewportSize;
use crate::view_state::ViewState;
use vstd::prelude::*;

verus! {

/// A selectable media case and its frame count bound.
#[derive(Debug)]
pub struct CaseMeta {
    pub key: String,
    pub number_of_images: usize,
}

impl CaseMeta {
    /// Machine-limit invariant: the frame count fits the wire's `i32` sync
    /// deltas.
    pub open spec fn wf(self) -> bool {
        self.number_of_images <= i32::MAX
    }

    /// An equal copy.
    pub fn duplicate(&self) -> (r: CaseMeta)
        ensures
            r.key@ == self.key@,
            r.number_of_images == self.number_of_images,
    {
        CaseMeta { key: self.key.clone(), number_of_images: self.number_of_images }
    }
}

/// An equal copy of an optional case.
pub fn duplicate_case(case: &Option<CaseMeta>) -> (r: Option<CaseMeta>)
    ensures
        case_eq(r, *case),
{
    match case {
        Some(c) => Some(c.duplicate()),
        None => None,
    }
}

/// Two optional cases carry the same key text and frame count.
pub open spec fn case_eq(a: Option<CaseMeta>, b: Option<CaseMeta>) -> bool {
    match (a, b) {
        (Some(x), Some(y)) => x.key@ == y.key@ && x.number_of_images == y.number_of_images,
        (None, None) => true,
        _ => false,
    }
}

/// One pane slot of a layout template: the case key it shows.
#[derive(Debug)]
pub struct PaneCfg {
    pub case: String,
}

/// A named layout template: a partition and the case key of each slot.
#[derive(Debug)]
pub struct LayoutCfg {
    pub name: String,
    pub rows: usize,
    pub columns: usize,
    pub panes: Vec<PaneCfg>,
}

/// The protocol catalog delivered by the signaling collaborator.
#[derive(Debug)]
pub struct Protocols {
    pub layout: Vec<LayoutCfg>,
}

/// The connection-request payload sent per view.
#[derive(Debug)]
pub struct ClientConfig {
    pub id: String,
    pub viewport: ViewportSize,
    /// Downscale factor, percent.
    pub video_scaling: u32,
    pub gpu: bool,
    pub lossless: bool,
    /// Thousandths of a megabyte per second; 0 requests lossless coding.
    pub bitrate: u64,
    pub preset: String,
    pub fullrange: bool,
}

impl Default for ClientConfig {
    fn default() -> (r: ClientConfig)
        ensures
            r.id@ == "foo"@,
            r.viewport == (ViewportSize { width: 64, height: 64 }),
            r.video_scaling == 100,
            r.gpu == false,
            r.lossless == false,
            r.bitrate == 4000,
            r.preset@ == "default"@,
            r.fullrange == true,
    {
        ClientConfig {
            id: "foo".to_owned(),
            viewport: ViewportSize { width: 64, height: 64 },
            video_scaling: 100,
            gpu: false,
            lossless: false,
            bitrate: 4000,
            preset: "default".to_owned(),
            fullrange: true,
        }
    }
}

/// The render snapshot of one pane inside a `RenderState` message.
#[derive(Debug)]
pub struct PaneState {
    pub layout: LayoutRect,
    pub view_state: ViewState,
    pub key: Option<String>,
}

/// The per-view wire message: layout, sequence number, pane snapshots and
/// the current rate settings.
#[derive(Debug)]
pub struct RenderState {
    pub panes: Vec<PaneState>,
    pub layout: LayoutRect,
    pub seq: u64,
    /// Milliseconds, wrapped at one second.
    pub timestamp: u32,
    pub snapshot: bool,
    /// Thousandths of a megabyte per second.
    pub bitrate: u64,
    /// Downscale factor, percent.
    pub scaling: u32,
}

impl Default for RenderState {
    fn default() -> (r: RenderState)
        ensures
            r.panes@.len() == 1,
            r.panes@[0].view_state == ViewState::spec_new(),
            r.panes@[0].key is None,
            r.panes@[0].layout == (LayoutRect { x: 0, y: 0, width: 0, height: 0 }),
            r.layout == (LayoutRect { x: 0, y: 0, width: 0, height: 0 }),
            r.seq == 0,
            r.timestamp == 0,
            r.snapshot == false,
            r.bitrate == 4000,
            r.scaling == 100,
    {
        let mut panes: Vec<PaneState> = Vec::new();
        panes.push(
            PaneState {
                view_state: ViewState::new(),
                key: None,
                layout: LayoutRect { x: 0, y: 0, width: 0, height: 0 },
            },
        );
        RenderState {
            panes,
            layout: LayoutRect { x: 0, y: 0, width: 0, height: 0 },
            seq: 0,
            timestamp: 0,
            snapshot: false,
            bitrate: 4000,
            scaling: 100,
        }
    }
}

impl RenderState {
    /// The default message with the given sequence number.
    pub fn with_seq(seq: u64) -> (r: RenderState)
        ensures
            r.seq == seq,
            r.panes@.len() == 1,
            r.bitrate == 4000,
            r.scaling == 100,
    {
        let mut r = RenderState::default();
        r.seq = seq;
        r
    }
}

/// A message on a view's data channel.
#[derive(Debug)]
pub enum DataMessage {
    NewState(RenderState),
    Eof(u64),
}

/// A message to or from the signaling collaborator.
#[derive(Debug)]
pub enum AppMessage {
    Connect(Vec<ClientConfig>),
    Ice { candidate: String, sdp_mline_index: u32 },
    Sdp { type_: String, sdp: String },
    GetCases,
    Case((Option<Protocols>, Vec<CaseMeta>)),
    Close,
    Reconfigure(Vec<ClientConfig>),
}

} // verus!
