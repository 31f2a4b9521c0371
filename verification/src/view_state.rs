//! The full visual transform and playback position of one pane.
//!
//! Continuous quantities (magnification, position, window/level, variate)
//! are fixed-point values: `v` stands for `v / FP_ONE` (see `fixed`).

use crate::fixed::clamp_i64;
use crate::fixed::clamp_range;
use crate::fixed::fp_scale;
use crate::fixed::fp_scale_spec;
use crate::fixed::sat_add;
use crate::fixed::FP_ONE;
use vstd::prelude::*;

verus! {

/// Magnification, either relative to a viewport fit or in pixel units.
#[derive(Debug, Clone, Copy, PartialEq, Eq, Structural)]
pub enum Zoom {
    Fit(i64),
    Pixel(i64),
}

/// Pan offset, relative to the viewport or absolute.
#[derive(Debug, Clone, Copy, PartialEq, Eq)]
pub enum Position {
    Relative((i64, i64)),
    Absolute((i64, i64)),
}

/// Window/level: brightness/contrast-style rendering parameters.
#[derive(Debug, Clone, Copy, PartialEq, Eq, Structural)]
pub struct Wl {
    pub width: i64,
    pub center: i64,
}

/// The render snapshot of one pane: transform, playback frame and auxiliary
/// controls, mutated incrementally by interaction events.
#[derive(Debug, Clone, Copy, PartialEq, Eq)]
pub struct ViewState {
    pub zoom: Zoom,
    pub pos: Position,
    pub frame: Option<u32>,
    pub wl: Wl,
    pub cursor: Option<(i64, i64)>,
    pub variate: Option<i64>,
}

impl Zoom {
    /// The magnification value, whichever mode it is in.
    pub open spec fn magnification(self) -> int {
        match self {
            Zoom::Fit(m) => m as int,
            Zoom::Pixel(m) => m as int,
        }
    }

    /// The same mode with magnification `m`.
    pub open spec fn with_magnification(self, m: int) -> Zoom {
        match self {
            Zoom::Fit(_) => Zoom::Fit(m as i64),
            Zoom::Pixel(_) => Zoom::Pixel(m as i64),
        }
    }
}

impl Position {
    pub open spec fn coords(self) -> (int, int) {
        match self {
            Position::Relative(p) => (p.0 as int, p.1 as int),
            Position::Absolute(p) => (p.0 as int, p.1 as int),
        }
    }

    pub open spec fn with_coords(self, x: int, y: int) -> Position {
        match self {
            Position::Relative(_) => Position::Relative((x as i64, y as i64)),
            Position::Absolute(_) => Position::Absolute((x as i64, y as i64)),
        }
    }
}

impl ViewState {
    /// The initial state: fit zoom at 1.0, origin position, no frame, unit
    /// window/level, no cursor, no variate.
    pub open spec fn spec_new() -> ViewState {
        ViewState {
            zoom: Zoom::Fit(FP_ONE),
            pos: Position::Relative((0, 0)),
            frame: None,
            wl: Wl { width: FP_ONE, center: FP_ONE },
            cursor: None,
            variate: None,
        }
    }

    pub fn new() -> (r: ViewState)
        ensures
            r == ViewState::spec_new(),
    {
        ViewState {
            zoom: Zoom::Fit(FP_ONE),
            pos: Position::Relative((0, 0)),
            frame: None,
            wl: Wl { width: FP_ONE, center: FP_ONE },
            cursor: None,
            variate: None,
        }
    }

    /// An absolute, pixel-zoomed state at `position`, when one is given.
    pub fn for_pointer(position: Option<(i64, i64)>) -> (r: Option<ViewState>)
        ensures
            r is Some <==> position is Some,
            position is Some ==> r == Some(
                ViewState {
                    zoom: Zoom::Pixel(FP_ONE),
                    pos: Position::Absolute(position->0),
                    frame: None,
                    wl: Wl { width: FP_ONE, center: FP_ONE },
                    cursor: None,
                    variate: None,
                },
            ),
    {
        if let Some(position) = position {
            Some(
                ViewState {
                    zoom: Zoom::Pixel(FP_ONE),
                    pos: Position::Absolute(position),
                    frame: None,
                    wl: Wl { width: FP_ONE, center: FP_ONE },
                    cursor: None,
                    variate: None,
                },
            )
        } else {
            None
        }
    }

    pub fn set_zoom_mode(&mut self, z: Zoom)
        ensures
            *final(self) == (ViewState { zoom: z, ..*old(self) }),
    {
        self.zoom = z;
    }

    /// The state after multiplying the magnification by `num / FP_ONE`.
    pub open spec fn spec_update_magnification(self, num: int) -> ViewState {
        ViewState {
            zoom: self.zoom.with_magnification(
                fp_scale_spec(self.zoom.magnification(), num, FP_ONE as int),
            ),
            ..self
        }
    }

    /// Multiply the magnification by the fixed-point factor `num / FP_ONE`,
    /// keeping the zoom mode.
    pub fn update_magnification(&mut self, num: i64)
        ensures
            *final(self) == old(self).spec_update_magnification(num as int),
    {
        match self.zoom {
            Zoom::Fit(current) => {
                self.zoom = Zoom::Fit(fp_scale(current, num, FP_ONE as u64));
            },
            Zoom::Pixel(current) => {
                self.zoom = Zoom::Pixel(fp_scale(current, num, FP_ONE as u64));
            },
        }
    }

    pub fn set_position(&mut self, pos: (i64, i64))
        ensures
            *final(self) == (ViewState {
                pos: old(self).pos.with_coords(pos.0 as int, pos.1 as int),
                ..*old(self)
            }),
    {
        match self.pos {
            Position::Relative(_) => {
                self.pos = Position::Relative(pos);
            },
            Position::Absolute(_) => {
                self.pos = Position::Absolute(pos);
            },
        }
    }

    /// The state after adding `delta` to the position, saturated.
    pub open spec fn spec_update_position(self, delta: (int, int)) -> ViewState {
        ViewState {
            pos: self.pos.with_coords(
                clamp_i64(self.pos.coords().0 + delta.0),
                clamp_i64(self.pos.coords().1 + delta.1),
            ),
            ..self
        }
    }

    /// Add `delta` to the position, keeping the position mode.
    pub fn update_position(&mut self, delta: (i64, i64))
        ensures
            *final(self) == old(self).spec_update_position((delta.0 as int, delta.1 as int)),
    {
        match self.pos {
            Position::Relative(p) => {
                self.pos = Position::Relative((sat_add(p.0, delta.0), sat_add(p.1, delta.1)));
            },
            Position::Absolute(p) => {
                self.pos = Position::Absolute((sat_add(p.0, delta.0), sat_add(p.1, delta.1)));
            },
        }
    }

    pub fn set_frame(&mut self, frame: Option<u32>)
        ensures
            *final(self) == (ViewState { frame, ..*old(self) }),
    {
        self.frame = frame;
    }

    /// The state after scaling the window/level center by `num / FP_ONE`.
    pub open spec fn spec_update_center(self, num: int) -> ViewState {
        ViewState {
            wl: Wl {
                center: fp_scale_spec(self.wl.center as int, num, FP_ONE as int) as i64,
                ..self.wl
            },
            ..self
        }
    }

    /// Multiply the window/level center by the fixed-point factor
    /// `num / FP_ONE`.
    pub fn update_center(&mut self, num: i64)
        ensures
            *final(self) == old(self).spec_update_center(num as int),
    {
        self.wl.center = fp_scale(self.wl.center, num, FP_ONE as u64);
    }

    /// The state after scaling the window/level width by `num / FP_ONE`.
    pub open spec fn spec_update_width(self, num: int) -> ViewState {
        ViewState {
            wl: Wl {
                width: fp_scale_spec(self.wl.width as int, num, FP_ONE as int) as i64,
                ..self.wl
            },
            ..self
        }
    }

    /// Multiply the window/level width by the fixed-point factor
    /// `num / FP_ONE`.
    pub fn update_width(&mut self, num: i64)
        ensures
            *final(self) == old(self).spec_update_width(num as int),
    {
        self.wl.width = fp_scale(self.wl.width, num, FP_ONE as u64);
    }

    /// The state after folding a variate step: `None` clears the scalar,
    /// `Some(d)` adds `d` to it (0 when unset) clamped to `[0, FP_ONE]`.
    pub open spec fn spec_update_variate(self, variate: Option<int>) -> ViewState {
        match variate {
            Some(d) => ViewState {
                variate: Some(
                    clamp_range(
                        (match self.variate {
                            Some(v) => v as int,
                            None => 0,
                        }) + d,
                        0,
                        FP_ONE as int,
                    ) as i64,
                ),
                ..self
            },
            None => ViewState { variate: None, ..self },
        }
    }

    /// Fold a variate step into the optional scalar accumulator.
    pub fn update_variate(&mut self, variate: Option<i64>)
        ensures
            *final(self) == old(self).spec_update_variate(
                match variate {
                    Some(d) => Some(d as int),
                    None => None,
                },
            ),
    {
        if let Some(delta) = variate {
            let base: i64 = match self.variate {
                Some(v) => v,
                None => 0,
            };
            let sum: i64 = sat_add(base, delta);
            // The saturated sum clamps further to `[0, FP_ONE]`, which the
            // `i64` saturation cannot leave.
            let clamped: i64 = if sum < 0 {
                0
            } else if sum > FP_ONE {
                FP_ONE
            } else {
                sum
            };
            self.variate = Some(clamped);
        } else {
            self.variate = None;
        }
    }

    /// The state scaled for a viewport of another size: pixel zoom and both
    /// position modes scale by `num / FP_ONE`, fit zoom does not; the cursor
    /// is dropped.
    pub open spec fn spec_scale(self, num: int) -> ViewState {
        ViewState {
            zoom: match self.zoom {
                Zoom::Fit(z) => Zoom::Fit(z),
                Zoom::Pixel(z) => Zoom::Pixel(
                    fp_scale_spec(z as int, num, FP_ONE as int) as i64,
                ),
            },
            pos: self.pos.with_coords(
                fp_scale_spec(self.pos.coords().0, num, FP_ONE as int),
                fp_scale_spec(self.pos.coords().1, num, FP_ONE as int),
            ),
            frame: self.frame,
            wl: self.wl,
            cursor: None,
            variate: self.variate,
        }
    }

    /// Scale the state to a viewport of another size by the fixed-point
    /// factor `num / FP_ONE`.
    pub fn scale(&self, num: i64) -> (r: ViewState)
        ensures
            r == self.spec_scale(num as int),
    {
        let zoom = match self.zoom {
            Zoom::Fit(z) => Zoom::Fit(z),
            Zoom::Pixel(z) => Zoom::Pixel(fp_scale(z, num, FP_ONE as u64)),
        };
        let pos = match self.pos {
            Position::Relative(p) => Position::Relative(
                (fp_scale(p.0, num, FP_ONE as u64), fp_scale(p.1, num, FP_ONE as u64)),
            ),
            Position::Absolute(p) => Position::Absolute(
                (fp_scale(p.0, num, FP_ONE as u64), fp_scale(p.1, num, FP_ONE as u64)),
            ),
        };
        ViewState {
            zoom,
            pos,
            frame: self.frame,
            wl: self.wl,
            cursor: None,
            variate: self.variate,
        }
    }
}

} // verus!
