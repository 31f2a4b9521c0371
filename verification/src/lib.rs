//! Interactive view-control core of a remote multi-stream video viewer.
//!
//! The crate models the client-side layer that turns pointer and keyboard
//! input into per-region image transforms, tiles a window into views and
//! panes, keeps pane state synchronized with a remote peer, and computes an
//! adaptive bitrate target from a region's pixel area.
//!
//! Continuous quantities (magnification, window/level, fractional frame
//! counters) are fixed-point integers (see `fixed`), rates are thousandths
//! of a megabyte per second, and scale factors are percentages, so every
//! transform law is exact integer arithmetic with a proved contract.

pub mod config;
pub mod control;
pub mod fixed;
pub mod geom;
pub mod input;
pub mod interaction;
pub mod message;
pub mod pane;
pub mod schedule;
pub mod time;
pub mod timer;
pub mod view;
pub mod view_state;

pub use config::AppConfig;
pub use control::ViewControl;
pub use geom::tile;
pub use geom::LayoutRect;
pub use geom::ViewportSize;
pub use schedule::Schedule;
pub use timer::timer;
