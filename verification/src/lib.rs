//! GlassUI widget logic, verified: the state of the widgets and the
//! decisions their key, pointer and timer events make, the command
//! palette's search, calendar arithmetic, inline markup and the rest of
//! what the widgets compute on text and integers. Drawing, geometry and
//! animation work in floating point and live with the window system.

use vstd::prelude::*;

pub mod kinds;
pub mod text;
pub mod command_palette;
pub mod data;
pub mod tabs;
pub mod tree;
pub mod timeline;
pub mod date;
pub mod chat;
pub mod overlays;
pub mod controls;
pub mod status;
pub mod richtext;
pub mod table;
pub mod panel;
pub mod workspace;

verus! {

} // verus!
