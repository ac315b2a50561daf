//! Driver library for the E-ink lid display of the Lenovo ThinkBook Plus Gen 1,
//! an ITE IT8951 controller spoken to with SCSI commands over USB bulk transfers,
//! and the logic of the programs built on it: a server dashboard, a clock and a
//! tool that sets a picture on the lid.
use vstd::prelude::*;

pub mod clock;
pub mod display;
pub mod picture;
pub mod font;
pub mod protocol;
pub mod raster;
pub mod server;
pub mod text;

pub use display::{Display, DisplayInfo, Mode};

verus! {

} // verus!
