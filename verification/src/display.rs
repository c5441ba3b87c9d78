//! Displays as the overlay sees them, and the changes a display can go
//! through while the program runs.

use vstd::prelude::*;
use crate::geometry::{Point, Size};

verus! {

/// Names one physical monitor for as long as the program runs.
#[derive(Clone, Copy, Debug, PartialEq, Eq, Hash, Structural)]
pub struct DisplayId(pub u64);

/// One physical monitor.
#[derive(Clone, Copy, Debug, PartialEq, Eq, Structural)]
pub struct Display {
    pub id: DisplayId,
    /// The top left corner in the desktop's coordinates.
    pub origin: Point,
    pub size: Size,
    /// Whether the display shows a copy of another one.
    pub is_mirrored: bool,
}

/// One change of the display topology.
#[allow(inconsistent_fields)]
#[derive(Clone, Copy, Debug, PartialEq, Eq, Structural)]
pub enum DisplayEvent {
    Added(Display),
    Removed(DisplayId),
    SizeChanged { display: Display, after: Size },
    OriginChanged { display: Display, after: Point },
    Mirrored(Display),
    UnMirrored(Display),
}

} // verus!
