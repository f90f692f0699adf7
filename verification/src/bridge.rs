//! The pseudo-terminal bridge: what to do next, given what just happened.
//!
//! Running a child under a pseudo-terminal is a fixed order of steps around
//! two pumps, one per direction. The steps and the pumps are state machines
//! here. Each has an `action`, the operation its driver performs in the
//! present phase, and a `next`, the phase after the driver has reported what
//! became of that operation. The driver owns the descriptors, the threads and
//! the child; nothing in this module touches them.

pub mod input;
pub mod lifecycle;
pub mod output;

use vstd::prelude::*;

verus! {

/// The size of the buffer that each pump reads into.
pub const CHUNK: usize = 1024;

/// How long a pump sleeps before it tries again, in milliseconds.
pub const RETRY_DELAY_MS: u64 = 10;

/// The size of a pseudo-terminal.
#[derive(Clone, Copy, PartialEq, Eq, Debug, Structural)]
pub struct PtyGeometry {
    pub rows: u16,
    pub cols: u16,
    pub pixel_width: u16,
    pub pixel_height: u16,
}

impl PtyGeometry {
    /// The geometry of a pseudo-terminal as large as a terminal of `cols`
    /// columns and `rows` rows. No size in pixels is claimed.
    pub fn matching(cols: u16, rows: u16) -> (g: PtyGeometry)
        ensures
            g == (PtyGeometry { rows, cols, pixel_width: 0, pixel_height: 0 }),
    {
        PtyGeometry { rows, cols, pixel_width: 0, pixel_height: 0 }
    }
}

/// The bytes that have passed through a pump: `taken` where the pump
/// reads, `given` where it writes, and the `chunk` in flight.
pub struct Flow {
    pub taken: Seq<u8>,
    pub given: Seq<u8>,
    pub chunk: Seq<u8>,
}

impl Flow {
    /// The flow of a pump that has not read yet.
    pub open spec fn empty() -> Flow {
        Flow { taken: Seq::empty(), given: Seq::empty(), chunk: Seq::empty() }
    }
}

} // verus!
