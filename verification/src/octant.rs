//! The eight octants of a cube, one bit per axis.

use vstd::prelude::*;

verus! {

/// One of the eight equal sub-cubes of a cube, selected by a low/high
/// choice per axis. The naming encodes the choice: `X0` means the low
/// half along x, `X1` the high half, and likewise for y and z.
#[derive(Clone, Copy, Debug, PartialEq, Eq, Structural)]
pub enum SubVlox {
    X0Y0Z0,
    X0Y0Z1,
    X0Y1Z0,
    X0Y1Z1,
    X1Y0Z0,
    X1Y0Z1,
    X1Y1Z0,
    X1Y1Z1,
}

impl SubVlox {
    /// The octant's position among a node's eight child slots:
    /// the high/low bit of x weighs 4, of y weighs 2, of z weighs 1.
    pub open spec fn idx(self) -> int {
        match self {
            SubVlox::X0Y0Z0 => 0,
            SubVlox::X0Y0Z1 => 1,
            SubVlox::X0Y1Z0 => 2,
            SubVlox::X0Y1Z1 => 3,
            SubVlox::X1Y0Z0 => 4,
            SubVlox::X1Y0Z1 => 5,
            SubVlox::X1Y1Z0 => 6,
            SubVlox::X1Y1Z1 => 7,
        }
    }

    /// The child-slot index of this octant.
    pub fn index(self) -> (i: usize)
        ensures
            i == self.idx(),
    {
        match self {
            SubVlox::X0Y0Z0 => 0,
            SubVlox::X0Y0Z1 => 1,
            SubVlox::X0Y1Z0 => 2,
            SubVlox::X0Y1Z1 => 3,
            SubVlox::X1Y0Z0 => 4,
            SubVlox::X1Y0Z1 => 5,
            SubVlox::X1Y1Z0 => 6,
            SubVlox::X1Y1Z1 => 7,
        }
    }
}

/// The octant picked by three independent high-half tests, one per axis.
pub open spec fn octant_spec(x_high: bool, y_high: bool, z_high: bool) -> SubVlox {
    if x_high {
        if y_high {
            if z_high {
                SubVlox::X1Y1Z1
            } else {
                SubVlox::X1Y1Z0
            }
        } else {
            if z_high {
                SubVlox::X1Y0Z1
            } else {
                SubVlox::X1Y0Z0
            }
        }
    } else {
        if y_high {
            if z_high {
                SubVlox::X0Y1Z1
            } else {
                SubVlox::X0Y1Z0
            }
        } else {
            if z_high {
                SubVlox::X0Y0Z1
            } else {
                SubVlox::X0Y0Z0
            }
        }
    }
}

/// Builds the octant code from the three per-axis high-half tests.
pub fn octant_for(x_high: bool, y_high: bool, z_high: bool) -> (o: SubVlox)
    ensures
        o == octant_spec(x_high, y_high, z_high),
{
    if x_high {
        if y_high {
            if z_high {
                SubVlox::X1Y1Z1
            } else {
                SubVlox::X1Y1Z0
            }
        } else {
            if z_high {
                SubVlox::X1Y0Z1
            } else {
                SubVlox::X1Y0Z0
            }
        }
    } else {
        if y_high {
            if z_high {
                SubVlox::X0Y1Z1
            } else {
                SubVlox::X0Y1Z0
            }
        } else {
            if z_high {
                SubVlox::X0Y0Z1
            } else {
                SubVlox::X0Y0Z0
            }
        }
    }
}

} // verus!
