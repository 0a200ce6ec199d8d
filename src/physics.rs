use vstd::prelude::*;

verus! {

/// The direction a unit faces or moves in.
#[derive(Debug, Clone, Copy, PartialEq, Eq, Structural)]
pub enum Orientation {
    Left,
    Right,
    Up,
    Down,
    UpLeft,
    UpRight,
    DownLeft,
    DownRight,
    Stationary,
}

impl Orientation {
    /// Whether the direction points along the positive x axis, and along the
    /// positive y axis.
    pub open spec fn spec_positive_axes(self) -> (bool, bool) {
        match self {
            Orientation::Right | Orientation::DownRight => (true, false),
            Orientation::Up | Orientation::UpLeft => (false, true),
            Orientation::UpRight => (true, true),
            _ => (false, false),
        }
    }

    pub fn positive_axes(&self) -> (r: (bool, bool))
        ensures
            r == self.spec_positive_axes(),
    {
        match *self {
            Orientation::Left => (false, false),
            Orientation::Right => (true, false),
            Orientation::Down => (false, false),
            Orientation::Up => (false, true),
            Orientation::UpLeft => (false, true),
            Orientation::UpRight => (true, true),
            Orientation::DownLeft => (false, false),
            Orientation::DownRight => (true, false),
            Orientation::Stationary => (false, false),
        }
    }
}

} // verus!
