//! The directions in which a camera is moved.

use vstd::prelude::*;

verus! {

/// A direction of travel, as the keys give it.
#[derive(Clone, Copy, Debug, PartialEq, Eq, Structural)]
pub enum Direction {
    Up,
    Down,
    Left,
    Right,
}

/// An axis of the camera along which it travels.
#[derive(Clone, Copy, Debug, PartialEq, Eq, Structural)]
pub enum Axis {
    /// The axis along which the camera looks.
    Dir,
    /// The axis to the right of the camera.
    Right,
}

impl Direction {
    /// The axis of the direction: `Up` and `Down` go along the line of
    /// sight, `Left` and `Right` across it.
    pub open spec fn axis_spec(self) -> Axis {
        match self {
            Direction::Up | Direction::Down => Axis::Dir,
            Direction::Left | Direction::Right => Axis::Right,
        }
    }

    /// Whether travel adds to the position along the axis: `Up` and `Left`
    /// add, `Down` and `Right` take away.
    pub open spec fn adds_spec(self) -> bool {
        self == Direction::Up || self == Direction::Left
    }

    /// The axis of the direction.
    pub fn axis(self) -> (a: Axis)
        ensures
            a == self.axis_spec(),
    {
        match self {
            Direction::Up | Direction::Down => Axis::Dir,
            Direction::Left | Direction::Right => Axis::Right,
        }
    }

    /// Whether travel adds to the position along the axis.
    pub fn adds(self) -> (b: bool)
        ensures
            b == self.adds_spec(),
    {
        match self {
            Direction::Up | Direction::Left => true,
            Direction::Down | Direction::Right => false,
        }
    }
}

} // verus!
