//! Grid positions and the player's facing.
use vstd::prelude::*;

verus! {

/// A cell of the level grid.
#[derive(Debug, Clone, Copy, PartialEq, Eq, Structural, Hash)]
pub struct GridCoords {
    pub x: i32,
    pub y: i32,
}

impl GridCoords {
    pub fn new(x: i32, y: i32) -> (r: GridCoords)
        ensures
            r.x == x,
            r.y == y,
    {
        GridCoords { x, y }
    }
}

/// One of the four axis directions the player can face.
#[derive(Debug, Clone, Copy, PartialEq, Eq, Structural, Hash)]
pub enum PlayerDirection {
    PlusX,
    PlusY,
    MinusX,
    MinusY,
}

impl PlayerDirection {
    /// The unit step of this direction.
    pub open spec fn spec_step(self) -> (int, int) {
        match self {
            PlayerDirection::PlusX => (1, 0),
            PlayerDirection::PlusY => (0, 1),
            PlayerDirection::MinusX => (-1, 0),
            PlayerDirection::MinusY => (0, -1),
        }
    }

    /// The direction after a quarter turn counter-clockwise (with y pointing
    /// up): a step `(x, y)` becomes `(-y, x)`.
    pub open spec fn spec_turned_left(self) -> PlayerDirection {
        match self {
            PlayerDirection::PlusX => PlayerDirection::PlusY,
            PlayerDirection::PlusY => PlayerDirection::MinusX,
            PlayerDirection::MinusX => PlayerDirection::MinusY,
            PlayerDirection::MinusY => PlayerDirection::PlusX,
        }
    }

    /// A new player faces along the positive x axis.
    pub fn default_facing() -> (r: PlayerDirection)
        ensures
            r.spec_step() == (1int, 0int),
    {
        PlayerDirection::PlusX
    }

    /// The unit step of this direction as grid coordinates.
    pub fn step(&self) -> (r: GridCoords)
        ensures
            (r.x as int, r.y as int) == self.spec_step(),
    {
        match self {
            PlayerDirection::PlusX => GridCoords { x: 1, y: 0 },
            PlayerDirection::PlusY => GridCoords { x: 0, y: 1 },
            PlayerDirection::MinusX => GridCoords { x: -1, y: 0 },
            PlayerDirection::MinusY => GridCoords { x: 0, y: -1 },
        }
    }

    /// The direction whose step is `v`, if `v` is a unit step along an axis.
    pub fn from_step(v: GridCoords) -> (r: Option<PlayerDirection>)
        ensures
            r matches Some(d) ==> d.spec_step() == (v.x as int, v.y as int),
            r is None <==> !((v.x == 0 && (v.y == 1 || v.y == -1)) || (v.y == 0 && (v.x == 1
                || v.x == -1))),
    {
        if v.x == 1 && v.y == 0 {
            Some(PlayerDirection::PlusX)
        } else if v.x == 0 && v.y == 1 {
            Some(PlayerDirection::PlusY)
        } else if v.x == -1 && v.y == 0 {
            Some(PlayerDirection::MinusX)
        } else if v.x == 0 && v.y == -1 {
            Some(PlayerDirection::MinusY)
        } else {
            None
        }
    }

    /// The direction after one left turn, a quarter turn counter-clockwise:
    /// a step `(x, y)` becomes `(-y, x)`.
    pub fn turned_left(&self) -> (r: PlayerDirection)
        ensures
            r == self.spec_turned_left(),
            r.spec_step() == (-self.spec_step().1, self.spec_step().0),
    {
        match self {
            PlayerDirection::PlusX => PlayerDirection::PlusY,
            PlayerDirection::PlusY => PlayerDirection::MinusX,
            PlayerDirection::MinusX => PlayerDirection::MinusY,
            PlayerDirection::MinusY => PlayerDirection::PlusX,
        }
    }
}

/// The coordinate reached by one unit step from `c`; the grid ends at the
/// bounds of `i32`, where a step outward leaves the coordinate as it is.
pub open spec fn step_coord(c: i32, d: int) -> i32 {
    if i32::MIN <= c + d <= i32::MAX {
        (c + d) as i32
    } else {
        c
    }
}

/// The piece the program steers: where it stands and where it faces.
#[derive(Debug, Clone, Copy, PartialEq, Eq, Structural)]
pub struct Actor {
    pub coords: GridCoords,
    pub direction: PlayerDirection,
}

impl Actor {
    /// The actor after one step along its facing.
    pub open spec fn spec_moved_forward(self) -> Actor {
        Actor {
            coords: GridCoords {
                x: step_coord(self.coords.x, self.direction.spec_step().0),
                y: step_coord(self.coords.y, self.direction.spec_step().1),
            },
            direction: self.direction,
        }
    }

    /// The actor after a left turn in place.
    pub open spec fn spec_turned_left(self) -> Actor {
        Actor { coords: self.coords, direction: self.direction.spec_turned_left() }
    }

    pub fn new(coords: GridCoords, direction: PlayerDirection) -> (r: Actor)
        ensures
            r.coords == coords,
            r.direction == direction,
    {
        Actor { coords, direction }
    }
}

} // verus!
