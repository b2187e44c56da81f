//! Scalar and planar primitives of the tile grid.

use vstd::prelude::*;
use vstd::std_specs::convert::FromSpecImpl;
use vstd::std_specs::ops::{AddSpecImpl, DivSpecImpl, MulSpecImpl, SubSpec, SubSpecImpl};

verus! {

/// A non-negative magnitude along one axis, counted in tiles or in pixels.
#[derive(Debug, PartialEq, Eq, Structural, Clone, Copy, PartialOrd)]
pub struct Dimension(pub usize);

/// A cell of the grid: column, then row.
#[derive(Debug, PartialEq, Eq, Structural, Clone, Copy)]
pub struct Position(pub Dimension, pub Dimension);

/// An extent in tiles: width, then height.
#[derive(Debug, PartialEq, Eq, Structural, Clone, Copy)]
pub struct Size(pub Dimension, pub Dimension);

/// An axis-aligned box: the cell of its top-left corner, then its extent.
#[derive(Debug, PartialEq, Eq, Structural, Clone, Copy)]
pub struct Rectangle(pub Position, pub Size);

/// The distance between two magnitudes, whichever is the larger.
pub open spec fn distance(a: int, b: int) -> int {
    if a <= b {
        b - a
    } else {
        a - b
    }
}

impl core::ops::Add for Dimension {
    type Output = Self;

    fn add(self, rhs: Self) -> (ret: Self) {
        Dimension(self.0 + rhs.0)
    }
}

impl AddSpecImpl for Dimension {
    open spec fn obeys_add_spec() -> bool {
        true
    }

    open spec fn add_req(self, rhs: Self) -> bool {
        self.0 + rhs.0 <= usize::MAX
    }

    open spec fn add_spec(self, rhs: Self) -> Self {
        Dimension((self.0 + rhs.0) as usize)
    }
}

impl core::ops::Mul for Dimension {
    type Output = Self;

    fn mul(self, rhs: Self) -> (ret: Self) {
        Dimension(self.0 * rhs.0)
    }
}

impl MulSpecImpl for Dimension {
    open spec fn obeys_mul_spec() -> bool {
        true
    }

    open spec fn mul_req(self, rhs: Self) -> bool {
        self.0 * rhs.0 <= usize::MAX
    }

    open spec fn mul_spec(self, rhs: Self) -> Self {
        Dimension((self.0 * rhs.0) as usize)
    }
}

impl core::ops::Sub for Dimension {
    type Output = Self;

    /// The absolute difference: the order of the operands does not matter.
    fn sub(self, rhs: Self) -> (ret: Self) {
        if rhs.0 > self.0 {
            Dimension(rhs.0 - self.0)
        } else {
            Dimension(self.0 - rhs.0)
        }
    }
}

impl SubSpecImpl for Dimension {
    open spec fn obeys_sub_spec() -> bool {
        true
    }

    open spec fn sub_req(self, rhs: Self) -> bool {
        true
    }

    open spec fn sub_spec(self, rhs: Self) -> Self {
        Dimension(distance(self.0 as int, rhs.0 as int) as usize)
    }
}

impl core::ops::Div for Dimension {
    type Output = Self;

    fn div(self, rhs: Self) -> (ret: Self) {
        Dimension(self.0 / rhs.0)
    }
}

impl DivSpecImpl for Dimension {
    open spec fn obeys_div_spec() -> bool {
        true
    }

    open spec fn div_req(self, rhs: Self) -> bool {
        rhs.0 != 0
    }

    open spec fn div_spec(self, rhs: Self) -> Self {
        Dimension(self.0 / rhs.0)
    }
}

impl From<usize> for Dimension {
    fn from(item: usize) -> (ret: Self) {
        Dimension(item)
    }
}

impl FromSpecImpl<usize> for Dimension {
    open spec fn obeys_from_spec() -> bool {
        true
    }

    open spec fn from_spec(item: usize) -> Self {
        Dimension(item)
    }
}

impl From<Dimension> for usize {
    fn from(dimension: Dimension) -> (ret: Self) {
        dimension.0
    }
}

impl FromSpecImpl<Dimension> for usize {
    open spec fn obeys_from_spec() -> bool {
        true
    }

    open spec fn from_spec(dimension: Dimension) -> Self {
        dimension.0
    }
}

impl Dimension {
    /// The signed step from this magnitude to `to`: negative where `to` is
    /// the smaller. Subtraction with `-` loses the sign; this keeps it.
    pub fn signed_delta(self, to: Dimension) -> (delta: i128)
        ensures
            delta == to.0 - self.0,
    {
        to.0 as i128 - self.0 as i128
    }
}

/// Subtraction of magnitudes gives the same result in either order.
pub proof fn lemma_sub_order_independent(a: Dimension, b: Dimension)
    ensures
        SubSpec::sub_spec(a, b) == SubSpec::sub_spec(b, a),
{
}

impl Position {
    /// Whether this is the cell at `column`, `row`.
    pub open spec fn is_at(self, column: int, row: int) -> bool {
        self.0.0 == column && self.1.0 == row
    }

    /// Whether this cell comes before `other` when the grid is read row by
    /// row.
    pub open spec fn comes_before(self, other: Position) -> bool {
        self.1.0 < other.1.0 || (self.1.0 == other.1.0 && self.0.0 < other.0.0)
    }
}

/// Whether one of `cells` is the cell at `column`, `row`.
pub open spec fn has_cell(cells: Seq<Position>, column: int, row: int) -> bool {
    exists|k: int| 0 <= k < cells.len() && #[trigger] cells[k].is_at(column, row)
}

impl Rectangle {
    /// The column of the left edge.
    pub open spec fn min_x(self) -> int {
        self.0.0.0 as int
    }

    /// The row of the top edge.
    pub open spec fn min_y(self) -> int {
        self.0.1.0 as int
    }

    /// The left edge moved right by the width.
    pub open spec fn max_x(self) -> int {
        self.0.0.0 + self.1.0.0
    }

    /// The top edge moved down by the height.
    pub open spec fn max_y(self) -> int {
        self.0.1.0 + self.1.1.0
    }

    /// Whether the two boxes, taken as closed on every edge, share a point.
    /// Boxes that only touch along an edge or at a corner do.
    pub open spec fn intersects(self, other: Rectangle) -> bool {
        &&& self.min_x() <= other.max_x()
        &&& self.max_x() >= other.min_x()
        &&& self.min_y() <= other.max_y()
        &&& self.max_y() >= other.min_y()
    }

    /// Whether the cell at `column`, `row` is one of the `width * height`
    /// cells of the box.
    pub open spec fn covers(self, column: int, row: int) -> bool {
        &&& self.min_x() <= column < self.max_x()
        &&& self.min_y() <= row < self.max_y()
    }

    /// The cell halfway between the two corners, rounded down.
    pub open spec fn midpoint(self) -> Position {
        Position(
            Dimension(((self.min_x() + self.max_x()) / 2) as usize),
            Dimension(((self.min_y() + self.max_y()) / 2) as usize),
        )
    }

    /// Whether the two boxes share a point: an edge or a corner is enough.
    pub fn intersect(&self, other: &Rectangle) -> (hit: bool)
        ensures
            hit == self.intersects(*other),
    {
        within_reach(self.0.0.0, other.0.0.0, other.1.0.0)
            && within_reach(other.0.0.0, self.0.0.0, self.1.0.0)
            && within_reach(self.0.1.0, other.0.1.0, other.1.1.0)
            && within_reach(other.0.1.0, self.0.1.0, self.1.1.0)
    }

    /// The cell halfway between the top-left corner and the corner opposite,
    /// rounded down on each axis.
    pub fn center(&self) -> (middle: Position)
        requires
            (self.min_x() + self.max_x()) / 2 <= usize::MAX,
            (self.min_y() + self.max_y()) / 2 <= usize::MAX,
        ensures
            middle == self.midpoint(),
    {
        Position(
            Dimension(halfway(self.0.0.0, self.1.0.0)),
            Dimension(halfway(self.0.1.0, self.1.1.0)),
        )
    }
}

/// Whether `point` lies at or before `start + extent`, computed without
/// forming the sum.
fn within_reach(point: usize, start: usize, extent: usize) -> (near: bool)
    ensures
        near == (point <= start + extent),
{
    point <= start || point - start <= extent
}

/// Half of `start + (start + extent)`, rounded down and computed without
/// forming the sum.
fn halfway(start: usize, extent: usize) -> (half: usize)
    requires
        (start + (start + extent)) / 2 <= usize::MAX,
    ensures
        half == (start + (start + extent)) / 2,
{
    start + extent / 2
}

/// Every box intersects itself.
pub proof fn lemma_intersects_reflexive(r: Rectangle)
    ensures
        r.intersects(r),
{
}

/// Intersection does not depend on which box is asked.
pub proof fn lemma_intersects_symmetric(a: Rectangle, b: Rectangle)
    ensures
        a.intersects(b) == b.intersects(a),
{
}

} // verus!
