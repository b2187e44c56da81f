//! Cells of the grid and whole pixels of the screen, one to the other.

use crate::geometry::{Dimension, Position};
use crate::tile_map::GRID_SIZE;
use vstd::prelude::*;

verus! {

/// A point of pixel space in whole pixels: x, then y.
#[derive(Debug, PartialEq, Eq, Structural, Clone, Copy)]
pub struct Coordinate(pub usize, pub usize);

/// The pixel at the top-left corner of a cell.
pub open spec fn cell_origin(position: Position) -> (int, int) {
    (position.0.0 * GRID_SIZE, position.1.0 * GRID_SIZE)
}

/// The cell that holds a pixel.
pub open spec fn cell_of(coordinate: Coordinate) -> Position {
    Position(Dimension(coordinate.0 / GRID_SIZE), Dimension(coordinate.1 / GRID_SIZE))
}

/// The pixel at the top-left corner of a cell, not at its centre.
pub fn grid_to_coordinates(position: Position) -> (coordinate: Coordinate)
    requires
        cell_origin(position).0 <= usize::MAX,
        cell_origin(position).1 <= usize::MAX,
    ensures
        coordinate.0 == cell_origin(position).0,
        coordinate.1 == cell_origin(position).1,
{
    Coordinate(position.0.0 * GRID_SIZE, position.1.0 * GRID_SIZE)
}

/// The cell that holds a pixel: what lies beside the cell's corner is lost.
pub fn coordinate_to_grid(coordinate: Coordinate) -> (position: Position)
    ensures
        position == cell_of(coordinate),
{
    Position(Dimension(coordinate.0 / GRID_SIZE), Dimension(coordinate.1 / GRID_SIZE))
}

/// A cell is the cell of the pixel at its corner.
pub proof fn lemma_cell_of_origin(position: Position)
    requires
        cell_origin(position).0 <= usize::MAX,
        cell_origin(position).1 <= usize::MAX,
    ensures
        cell_of(Coordinate(cell_origin(position).0 as usize, cell_origin(position).1 as usize))
            == position,
{
}

/// The corner of a pixel's cell is the nearest multiple of the tile size at
/// or before the pixel on each axis.
pub proof fn lemma_origin_of_cell(coordinate: Coordinate)
    ensures
        cell_origin(cell_of(coordinate)).0 <= coordinate.0 < cell_origin(cell_of(coordinate)).0
            + GRID_SIZE,
        cell_origin(cell_of(coordinate)).1 <= coordinate.1 < cell_origin(cell_of(coordinate)).1
            + GRID_SIZE,
{
}

} // verus!
