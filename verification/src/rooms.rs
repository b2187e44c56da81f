//! Rooms: drawing one at random and placing it clear of the others.

use crate::geometry::{Dimension, Position, Rectangle, Size};
use crate::random::draw;
use crate::tile_map::{add_room_to_map, MapError, TileMap, TileType};
use vstd::prelude::*;

verus! {

/// Whether `room` is one that may be drawn for a grid of `size` with extents
/// from `min` up to, not including, `max`: it keeps a margin of at least one
/// cell to every border of the grid.
pub open spec fn room_within(room: Rectangle, min: Dimension, max: Dimension, size: Size) -> bool {
    &&& min.0 <= room.1.0.0 < max.0
    &&& min.0 <= room.1.1.0 < max.0
    &&& 1 <= room.min_x()
    &&& room.max_x() + 1 < size.0.0
    &&& 1 <= room.min_y()
    &&& room.max_y() + 1 < size.1.0
}

/// The bound below which the origin of a room of the given extent is drawn
/// on an axis of `bound` cells. The draw starts at 1; where that leaves no
/// value to draw, the result is `InvalidGenerationBounds`.
pub fn origin_limit(bound: usize, extent: usize) -> (result: Result<usize, MapError>)
    ensures
        match result {
            Ok(limit) => extent + 2 < bound && limit == bound - extent - 1,
            Err(e) => e == MapError::InvalidGenerationBounds && bound <= extent + 2,
        },
{
    if bound >= 3 && extent < bound - 2 {
        Ok(bound - extent - 1)
    } else {
        Err(MapError::InvalidGenerationBounds)
    }
}

/// A random room for a grid of `size`: width and height are drawn from
/// `min..max`, then the origin so that a margin of one cell is left on every
/// side. Where a draw has no value to give, the result is
/// `InvalidGenerationBounds`: always when `min..max` is empty or an axis has
/// no more than `min + 2` cells, never when both axes have at least `max + 2`.
pub fn create_room(min: Dimension, max: Dimension, size: Size) -> (result: Result<
    Rectangle,
    MapError,
>)
    ensures
        match result {
            Ok(room) => room_within(room, min, max, size),
            Err(e) => {
                &&& e == MapError::InvalidGenerationBounds
                &&& (min.0 >= max.0 || size.0.0 <= max.0 + 1 || size.1.0 <= max.0 + 1)
            },
        },
        (min.0 >= max.0 || size.0.0 <= min.0 + 2 || size.1.0 <= min.0 + 2) ==> result is Err,
{
    if min.0 >= max.0 {
        return Err(MapError::InvalidGenerationBounds);
    }
    let mut rng = rand::thread_rng();
    let width: usize = draw(&mut rng, min.0, max.0);
    let height: usize = draw(&mut rng, min.0, max.0);
    let columns: usize = size.0.into();
    let rows: usize = size.1.into();
    let x_limit: usize = match origin_limit(columns, width) {
        Ok(limit) => limit,
        Err(e) => {
            return Err(e);
        },
    };
    let y_limit: usize = match origin_limit(rows, height) {
        Ok(limit) => limit,
        Err(e) => {
            return Err(e);
        },
    };
    let x: usize = draw(&mut rng, 1, x_limit);
    let y: usize = draw(&mut rng, 1, y_limit);
    Ok(Rectangle(Position(Dimension(x), Dimension(y)), Size(width.into(), height.into())))
}

/// Whether `candidate` intersects one of `rooms`.
pub open spec fn overlaps_any(rooms: Seq<Rectangle>, candidate: Rectangle) -> bool {
    exists|i: int| 0 <= i < rooms.len() && #[trigger] candidate.intersects(rooms[i])
}

/// Whether `candidate` intersects one of `rooms`.
pub fn intersects_any(rooms: &Vec<Rectangle>, candidate: &Rectangle) -> (hit: bool)
    ensures
        hit == overlaps_any(rooms@, *candidate),
{
    let mut i: usize = 0;
    while i < rooms.len()
        invariant
            i <= rooms.len(),
            forall|j: int| 0 <= j < i ==> !(#[trigger] candidate.intersects(rooms@[j])),
        decreases rooms.len() - i,
    {
        if candidate.intersect(&rooms[i]) {
            return true;
        }
        i += 1;
    }
    false
}

/// Places one candidate room. A candidate that intersects a room placed
/// before is skipped: nothing changes and the result is `false`. Any other
/// candidate is carved into the map and appended to `rooms`; if it has a cell
/// outside the grid, nothing changes and the result is `IndexOutOfBounds`.
pub fn place_room(map: &mut TileMap, rooms: &mut Vec<Rectangle>, candidate: Rectangle) -> (result:
    Result<bool, MapError>)
    requires
        old(map).wf(),
    ensures
        match result {
            Ok(placed) => {
                &&& placed == !overlaps_any(old(rooms)@, candidate)
                &&& placed ==> {
                    &&& old(map).encloses(candidate)
                    &&& final(map).is_painted(old(map), candidate, TileType::Floor)
                    &&& final(rooms)@ == old(rooms)@.push(candidate)
                }
                &&& !placed ==> *final(map) == *old(map) && final(rooms)@ == old(rooms)@
            },
            Err(e) => {
                &&& e == MapError::IndexOutOfBounds
                &&& !overlaps_any(old(rooms)@, candidate)
                &&& !old(map).encloses(candidate)
                &&& *final(map) == *old(map)
                &&& final(rooms)@ == old(rooms)@
            },
        },
{
    if intersects_any(rooms, &candidate) {
        return Ok(false);
    }
    match add_room_to_map(candidate, map) {
        Ok(()) => {
            rooms.push(candidate);
            Ok(true)
        },
        Err(e) => Err(e),
    }
}

} // verus!
