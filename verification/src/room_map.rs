//! The room builder: solid rock out of which random rooms are carved that
//! keep clear of one another, with corridors between them where asked for.

use crate::geometry::{lemma_intersects_symmetric, Dimension, Position, Rectangle, Size};
use crate::rooms::{create_room, overlaps_any, place_room, room_within};
use crate::tile_map::{
    add_tunnel, grid_size, lemma_cell_index_in_range, valid_dimensions, MapError, Orientation,
    TileMap, TileType, GRID_SIZE,
};
use vstd::prelude::*;

verus! {

/// How many rooms the builder tries to place.
pub const MAX_ROOMS: usize = 100;

/// The least width and height of a room.
pub const MIN_ROOM_SIZE: usize = 3;

/// The bound that the width and height of a room stay below.
pub const MAX_ROOM_SIZE: usize = 6;

/// What the room builder may be told.
#[derive(Debug, PartialEq, Eq, Structural, Clone, Copy)]
pub struct RoomOptions {
    /// The number of candidate rooms to draw.
    pub attempts: usize,
    /// The least width and height of a room.
    pub min_size: Dimension,
    /// The bound that the width and height of a room stay below.
    pub max_size: Dimension,
    /// Whether a corridor is carved from each room to the one placed before
    /// it, so that one can walk from every room to every other.
    pub connect_rooms: bool,
}

/// The options of `create_map`: `MAX_ROOMS` candidates with extents from
/// `MIN_ROOM_SIZE` up to, not including, `MAX_ROOM_SIZE`, and no corridors.
pub open spec fn default_options() -> RoomOptions {
    RoomOptions {
        attempts: MAX_ROOMS,
        min_size: Dimension(MIN_ROOM_SIZE),
        max_size: Dimension(MAX_ROOM_SIZE),
        connect_rooms: false,
    }
}

impl Default for RoomOptions {
    fn default() -> (options: Self)
        ensures
            options == default_options(),
    {
        RoomOptions {
            attempts: MAX_ROOMS,
            min_size: Dimension(MIN_ROOM_SIZE),
            max_size: Dimension(MAX_ROOM_SIZE),
            connect_rooms: false,
        }
    }
}

/// Whether `value` lies between `a` and `b`, both included, whichever of the
/// two is the larger.
pub open spec fn lies_between(a: int, b: int, value: int) -> bool {
    (a <= value <= b) || (b <= value <= a)
}

/// Whether the cell at `column`, `row` lies on the corridor between two
/// cells: along the row of `from` to the column of `to`, then along that
/// column to `to`.
pub open spec fn on_corridor(from: Position, to: Position, column: int, row: int) -> bool {
    ||| row == from.1.0 && lies_between(from.0.0 as int, to.0.0 as int, column)
    ||| column == to.0.0 && lies_between(from.1.0 as int, to.1.0 as int, row)
}

/// Whether `after` is `before` with every cell of the corridor between
/// `from` and `to` turned into floor.
pub open spec fn is_linked(after: &TileMap, before: &TileMap, from: Position, to: Position)
    -> bool {
    &&& after.wf()
    &&& after.rows == before.rows
    &&& after.columns == before.columns
    &&& forall|column: int, row: int|
        after.holds(column, row) ==> #[trigger] after.tile_at(column, row) == if on_corridor(
            from,
            to,
            column,
            row,
        ) {
            TileType::Floor
        } else {
            before.tile_at(column, row)
        }
}

/// Carves the corridor between two cells of the grid: one horizontal and one
/// vertical tunnel that meet in the row of `from` and the column of `to`. If
/// one of the two cells lies outside the grid, nothing changes and the
/// result is `IndexOutOfBounds`.
pub fn add_corridor(map: &mut TileMap, from: &Position, to: &Position) -> (result: Result<
    (),
    MapError,
>)
    requires
        old(map).wf(),
    ensures
        match result {
            Ok(()) => {
                &&& old(map).holds(from.0.0 as int, from.1.0 as int)
                &&& old(map).holds(to.0.0 as int, to.1.0 as int)
                &&& is_linked(final(map), old(map), *from, *to)
            },
            Err(e) => {
                &&& e == MapError::IndexOutOfBounds
                &&& !(old(map).holds(from.0.0 as int, from.1.0 as int) && old(map).holds(
                    to.0.0 as int,
                    to.1.0 as int,
                ))
                &&& *final(map) == *old(map)
            },
        },
{
    if from.0.0 >= map.columns || from.1.0 >= map.rows || to.0.0 >= map.columns || to.1.0
        >= map.rows {
        return Err(MapError::IndexOutOfBounds);
    }
    let left: usize = if from.0.signed_delta(to.0) >= 0 {
        from.0.0
    } else {
        to.0.0
    };
    let top: usize = if from.1.signed_delta(to.1) >= 0 {
        from.1.0
    } else {
        to.1.0
    };
    let across: Dimension = from.0 - to.0;
    let down: Dimension = from.1 - to.1;
    let turn = Position(Dimension(left), from.1);
    match add_tunnel(Orientation::Horizontal, &turn, Dimension(across.0 + 1), map) {
        Ok(()) => {},
        Err(e) => {
            return Err(e);
        },
    }
    let end = Position(to.0, Dimension(top));
    match add_tunnel(Orientation::Vertical, &end, Dimension(down.0 + 1), map) {
        Ok(()) => {},
        Err(e) => {
            return Err(e);
        },
    }
    Ok(())
}

/// Whether the cell at `column`, `row` is a cell of one of `rooms`.
pub open spec fn in_some_room(rooms: Seq<Rectangle>, column: int, row: int) -> bool {
    exists|i: int| 0 <= i < rooms.len() && #[trigger] rooms[i].covers(column, row)
}

/// Whether the cell at `column`, `row` lies on the corridor between the
/// centres of room `i` and of the room placed after it.
pub open spec fn on_link(rooms: Seq<Rectangle>, i: int, column: int, row: int) -> bool {
    on_corridor(rooms[i].midpoint(), rooms[i + 1].midpoint(), column, row)
}

/// Whether the cell at `column`, `row` lies on the corridor between the
/// centres of two rooms placed one after the other.
pub open spec fn on_some_link(rooms: Seq<Rectangle>, column: int, row: int) -> bool {
    exists|i: int| 0 <= i < rooms.len() - 1 && #[trigger] on_link(rooms, i, column, row)
}

/// Whether the builder turns the cell at `column`, `row` into floor when it
/// places `rooms`.
pub open spec fn is_carved(rooms: Seq<Rectangle>, connected: bool, column: int, row: int) -> bool {
    in_some_room(rooms, column, row) || (connected && on_some_link(rooms, column, row))
}

/// Whether `map` is what the builder makes of solid rock when it places
/// `rooms` in this order: each room was drawn as `options` say and lies
/// inside the margin, no two rooms intersect, and a cell is floor where a
/// room or, if `options` ask for them, a corridor has it, and wall elsewhere.
pub open spec fn is_room_layout(map: &TileMap, rooms: Seq<Rectangle>, options: RoomOptions)
    -> bool {
    &&& map.wf()
    &&& forall|i: int|
        0 <= i < rooms.len() ==> room_within(
            #[trigger] rooms[i],
            options.min_size,
            options.max_size,
            Size(Dimension(map.columns), Dimension(map.rows)),
        )
    &&& forall|i: int, j: int|
        0 <= i < j < rooms.len() ==> !(#[trigger] rooms[i].intersects(rooms[j]))
    &&& forall|column: int, row: int|
        map.holds(column, row) ==> #[trigger] map.tile_at(column, row) == if is_carved(
            rooms,
            options.connect_rooms,
            column,
            row,
        ) {
            TileType::Floor
        } else {
            TileType::Wall
        }
}

/// A layout stays a layout when a room that fits the grid and intersects none
/// of the rooms is carved and appended and, if `options` ask for corridors
/// and there is a room before it, the corridor between the two is carved.
pub proof fn lemma_layout_grows(
    before: &TileMap,
    roomed: &TileMap,
    after: &TileMap,
    rooms: Seq<Rectangle>,
    candidate: Rectangle,
    options: RoomOptions,
)
    requires
        is_room_layout(before, rooms, options),
        room_within(
            candidate,
            options.min_size,
            options.max_size,
            Size(Dimension(before.columns), Dimension(before.rows)),
        ),
        !overlaps_any(rooms, candidate),
        roomed.is_painted(before, candidate, TileType::Floor),
        options.connect_rooms && rooms.len() > 0 ==> is_linked(
            after,
            roomed,
            rooms.last().midpoint(),
            candidate.midpoint(),
        ),
        !(options.connect_rooms && rooms.len() > 0) ==> *after == *roomed,
    ensures
        is_room_layout(after, rooms.push(candidate), options),
{
    let grown = rooms.push(candidate);
    let linked = options.connect_rooms && rooms.len() > 0;
    let last: int = rooms.len() - 1;
    assert forall|i: int, j: int| 0 <= i < j < grown.len() implies !(#[trigger] grown[i].intersects(
        grown[j],
    )) by {
        if j == rooms.len() {
            assert(!candidate.intersects(rooms[i]));
            lemma_intersects_symmetric(candidate, rooms[i]);
        } else {
            assert(!rooms[i].intersects(rooms[j]));
        }
    }
    assert forall|column: int, row: int| after.holds(column, row) implies #[trigger] after.tile_at(
        column,
        row,
    ) == if is_carved(grown, options.connect_rooms, column, row) {
        TileType::Floor
    } else {
        TileType::Wall
    } by {
        assert(before.holds(column, row));
        assert(roomed.holds(column, row));
        let new_link = linked && on_corridor(
            rooms.last().midpoint(),
            candidate.midpoint(),
            column,
            row,
        );
        assert(after.tile_at(column, row) == if candidate.covers(column, row) || new_link {
            TileType::Floor
        } else {
            before.tile_at(column, row)
        });
        if candidate.covers(column, row) {
            assert(grown[rooms.len() as int].covers(column, row));
        } else if new_link {
            assert(on_link(grown, last, column, row));
        } else if in_some_room(rooms, column, row) {
            let i: int = choose|i: int| 0 <= i < rooms.len() && #[trigger] rooms[i].covers(column, row);
            assert(grown[i].covers(column, row));
        } else if options.connect_rooms && on_some_link(rooms, column, row) {
            let i: int = choose|i: int|
                0 <= i < rooms.len() - 1 && #[trigger] on_link(rooms, i, column, row);
            assert(on_link(grown, i, column, row));
        } else {
            if in_some_room(grown, column, row) {
                let i: int = choose|i: int|
                    0 <= i < grown.len() && #[trigger] grown[i].covers(column, row);
                assert(rooms[i].covers(column, row));
            }
            if options.connect_rooms && on_some_link(grown, column, row) {
                let i: int = choose|i: int|
                    0 <= i < grown.len() - 1 && #[trigger] on_link(grown, i, column, row);
                if i < last {
                    assert(on_link(rooms, i, column, row));
                }
            }
        }
    }
}

/// In a layout no two rooms intersect, not even along an edge.
pub proof fn lemma_rooms_keep_apart(
    map: &TileMap,
    rooms: Seq<Rectangle>,
    options: RoomOptions,
    i: int,
    j: int,
)
    requires
        is_room_layout(map, rooms, options),
        0 <= i < rooms.len(),
        0 <= j < rooms.len(),
        i != j,
    ensures
        !rooms[i].intersects(rooms[j]),
{
    if i < j {
        assert(!rooms[i].intersects(rooms[j]));
    } else {
        assert(!rooms[j].intersects(rooms[i]));
        lemma_intersects_symmetric(rooms[j], rooms[i]);
    }
}

/// In a layout every cell of a room is floor and lies inside the border of
/// the grid.
pub proof fn lemma_room_cells_are_floor(
    map: &TileMap,
    rooms: Seq<Rectangle>,
    options: RoomOptions,
    i: int,
    column: int,
    row: int,
)
    requires
        is_room_layout(map, rooms, options),
        0 <= i < rooms.len(),
        rooms[i].covers(column, row),
    ensures
        map.tiles@.len() == map.rows * map.columns,
        1 <= column <= map.columns - 2,
        1 <= row <= map.rows - 2,
        map.tile_at(column, row) == TileType::Floor,
{
    assert(room_within(
        rooms[i],
        options.min_size,
        options.max_size,
        Size(Dimension(map.columns), Dimension(map.rows)),
    ));
    assert(map.holds(column, row));
    assert(in_some_room(rooms, column, row));
}

/// In a layout every floor cell lies inside the border of the grid: the
/// first and last row and column are walls.
pub proof fn lemma_floor_is_inside(
    map: &TileMap,
    rooms: Seq<Rectangle>,
    options: RoomOptions,
    column: int,
    row: int,
)
    requires
        is_room_layout(map, rooms, options),
        map.holds(column, row),
        map.tile_at(column, row) == TileType::Floor,
    ensures
        1 <= column <= map.columns - 2,
        1 <= row <= map.rows - 2,
{
    let size = Size(Dimension(map.columns), Dimension(map.rows));
    assert(is_carved(rooms, options.connect_rooms, column, row));
    if in_some_room(rooms, column, row) {
        let i: int = choose|i: int| 0 <= i < rooms.len() && #[trigger] rooms[i].covers(column, row);
        assert(room_within(rooms[i], options.min_size, options.max_size, size));
    } else {
        let i: int = choose|i: int|
            0 <= i < rooms.len() - 1 && #[trigger] on_link(rooms, i, column, row);
        assert(room_within(rooms[i], options.min_size, options.max_size, size));
        assert(room_within(rooms[i + 1], options.min_size, options.max_size, size));
    }
}

/// Whether a grid of `size` is too small for any room that `options` allow,
/// so that the first draw of a room must fail.
pub open spec fn no_room_fits(options: RoomOptions, size: Size) -> bool {
    ||| options.min_size.0 >= options.max_size.0
    ||| size.0.0 <= options.min_size.0 + 2
    ||| size.1.0 <= options.min_size.0 + 2
}

/// Whether a grid of `size` has room for every room that `options` allow, so
/// that no draw of a room can fail.
pub open spec fn every_room_fits(options: RoomOptions, size: Size) -> bool {
    &&& options.min_size.0 < options.max_size.0
    &&& size.0.0 > options.max_size.0 + 1
    &&& size.1.0 > options.max_size.0 + 1
}

/// Builds a map of `width` by `height` pixels from solid rock: draws
/// `options.attempts` candidate rooms, skips each one that intersects a room
/// placed before, and carves the others. Where `options.connect_rooms` is
/// set, each room placed is linked to the one placed before it by a corridor
/// between their centres. Returns the map with the rooms it placed, in the
/// order of placing. The result does not depend on `player`.
///
/// Errors: `InvalidDimensions` for dimensions that are zero, no multiple of
/// the tile size or too large for a buffer of tiles; `NoRoomsPlaced` where no
/// candidate is to be drawn; `InvalidGenerationBounds` as soon as a candidate
/// cannot be drawn, which is certain on a grid too small for the least room
/// and impossible on one with room for the largest.
pub fn create_map_with(
    width: usize,
    height: usize,
    player: (usize, usize),
    options: &RoomOptions,
) -> (result: Result<(TileMap, Vec<Rectangle>), MapError>)
    ensures
        match result {
            Ok((map, rooms)) => {
                &&& valid_dimensions(width, height)
                &&& map.wf()
                &&& map.columns == width / GRID_SIZE
                &&& map.rows == height / GRID_SIZE
                &&& 1 <= rooms@.len() <= options.attempts
                &&& is_room_layout(&map, rooms@, *options)
            },
            Err(e) => {
                let size = Size(Dimension(width / GRID_SIZE), Dimension(height / GRID_SIZE));
                match e {
                    MapError::InvalidDimensions => !valid_dimensions(width, height),
                    MapError::NoRoomsPlaced => valid_dimensions(width, height) && options.attempts
                        == 0,
                    MapError::InvalidGenerationBounds => {
                        &&& valid_dimensions(width, height)
                        &&& options.attempts > 0
                        &&& !every_room_fits(*options, size)
                    },
                    MapError::IndexOutOfBounds => false,
                }
            },
        },
        !valid_dimensions(width, height) ==> result == Err::<(TileMap, Vec<Rectangle>), MapError>(
            MapError::InvalidDimensions,
        ),
        valid_dimensions(width, height) && options.attempts == 0 ==> result == Err::<
            (TileMap, Vec<Rectangle>),
            MapError,
        >(MapError::NoRoomsPlaced),
        valid_dimensions(width, height) && options.attempts > 0 && no_room_fits(
            *options,
            Size(Dimension(width / GRID_SIZE), Dimension(height / GRID_SIZE)),
        ) ==> result == Err::<(TileMap, Vec<Rectangle>), MapError>(
            MapError::InvalidGenerationBounds,
        ),
{
    let size = match grid_size(width, height) {
        Ok(size) => size,
        Err(e) => {
            return Err(e);
        },
    };
    let columns: usize = size.0.0;
    let rows: usize = size.1.0;
    let mut map = TileMap::filled(rows, columns, TileType::Wall);
    let mut rooms: Vec<Rectangle> = Vec::new();
    proof {
        assert forall|column: int, row: int| map.holds(column, row) implies #[trigger] map.tile_at(
            column,
            row,
        ) == TileType::Wall by {
            lemma_cell_index_in_range(map.columns as int, map.rows as int, column, row);
        }
    }
    let mut attempt: usize = 0;
    while attempt < options.attempts
        invariant
            valid_dimensions(width, height),
            size == Size(Dimension(columns), Dimension(rows)),
            columns == width / GRID_SIZE,
            rows == height / GRID_SIZE,
            map.columns == columns,
            map.rows == rows,
            attempt <= options.attempts,
            rooms@.len() <= attempt,
            attempt > 0 ==> rooms@.len() >= 1 && !no_room_fits(*options, size),
            is_room_layout(&map, rooms@, *options),
        decreases options.attempts - attempt,
    {
        let candidate = match create_room(options.min_size, options.max_size, size) {
            Ok(room) => room,
            Err(e) => {
                return Err(e);
            },
        };
        let ghost before = map;
        let ghost placed_before = rooms@;
        match place_room(&mut map, &mut rooms, candidate) {
            Ok(placed) => {
                if placed {
                    let ghost roomed = map;
                    let count: usize = rooms.len();
                    if options.connect_rooms && count >= 2 {
                        let previous: Rectangle = rooms[count - 2];
                        assert(previous == placed_before.last());
                        assert(room_within(
                            placed_before[count - 2],
                            options.min_size,
                            options.max_size,
                            size,
                        ));
                        let from = previous.center();
                        let to = candidate.center();
                        match add_corridor(&mut map, &from, &to) {
                            Ok(()) => {},
                            Err(e) => {
                                return Err(e);
                            },
                        }
                    }
                    proof {
                        lemma_layout_grows(
                            &before,
                            &roomed,
                            &map,
                            placed_before,
                            candidate,
                            *options,
                        );
                    }
                }
            },
            Err(e) => {
                return Err(e);
            },
        }
        attempt += 1;
    }
    if rooms.len() == 0 {
        return Err(MapError::NoRoomsPlaced);
    }
    Ok((map, rooms))
}

/// Builds a map of `width` by `height` pixels from solid rock with up to
/// `MAX_ROOMS` rooms carved out of it, each with extents from `MIN_ROOM_SIZE`
/// up to, not including, `MAX_ROOM_SIZE`. The rooms are not connected: no
/// corridor is carved. The result does not depend on `player`.
///
/// Errors: `InvalidDimensions` for dimensions that are zero, no multiple of
/// the tile size or too large for a buffer of tiles;
/// `InvalidGenerationBounds` as soon as a room cannot be drawn, which is
/// certain on a grid of five or fewer columns or rows and impossible on one
/// of eight or more of each.
pub fn create_map(width: usize, height: usize, player: (usize, usize)) -> (result: Result<
    TileMap,
    MapError,
>)
    ensures
        match result {
            Ok(map) => {
                &&& valid_dimensions(width, height)
                &&& map.wf()
                &&& map.columns == width / GRID_SIZE
                &&& map.rows == height / GRID_SIZE
                &&& exists|rooms: Seq<Rectangle>|
                    1 <= rooms.len() <= MAX_ROOMS && #[trigger] is_room_layout(
                        &map,
                        rooms,
                        default_options(),
                    )
                &&& forall|column: int, row: int|
                    map.holds(column, row) && #[trigger] map.tile_at(column, row)
                        == TileType::Floor ==> 1 <= column <= map.columns - 2 && 1 <= row
                        <= map.rows - 2
            },
            Err(e) => {
                ||| e == MapError::InvalidDimensions && !valid_dimensions(width, height)
                ||| {
                    &&& e == MapError::InvalidGenerationBounds
                    &&& valid_dimensions(width, height)
                    &&& (width / GRID_SIZE < MAX_ROOM_SIZE + 2 || height / GRID_SIZE < MAX_ROOM_SIZE
                        + 2)
                }
            },
        },
        !valid_dimensions(width, height) ==> result == Err::<TileMap, MapError>(
            MapError::InvalidDimensions,
        ),
        valid_dimensions(width, height) && (width / GRID_SIZE <= MIN_ROOM_SIZE + 2 || height
            / GRID_SIZE <= MIN_ROOM_SIZE + 2) ==> result == Err::<TileMap, MapError>(
            MapError::InvalidGenerationBounds,
        ),
{
    let options = RoomOptions::default();
    let ghost size = Size(Dimension(width / GRID_SIZE), Dimension(height / GRID_SIZE));
    match create_map_with(width, height, player, &options) {
        Ok((map, rooms)) => {
            proof {
                let placed = rooms@;
                assert(1 <= placed.len() <= MAX_ROOMS);
                assert(is_room_layout(&map, placed, default_options()));
                assert forall|column: int, row: int|
                    map.holds(column, row) && #[trigger] map.tile_at(column, row)
                        == TileType::Floor implies 1 <= column <= map.columns - 2 && 1 <= row
                    <= map.rows - 2 by {
                    lemma_floor_is_inside(&map, placed, default_options(), column, row);
                }
            }
            Ok(map)
        },
        Err(e) => {
            proof {
                assert(options.attempts > 0);
                assert(e != MapError::NoRoomsPlaced);
                assert(e != MapError::IndexOutOfBounds);
                if e == MapError::InvalidGenerationBounds {
                    assert(!every_room_fits(options, size));
                }
            }
            Err(e)
        },
    }
}

} // verus!
