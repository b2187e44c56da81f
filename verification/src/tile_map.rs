//! The tile map: a row-major buffer of tiles with its row and column counts.

use crate::geometry::{has_cell, Dimension, Position, Rectangle, Size};
use vstd::prelude::*;

verus! {

/// The edge of a tile in pixels.
pub const GRID_SIZE: usize = 32;

/// The terrain of one cell.
#[derive(Debug, PartialEq, Eq, Structural, Copy, Clone)]
pub enum TileType {
    Wall,
    Floor,
}

/// The direction in which a tunnel runs from its first cell.
#[derive(Debug, PartialEq, Eq, Structural, Copy, Clone)]
pub enum Orientation {
    Horizontal,
    Vertical,
}

/// Why a map could not be built or a cell not be reached.
#[derive(Debug, PartialEq, Eq, Structural, Copy, Clone)]
pub enum MapError {
    /// A pixel dimension is zero or no multiple of the tile size, or the map
    /// would have more tiles than a buffer can hold.
    InvalidDimensions,
    /// A random draw was asked from a range that holds no value.
    InvalidGenerationBounds,
    /// A cell lies outside the grid.
    IndexOutOfBounds,
    /// The room builder accepted no room.
    NoRoomsPlaced,
}

impl MapError {
    /// The text that describes the error.
    pub open spec fn text(self) -> Seq<char> {
        match self {
            MapError::InvalidDimensions => "Invalid dimensions, we need to be divisable by 32"@,
            MapError::InvalidGenerationBounds => "Invalid generation bounds, the map is too small"@,
            MapError::IndexOutOfBounds => "Index out of bounds, the position is outside the map"@,
            MapError::NoRoomsPlaced => "No rooms placed, the map is solid rock"@,
        }
    }

    /// The text that describes the error.
    pub fn message(&self) -> (message: &'static str)
        ensures
            message@ == self.text(),
    {
        match self {
            MapError::InvalidDimensions => "Invalid dimensions, we need to be divisable by 32",
            MapError::InvalidGenerationBounds => "Invalid generation bounds, the map is too small",
            MapError::IndexOutOfBounds => "Index out of bounds, the position is outside the map",
            MapError::NoRoomsPlaced => "No rooms placed, the map is solid rock",
        }
    }
}

/// A grid of `rows * columns` tiles, stored row by row.
#[derive(Debug, Clone)]
pub struct TileMap {
    pub rows: usize,
    pub columns: usize,
    pub tiles: Vec<TileType>,
}

impl Default for TileMap {
    /// The map without a cell.
    fn default() -> (map: Self)
        ensures
            map.wf(),
            map.rows == 0,
            map.columns == 0,
            map.tiles@.len() == 0,
    {
        TileMap { rows: 0, columns: 0, tiles: Vec::new() }
    }
}

/// Whether a map can have these pixel dimensions: both are positive multiples
/// of the tile size, and the number of tiles is one that a buffer can have.
pub open spec fn valid_dimensions(width: usize, height: usize) -> bool {
    &&& width > 0
    &&& height > 0
    &&& width % GRID_SIZE == 0
    &&& height % GRID_SIZE == 0
    &&& (height / GRID_SIZE) * (width / GRID_SIZE) <= usize::MAX
}

/// On every machine a buffer can hold the tiles of a map of up to 65535
/// columns and as many rows.
pub proof fn lemma_moderate_dimensions_are_valid(width: usize, height: usize)
    requires
        width > 0,
        height > 0,
        width % GRID_SIZE == 0,
        height % GRID_SIZE == 0,
        width / GRID_SIZE <= 0xFFFF,
        height / GRID_SIZE <= 0xFFFF,
    ensures
        valid_dimensions(width, height),
{
    let columns: int = (width / GRID_SIZE) as int;
    let rows: int = (height / GRID_SIZE) as int;
    assert(rows * columns <= 0xFFFF * 0xFFFF) by (nonlinear_arith)
        requires
            0 <= columns <= 0xFFFF,
            0 <= rows <= 0xFFFF,
    ;
}

/// The number of columns and rows of a map of `width` by `height` pixels, or
/// `InvalidDimensions` where one of the two is zero or no multiple of the
/// tile size, or where no buffer can hold that many tiles.
pub fn grid_size(width: usize, height: usize) -> (result: Result<Size, MapError>)
    ensures
        match result {
            Ok(size) => {
                &&& valid_dimensions(width, height)
                &&& size.0.0 == width / GRID_SIZE
                &&& size.1.0 == height / GRID_SIZE
            },
            Err(e) => e == MapError::InvalidDimensions && !valid_dimensions(width, height),
        },
{
    if width == 0 || height == 0 || width % GRID_SIZE != 0 || height % GRID_SIZE != 0 {
        return Err(MapError::InvalidDimensions);
    }
    let columns: usize = width / GRID_SIZE;
    let rows: usize = height / GRID_SIZE;
    match rows.checked_mul(columns) {
        Some(_) => Ok(Size(Dimension(columns), Dimension(rows))),
        None => Err(MapError::InvalidDimensions),
    }
}

/// The index of the cell at `column`, `row` in a row-major buffer of
/// `columns` cells per row.
pub open spec fn cell_index(columns: int, column: int, row: int) -> int {
    row * columns + column
}

/// A cell of a grid has an index below the number of cells.
pub proof fn lemma_cell_index_in_range(columns: int, rows: int, column: int, row: int)
    requires
        0 <= column < columns,
        0 <= row < rows,
    ensures
        0 <= cell_index(columns, column, row) < rows * columns,
{
    assert(row * columns + columns <= rows * columns) by (nonlinear_arith)
        requires
            0 <= row < rows,
            0 <= columns,
    ;
    assert(0 <= row * columns) by (nonlinear_arith)
        requires
            0 <= row,
            0 <= columns,
    ;
}

/// Two cells of a grid with one index are one cell.
pub proof fn lemma_cell_index_injective(columns: int, c1: int, r1: int, c2: int, r2: int)
    requires
        0 <= c1 < columns,
        0 <= c2 < columns,
        cell_index(columns, c1, r1) == cell_index(columns, c2, r2),
    ensures
        c1 == c2,
        r1 == r2,
{
    assert(r1 == r2) by (nonlinear_arith)
        requires
            0 <= c1 < columns,
            0 <= c2 < columns,
            r1 * columns + c1 == r2 * columns + c2,
    ;
}

impl TileMap {
    /// The buffer holds one tile for each cell.
    pub open spec fn wf(&self) -> bool {
        self.tiles@.len() == self.rows * self.columns
    }

    /// Whether `column`, `row` names a cell of the grid.
    pub open spec fn holds(&self, column: int, row: int) -> bool {
        0 <= column < self.columns && 0 <= row < self.rows
    }

    /// The tile of the cell at `column`, `row`.
    pub open spec fn tile_at(&self, column: int, row: int) -> TileType {
        self.tiles@[cell_index(self.columns as int, column, row)]
    }

    /// Whether every cell of `area` is a cell of the grid.
    pub open spec fn encloses(&self, area: Rectangle) -> bool {
        ||| area.1.0.0 == 0
        ||| area.1.1.0 == 0
        ||| (area.max_x() <= self.columns && area.max_y() <= self.rows)
    }

    /// Whether the buffer holds one tile for each cell.
    pub fn is_well_formed(&self) -> (ok: bool)
        ensures
            ok == self.wf(),
    {
        assert(self.tiles@.len() == self.tiles.len());
        match self.rows.checked_mul(self.columns) {
            Some(cells) => self.tiles.len() == cells,
            None => false,
        }
    }

    /// A map of `rows * columns` cells, each holding `tile`.
    pub fn filled(rows: usize, columns: usize, tile: TileType) -> (map: TileMap)
        requires
            rows * columns <= usize::MAX,
        ensures
            map.wf(),
            map.rows == rows,
            map.columns == columns,
            forall|i: int| 0 <= i < map.tiles@.len() ==> map.tiles@[i] == tile,
    {
        let tiles = vec![tile; rows * columns];
        TileMap { rows, columns, tiles }
    }

    /// The index of a cell in the buffer, or `IndexOutOfBounds` for a
    /// position outside the grid.
    pub fn grid_to_index(&self, position: Position) -> (result: Result<usize, MapError>)
        requires
            self.wf(),
        ensures
            match result {
                Ok(index) => {
                    &&& self.holds(position.0.0 as int, position.1.0 as int)
                    &&& index == cell_index(
                        self.columns as int,
                        position.0.0 as int,
                        position.1.0 as int,
                    )
                    &&& index < self.tiles@.len()
                },
                Err(e) => {
                    &&& e == MapError::IndexOutOfBounds
                    &&& !self.holds(position.0.0 as int, position.1.0 as int)
                },
            },
    {
        if position.0.0 < self.columns && position.1.0 < self.rows {
            proof {
                lemma_cell_index_in_range(
                    self.columns as int,
                    self.rows as int,
                    position.0.0 as int,
                    position.1.0 as int,
                );
                assert(self.tiles@.len() == self.tiles.len());
            }
            Ok(position.1.0 * self.columns + position.0.0)
        } else {
            Err(MapError::IndexOutOfBounds)
        }
    }

    /// The tile of a cell, or `IndexOutOfBounds` for a position outside the
    /// grid.
    pub fn tile(&self, position: Position) -> (result: Result<TileType, MapError>)
        requires
            self.wf(),
        ensures
            match result {
                Ok(tile) => {
                    &&& self.holds(position.0.0 as int, position.1.0 as int)
                    &&& tile == self.tile_at(position.0.0 as int, position.1.0 as int)
                },
                Err(e) => {
                    &&& e == MapError::IndexOutOfBounds
                    &&& !self.holds(position.0.0 as int, position.1.0 as int)
                },
            },
    {
        match self.grid_to_index(position) {
            Ok(index) => Ok(self.tiles[index]),
            Err(e) => Err(e),
        }
    }

    /// Whether `self` is `before` with every cell of `area` set to `tile`.
    pub open spec fn is_painted(&self, before: &TileMap, area: Rectangle, tile: TileType) -> bool {
        &&& self.wf()
        &&& self.rows == before.rows
        &&& self.columns == before.columns
        &&& forall|column: int, row: int|
            self.holds(column, row) ==> #[trigger] self.tile_at(column, row) == if area.covers(
                column,
                row,
            ) {
                tile
            } else {
                before.tile_at(column, row)
            }
    }

    /// Sets the tile of one cell, or leaves the map as it is and returns
    /// `IndexOutOfBounds` for a position outside the grid.
    pub fn set_tile(&mut self, position: Position, tile: TileType) -> (result: Result<
        (),
        MapError,
    >)
        requires
            old(self).wf(),
        ensures
            match result {
                Ok(()) => {
                    &&& old(self).holds(position.0.0 as int, position.1.0 as int)
                    &&& final(self).is_painted(
                        old(self),
                        Rectangle(position, Size(Dimension(1), Dimension(1))),
                        tile,
                    )
                },
                Err(e) => {
                    &&& e == MapError::IndexOutOfBounds
                    &&& !old(self).holds(position.0.0 as int, position.1.0 as int)
                    &&& *final(self) == *old(self)
                },
            },
    {
        if position.0.0 < self.columns && position.1.0 < self.rows {
            self.put(position.0.0, position.1.0, tile);
            Ok(())
        } else {
            Err(MapError::IndexOutOfBounds)
        }
    }

    /// Whether `cells` lists the cells that hold `tile`, each once, in the
    /// order in which the grid is read row by row.
    pub open spec fn lists_tiles(&self, cells: Seq<Position>, tile: TileType) -> bool {
        &&& forall|k: int|
            0 <= k < cells.len() ==> {
                &&& self.holds((#[trigger] cells[k]).0.0 as int, cells[k].1.0 as int)
                &&& self.tile_at(cells[k].0.0 as int, cells[k].1.0 as int) == tile
            }
        &&& forall|j: int, k: int|
            0 <= j < k < cells.len() ==> (#[trigger] cells[j]).comes_before(#[trigger] cells[k])
        &&& forall|column: int, row: int|
            self.holds(column, row) && #[trigger] self.tile_at(column, row) == tile ==> has_cell(
                cells,
                column,
                row,
            )
    }

    /// The cells that hold a wall, in the order in which the grid is read row
    /// by row: what a renderer draws.
    pub fn wall_positions(&self) -> (walls: Vec<Position>)
        requires
            self.wf(),
        ensures
            self.lists_tiles(walls@, TileType::Wall),
    {
        let mut walls: Vec<Position> = Vec::new();
        let mut row: usize = 0;
        while row < self.rows
            invariant
                self.wf(),
                row <= self.rows,
                forall|k: int|
                    0 <= k < walls@.len() ==> {
                        &&& self.holds((#[trigger] walls@[k]).0.0 as int, walls@[k].1.0 as int)
                        &&& self.tile_at(walls@[k].0.0 as int, walls@[k].1.0 as int)
                            == TileType::Wall
                        &&& walls@[k].1.0 < row
                    },
                forall|j: int, k: int|
                    0 <= j < k < walls@.len() ==> (#[trigger] walls@[j]).comes_before(
                        #[trigger] walls@[k],
                    ),
                forall|c: int, r: int|
                    self.holds(c, r) && #[trigger] self.tile_at(c, r) == TileType::Wall && r < row
                        ==> has_cell(walls@, c, r),
            decreases self.rows - row,
        {
            let mut column: usize = 0;
            while column < self.columns
                invariant
                    self.wf(),
                    row < self.rows,
                    column <= self.columns,
                    forall|k: int|
                        0 <= k < walls@.len() ==> {
                            &&& self.holds((#[trigger] walls@[k]).0.0 as int, walls@[k].1.0 as int)
                            &&& self.tile_at(walls@[k].0.0 as int, walls@[k].1.0 as int)
                                == TileType::Wall
                            &&& (walls@[k].1.0 < row || (walls@[k].1.0 == row && walls@[k].0.0
                                < column))
                        },
                    forall|j: int, k: int|
                        0 <= j < k < walls@.len() ==> (#[trigger] walls@[j]).comes_before(
                            #[trigger] walls@[k],
                        ),
                    forall|c: int, r: int|
                        self.holds(c, r) && #[trigger] self.tile_at(c, r) == TileType::Wall && (r
                            < row || (r == row && c < column)) ==> has_cell(walls@, c, r),
                decreases self.columns - column,
            {
                if self.get(column, row) == TileType::Wall {
                    let ghost listed = walls@;
                    walls.push(Position(Dimension(column), Dimension(row)));
                    proof {
                        assert forall|c: int, r: int|
                            self.holds(c, r) && #[trigger] self.tile_at(c, r) == TileType::Wall
                                && (r < row || (r == row && c < column + 1)) implies has_cell(
                            walls@,
                            c,
                            r,
                        ) by {
                            if r == row && c == column {
                                assert(walls@[listed.len() as int].is_at(c, r));
                            } else {
                                assert(has_cell(listed, c, r));
                                let k: int = choose|k: int|
                                    0 <= k < listed.len() && #[trigger] listed[k].is_at(c, r);
                                assert(walls@[k].is_at(c, r));
                            }
                        }
                    }
                }
                column += 1;
            }
            row += 1;
        }
        walls
    }

    /// The tile of a cell that the grid is known to hold.
    pub(crate) fn get(&self, column: usize, row: usize) -> (tile: TileType)
        requires
            self.wf(),
            self.holds(column as int, row as int),
        ensures
            tile == self.tile_at(column as int, row as int),
    {
        proof {
            lemma_cell_index_in_range(
                self.columns as int,
                self.rows as int,
                column as int,
                row as int,
            );
            assert(self.tiles@.len() == self.tiles.len());
        }
        self.tiles[row * self.columns + column]
    }

    /// Sets the tile of a cell that the grid is known to hold.
    pub(crate) fn put(&mut self, column: usize, row: usize, tile: TileType)
        requires
            old(self).wf(),
            old(self).holds(column as int, row as int),
        ensures
            final(self).wf(),
            final(self).rows == old(self).rows,
            final(self).columns == old(self).columns,
            forall|c: int, r: int|
                old(self).holds(c, r) ==> #[trigger] final(self).tile_at(c, r) == if c == column
                    && r == row {
                    tile
                } else {
                    old(self).tile_at(c, r)
                },
    {
        proof {
            lemma_cell_index_in_range(
                self.columns as int,
                self.rows as int,
                column as int,
                row as int,
            );
            assert(self.tiles@.len() == self.tiles.len());
        }
        let index: usize = row * self.columns + column;
        self.tiles.set(index, tile);
        proof {
            assert forall|c: int, r: int| old(self).holds(c, r) implies #[trigger] self.tile_at(
                c,
                r,
            ) == if c == column && r == row {
                tile
            } else {
                old(self).tile_at(c, r)
            } by {
                lemma_cell_index_in_range(self.columns as int, self.rows as int, c, r);
                if cell_index(self.columns as int, c, r) == index {
                    lemma_cell_index_injective(
                        self.columns as int,
                        c,
                        r,
                        column as int,
                        row as int,
                    );
                }
            }
        }
    }

    /// Whether every cell of `area` is a cell of the grid.
    pub fn has_room_for(&self, area: &Rectangle) -> (fits: bool)
        ensures
            fits == self.encloses(*area),
    {
        let width: usize = area.1.0.0;
        let height: usize = area.1.1.0;
        width == 0 || height == 0 || (width <= self.columns && area.0.0.0 <= self.columns - width
            && height <= self.rows && area.0.1.0 <= self.rows - height)
    }

    /// Sets every cell of an area that lies inside the grid to `tile`.
    pub(crate) fn paint(&mut self, area: Rectangle, tile: TileType)
        requires
            old(self).wf(),
            old(self).encloses(area),
        ensures
            final(self).is_painted(old(self), area, tile),
    {
        let left: usize = area.0.0.0;
        let top: usize = area.0.1.0;
        let width: usize = area.1.0.0;
        let height: usize = area.1.1.0;
        let mut down: usize = 0;
        while down < height
            invariant
                left == area.0.0.0,
                top == area.0.1.0,
                width == area.1.0.0,
                height == area.1.1.0,
                old(self).encloses(area),
                self.wf(),
                self.rows == old(self).rows,
                self.columns == old(self).columns,
                down <= height,
                forall|c: int, r: int|
                    self.holds(c, r) ==> #[trigger] self.tile_at(c, r) == if area.covers(c, r) && r
                        < top + down {
                        tile
                    } else {
                        old(self).tile_at(c, r)
                    },
            decreases height - down,
        {
            let mut across: usize = 0;
            while across < width
                invariant
                    left == area.0.0.0,
                    top == area.0.1.0,
                    width == area.1.0.0,
                    height == area.1.1.0,
                    old(self).encloses(area),
                    self.wf(),
                    self.rows == old(self).rows,
                    self.columns == old(self).columns,
                    down < height,
                    across <= width,
                    forall|c: int, r: int|
                        self.holds(c, r) ==> #[trigger] self.tile_at(c, r) == if area.covers(c, r)
                            && (r < top + down || (r == top + down && c < left + across)) {
                            tile
                        } else {
                            old(self).tile_at(c, r)
                        },
                decreases width - across,
            {
                self.put(left + across, top + down, tile);
                across += 1;
            }
            down += 1;
        }
    }
}

/// The cells of a tunnel: `length` cells from `start`, to the right for a
/// horizontal tunnel and downwards for a vertical one.
pub open spec fn tunnel_area(orientation: Orientation, start: Position, length: Dimension)
    -> Rectangle {
    match orientation {
        Orientation::Horizontal => Rectangle(start, Size(length, Dimension(1))),
        Orientation::Vertical => Rectangle(start, Size(Dimension(1), length)),
    }
}

/// Carves a room: every cell of `room` becomes floor. A room with a cell
/// outside the grid leaves the map as it is and gives `IndexOutOfBounds`.
pub fn add_room_to_map(room: Rectangle, map: &mut TileMap) -> (result: Result<(), MapError>)
    requires
        old(map).wf(),
    ensures
        match result {
            Ok(()) => {
                &&& old(map).encloses(room)
                &&& final(map).is_painted(old(map), room, TileType::Floor)
            },
            Err(e) => {
                &&& e == MapError::IndexOutOfBounds
                &&& !old(map).encloses(room)
                &&& *final(map) == *old(map)
            },
        },
{
    if map.has_room_for(&room) {
        map.paint(room, TileType::Floor);
        Ok(())
    } else {
        Err(MapError::IndexOutOfBounds)
    }
}

/// Carves a tunnel of `length` floor cells from `position`, to the right for
/// a horizontal tunnel and downwards for a vertical one. A tunnel with a cell
/// outside the grid leaves the map as it is and gives `IndexOutOfBounds`.
pub fn add_tunnel(
    orientation: Orientation,
    position: &Position,
    length: Dimension,
    map: &mut TileMap,
) -> (result: Result<(), MapError>)
    requires
        old(map).wf(),
    ensures
        match result {
            Ok(()) => {
                &&& old(map).encloses(tunnel_area(orientation, *position, length))
                &&& final(map).is_painted(
                    old(map),
                    tunnel_area(orientation, *position, length),
                    TileType::Floor,
                )
            },
            Err(e) => {
                &&& e == MapError::IndexOutOfBounds
                &&& !old(map).encloses(tunnel_area(orientation, *position, length))
                &&& *final(map) == *old(map)
            },
        },
{
    let area = match orientation {
        Orientation::Horizontal => Rectangle(*position, Size(length, Dimension(1))),
        Orientation::Vertical => Rectangle(*position, Size(Dimension(1), length)),
    };
    add_room_to_map(area, map)
}

} // verus!
