//! The simple builder: a floor inside a closed border of walls, with wall
//! blocks scattered at random over the interior.

use crate::geometry::{has_cell, Dimension, Position, Rectangle, Size};
use crate::random::draw;
use crate::tile_map::{
    grid_size, lemma_cell_index_in_range, valid_dimensions, MapError, TileMap, TileType, GRID_SIZE,
};
use vstd::prelude::*;

verus! {

impl TileMap {
    /// Whether the cell at `column`, `row` lies in the first or last row or
    /// column of the grid.
    pub open spec fn on_border(&self, column: int, row: int) -> bool {
        column == 0 || row == 0 || column == self.columns - 1 || row == self.rows - 1
    }

    /// Whether the cell at `column`, `row` lies inside the border.
    pub open spec fn is_interior(&self, column: int, row: int) -> bool {
        1 <= column < self.columns - 1 && 1 <= row < self.rows - 1
    }

    /// Whether `self` is `before` with every cell of the border set to wall.
    pub open spec fn is_bordered(&self, before: &TileMap) -> bool {
        &&& self.wf()
        &&& self.rows == before.rows
        &&& self.columns == before.columns
        &&& forall|column: int, row: int|
            self.holds(column, row) ==> #[trigger] self.tile_at(column, row) == if self.on_border(
                column,
                row,
            ) {
                TileType::Wall
            } else {
                before.tile_at(column, row)
            }
    }

    /// Turns the first and last row and the first and last column into walls.
    pub fn add_border(&mut self)
        requires
            old(self).wf(),
        ensures
            final(self).is_bordered(old(self)),
    {
        let rows: usize = self.rows;
        let columns: usize = self.columns;
        if rows == 0 || columns == 0 {
            return ;
        }
        let mut row: usize = 0;
        while row < rows
            invariant
                rows == old(self).rows,
                columns == old(self).columns,
                rows > 0,
                columns > 0,
                self.wf(),
                self.rows == rows,
                self.columns == columns,
                row <= rows,
                forall|c: int, r: int|
                    self.holds(c, r) ==> #[trigger] self.tile_at(c, r) == if (c == 0 || c == columns
                        - 1) && r < row {
                        TileType::Wall
                    } else {
                        old(self).tile_at(c, r)
                    },
            decreases rows - row,
        {
            self.put(0, row, TileType::Wall);
            self.put(columns - 1, row, TileType::Wall);
            row += 1;
        }
        let mut column: usize = 0;
        while column < columns
            invariant
                rows == old(self).rows,
                columns == old(self).columns,
                rows > 0,
                columns > 0,
                self.wf(),
                self.rows == rows,
                self.columns == columns,
                column <= columns,
                forall|c: int, r: int|
                    self.holds(c, r) ==> #[trigger] self.tile_at(c, r) == if c == 0 || c == columns
                        - 1 || ((r == 0 || r == rows - 1) && c < column) {
                        TileType::Wall
                    } else {
                        old(self).tile_at(c, r)
                    },
            decreases columns - column,
        {
            self.put(column, 0, TileType::Wall);
            self.put(column, rows - 1, TileType::Wall);
            column += 1;
        }
    }
}

/// Whether `map` is a floor inside a border of walls on which the interior
/// cells `blocks` were turned into walls, but for the cell of `player`.
pub open spec fn is_scattered(map: &TileMap, blocks: Seq<Position>, player: (usize, usize))
    -> bool {
    &&& map.wf()
    &&& forall|k: int|
        0 <= k < blocks.len() ==> map.is_interior(
            (#[trigger] blocks[k]).0.0 as int,
            blocks[k].1.0 as int,
        )
    &&& forall|column: int, row: int|
        map.holds(column, row) ==> #[trigger] map.tile_at(column, row) == if map.on_border(
            column,
            row,
        ) || (has_cell(blocks, column, row) && !(column == player.0 && row == player.1)) {
            TileType::Wall
        } else {
            TileType::Floor
        }
}

/// Turns the cell at `column`, `row` into a wall unless it is the cell of
/// `player`, which is skipped: nothing changes and the result is `false`. A
/// cell outside the grid changes nothing and gives `IndexOutOfBounds`.
pub fn place_block(
    map: &mut TileMap,
    column: usize,
    row: usize,
    player: (usize, usize),
) -> (result: Result<bool, MapError>)
    requires
        old(map).wf(),
    ensures
        match result {
            Ok(placed) => {
                &&& old(map).holds(column as int, row as int)
                &&& placed == !(column == player.0 && row == player.1)
                &&& placed ==> final(map).is_painted(
                    old(map),
                    Rectangle(
                        Position(Dimension(column), Dimension(row)),
                        Size(Dimension(1), Dimension(1)),
                    ),
                    TileType::Wall,
                )
                &&& !placed ==> *final(map) == *old(map)
            },
            Err(e) => {
                &&& e == MapError::IndexOutOfBounds
                &&& !old(map).holds(column as int, row as int)
                &&& *final(map) == *old(map)
            },
        },
{
    if column >= map.columns || row >= map.rows {
        return Err(MapError::IndexOutOfBounds);
    }
    if column != player.0 || row != player.1 {
        map.put(column, row, TileType::Wall);
        Ok(true)
    } else {
        Ok(false)
    }
}

/// Builds a map of `width` by `height` pixels: a floor inside a closed border
/// of walls, on which `blocks` cells of the interior, drawn at random, are
/// turned into walls. A draw that gives the cell of `player` is skipped, and
/// one cell may be drawn twice, so fewer than `blocks` walls may be added.
///
/// Errors: `InvalidDimensions` for dimensions that are zero, no multiple of
/// the tile size or too large for a buffer of tiles;
/// `InvalidGenerationBounds` where blocks are asked for and the grid has no
/// interior.
pub fn create_simple_map(
    width: usize,
    height: usize,
    blocks: usize,
    player: (usize, usize),
) -> (result: Result<TileMap, MapError>)
    ensures
        match result {
            Ok(map) => {
                &&& valid_dimensions(width, height)
                &&& map.wf()
                &&& map.columns == width / GRID_SIZE
                &&& map.rows == height / GRID_SIZE
                &&& blocks > 0 ==> map.columns > 2 && map.rows > 2
                &&& exists|cells: Seq<Position>|
                    cells.len() == blocks && #[trigger] is_scattered(&map, cells, player)
                &&& forall|column: int, row: int|
                    map.holds(column, row) && map.on_border(column, row) ==> #[trigger] map.tile_at(
                        column,
                        row,
                    ) == TileType::Wall
                &&& map.is_interior(player.0 as int, player.1 as int) ==> map.tile_at(
                    player.0 as int,
                    player.1 as int,
                ) == TileType::Floor
            },
            Err(e) => {
                ||| e == MapError::InvalidDimensions && !valid_dimensions(width, height)
                ||| {
                    &&& e == MapError::InvalidGenerationBounds
                    &&& valid_dimensions(width, height)
                    &&& blocks > 0
                    &&& (width / GRID_SIZE <= 2 || height / GRID_SIZE <= 2)
                }
            },
        },
{
    let size = match grid_size(width, height) {
        Ok(size) => size,
        Err(e) => {
            return Err(e);
        },
    };
    let columns: usize = size.0.0;
    let rows: usize = size.1.0;
    if blocks > 0 && (columns <= 2 || rows <= 2) {
        return Err(MapError::InvalidGenerationBounds);
    }
    let mut map = TileMap::filled(rows, columns, TileType::Floor);
    proof {
        assert forall|column: int, row: int| map.holds(column, row) implies #[trigger] map.tile_at(
            column,
            row,
        ) == TileType::Floor by {
            lemma_cell_index_in_range(map.columns as int, map.rows as int, column, row);
        }
    }
    map.add_border();
    let ghost mut cells: Seq<Position> = Seq::empty();
    let mut rng = rand::thread_rng();
    let mut placed: usize = 0;
    while placed < blocks
        invariant
            map.columns == columns,
            map.rows == rows,
            blocks > 0 ==> columns > 2 && rows > 2,
            placed <= blocks,
            cells.len() == placed,
            is_scattered(&map, cells, player),
        decreases blocks - placed,
    {
        let column: usize = draw(&mut rng, 1, columns - 1);
        let row: usize = draw(&mut rng, 1, rows - 1);
        let ghost before = map;
        let ghost drawn = cells;
        match place_block(&mut map, column, row, player) {
            Ok(_) => {},
            Err(e) => {
                return Err(e);
            },
        }
        proof {
            cells = drawn.push(Position(Dimension(column), Dimension(row)));
            lemma_scatter_grows(&before, &map, drawn, column, row, player);
        }
        placed += 1;
    }
    proof {
        assert(is_scattered(&map, cells, player));
    }
    Ok(map)
}

/// A scattered map stays one when one more interior cell is drawn and turned
/// into a wall unless it is the cell of `player`.
pub proof fn lemma_scatter_grows(
    before: &TileMap,
    after: &TileMap,
    blocks: Seq<Position>,
    column: usize,
    row: usize,
    player: (usize, usize),
)
    requires
        is_scattered(before, blocks, player),
        before.is_interior(column as int, row as int),
        column == player.0 && row == player.1 ==> *after == *before,
        !(column == player.0 && row == player.1) ==> after.is_painted(
            before,
            Rectangle(
                Position(Dimension(column), Dimension(row)),
                Size(Dimension(1), Dimension(1)),
            ),
            TileType::Wall,
        ),
    ensures
        is_scattered(after, blocks.push(Position(Dimension(column), Dimension(row))), player),
{
    let drawn = Position(Dimension(column), Dimension(row));
    let grown = blocks.push(drawn);
    assert forall|k: int| 0 <= k < grown.len() implies after.is_interior(
        (#[trigger] grown[k]).0.0 as int,
        grown[k].1.0 as int,
    ) by {
        if k < blocks.len() {
            assert(grown[k] == blocks[k]);
        }
    }
    assert forall|c: int, r: int| after.holds(c, r) implies #[trigger] after.tile_at(c, r)
        == if after.on_border(c, r) || (has_cell(grown, c, r) && !(c == player.0 && r
        == player.1)) {
        TileType::Wall
    } else {
        TileType::Floor
    } by {
        assert(before.holds(c, r));
        if c == column && r == row {
            assert(grown[blocks.len() as int].is_at(c, r));
        } else if has_cell(blocks, c, r) {
            let k: int = choose|k: int| 0 <= k < blocks.len() && #[trigger] blocks[k].is_at(c, r);
            assert(grown[k].is_at(c, r));
        } else {
            if has_cell(grown, c, r) {
                let k: int = choose|k: int| 0 <= k < grown.len() && #[trigger] grown[k].is_at(c, r);
                assert(blocks[k].is_at(c, r));
            }
        }
    }
}

} // verus!
