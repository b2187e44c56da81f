use dungeon_map::{
    create_simple_map, place_block, Dimension, MapError, Position, TileMap, TileType,
};

fn cell(column: usize, row: usize) -> Position {
    Position(Dimension(column), Dimension(row))
}

fn on_border(map: &TileMap, column: usize, row: usize) -> bool {
    column == 0 || row == 0 || column == map.columns - 1 || row == map.rows - 1
}

fn interior_walls(map: &TileMap) -> usize {
    let mut walls = 0;
    for row in 0..map.rows {
        for column in 0..map.columns {
            if !on_border(map, column, row) && map.tile(cell(column, row)) == Ok(TileType::Wall) {
                walls += 1;
            }
        }
    }
    walls
}

#[test]
fn simple_map_has_a_closed_border() {
    for _ in 0..20 {
        let map = create_simple_map(640, 480, 30, (5, 5)).unwrap();
        assert_eq!(map.columns, 20);
        assert_eq!(map.rows, 15);
        assert_eq!(map.tiles.len(), 300);
        for column in 0..20usize {
            assert_eq!(map.tile(cell(column, 0)), Ok(TileType::Wall));
            assert_eq!(map.tile(cell(column, 14)), Ok(TileType::Wall));
        }
        for row in 0..15usize {
            assert_eq!(map.tile(cell(0, row)), Ok(TileType::Wall));
            assert_eq!(map.tile(cell(19, row)), Ok(TileType::Wall));
        }
    }
}

#[test]
fn simple_map_without_blocks_is_floor_inside_the_border() {
    let map = create_simple_map(160, 128, 0, (1, 1)).unwrap();
    assert_eq!(map.columns, 5);
    assert_eq!(map.rows, 4);
    for row in 0..4usize {
        for column in 0..5usize {
            let expected = if on_border(&map, column, row) {
                TileType::Wall
            } else {
                TileType::Floor
            };
            assert_eq!(map.tile(cell(column, row)), Ok(expected));
        }
    }
}

#[test]
fn simple_map_adds_no_more_walls_than_blocks() {
    for blocks in [0usize, 1, 5, 40] {
        for _ in 0..10 {
            let map = create_simple_map(640, 480, blocks, (0, 0)).unwrap();
            assert!(interior_walls(&map) <= blocks);
        }
    }
    let map = create_simple_map(640, 480, 1, (0, 0)).unwrap();
    assert_eq!(interior_walls(&map), 1);
}

#[test]
fn simple_map_never_blocks_the_avoid_cell() {
    for _ in 0..10 {
        let map = create_simple_map(160, 160, 2000, (2, 3)).unwrap();
        assert_eq!(map.tile(cell(2, 3)), Ok(TileType::Floor));
        assert_eq!(interior_walls(&map), 8);
    }
}

#[test]
fn simple_map_with_one_interior_cell() {
    let map = create_simple_map(96, 96, 10, (0, 0)).unwrap();
    assert!(map.tiles.iter().all(|t| *t == TileType::Wall));
    let kept = create_simple_map(96, 96, 10, (1, 1)).unwrap();
    assert_eq!(kept.tile(cell(1, 1)), Ok(TileType::Floor));
    assert_eq!(interior_walls(&kept), 0);
}

#[test]
fn simple_map_of_misaligned_size_is_an_error() {
    assert_eq!(
        create_simple_map(100, 480, 3, (0, 0)).err(),
        Some(MapError::InvalidDimensions)
    );
    assert_eq!(
        create_simple_map(640, 100, 3, (0, 0)).err(),
        Some(MapError::InvalidDimensions)
    );
    assert_eq!(
        create_simple_map(0, 0, 0, (0, 0)).err(),
        Some(MapError::InvalidDimensions)
    );
}

#[test]
fn simple_map_without_interior_takes_no_blocks() {
    assert_eq!(
        create_simple_map(64, 480, 1, (0, 0)).err(),
        Some(MapError::InvalidGenerationBounds)
    );
    assert_eq!(
        create_simple_map(640, 32, 4, (0, 0)).err(),
        Some(MapError::InvalidGenerationBounds)
    );
    let map = create_simple_map(64, 32, 0, (0, 0)).unwrap();
    assert_eq!(map.columns, 2);
    assert_eq!(map.rows, 1);
    assert!(map.tiles.iter().all(|t| *t == TileType::Wall));
}

#[test]
fn border_is_added_to_any_map() {
    let mut map = TileMap::filled(4, 5, TileType::Floor);
    map.add_border();
    for row in 0..4usize {
        for column in 0..5usize {
            let expected = if on_border(&map, column, row) {
                TileType::Wall
            } else {
                TileType::Floor
            };
            assert_eq!(map.tile(cell(column, row)), Ok(expected));
        }
    }
    let mut line = TileMap::filled(1, 6, TileType::Floor);
    line.add_border();
    assert!(line.tiles.iter().all(|t| *t == TileType::Wall));
    let mut empty = TileMap::filled(0, 3, TileType::Floor);
    empty.add_border();
    assert!(empty.tiles.is_empty());
}

#[test]
fn block_is_placed_on_a_free_cell() {
    let mut map = TileMap::filled(4, 5, TileType::Floor);
    assert_eq!(place_block(&mut map, 2, 1, (3, 3)), Ok(true));
    assert_eq!(map.tile(cell(2, 1)), Ok(TileType::Wall));
    assert_eq!(map.tiles.iter().filter(|t| **t == TileType::Wall).count(), 1);
    assert_eq!(place_block(&mut map, 2, 1, (3, 3)), Ok(true));
    assert_eq!(map.tiles.iter().filter(|t| **t == TileType::Wall).count(), 1);
}

#[test]
fn block_on_the_avoid_cell_is_skipped() {
    let mut map = TileMap::filled(4, 5, TileType::Floor);
    assert_eq!(place_block(&mut map, 3, 2, (3, 2)), Ok(false));
    assert!(map.tiles.iter().all(|t| *t == TileType::Floor));
    assert_eq!(place_block(&mut map, 2, 3, (3, 2)), Ok(true));
    assert_eq!(map.tile(cell(2, 3)), Ok(TileType::Wall));
}

#[test]
fn block_outside_the_grid_is_an_error() {
    let mut map = TileMap::filled(4, 5, TileType::Floor);
    assert_eq!(
        place_block(&mut map, 5, 0, (0, 0)),
        Err(MapError::IndexOutOfBounds)
    );
    assert_eq!(
        place_block(&mut map, 0, 4, (0, 4)),
        Err(MapError::IndexOutOfBounds)
    );
    assert!(map.tiles.iter().all(|t| *t == TileType::Floor));
}
