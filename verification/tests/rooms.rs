use dungeon_map::{
    add_corridor, create_map, create_map_with, create_room, intersects_any, origin_limit,
    place_room, Dimension, MapError, Position, Rectangle, RoomOptions, Size, TileMap, TileType,
    MAX_ROOMS, MAX_ROOM_SIZE, MIN_ROOM_SIZE,
};

fn rect(x: usize, y: usize, width: usize, height: usize) -> Rectangle {
    Rectangle(
        Position(Dimension(x), Dimension(y)),
        Size(Dimension(width), Dimension(height)),
    )
}

fn cell(column: usize, row: usize) -> Position {
    Position(Dimension(column), Dimension(row))
}

fn covers(room: &Rectangle, column: usize, row: usize) -> bool {
    let x = room.0 .0 .0;
    let y = room.0 .1 .0;
    x <= column && column < x + room.1 .0 .0 && y <= row && row < y + room.1 .1 .0
}

fn options(attempts: usize, min: usize, max: usize) -> RoomOptions {
    RoomOptions {
        attempts,
        min_size: Dimension(min),
        max_size: Dimension(max),
        connect_rooms: false,
    }
}

fn between(a: usize, b: usize, value: usize) -> bool {
    (a <= value && value <= b) || (b <= value && value <= a)
}

fn on_corridor(from: Position, to: Position, column: usize, row: usize) -> bool {
    (row == from.1 .0 && between(from.0 .0, to.0 .0, column))
        || (column == to.0 .0 && between(from.1 .0, to.1 .0, row))
}

fn floor_cells(map: &TileMap) -> usize {
    map.tiles.iter().filter(|t| **t == TileType::Floor).count()
}

#[test]
fn test_new_room() {
    let room = create_room(0.into(), 4.into(), Size(10.into(), 10.into())).unwrap();
    assert!(room.0 .0 < 10.into());
    assert!(room.0 .1 < 10.into());
    assert!(room.1 .0 <= 4.into());
    assert!(room.1 .1 <= 4.into());
}

#[test]
fn room_keeps_inside_the_margin() {
    for _ in 0..500 {
        let room = create_room(Dimension(3), Dimension(6), Size(Dimension(10), Dimension(10)))
            .unwrap();
        let x = room.0 .0 .0;
        let y = room.0 .1 .0;
        let width = room.1 .0 .0;
        let height = room.1 .1 .0;
        assert!(1 <= x);
        assert!(1 <= y);
        assert!((3..6).contains(&width));
        assert!((3..6).contains(&height));
        assert!(x + width <= 10 - 1);
        assert!(y + height <= 10 - 1);
        assert!(x + width < 10 - 1);
        assert!(y + height < 10 - 1);
    }
}

#[test]
fn rooms_differ_from_draw_to_draw() {
    let mut widths = Vec::new();
    let mut origins = Vec::new();
    for _ in 0..400 {
        let room = create_room(Dimension(3), Dimension(6), Size(Dimension(20), Dimension(15)))
            .unwrap();
        if !widths.contains(&room.1 .0 .0) {
            widths.push(room.1 .0 .0);
        }
        if !origins.contains(&room.0 .0 .0) {
            origins.push(room.0 .0 .0);
        }
    }
    assert!(widths.len() > 1);
    assert!(origins.len() > 1);
}

#[test]
fn room_of_the_only_size_at_the_only_place() {
    let room = create_room(Dimension(3), Dimension(4), Size(Dimension(6), Dimension(6))).unwrap();
    assert_eq!(room, rect(1, 1, 3, 3));
}

#[test]
fn room_without_a_size_to_draw_is_an_error() {
    let size = Size(Dimension(20), Dimension(15));
    assert_eq!(
        create_room(Dimension(6), Dimension(6), size),
        Err(MapError::InvalidGenerationBounds)
    );
    assert_eq!(
        create_room(Dimension(7), Dimension(3), size),
        Err(MapError::InvalidGenerationBounds)
    );
}

#[test]
fn room_on_a_grid_too_small_is_an_error() {
    assert_eq!(
        create_room(Dimension(3), Dimension(6), Size(Dimension(5), Dimension(15))),
        Err(MapError::InvalidGenerationBounds)
    );
    assert_eq!(
        create_room(Dimension(3), Dimension(6), Size(Dimension(20), Dimension(5))),
        Err(MapError::InvalidGenerationBounds)
    );
    assert_eq!(
        create_room(Dimension(3), Dimension(6), Size(Dimension(0), Dimension(0))),
        Err(MapError::InvalidGenerationBounds)
    );
}

#[test]
fn origin_limit_leaves_the_margin() {
    assert_eq!(origin_limit(10, 3), Ok(6));
    assert_eq!(origin_limit(20, 5), Ok(14));
    assert_eq!(origin_limit(6, 3), Ok(2));
    assert_eq!(origin_limit(3, 0), Ok(2));
}

#[test]
fn origin_limit_without_a_value_to_draw_is_an_error() {
    assert_eq!(origin_limit(5, 3), Err(MapError::InvalidGenerationBounds));
    assert_eq!(origin_limit(4, 3), Err(MapError::InvalidGenerationBounds));
    assert_eq!(origin_limit(0, 0), Err(MapError::InvalidGenerationBounds));
    assert_eq!(origin_limit(2, 0), Err(MapError::InvalidGenerationBounds));
    assert_eq!(
        origin_limit(usize::MAX, usize::MAX),
        Err(MapError::InvalidGenerationBounds)
    );
}

#[test]
fn intersects_any_finds_an_overlap() {
    let rooms = vec![rect(1, 1, 3, 3), rect(8, 8, 3, 3)];
    assert!(intersects_any(&rooms, &rect(2, 2, 3, 3)));
    assert!(intersects_any(&rooms, &rect(11, 11, 2, 2)));
    assert!(!intersects_any(&rooms, &rect(5, 1, 2, 2)));
    assert!(!intersects_any(&Vec::new(), &rect(2, 2, 3, 3)));
}

#[test]
fn first_room_is_placed() {
    let mut map = TileMap::filled(15, 20, TileType::Wall);
    let mut rooms = Vec::new();
    assert_eq!(place_room(&mut map, &mut rooms, rect(2, 3, 4, 3)), Ok(true));
    assert_eq!(rooms, vec![rect(2, 3, 4, 3)]);
    for row in 0..15usize {
        for column in 0..20usize {
            let inside = (2..6).contains(&column) && (3..6).contains(&row);
            let expected = if inside {
                TileType::Floor
            } else {
                TileType::Wall
            };
            assert_eq!(map.tile(cell(column, row)), Ok(expected));
        }
    }
}

#[test]
fn overlapping_room_is_skipped() {
    let mut map = TileMap::filled(15, 20, TileType::Wall);
    let mut rooms = Vec::new();
    assert_eq!(place_room(&mut map, &mut rooms, rect(2, 3, 4, 3)), Ok(true));
    let before = map.tiles.clone();
    assert_eq!(place_room(&mut map, &mut rooms, rect(4, 4, 4, 3)), Ok(false));
    assert_eq!(rooms.len(), 1);
    assert_eq!(map.tiles, before);
}

#[test]
fn room_that_shares_an_edge_is_skipped() {
    let mut map = TileMap::filled(15, 20, TileType::Wall);
    let mut rooms = Vec::new();
    assert_eq!(place_room(&mut map, &mut rooms, rect(2, 3, 4, 3)), Ok(true));
    assert_eq!(place_room(&mut map, &mut rooms, rect(6, 3, 4, 3)), Ok(false));
    assert_eq!(place_room(&mut map, &mut rooms, rect(2, 6, 4, 3)), Ok(false));
    assert_eq!(place_room(&mut map, &mut rooms, rect(7, 3, 4, 3)), Ok(true));
    assert_eq!(rooms, vec![rect(2, 3, 4, 3), rect(7, 3, 4, 3)]);
    assert_eq!(map.tile(cell(6, 3)), Ok(TileType::Wall));
    assert_eq!(map.tile(cell(7, 3)), Ok(TileType::Floor));
}

#[test]
fn room_outside_the_grid_is_not_placed() {
    let mut map = TileMap::filled(15, 20, TileType::Wall);
    let mut rooms = Vec::new();
    assert_eq!(
        place_room(&mut map, &mut rooms, rect(18, 3, 4, 3)),
        Err(MapError::IndexOutOfBounds)
    );
    assert!(rooms.is_empty());
    assert!(map.tiles.iter().all(|t| *t == TileType::Wall));
}

#[test]
fn room_map_has_one_tile_per_cell() {
    let map = create_map(640, 480, (0, 0)).unwrap();
    assert_eq!(map.columns, 20);
    assert_eq!(map.rows, 15);
    assert_eq!(map.tiles.len(), 300);
    assert!(map
        .tiles
        .iter()
        .all(|t| *t == TileType::Wall || *t == TileType::Floor));
    assert!(map.tiles.iter().any(|t| *t == TileType::Floor));
}

#[test]
fn room_map_ignores_the_avoid_cell() {
    let map = create_map(640, 480, (320, 240)).unwrap();
    assert_eq!(map.columns, 20);
    assert_eq!(map.rows, 15);
}

#[test]
fn room_map_keeps_its_border_solid() {
    for _ in 0..20 {
        let map = create_map(640, 480, (0, 0)).unwrap();
        for row in 0..15usize {
            for column in 0..20usize {
                if map.tile(cell(column, row)) == Ok(TileType::Floor) {
                    assert!(1 <= column && column <= 20 - 2);
                    assert!(1 <= row && row <= 15 - 2);
                }
            }
        }
    }
}

#[test]
fn placed_rooms_do_not_intersect_and_are_floor() {
    for _ in 0..20 {
        let (map, rooms) = create_map_with(640, 480, (0, 0), &RoomOptions::default()).unwrap();
        assert_eq!(map.tiles.len(), map.rows * map.columns);
        assert!(!rooms.is_empty());
        assert!(rooms.len() <= MAX_ROOMS);
        for (i, a) in rooms.iter().enumerate() {
            for (j, b) in rooms.iter().enumerate() {
                if i != j {
                    assert!(!a.intersect(b));
                }
            }
        }
        for room in rooms.iter() {
            assert!((MIN_ROOM_SIZE..MAX_ROOM_SIZE).contains(&room.1 .0 .0));
            assert!((MIN_ROOM_SIZE..MAX_ROOM_SIZE).contains(&room.1 .1 .0));
        }
        for row in 0..15usize {
            for column in 0..20usize {
                let in_room = rooms.iter().any(|room| covers(room, column, row));
                let expected = if in_room {
                    TileType::Floor
                } else {
                    TileType::Wall
                };
                assert_eq!(map.tile(cell(column, row)), Ok(expected));
                if in_room {
                    assert!(1 <= column && column <= 20 - 2);
                    assert!(1 <= row && row <= 15 - 2);
                }
            }
        }
    }
}

#[test]
fn default_options_are_the_constants() {
    let defaults = RoomOptions::default();
    assert_eq!(defaults.attempts, 100);
    assert_eq!(defaults.min_size, Dimension(3));
    assert_eq!(defaults.max_size, Dimension(6));
    assert!(!defaults.connect_rooms);
    assert_eq!(MAX_ROOMS, 100);
    assert_eq!(MIN_ROOM_SIZE, 3);
    assert_eq!(MAX_ROOM_SIZE, 6);
}

#[test]
fn one_attempt_places_one_room() {
    let (map, rooms) = create_map_with(640, 480, (0, 0), &options(1, 3, 6)).unwrap();
    assert_eq!(rooms.len(), 1);
    let floor = map.tiles.iter().filter(|t| **t == TileType::Floor).count();
    assert_eq!(floor, rooms[0].1 .0 .0 * rooms[0].1 .1 .0);
}

#[test]
fn room_map_of_misaligned_size_is_an_error() {
    assert_eq!(create_map(100, 480, (0, 0)).err(), Some(MapError::InvalidDimensions));
    assert_eq!(create_map(640, 100, (0, 0)).err(), Some(MapError::InvalidDimensions));
    assert_eq!(create_map(0, 480, (0, 0)).err(), Some(MapError::InvalidDimensions));
    assert_eq!(create_map(640, 0, (0, 0)).err(), Some(MapError::InvalidDimensions));
    assert_eq!(
        create_map_with(100, 100, (0, 0), &options(0, 7, 3)).err(),
        Some(MapError::InvalidDimensions)
    );
}

#[test]
fn room_map_too_small_for_a_room_is_an_error() {
    assert_eq!(
        create_map(160, 480, (0, 0)).err(),
        Some(MapError::InvalidGenerationBounds)
    );
    assert_eq!(
        create_map(640, 160, (0, 0)).err(),
        Some(MapError::InvalidGenerationBounds)
    );
    assert_eq!(
        create_map(32, 32, (0, 0)).err(),
        Some(MapError::InvalidGenerationBounds)
    );
    assert_eq!(
        create_map_with(640, 480, (0, 0), &options(5, 6, 6)).err(),
        Some(MapError::InvalidGenerationBounds)
    );
}

#[test]
fn room_map_of_the_least_size_that_always_works() {
    for _ in 0..20 {
        let map = create_map(256, 256, (0, 0)).unwrap();
        assert_eq!(map.columns, 8);
        assert_eq!(map.rows, 8);
    }
}

#[test]
fn room_map_without_attempts_places_no_room() {
    assert_eq!(
        create_map_with(640, 480, (0, 0), &options(0, 3, 6)).err(),
        Some(MapError::NoRoomsPlaced)
    );
    assert_eq!(
        create_map_with(640, 480, (0, 0), &options(0, 6, 3)).err(),
        Some(MapError::NoRoomsPlaced)
    );
}

#[test]
fn corridor_runs_along_the_row_then_the_column() {
    let mut map = TileMap::filled(10, 10, TileType::Wall);
    assert_eq!(add_corridor(&mut map, &cell(2, 3), &cell(6, 7)), Ok(()));
    for row in 0..10usize {
        for column in 0..10usize {
            let inside = (row == 3 && (2..=6).contains(&column))
                || (column == 6 && (3..=7).contains(&row));
            let expected = if inside {
                TileType::Floor
            } else {
                TileType::Wall
            };
            assert_eq!(map.tile(cell(column, row)), Ok(expected));
        }
    }
    assert_eq!(floor_cells(&map), 9);
}

#[test]
fn corridor_runs_to_the_left_and_upwards_too() {
    let mut map = TileMap::filled(10, 10, TileType::Wall);
    assert_eq!(add_corridor(&mut map, &cell(6, 7), &cell(2, 3)), Ok(()));
    for row in 0..10usize {
        for column in 0..10usize {
            let inside = (row == 7 && (2..=6).contains(&column))
                || (column == 2 && (3..=7).contains(&row));
            let expected = if inside {
                TileType::Floor
            } else {
                TileType::Wall
            };
            assert_eq!(map.tile(cell(column, row)), Ok(expected));
        }
    }
    assert_eq!(floor_cells(&map), 9);
}

#[test]
fn corridor_between_cells_of_one_row_or_one_cell() {
    let mut map = TileMap::filled(10, 10, TileType::Wall);
    assert_eq!(add_corridor(&mut map, &cell(1, 4), &cell(8, 4)), Ok(()));
    assert_eq!(floor_cells(&map), 8);
    assert_eq!(map.tile(cell(1, 4)), Ok(TileType::Floor));
    assert_eq!(map.tile(cell(8, 4)), Ok(TileType::Floor));
    let mut single = TileMap::filled(10, 10, TileType::Wall);
    assert_eq!(add_corridor(&mut single, &cell(9, 0), &cell(9, 0)), Ok(()));
    assert_eq!(floor_cells(&single), 1);
    assert_eq!(single.tile(cell(9, 0)), Ok(TileType::Floor));
}

#[test]
fn corridor_from_or_to_a_cell_outside_the_grid_is_an_error() {
    let mut map = TileMap::filled(10, 10, TileType::Wall);
    assert_eq!(
        add_corridor(&mut map, &cell(10, 3), &cell(6, 7)),
        Err(MapError::IndexOutOfBounds)
    );
    assert_eq!(
        add_corridor(&mut map, &cell(2, 3), &cell(6, 10)),
        Err(MapError::IndexOutOfBounds)
    );
    assert_eq!(floor_cells(&map), 0);
}

#[test]
fn connected_rooms_are_linked_centre_to_centre() {
    let linked = RoomOptions {
        attempts: 100,
        min_size: Dimension(3),
        max_size: Dimension(6),
        connect_rooms: true,
    };
    for _ in 0..20 {
        let (map, rooms) = create_map_with(960, 640, (0, 0), &linked).unwrap();
        assert!(!rooms.is_empty());
        for (i, a) in rooms.iter().enumerate() {
            for (j, b) in rooms.iter().enumerate() {
                if i != j {
                    assert!(!a.intersect(b));
                }
            }
        }
        for row in 0..map.rows {
            for column in 0..map.columns {
                let in_room = rooms.iter().any(|room| covers(room, column, row));
                let on_link = rooms
                    .windows(2)
                    .any(|pair| on_corridor(pair[0].center(), pair[1].center(), column, row));
                let expected = if in_room || on_link {
                    TileType::Floor
                } else {
                    TileType::Wall
                };
                assert_eq!(map.tile(cell(column, row)), Ok(expected));
                if expected == TileType::Floor {
                    assert!(1 <= column && column <= map.columns - 2);
                    assert!(1 <= row && row <= map.rows - 2);
                }
            }
        }
    }
}

#[test]
fn unconnected_rooms_have_no_floor_between_them() {
    for _ in 0..20 {
        let (map, rooms) = create_map_with(960, 640, (0, 0), &options(100, 3, 6)).unwrap();
        let in_rooms: usize = rooms.iter().map(|r| r.1 .0 .0 * r.1 .1 .0).sum();
        assert_eq!(floor_cells(&map), in_rooms);
    }
}

#[test]
fn connected_rooms_can_all_be_reached() {
    let linked = RoomOptions {
        attempts: 100,
        min_size: Dimension(3),
        max_size: Dimension(6),
        connect_rooms: true,
    };
    for _ in 0..20 {
        let (map, rooms) = create_map_with(960, 640, (0, 0), &linked).unwrap();
        let mut reached = vec![false; map.tiles.len()];
        let start = rooms[0].0;
        let mut open = vec![(start.0 .0, start.1 .0)];
        reached[map.grid_to_index(start).unwrap()] = true;
        while let Some((column, row)) = open.pop() {
            let around = [
                (column + 1, row),
                (column - 1, row),
                (column, row + 1),
                (column, row - 1),
            ];
            for (c, r) in around {
                if map.tile(cell(c, r)) == Ok(TileType::Floor) {
                    let index = map.grid_to_index(cell(c, r)).unwrap();
                    if !reached[index] {
                        reached[index] = true;
                        open.push((c, r));
                    }
                }
            }
        }
        for row in 0..map.rows {
            for column in 0..map.columns {
                if map.tile(cell(column, row)) == Ok(TileType::Floor) {
                    assert!(reached[map.grid_to_index(cell(column, row)).unwrap()]);
                }
            }
        }
    }
}
