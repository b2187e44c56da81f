//! Tile-based dungeon layouts: grid geometry, the tile map and its builders.

pub mod connectivity;
pub mod coordinates;
pub mod geometry;
mod random;
pub mod room_map;
pub mod rooms;
pub mod simple;
pub mod tile_map;

pub use coordinates::{coordinate_to_grid, grid_to_coordinates, Coordinate};
pub use geometry::{Dimension, Position, Rectangle, Size};
pub use room_map::{
    add_corridor, create_map, create_map_with, RoomOptions, MAX_ROOMS, MAX_ROOM_SIZE, MIN_ROOM_SIZE,
};
pub use rooms::{create_room, intersects_any, origin_limit, place_room};
pub use simple::{create_simple_map, place_block};
pub use tile_map::{
    add_room_to_map, add_tunnel, grid_size, MapError, Orientation, TileMap, TileType, GRID_SIZE,
};
