//! Walks over floor: what corridors between rooms are good for.

use crate::geometry::{Dimension, Position, Rectangle, Size};
use crate::room_map::{
    is_carved, is_room_layout, lies_between, on_corridor, on_link, on_some_link, RoomOptions,
};
use crate::rooms::room_within;
use crate::tile_map::{TileMap, TileType};
use vstd::prelude::*;

verus! {

/// Whether `a` and `b` share a row or a column and every cell from the one to
/// the other, both included, is floor.
pub open spec fn is_floor_run(map: &TileMap, a: Position, b: Position) -> bool {
    &&& (a.0.0 == b.0.0 || a.1.0 == b.1.0)
    &&& forall|column: int, row: int|
        lies_between(a.0.0 as int, b.0.0 as int, column) && lies_between(
            a.1.0 as int,
            b.1.0 as int,
            row,
        ) ==> map.holds(column, row) && #[trigger] map.tile_at(column, row) == TileType::Floor
}

/// Whether the way from stop `k` to the next one is a run of floor.
pub open spec fn is_leg(map: &TileMap, stops: Seq<Position>, k: int) -> bool {
    is_floor_run(map, stops[k], stops[k + 1])
}

/// Whether one can walk over floor from the first of `stops` to the last,
/// straight ahead from each stop to the next.
pub open spec fn is_floor_walk(map: &TileMap, stops: Seq<Position>) -> bool {
    &&& stops.len() >= 2
    &&& forall|k: int| 0 <= k < stops.len() - 1 ==> #[trigger] is_leg(map, stops, k)
}

/// Whether one can walk over floor from `a` to `b`.
pub open spec fn are_joined(map: &TileMap, a: Position, b: Position) -> bool {
    exists|stops: Seq<Position>|
        #[trigger] is_floor_walk(map, stops) && stops[0] == a && stops.last() == b
}

/// The corridor between two rooms placed one after the other is two runs of
/// floor: from the centre of the first to the turn, and from the turn to the
/// centre of the second.
pub proof fn lemma_link_is_two_runs(
    map: &TileMap,
    rooms: Seq<Rectangle>,
    options: RoomOptions,
    i: int,
)
    requires
        is_room_layout(map, rooms, options),
        options.connect_rooms,
        0 <= i < rooms.len() - 1,
    ensures
        is_floor_run(
            map,
            rooms[i].midpoint(),
            Position(rooms[i + 1].midpoint().0, rooms[i].midpoint().1),
        ),
        is_floor_run(
            map,
            Position(rooms[i + 1].midpoint().0, rooms[i].midpoint().1),
            rooms[i + 1].midpoint(),
        ),
{
    let size = Size(Dimension(map.columns), Dimension(map.rows));
    let from = rooms[i].midpoint();
    let to = rooms[i + 1].midpoint();
    let turn = Position(to.0, from.1);
    assert(room_within(rooms[i], options.min_size, options.max_size, size));
    assert(room_within(rooms[i + 1], options.min_size, options.max_size, size));
    assert forall|column: int, row: int| on_corridor(from, to, column, row) implies map.holds(
        column,
        row,
    ) && #[trigger] map.tile_at(column, row) == TileType::Floor by {
        assert(on_link(rooms, i, column, row));
        assert(on_some_link(rooms, column, row));
        assert(is_carved(rooms, options.connect_rooms, column, row));
        assert(map.holds(column, row));
    }
    assert forall|column: int, row: int|
        lies_between(from.0.0 as int, turn.0.0 as int, column) && lies_between(
            from.1.0 as int,
            turn.1.0 as int,
            row,
        ) implies map.holds(column, row) && #[trigger] map.tile_at(column, row)
        == TileType::Floor by {
        assert(on_corridor(from, to, column, row));
    }
    assert forall|column: int, row: int|
        lies_between(turn.0.0 as int, to.0.0 as int, column) && lies_between(
            turn.1.0 as int,
            to.1.0 as int,
            row,
        ) implies map.holds(column, row) && #[trigger] map.tile_at(column, row)
        == TileType::Floor by {
        assert(on_corridor(from, to, column, row));
    }
}

/// In a layout with corridors one can walk over floor from the centre of a
/// room to the centre of any room placed after it.
pub proof fn lemma_centres_are_joined(
    map: &TileMap,
    rooms: Seq<Rectangle>,
    options: RoomOptions,
    i: int,
    j: int,
)
    requires
        is_room_layout(map, rooms, options),
        options.connect_rooms,
        0 <= i < j < rooms.len(),
    ensures
        are_joined(map, rooms[i].midpoint(), rooms[j].midpoint()),
    decreases j - i,
{
    let from = rooms[j - 1].midpoint();
    let to = rooms[j].midpoint();
    let turn = Position(to.0, from.1);
    lemma_link_is_two_runs(map, rooms, options, j - 1);
    if i == j - 1 {
        let stops = seq![from, turn, to];
        assert forall|k: int| 0 <= k < stops.len() - 1 implies #[trigger] is_leg(
            map,
            stops,
            k,
        ) by {
            if k == 0 {
                assert(is_floor_run(map, stops[0], stops[1]));
            } else {
                assert(is_floor_run(map, stops[1], stops[2]));
            }
        }
        assert(is_floor_walk(map, stops));
    } else {
        lemma_centres_are_joined(map, rooms, options, i, j - 1);
        let so_far = choose|stops: Seq<Position>|
            #[trigger] is_floor_walk(map, stops) && stops[0] == rooms[i].midpoint()
                && stops.last() == from;
        let stops = so_far.push(turn).push(to);
        let n: int = so_far.len() as int;
        assert forall|k: int| 0 <= k < stops.len() - 1 implies #[trigger] is_leg(
            map,
            stops,
            k,
        ) by {
            if k < n - 1 {
                assert(is_leg(map, so_far, k));
                assert(stops[k] == so_far[k]);
                assert(stops[k + 1] == so_far[k + 1]);
            } else if k == n - 1 {
                assert(stops[k] == from);
                assert(stops[k + 1] == turn);
            } else {
                assert(stops[k] == turn);
                assert(stops[k + 1] == to);
            }
        }
        assert(is_floor_walk(map, stops));
    }
}

/// A walk over floor can be walked back.
pub proof fn lemma_walk_back(map: &TileMap, stops: Seq<Position>)
    requires
        is_floor_walk(map, stops),
    ensures
        is_floor_walk(map, stops.reverse()),
        stops.reverse()[0] == stops.last(),
        stops.reverse().last() == stops[0],
{
    let back = stops.reverse();
    let n: int = stops.len() as int;
    assert forall|k: int| 0 <= k < back.len() - 1 implies #[trigger] is_leg(map, back, k) by {
        assert(is_leg(map, stops, n - 2 - k));
        assert(back[k] == stops[n - 1 - k]);
        assert(back[k + 1] == stops[n - 2 - k]);
    }
}

/// Where one can walk over floor from `a` to `b`, one can walk from `b` to
/// `a`.
pub proof fn lemma_joined_both_ways(map: &TileMap, a: Position, b: Position)
    requires
        are_joined(map, a, b),
    ensures
        are_joined(map, b, a),
{
    let stops = choose|stops: Seq<Position>|
        #[trigger] is_floor_walk(map, stops) && stops[0] == a && stops.last() == b;
    lemma_walk_back(map, stops);
    assert(is_floor_walk(map, stops.reverse()));
}

/// Where one can walk over floor from `a` to `b` and from `b` to `c`, one can
/// walk from `a` to `c`.
pub proof fn lemma_joined_onwards(map: &TileMap, a: Position, b: Position, c: Position)
    requires
        are_joined(map, a, b),
        are_joined(map, b, c),
    ensures
        are_joined(map, a, c),
{
    let first = choose|stops: Seq<Position>|
        #[trigger] is_floor_walk(map, stops) && stops[0] == a && stops.last() == b;
    let second = choose|stops: Seq<Position>|
        #[trigger] is_floor_walk(map, stops) && stops[0] == b && stops.last() == c;
    let stops = first + second;
    let n: int = first.len() as int;
    assert forall|k: int| 0 <= k < stops.len() - 1 implies #[trigger] is_leg(map, stops, k) by {
        if k < n - 1 {
            assert(is_leg(map, first, k));
            assert(stops[k] == first[k]);
            assert(stops[k + 1] == first[k + 1]);
        } else if k == n - 1 {
            assert(is_leg(map, first, n - 2));
            assert(stops[k] == b);
            assert(stops[k + 1] == b);
        } else {
            assert(is_leg(map, second, k - n));
            assert(stops[k] == second[k - n]);
            assert(stops[k + 1] == second[k - n + 1]);
        }
    }
    assert(is_floor_walk(map, stops));
    assert(stops[0] == a);
    assert(stops.last() == c);
}

/// In a layout one can walk over floor from every cell of a room to the
/// centre of the room.
pub proof fn lemma_cell_is_joined_to_centre(
    map: &TileMap,
    rooms: Seq<Rectangle>,
    options: RoomOptions,
    i: int,
    cell: Position,
)
    requires
        is_room_layout(map, rooms, options),
        0 <= i < rooms.len(),
        rooms[i].covers(cell.0.0 as int, cell.1.0 as int),
    ensures
        are_joined(map, cell, rooms[i].midpoint()),
{
    let size = Size(Dimension(map.columns), Dimension(map.rows));
    let room = rooms[i];
    let centre = room.midpoint();
    let turn = Position(centre.0, cell.1);
    assert(room_within(room, options.min_size, options.max_size, size));
    assert forall|column: int, row: int| room.covers(column, row) implies map.holds(column, row)
        && #[trigger] map.tile_at(column, row) == TileType::Floor by {
        assert(rooms[i].covers(column, row));
        assert(is_carved(rooms, options.connect_rooms, column, row));
        assert(map.holds(column, row));
    }
    assert(is_floor_run(map, cell, turn)) by {
        assert forall|column: int, row: int|
            lies_between(cell.0.0 as int, turn.0.0 as int, column) && lies_between(
                cell.1.0 as int,
                turn.1.0 as int,
                row,
            ) implies map.holds(column, row) && #[trigger] map.tile_at(column, row)
            == TileType::Floor by {
            assert(room.covers(column, row));
        }
    }
    assert(is_floor_run(map, turn, centre)) by {
        assert forall|column: int, row: int|
            lies_between(turn.0.0 as int, centre.0.0 as int, column) && lies_between(
                turn.1.0 as int,
                centre.1.0 as int,
                row,
            ) implies map.holds(column, row) && #[trigger] map.tile_at(column, row)
            == TileType::Floor by {
            assert(room.covers(column, row));
        }
    }
    let stops = seq![cell, turn, centre];
    assert forall|k: int| 0 <= k < stops.len() - 1 implies #[trigger] is_leg(map, stops, k) by {
        if k == 0 {
            assert(is_floor_run(map, stops[0], stops[1]));
        } else {
            assert(is_floor_run(map, stops[1], stops[2]));
        }
    }
    assert(is_floor_walk(map, stops));
}

/// In a layout with corridors one can walk over floor from every cell of
/// every room to every cell of every room.
pub proof fn lemma_rooms_are_joined(
    map: &TileMap,
    rooms: Seq<Rectangle>,
    options: RoomOptions,
    i: int,
    j: int,
    a: Position,
    b: Position,
)
    requires
        is_room_layout(map, rooms, options),
        options.connect_rooms,
        0 <= i < rooms.len(),
        0 <= j < rooms.len(),
        rooms[i].covers(a.0.0 as int, a.1.0 as int),
        rooms[j].covers(b.0.0 as int, b.1.0 as int),
    ensures
        are_joined(map, a, b),
{
    let from = rooms[i].midpoint();
    let to = rooms[j].midpoint();
    lemma_cell_is_joined_to_centre(map, rooms, options, i, a);
    lemma_cell_is_joined_to_centre(map, rooms, options, j, b);
    lemma_joined_both_ways(map, b, to);
    if i == j {
        lemma_joined_onwards(map, a, from, b);
    } else {
        if i < j {
            lemma_centres_are_joined(map, rooms, options, i, j);
        } else {
            lemma_centres_are_joined(map, rooms, options, j, i);
            lemma_joined_both_ways(map, to, from);
        }
        lemma_joined_onwards(map, a, from, to);
        lemma_joined_onwards(map, a, to, b);
    }
}

} // verus!
