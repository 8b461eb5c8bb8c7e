use game::math::{Vec2, SCALE};
use game::tile::{
    checked_tile_center, checked_tile_position, tile_center, tile_position, Tile, Tilemap,
    HALF_TILE_HEIGHT, HALF_TILE_WIDTH, TILE_HEIGHT, TILE_WIDTH,
};

struct TilePosTest {
    origin: Vec2,
    tile_pos: Vec2,

    expected: Vec2,
}

fn as_float(v: Vec2) -> (f32, f32) {
    (v.x as f32 / SCALE as f32, v.y as f32 / SCALE as f32)
}

#[test]
fn assert_correct() {
    let origin = Vec2::from_units(100, 100);
    let tests: Vec<TilePosTest> = Vec::from([TilePosTest {
        origin: origin,
        tile_pos: Vec2::from_units(0, 0),
        expected: Vec2 { x: origin.x, y: origin.y },
    }]);

    for test in tests {
        let position = tile_position(&test.origin, &test.tile_pos);

        assert_eq!(position.x, test.expected.x);
        assert_eq!(position.y, test.expected.y);
        assert_eq!(as_float(position), (100.0, 100.0));
    }
}

#[test]
fn tile_measures() {
    assert_eq!(TILE_WIDTH, 100);
    assert_eq!(TILE_HEIGHT, 50);
    assert_eq!(HALF_TILE_WIDTH, TILE_WIDTH / 2);
    assert_eq!(HALF_TILE_HEIGHT, TILE_HEIGHT / 2);
}

#[test]
fn cell_zero_lies_at_any_origin() {
    let origins = [
        Vec2::from_units(0, 0),
        Vec2::from_units(100, 100),
        Vec2::from_units(-7, 12),
        Vec2::new(1, -1),
        Vec2::new(i32::MAX, i32::MIN),
        Vec2::new(i32::MIN, i32::MAX),
    ];
    for origin in origins {
        assert_eq!(tile_position(&origin, &Vec2::zero()), origin);
        assert_eq!(checked_tile_position(&origin, &Vec2::zero()), Some(origin));
    }
}

#[test]
fn neighbours_of_cell_zero() {
    let origin = Vec2::from_units(100, 100);
    assert_eq!(tile_position(&origin, &Vec2::from_units(1, 0)), Vec2::from_units(150, 125));
    assert_eq!(tile_position(&origin, &Vec2::from_units(0, 1)), Vec2::from_units(50, 125));
}

#[test]
fn projection_is_linear_from_the_origin() {
    let origin = Vec2::from_units(100, 100);
    let offset = |x: i16, y: i16| {
        let p = tile_position(&origin, &Vec2::from_units(x, y));
        (p.x - origin.x, p.y - origin.y)
    };
    let (ax, ay) = offset(1, 0);
    let (bx, by) = offset(0, 1);
    assert_eq!(offset(2, 0), (2 * ax, 2 * ay));
    assert_eq!(offset(0, 3), (3 * bx, 3 * by));
    assert_eq!(offset(2, 3), (2 * ax + 3 * bx, 2 * ay + 3 * by));
    assert_eq!(offset(-4, 5), (-4 * ax + 5 * bx, -4 * ay + 5 * by));
    assert_eq!(offset(7, 7), (0, 14 * HALF_TILE_HEIGHT * SCALE));
    assert_eq!(tile_position(&origin, &Vec2::from_units(2, 1)), Vec2::from_units(150, 175));
    assert_eq!(tile_position(&origin, &Vec2::from_units(1, 2)), Vec2::from_units(50, 175));
}

#[test]
fn fractional_coordinates_are_not_truncated() {
    let origin = Vec2::from_units(100, 100);
    let half = SCALE / 2;
    let quarter = SCALE / 4;
    let position = tile_position(&origin, &Vec2::new(half, quarter));
    assert_eq!(position, Vec2::new(100 * SCALE + 12 * SCALE + half, 100 * SCALE + 18 * SCALE + 3 * quarter));
    assert_eq!(as_float(position), (112.5, 118.75));

    let one_sub_unit = tile_position(&origin, &Vec2::new(1, 0));
    assert_eq!(one_sub_unit, Vec2::new(100 * SCALE + 50, 100 * SCALE + 25));
    let mid_tile = tile_position(&origin, &Vec2::new(half, half));
    assert_eq!(mid_tile, Vec2::from_units(100, 125));
}

#[test]
fn center_is_half_a_tile_from_the_position() {
    let origin = Vec2::from_units(100, 100);
    assert_eq!(tile_center(&origin, &Vec2::from_units(0, 0)), Vec2::from_units(150, 125));
    let samples = [
        Vec2::from_units(0, 0),
        Vec2::from_units(1, 0),
        Vec2::from_units(0, 1),
        Vec2::from_units(-3, 8),
        Vec2::new(SCALE / 2, 3 * SCALE / 4),
        Vec2::new(-1, 1),
    ];
    for tile_pos in samples {
        let position = tile_position(&origin, &tile_pos);
        let center = tile_center(&origin, &tile_pos);
        assert_eq!(center.x - position.x, (TILE_WIDTH / 2) * SCALE);
        assert_eq!(center.y - position.y, (TILE_HEIGHT / 2) * SCALE);
        assert_eq!(checked_tile_center(&origin, &tile_pos), Some(center));
    }
}

#[test]
fn checked_projection_is_none_where_nothing_fits() {
    let origin = Vec2::from_units(100, 100);
    let far = Vec2::from_units(700, 0);
    assert_eq!(checked_tile_position(&origin, &far), None);
    assert_eq!(checked_tile_center(&origin, &far), None);

    // The last grid coordinate along x whose position still fits, and the
    // first that does not.
    let room = i32::MAX - origin.x;
    let last = Vec2::new(room / HALF_TILE_WIDTH, 0);
    let position = checked_tile_position(&origin, &last);
    assert_eq!(
        position,
        Some(Vec2::new(origin.x + last.x * HALF_TILE_WIDTH, origin.y + last.x * HALF_TILE_HEIGHT))
    );
    assert_eq!(checked_tile_position(&origin, &Vec2::new(last.x + 1, 0)), None);
    // Its centre lies half a tile further right and does not fit.
    assert_eq!(checked_tile_center(&origin, &last), None);

    // A centre can fit where the position does not.
    let left_edge = Vec2::new(i32::MIN, 0);
    assert_eq!(checked_tile_position(&left_edge, &Vec2::new(0, 1)), None);
    assert_eq!(
        checked_tile_center(&left_edge, &Vec2::new(0, 1)),
        Some(Vec2::new(i32::MIN + (50 * SCALE - 50), 25 + 25 * SCALE))
    );
    assert_eq!(
        tile_center(&left_edge, &Vec2::new(0, 1)),
        Vec2::new(i32::MIN + (50 * SCALE - 50), 25 + 25 * SCALE)
    );
}

#[test]
fn extreme_coordinates_are_exact() {
    let origin = Vec2::new(0, i32::MIN);
    let corner = Vec2::new(i32::MAX / 50, i32::MAX / 50);
    let position = tile_position(&origin, &corner);
    assert_eq!(position.x, 0);
    assert_eq!(position.y as i64, i32::MIN as i64 + 2 * (i32::MAX / 50) as i64 * 25);
}

#[test]
fn tilemap_projects_from_its_own_origin() {
    let map = Tilemap::new(Vec2::from_units(100, 100), [[Tile::Home, Tile::Empty]]);
    assert_eq!(map.origin, Vec2::from_units(100, 100));
    assert_eq!(map.tiles, [[Tile::Home, Tile::Empty]]);
    let samples = [Vec2::from_units(0, 0), Vec2::from_units(1, 0), Vec2::new(SCALE / 2, -SCALE)];
    for tile_pos in samples {
        assert_eq!(map.tile_position(&tile_pos), tile_position(&map.origin, &tile_pos));
        assert_eq!(map.tile_center(&tile_pos), tile_center(&map.origin, &tile_pos));
    }
    assert_eq!(map.tile_position(&Vec2::from_units(1, 0)), Vec2::from_units(150, 125));
    assert_eq!(map.tile_center(&Vec2::from_units(1, 0)), Vec2::from_units(200, 150));
}

#[test]
fn tile_at_checks_the_bounds() {
    let map = Tilemap::new(
        Vec2::from_units(100, 100),
        [[Tile::Home, Tile::Empty, Tile::Empty], [Tile::Empty, Tile::Empty, Tile::Home]],
    );
    assert_eq!(map.tile_at(0, 0), Some(Tile::Home));
    assert_eq!(map.tile_at(1, 0), Some(Tile::Empty));
    assert_eq!(map.tile_at(2, 1), Some(Tile::Home));
    assert_eq!(map.tile_at(0, 1), Some(Tile::Empty));
    assert_eq!(map.tile_at(3, 0), None);
    assert_eq!(map.tile_at(0, 2), None);
    assert_eq!(map.tile_at(usize::MAX, usize::MAX), None);
    let nothing: Tilemap<0, 0> = Tilemap::new(Vec2::zero(), []);
    assert_eq!(nothing.tile_at(0, 0), None);
}
