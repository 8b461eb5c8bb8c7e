//! The tile grid and its isometric projection onto the screen.
//!
//! The grid is drawn as a diamond:
//!
//! ```text
//!          /x:0,y:0/
//!     /x:0,y:1/ /x:1,y:0/
//! /x:0,y:2/ /x:1,y:1/ /x:2,y:0/
//!     /x:1,y:2/ /x:2,y:1/
//!          /x:2,y:2/
//! ```
//!
//! One step along the grid's x axis moves half a tile right and half a tile
//! down on screen; one step along its y axis, half a tile left and half a
//! tile down.

use crate::math::{Vec2, Vector, SCALE};
use vstd::prelude::*;

verus! {

/// Width of a tile on screen, in whole units.
pub const TILE_WIDTH: i32 = 100;

/// Height of a tile on screen, in whole units: half its width.
pub const TILE_HEIGHT: i32 = 50;

/// Half of `TILE_WIDTH`: how far one step along a grid axis moves across
/// the screen.
pub const HALF_TILE_WIDTH: i32 = 50;

/// Half of `TILE_HEIGHT`: how far one step along a grid axis moves down the
/// screen.
pub const HALF_TILE_HEIGHT: i32 = 25;

/// The tile is half as high as wide, and the two half measures are what
/// their names say.
pub proof fn lemma_tile_measures()
    ensures
        TILE_HEIGHT * 2 == TILE_WIDTH,
        HALF_TILE_WIDTH == TILE_WIDTH / 2,
        HALF_TILE_HEIGHT == TILE_HEIGHT / 2,
{
}

/// What stands on a cell of the grid.
#[derive(Clone, Copy, PartialEq, Eq, Structural, Debug)]
pub enum Tile {
    Empty,
    Home,
}

/// Where on screen the grid coordinate `tile` lies, for a grid whose cell
/// (0, 0) lies at `origin`.
pub open spec fn project(origin: Vector, tile: Vector) -> Vector {
    Vector {
        x: origin.x + (tile.x - tile.y) * HALF_TILE_WIDTH,
        y: origin.y + (tile.x + tile.y) * HALF_TILE_HEIGHT,
    }
}

/// From a tile's position to its centre.
pub open spec fn half_tile() -> Vector {
    Vector::units(HALF_TILE_WIDTH as int, HALF_TILE_HEIGHT as int)
}

/// The projection with room to spare: its two components as 64-bit numbers.
fn project_wide(origin: &Vec2, tile_pos: &Vec2) -> (r: (i64, i64))
    ensures
        r.0 == project(origin@, tile_pos@).x,
        r.1 == project(origin@, tile_pos@).y,
{
    let across: i64 = tile_pos.x as i64 - tile_pos.y as i64;
    let down: i64 = tile_pos.x as i64 + tile_pos.y as i64;
    let half_width: i64 = HALF_TILE_WIDTH as i64;
    let half_height: i64 = HALF_TILE_HEIGHT as i64;
    assert(half_width == 50 && half_height == 25);
    (origin.x as i64 + across * half_width, origin.y as i64 + down * half_height)
}

/// The point `(x, y)`, where it is representable.
fn narrow(x: i64, y: i64) -> (r: Option<Vec2>)
    ensures
        r is Some <==> (Vector { x: x as int, y: y as int }).representable(),
        r matches Some(p) ==> p@ == (Vector { x: x as int, y: y as int }),
{
    if x < i32::MIN as i64 || x > i32::MAX as i64 || y < i32::MIN as i64 || y > i32::MAX as i64 {
        None
    } else {
        Some(Vec2 { x: x as i32, y: y as i32 })
    }
}

/// The screen position of the grid coordinate `tile_pos`, which need not be
/// whole, for a grid whose cell (0, 0) lies at `origin`.
pub fn tile_position(origin: &Vec2, tile_pos: &Vec2) -> (r: Vec2)
    requires
        project(origin@, tile_pos@).representable(),
    ensures
        r@ == project(origin@, tile_pos@),
        tile_pos@ == Vector::zero() ==> r == *origin,
{
    checked_tile_position(origin, tile_pos).unwrap()
}

/// The screen position of the grid coordinate `tile_pos`, or `None` where
/// that position is not representable.
pub fn checked_tile_position(origin: &Vec2, tile_pos: &Vec2) -> (r: Option<Vec2>)
    ensures
        r is Some <==> project(origin@, tile_pos@).representable(),
        r matches Some(p) ==> p@ == project(origin@, tile_pos@),
{
    let wide: (i64, i64) = project_wide(origin, tile_pos);
    narrow(wide.0, wide.1)
}

/// The screen position of the centre of the tile at `tile_pos`, or `None`
/// where that position is not representable.
pub fn checked_tile_center(origin: &Vec2, tile_pos: &Vec2) -> (r: Option<Vec2>)
    ensures
        r is Some <==> project(origin@, tile_pos@).plus(half_tile()).representable(),
        r matches Some(p) ==> p@ == project(origin@, tile_pos@).plus(half_tile()),
{
    let wide: (i64, i64) = project_wide(origin, tile_pos);
    let right: i64 = HALF_TILE_WIDTH as i64 * SCALE as i64;
    let below: i64 = HALF_TILE_HEIGHT as i64 * SCALE as i64;
    narrow(wide.0 + right, wide.1 + below)
}

/// The screen position of the centre of the tile at `tile_pos`: half a tile
/// right of and below the tile's position.
pub fn tile_center(origin: &Vec2, tile_pos: &Vec2) -> (r: Vec2)
    requires
        project(origin@, tile_pos@).plus(half_tile()).representable(),
    ensures
        r@ == project(origin@, tile_pos@).plus(half_tile()),
{
    checked_tile_center(origin, tile_pos).unwrap()
}

/// The grid's cell (0, 0) lies at the origin.
pub proof fn lemma_project_origin(origin: Vector)
    ensures
        project(origin, Vector::zero()) == origin,
{
}

/// The projection is affine in the grid coordinate: measured from the origin
/// it is linear, so it adds up over sums of coordinates and scales with
/// them, and each of the grid's two axes contributes on its own.
pub proof fn lemma_project_affine(origin: Vector, a: Vector, b: Vector, k: int)
    ensures
        project(origin, a.plus(b)).minus(origin) == project(origin, a).minus(origin).plus(
            project(origin, b).minus(origin),
        ),
        project(origin, a.scaled(k)).minus(origin) == project(origin, a).minus(origin).scaled(k),
        project(origin, a) == origin.plus(
            (Vector { x: HALF_TILE_WIDTH as int, y: HALF_TILE_HEIGHT as int }).scaled(a.x),
        ).plus((Vector { x: -HALF_TILE_WIDTH, y: HALF_TILE_HEIGHT as int }).scaled(a.y)),
{
    assert((a.x * k - a.y * k) * 50 == ((a.x - a.y) * 50) * k) by (nonlinear_arith);
    assert((a.x * k + a.y * k) * 25 == ((a.x + a.y) * 25) * k) by (nonlinear_arith);
}

/// How far above a tile's screen position its image starts, in whole units.
pub const SPRITE_RISE: i32 = 50;

/// One image to paint: which tile's, and where its top left corner goes.
#[derive(Clone, Copy, PartialEq, Eq, Structural, Debug)]
pub struct Sprite {
    pub tile: Tile,
    pub dest: Vec2,
}

/// Where the image of a tile at `screen` goes.
pub open spec fn sprite_dest(screen: Vector) -> Vector {
    Vector { x: screen.x, y: screen.y - SPRITE_RISE * SCALE }
}

/// The image of `tile` at `dest`.
pub fn draw_tile(tile: Tile, dest: Vec2) -> (sprite: Sprite)
    ensures
        sprite.tile == tile,
        sprite.dest == dest,
{
    Sprite { tile, dest }
}

/// The image of the tile `tile` whose screen position is `screen_pos`.
fn draw_tile_at(tile: Tile, screen_pos: Vec2) -> (sprite: Sprite)
    requires
        sprite_dest(screen_pos@).representable(),
    ensures
        sprite.tile == tile,
        sprite.dest@ == sprite_dest(screen_pos@),
{
    let dest: Vec2 = Vec2 { x: screen_pos.x, y: screen_pos.y - SPRITE_RISE * SCALE };
    draw_tile(tile, dest)
}

/// The image of a home tile whose screen position is `screen_pos`.
pub fn draw_home_tile(screen_pos: Vec2) -> (sprite: Sprite)
    requires
        sprite_dest(screen_pos@).representable(),
    ensures
        sprite.tile == Tile::Home,
        sprite.dest@ == sprite_dest(screen_pos@),
{
    draw_tile_at(Tile::Home, screen_pos)
}

/// The image of an empty tile whose screen position is `screen_pos`.
pub fn draw_empty_tile(screen_pos: Vec2) -> (sprite: Sprite)
    requires
        sprite_dest(screen_pos@).representable(),
    ensures
        sprite.tile == Tile::Empty,
        sprite.dest@ == sprite_dest(screen_pos@),
{
    draw_tile_at(Tile::Empty, screen_pos)
}

/// The grid coordinate of the cell in column `x` of row `y`.
pub open spec fn cell(x: int, y: int) -> Vector {
    Vector::units(x, y)
}

/// The place of the cell in column `x` of row `y` when the rows of a grid
/// `width` cells wide are laid end to end.
pub open spec fn cell_index(x: int, y: int, width: int) -> int {
    y * width + x
}

/// The cell in column `x` of row `y` of a grid at `origin`, and the image of
/// the tile on it, have a representable place on screen.
pub open spec fn cell_drawable(origin: Vector, x: int, y: int) -> bool {
    &&& cell(x, y).representable()
    &&& project(origin, cell(x, y)).representable()
    &&& sprite_dest(project(origin, cell(x, y))).representable()
}

/// Every cell of a grid of `width` by `height` cells at `origin` is drawable.
pub open spec fn drawable(origin: Vector, width: int, height: int) -> bool {
    forall|x: int, y: int|
        0 <= x < width && 0 <= y < height ==> #[trigger] cell_drawable(origin, x, y)
}

/// `sprite` is the image of `tile` in column `x` of row `y`.
pub open spec fn is_sprite_of(sprite: Sprite, origin: Vector, tile: Tile, x: int, y: int) -> bool {
    &&& sprite.tile == tile
    &&& sprite.dest@ == sprite_dest(project(origin, cell(x, y)))
}

/// `sprites` are the images of the tiles of `tilemap`, one for each cell, row
/// after row.
pub open spec fn is_drawing_of<const W: usize, const H: usize>(
    sprites: Seq<Sprite>,
    origin: Vector,
    tilemap: [[Tile; W]; H],
) -> bool {
    &&& sprites.len() == W * H
    &&& forall|x: int, y: int|
        0 <= x < W && 0 <= y < H ==> is_sprite_of(
            sprites[#[trigger] cell_index(x, y, W as int)],
            origin,
            tilemap[y][x],
            x,
            y,
        )
}

/// Cells of earlier rows come earlier.
proof fn lemma_cell_index_bound(x: int, y: int, width: int, rows: int)
    requires
        0 <= x < width,
        0 <= y < rows,
    ensures
        0 <= cell_index(x, y, width) < rows * width,
{
    assert(y * width + width <= rows * width) by (nonlinear_arith)
        requires
            y + 1 <= rows,
            0 < width,
    ;
    assert(0 <= y * width) by (nonlinear_arith)
        requires
            0 <= y,
            0 < width,
    ;
}

/// The image of the tile in column `x` of row `y`, where that cell is
/// drawable.
fn draw_cell(origin: &Vec2, tile: Tile, x: usize, y: usize) -> (sprite: Option<Sprite>)
    ensures
        sprite is Some <==> cell_drawable(origin@, x as int, y as int),
        sprite matches Some(s) ==> is_sprite_of(s, origin@, tile, x as int, y as int),
{
    if x > i16::MAX as usize || y > i16::MAX as usize {
        return None;
    }
    let tile_pos: Vec2 = Vec2::from_units(x as i16, y as i16);
    match checked_tile_position(origin, &tile_pos) {
        Some(screen_pos) => {
            if screen_pos.y < i32::MIN + SPRITE_RISE * SCALE {
                None
            } else {
                Some(
                    match tile {
                        Tile::Home => draw_home_tile(screen_pos),
                        Tile::Empty => draw_empty_tile(screen_pos),
                    },
                )
            }
        },
        None => None,
    }
}

/// The images to paint for a grid whose cell (0, 0) lies at `origin`: one
/// for each cell, row after row. `None` where a cell is not drawable.
pub fn checked_draw_tilemap<const W: usize, const H: usize>(
    origin: &Vec2,
    tilemap: &[[Tile; W]; H],
) -> (sprites: Option<Vec<Sprite>>)
    ensures
        sprites is Some <==> drawable(origin@, W as int, H as int),
        sprites matches Some(s) ==> is_drawing_of(s@, origin@, *tilemap),
{
    let mut sprites: Vec<Sprite> = Vec::new();
    let mut y: usize = 0;
    assert(0 * W == 0);
    while y < H
        invariant
            y <= H,
            sprites.len() == y * W,
            forall|cx: int, cy: int|
                0 <= cx < W && 0 <= cy < y ==> #[trigger] cell_drawable(origin@, cx, cy),
            forall|cx: int, cy: int|
                0 <= cx < W && 0 <= cy < y ==> is_sprite_of(
                    sprites[#[trigger] cell_index(cx, cy, W as int)],
                    origin@,
                    tilemap[cy][cx],
                    cx,
                    cy,
                ),
        decreases H - y,
    {
        let mut x: usize = 0;
        while x < W
            invariant
                x <= W,
                y < H,
                sprites.len() == y * W + x,
                forall|cx: int, cy: int|
                    0 <= cx < W && 0 <= cy < H && (cy < y || (cy == y && cx < x))
                        ==> #[trigger] cell_drawable(origin@, cx, cy),
                forall|cx: int, cy: int|
                    0 <= cx < W && 0 <= cy < H && (cy < y || (cy == y && cx < x)) ==> is_sprite_of(
                        sprites[#[trigger] cell_index(cx, cy, W as int)],
                        origin@,
                        tilemap[cy][cx],
                        cx,
                        cy,
                    ),
            decreases W - x,
        {
            let sprite: Sprite = match draw_cell(origin, tilemap[y][x], x, y) {
                Some(sprite) => sprite,
                None => {
                    assert(!cell_drawable(origin@, x as int, y as int));
                    return None;
                },
            };
            let ghost before = sprites@;
            sprites.push(sprite);
            assert forall|cx: int, cy: int|
                0 <= cx < W && 0 <= cy < H && (cy < y || (cy == y && cx < x + 1)) implies is_sprite_of(
                sprites[#[trigger] cell_index(cx, cy, W as int)],
                origin@,
                tilemap[cy][cx],
                cx,
                cy,
            ) by {
                if cy < y {
                    lemma_cell_index_bound(cx, cy, W as int, y as int);
                }
                if cy < y || cx < x {
                    assert(sprites[cell_index(cx, cy, W as int)] == before[cell_index(
                        cx,
                        cy,
                        W as int,
                    )]);
                }
            }
            x += 1;
        }
        assert(y * W + W == (y + 1) * W) by (nonlinear_arith);
        y += 1;
    }
    assert(H * W == W * H) by (nonlinear_arith);
    Some(sprites)
}

/// The images to paint for a grid whose cell (0, 0) lies at `origin`: one
/// for each cell, row after row.
pub fn draw_tilemap<const W: usize, const H: usize>(
    origin: &Vec2,
    tilemap: &[[Tile; W]; H],
) -> (sprites: Vec<Sprite>)
    requires
        drawable(origin@, W as int, H as int),
    ensures
        is_drawing_of(sprites@, origin@, *tilemap),
{
    checked_draw_tilemap(origin, tilemap).unwrap()
}

/// A grid of `W` by `H` tiles and the place of its cell (0, 0) on screen.
pub struct Tilemap<const W: usize, const H: usize> {
    pub origin: Vec2,
    pub tiles: [[Tile; W]; H],
}

impl<const W: usize, const H: usize> Tilemap<W, H> {
    pub fn new(origin: Vec2, tiles: [[Tile; W]; H]) -> (map: Self)
        ensures
            map.origin == origin,
            map.tiles == tiles,
    {
        Tilemap { origin: origin, tiles: tiles }
    }

    /// The images to paint for the grid: one for each cell, row after row.
    pub fn draw(&self) -> (sprites: Vec<Sprite>)
        requires
            drawable(self.origin@, W as int, H as int),
        ensures
            is_drawing_of(sprites@, self.origin@, self.tiles),
    {
        draw_tilemap(&self.origin, &self.tiles)
    }

    /// The screen position of the grid coordinate `tile_pos`.
    pub fn tile_position(&self, tile_pos: &Vec2) -> (r: Vec2)
        requires
            project(self.origin@, tile_pos@).representable(),
        ensures
            r@ == project(self.origin@, tile_pos@),
    {
        tile_position(&self.origin, tile_pos)
    }

    /// The screen position of the centre of the tile at `tile_pos`.
    pub fn tile_center(&self, tile_pos: &Vec2) -> (r: Vec2)
        requires
            project(self.origin@, tile_pos@).plus(half_tile()).representable(),
        ensures
            r@ == project(self.origin@, tile_pos@).plus(half_tile()),
    {
        tile_center(&self.origin, tile_pos)
    }

    /// The tile in column `x` of row `y`, if the grid has such a cell.
    pub fn tile_at(&self, x: usize, y: usize) -> (tile: Option<Tile>)
        ensures
            tile == if x < W && y < H {
                Some(self.tiles[y as int][x as int])
            } else {
                None
            },
    {
        if x < W && y < H {
            Some(self.tiles[y][x])
        } else {
            None
        }
    }
}

} // verus!
