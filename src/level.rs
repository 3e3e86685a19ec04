//! Levels described by a grid of characters, one row per line: `#` is a
//! wall, `@` the first player, `!` the second, `.` food, `*` a powerup;
//! every other character is floor.
use vstd::prelude::*;
use crate::pascman_protocol::{Item, Message, MessageType, Position, Spawn};
use crate::resources::{cell_index, lemma_cell_index_bounds, GameMap, TileType};

verus! {

/// Why a grid does not describe a level.
#[derive(Debug, Clone, Copy, PartialEq, Eq, Structural)]
pub enum MapError {
    /// the grid has no row, or its first row no cell
    Empty,
    /// a row is not as long as the first
    Ragged,
    /// the grid has more cells than a signed 32-bit count
    TooLarge,
}

/// A map and the spawn messages that populate it.
#[derive(Debug, Clone)]
pub struct Level {
    pub map: GameMap,
    pub spawns: Vec<Message>,
}

/// The tile that a character of the grid stands on.
pub open spec fn tile_of(c: char) -> TileType {
    if c == '#' {
        TileType::Wall
    } else {
        TileType::Floor
    }
}

/// The item that a character of the grid spawns, if any.
pub open spec fn item_at(c: char) -> Option<Item> {
    if c == '@' {
        Some(Item::PLAYER1)
    } else if c == '!' {
        Some(Item::PLAYER2)
    } else if c == '.' {
        Some(Item::FOOD)
    } else if c == '*' {
        Some(Item::SUPERFOOD)
    } else {
        None
    }
}

/// The character of the cell of row-major index `c` on a grid of width `w`.
pub open spec fn char_at(rows: Seq<Seq<char>>, w: int, c: int) -> char {
    rows[c / w][c % w]
}

/// The spawn messages of the first `n` cells, in row-major order; the items
/// are numbered from zero in that order.
pub open spec fn spawns_upto(rows: Seq<Seq<char>>, w: int, n: nat) -> Seq<Message>
    decreases n,
{
    if n == 0 {
        Seq::empty()
    } else {
        let prev = spawns_upto(rows, w, (n - 1) as nat);
        let c = n - 1;
        match item_at(char_at(rows, w, c)) {
            Some(item) => prev.push(
                Message::Spawn(
                    Spawn {
                        msgt: MessageType::SPAWN,
                        id: prev.len() as u32,
                        item,
                        pos: Position { x: (c % w) as u32, y: (c / w) as u32 },
                    },
                ),
            ),
            None => prev,
        }
    }
}

/// The grid is rectangular and not empty.
pub open spec fn rectangular(rows: Seq<Seq<char>>) -> bool {
    &&& rows.len() > 0
    &&& rows[0].len() > 0
    &&& forall|y: int| 0 <= y < rows.len() ==> #[trigger] rows[y].len() == rows[0].len()
}

/// The characters of a vector grid.
pub open spec fn grid_view(rows: Seq<Vec<char>>) -> Seq<Seq<char>> {
    rows.map_values(|r: Vec<char>| r@)
}

/// There are at most `n` spawns among `n` cells.
proof fn lemma_spawns_len(rows: Seq<Seq<char>>, w: int, n: nat)
    ensures
        spawns_upto(rows, w, n).len() <= n,
    decreases n,
{
    if n > 0 {
        lemma_spawns_len(rows, w, (n - 1) as nat);
    }
}

impl Level {
    /// Reads a level from a grid of characters. An empty grid, ragged rows,
    /// or more cells than `i32::MAX` are refused, in that order.
    pub fn from_grid(rows: &Vec<Vec<char>>) -> (r: Result<Level, MapError>)
        ensures
            ({
                let g = grid_view(rows@);
                &&& (g.len() == 0 || g[0].len() == 0) <==> r == Err::<Level, MapError>(MapError::Empty)
                &&& r == Err::<Level, MapError>(MapError::Ragged) <==> (g.len() > 0 && g[0].len() > 0 && !rectangular(g))
                &&& r == Err::<Level, MapError>(MapError::TooLarge) <==> (rectangular(g) && g.len() * g[0].len() > i32::MAX)
                &&& r matches Ok(level) ==> {
                    &&& rectangular(g)
                    &&& level.map.wf()
                    &&& level.map.width == g[0].len()
                    &&& level.map.height == g.len()
                    &&& forall|x: int, y: int|
                        0 <= x < g[0].len() && 0 <= y < g.len() ==> #[trigger] level.map.tile(x, y) == tile_of(g[y][x])
                    &&& level.spawns@ == spawns_upto(g, g[0].len() as int, (g.len() * g[0].len()) as nat)
                }
            }),
    {
        let ghost g = grid_view(rows@);
        assert(g.len() == rows@.len());
        if rows.len() == 0 || rows[0].len() == 0 {
            return Err(MapError::Empty);
        }
        let h = rows.len();
        let w = rows[0].len();
        let mut k: usize = 0;
        while k < h
            invariant
                h == rows@.len(),
                w == g[0].len(),
                g == grid_view(rows@),
                w > 0,
                k <= h,
                forall|y: int| 0 <= y < k ==> #[trigger] g[y].len() == w,
            decreases h - k,
        {
            if rows[k].len() != w {
                assert(g[k as int].len() != g[0].len());
                assert(!rectangular(g));
                return Err(MapError::Ragged);
            }
            k = k + 1;
        }
        if w > i32::MAX as usize || h > (i32::MAX as usize) / w {
            proof {
                if w <= i32::MAX {
                    assert(h * w > i32::MAX) by (nonlinear_arith)
                        requires
                            h > (i32::MAX as int) / (w as int),
                            w > 0,
                    ;
                } else {
                    assert(h * w >= w) by (nonlinear_arith)
                        requires
                            h >= 1,
                    ;
                }
            }
            return Err(MapError::TooLarge);
        }
        assert(h * w <= i32::MAX) by (nonlinear_arith)
            requires
                h <= (i32::MAX as int) / (w as int),
                w > 0,
        ;
        let mut tiles: Vec<TileType> = Vec::new();
        let mut spawns: Vec<Message> = Vec::new();
        let mut y: usize = 0;
        while y < h
            invariant
                h == rows@.len(),
                w == g[0].len(),
                g == grid_view(rows@),
                rectangular(g),
                0 < w,
                h * w <= i32::MAX,
                y <= h,
                tiles@.len() == y * w,
                forall|c: int| 0 <= c < y * w ==> #[trigger] tiles@[c] == tile_of(char_at(g, w as int, c)),
                spawns@ == spawns_upto(g, w as int, (y * w) as nat),
            decreases h - y,
        {
            let row = &rows[y];
            assert(row@ == g[y as int]);
            assert(y * w + w == (y + 1) * w) by (nonlinear_arith);
            assert((y + 1) * w <= h * w) by (nonlinear_arith)
                requires
                    y + 1 <= h,
            ;
            let mut x: usize = 0;
            while x < w
                invariant
                    h == rows@.len(),
                    w == g[0].len(),
                    g == grid_view(rows@),
                    rectangular(g),
                    row@ == g[y as int],
                    0 < w,
                    y < h,
                    (y + 1) * w <= h * w,
                    h * w <= i32::MAX,
                    x <= w,
                    tiles@.len() == y * w + x,
                    forall|c: int| 0 <= c < y * w + x ==> #[trigger] tiles@[c] == tile_of(char_at(g, w as int, c)),
                    spawns@ == spawns_upto(g, w as int, (y * w + x) as nat),
                decreases w - x,
            {
                let ch = row[x];
                proof {
                    lemma_cell_index_bounds(w as int, h as int, x as int, y as int);
                    assert(char_at(g, w as int, (y * w + x) as int) == ch);
                    lemma_spawns_len(g, w as int, (y * w + x) as nat);
                }
                tiles.push(if ch == '#' { TileType::Wall } else { TileType::Floor });
                let item = if ch == '@' {
                    Some(Item::PLAYER1)
                } else if ch == '!' {
                    Some(Item::PLAYER2)
                } else if ch == '.' {
                    Some(Item::FOOD)
                } else if ch == '*' {
                    Some(Item::SUPERFOOD)
                } else {
                    None
                };
                if let Some(item) = item {
                    let id = spawns.len() as u32;
                    spawns.push(Message::Spawn(Spawn {
                        msgt: MessageType::SPAWN,
                        id,
                        item,
                        pos: Position { x: x as u32, y: y as u32 },
                    }));
                }
                x = x + 1;
            }
            y = y + 1;
        }
        let map = GameMap { width: w, height: h, tiles };
        proof {
            assert(h * w == w * h && w <= h * w && h <= h * w) by (nonlinear_arith)
                requires
                    w > 0,
                    h > 0,
            ;
            assert(map.wf());
            assert forall|x: int, yy: int| 0 <= x < g[0].len() && 0 <= yy < g.len() implies #[trigger] map.tile(x, yy) == tile_of(g[yy][x]) by {
                lemma_cell_index_bounds(w as int, h as int, x, yy);
                assert(map.tiles@[cell_index(w as int, x, yy)] == tile_of(char_at(g, w as int, cell_index(w as int, x, yy))));
            }
        }
        Ok(Level { map, spawns })
    }
}

} // verus!
