//! Tile-map diffing: per z-level classification and the tight bounding
//! rectangle of the tiles that differ.
use vstd::prelude::*;

verus! {

/// A rectangle of tiles, bounds included.
#[derive(Clone, Copy, Debug, PartialEq, Eq, Structural)]
pub struct Rect {
    pub min_x: usize,
    pub min_y: usize,
    pub max_x: usize,
    pub max_y: usize,
}

/// How one z-level changed between the base and head revisions of a map.
#[derive(Clone, Copy, Debug, PartialEq, Eq, Structural)]
pub enum BoundType {
    /// Present in both and unchanged, or present in neither.
    Unchanged,
    /// Present in the head revision only.
    OnlyHead,
    /// Present in the base revision only.
    OnlyBase,
    /// Present in both; the rectangle encloses every differing tile.
    Both(Rect),
}

/// The tile at column `x` of row `y`, if the grid has one there.
pub open spec fn tile_at(grid: Seq<Seq<u64>>, x: int, y: int) -> Option<u64> {
    if 0 <= y < grid.len() && 0 <= x < grid[y].len() {
        Some(grid[y][x])
    } else {
        None
    }
}

/// Whether the two grids differ at (`x`, `y`): a tile that only one of them
/// has counts as a difference.
pub open spec fn differs(base: Seq<Seq<u64>>, head: Seq<Seq<u64>>, x: int, y: int) -> bool {
    tile_at(base, x, y) != tile_at(head, x, y)
}

/// The grid of one z-level as rows of tile keys.
pub open spec fn grid_view(g: Vec<Vec<u64>>) -> Seq<Seq<u64>> {
    g@.map_values(|row: Vec<u64>| row@)
}

/// Whether `r` is the smallest rectangle enclosing every differing tile.
pub open spec fn is_tight_bound(base: Seq<Seq<u64>>, head: Seq<Seq<u64>>, r: Rect) -> bool {
    &&& r.min_x <= r.max_x
    &&& r.min_y <= r.max_y
    &&& forall|x: int, y: int|
        #[trigger] differs(base, head, x, y) ==> r.min_x <= x <= r.max_x && r.min_y <= y <= r.max_y
    &&& exists|y: int| #[trigger] differs(base, head, r.min_x as int, y)
    &&& exists|y: int| #[trigger] differs(base, head, r.max_x as int, y)
    &&& exists|x: int| #[trigger] differs(base, head, x, r.min_y as int)
    &&& exists|x: int| #[trigger] differs(base, head, x, r.max_y as int)
}

/// Whether no tile differs.
pub open spec fn identical(base: Seq<Seq<u64>>, head: Seq<Seq<u64>>) -> bool {
    forall|x: int, y: int| !#[trigger] differs(base, head, x, y)
}

fn tile(grid: &Vec<Vec<u64>>, x: usize, y: usize) -> (r: Option<u64>)
    ensures
        r == tile_at(grid_view(*grid), x as int, y as int),
{
    if y < grid.len() && x < grid[y].len() {
        Some(grid[y][x])
    } else {
        None
    }
}

/// The smallest rectangle enclosing every tile where the two grids differ;
/// `None` when they are identical.
pub fn diff_bounds(base: &Vec<Vec<u64>>, head: &Vec<Vec<u64>>) -> (r: Option<Rect>)
    ensures
        r is None <==> identical(grid_view(*base), grid_view(*head)),
        r matches Some(rect) ==> is_tight_bound(grid_view(*base), grid_view(*head), rect),
{
    let ghost b = grid_view(*base);
    let ghost h = grid_view(*head);
    let height = if base.len() > head.len() {
        base.len()
    } else {
        head.len()
    };
    let mut found = false;
    let mut r = Rect { min_x: 0, min_y: 0, max_x: 0, max_y: 0 };
    // points where each extreme was reached: (x, y)
    let mut w_min_x: (usize, usize) = (0, 0);
    let mut w_max_x: (usize, usize) = (0, 0);
    let mut w_min_y: (usize, usize) = (0, 0);
    let mut w_max_y: (usize, usize) = (0, 0);
    let mut y: usize = 0;
    while y < height
        invariant
            b == grid_view(*base),
            h == grid_view(*head),
            height == if base@.len() > head@.len() { base@.len() } else { head@.len() },
            y <= height,
            !found ==> forall|px: int, py: int|
                0 <= py < y ==> !#[trigger] differs(b, h, px, py),
            found ==> {
                &&& r.max_y < y
                &&& r.min_x <= r.max_x
                &&& r.min_y <= r.max_y
                &&& forall|px: int, py: int|
                    0 <= py < y && #[trigger] differs(b, h, px, py) ==> r.min_x <= px <= r.max_x
                        && r.min_y <= py <= r.max_y
                &&& w_min_x.0 == r.min_x && differs(b, h, w_min_x.0 as int, w_min_x.1 as int)
                &&& w_max_x.0 == r.max_x && differs(b, h, w_max_x.0 as int, w_max_x.1 as int)
                &&& w_min_y.1 == r.min_y && differs(b, h, w_min_y.0 as int, w_min_y.1 as int)
                &&& w_max_y.1 == r.max_y && differs(b, h, w_max_y.0 as int, w_max_y.1 as int)
            },
        decreases height - y,
    {
        let bw = if y < base.len() {
            base[y].len()
        } else {
            0
        };
        let hw = if y < head.len() {
            head[y].len()
        } else {
            0
        };
        let width = if bw > hw {
            bw
        } else {
            hw
        };
        let mut x: usize = 0;
        while x < width
            invariant
                b == grid_view(*base),
                h == grid_view(*head),
                y < height,
                x <= width,
                width == if bw > hw { bw } else { hw },
                bw == (if y < base@.len() { base@[y as int]@.len() } else { 0 }),
                hw == (if y < head@.len() { head@[y as int]@.len() } else { 0 }),
                !found ==> forall|px: int, py: int|
                    (0 <= py < y || (py == y && 0 <= px < x)) ==> !#[trigger] differs(b, h, px, py),
                found ==> {
                    &&& r.max_y <= y
                    &&& r.min_x <= r.max_x
                    &&& r.min_y <= r.max_y
                    &&& forall|px: int, py: int|
                        (0 <= py < y || (py == y && 0 <= px < x)) && #[trigger] differs(b, h, px, py)
                            ==> r.min_x <= px <= r.max_x && r.min_y <= py <= r.max_y
                    &&& w_min_x.0 == r.min_x && differs(b, h, w_min_x.0 as int, w_min_x.1 as int)
                    &&& w_max_x.0 == r.max_x && differs(b, h, w_max_x.0 as int, w_max_x.1 as int)
                    &&& w_min_y.1 == r.min_y && differs(b, h, w_min_y.0 as int, w_min_y.1 as int)
                    &&& w_max_y.1 == r.max_y && differs(b, h, w_max_y.0 as int, w_max_y.1 as int)
                },
            decreases width - x,
        {
            let bt = tile(base, x, y);
            let ht = tile(head, x, y);
            if bt != ht {
                if !found {
                    found = true;
                    r = Rect { min_x: x, min_y: y, max_x: x, max_y: y };
                    w_min_x = (x, y);
                    w_max_x = (x, y);
                    w_min_y = (x, y);
                    w_max_y = (x, y);
                } else {
                    if x < r.min_x {
                        r.min_x = x;
                        w_min_x = (x, y);
                    }
                    if x > r.max_x {
                        r.max_x = x;
                        w_max_x = (x, y);
                    }
                    if y > r.max_y {
                        r.max_y = y;
                        w_max_y = (x, y);
                    }
                }
            }
            x = x + 1;
        }
        proof {
            assert forall|px: int| px >= width implies !#[trigger] differs(b, h, px, y as int) by {
                assert(tile_at(b, px, y as int) is None);
                assert(tile_at(h, px, y as int) is None);
            }
        }
        y = y + 1;
    }
    proof {
        assert forall|px: int, py: int| py >= height || py < 0 || px < 0 implies !#[trigger] differs(
            b,
            h,
            px,
            py,
        ) by {
            assert(tile_at(b, px, py) is None);
            assert(tile_at(h, px, py) is None);
        }
    }
    if found {
        Some(r)
    } else {
        None
    }
}

/// The z-levels of a map as plain grids.
pub open spec fn levels_view(levels: Vec<Vec<Vec<u64>>>) -> Seq<Seq<Seq<u64>>> {
    levels@.map_values(|g: Vec<Vec<u64>>| grid_view(g))
}

/// The grid of z-level `z` (counted from 0), if the map has that level.
pub open spec fn level_at(levels: Seq<Seq<Seq<u64>>>, z: int) -> Option<Seq<Seq<u64>>> {
    if 0 <= z < levels.len() {
        Some(levels[z])
    } else {
        None
    }
}

/// Whether `r` classifies a z-level that has the grid `base` in the base
/// revision and `head` in the head revision.
pub open spec fn classifies(
    base: Option<Seq<Seq<u64>>>,
    head: Option<Seq<Seq<u64>>>,
    r: BoundType,
) -> bool {
    match (base, head) {
        (Some(b), Some(h)) => if identical(b, h) {
            r == BoundType::Unchanged
        } else {
            r matches BoundType::Both(rect) && is_tight_bound(b, h, rect)
        },
        (None, Some(_)) => r == BoundType::OnlyHead,
        (Some(_), None) => r == BoundType::OnlyBase,
        (None, None) => r == BoundType::Unchanged,
    }
}

/// Classifies every z-level of a modified map, from the first to the last
/// level of either revision.
pub fn map_bounds(base: &Vec<Vec<Vec<u64>>>, head: &Vec<Vec<Vec<u64>>>) -> (r: Vec<BoundType>)
    ensures
        r@.len() == if base@.len() > head@.len() { base@.len() } else { head@.len() },
        forall|z: int|
            0 <= z < r@.len() ==> classifies(
                level_at(levels_view(*base), z),
                level_at(levels_view(*head), z),
                #[trigger] r@[z],
            ),
{
    let depth = if base.len() > head.len() {
        base.len()
    } else {
        head.len()
    };
    let mut out: Vec<BoundType> = Vec::new();
    let mut z: usize = 0;
    while z < depth
        invariant
            z <= depth,
            depth == if base@.len() > head@.len() { base@.len() } else { head@.len() },
            out@.len() == z,
            forall|k: int|
                0 <= k < z ==> classifies(
                    level_at(levels_view(*base), k),
                    level_at(levels_view(*head), k),
                    #[trigger] out@[k],
                ),
        decreases depth - z,
    {
        let bound = if z < base.len() && z < head.len() {
            match diff_bounds(&base[z], &head[z]) {
                Some(rect) => BoundType::Both(rect),
                None => BoundType::Unchanged,
            }
        } else if z < head.len() {
            BoundType::OnlyHead
        } else if z < base.len() {
            BoundType::OnlyBase
        } else {
            BoundType::Unchanged
        };
        out.push(bound);
        z = z + 1;
    }
    out
}

} // verus!
