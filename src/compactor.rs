use vstd::prelude::*;
use crate::archetypes::BodyKind;

verus! {

/// A tile position on a level's wall grid.
#[derive(Debug, Clone, Copy, PartialEq, Eq, Structural)]
pub struct GridCoords {
    pub x: i32,
    pub y: i32,
}

/// A run of occupied cells within one grid row, from `left` to `right` inclusive.
#[derive(Debug, Clone, Copy, PartialEq, Eq, Structural)]
pub struct Plate {
    pub left: i32,
    pub right: i32,
}

/// A rectangle of grid cells, bounds inclusive on all four sides.
#[derive(Debug, Clone, Copy, PartialEq, Eq, Structural)]
pub struct WallRect {
    pub left: i32,
    pub right: i32,
    pub bottom: i32,
    pub top: i32,
}

/// Whether the wall list names the cell `(x, y)`.
pub open spec fn occupied(walls: Seq<GridCoords>, x: int, y: int) -> bool {
    exists|k: int| 0 <= k < walls.len() && walls[k].x == x && walls[k].y == y
}

/// A wall cell inside the `width` by `height` grid.
pub open spec fn wall_cell(walls: Seq<GridCoords>, width: int, height: int, x: int, y: int) -> bool {
    0 <= x < width && 0 <= y < height && occupied(walls, x, y)
}

pub open spec fn plate_covers(p: Plate, x: int) -> bool {
    p.left <= x <= p.right
}

/// Some plate of the row covers column `x`.
pub open spec fn row_covered(ps: Seq<Plate>, x: int) -> bool {
    exists|i: int| 0 <= i < ps.len() && plate_covers(#[trigger] ps[i], x)
}

/// Plates lie inside `0..width`, from left to right, with at least one free
/// cell between neighbours.
pub open spec fn plates_ordered(ps: Seq<Plate>, width: int) -> bool {
    &&& forall|i: int| 0 <= i < ps.len() ==> 0 <= #[trigger] ps[i].left <= ps[i].right < width
    &&& forall|i: int, j: int| 0 <= i < j < ps.len() ==> #[trigger] ps[i].right + 1 < #[trigger] ps[j].left
}

/// No wall cell of row `y` touches the plate on either end.
pub open spec fn plate_maximal(walls: Seq<GridCoords>, width: int, y: int, p: Plate) -> bool {
    &&& (p.left == 0 || !occupied(walls, p.left - 1, y))
    &&& (p.right + 1 == width || !occupied(walls, p.right + 1, y))
}

/// Row `y` holds a plate on exactly the columns of `r`.
pub open spec fn same_run(walls: Seq<GridCoords>, width: int, height: int, r: WallRect, y: int) -> bool {
    &&& forall|x: int| r.left <= x <= r.right ==> #[trigger] wall_cell(walls, width, height, x, y)
    &&& !wall_cell(walls, width, height, r.left - 1, y)
    &&& !wall_cell(walls, width, height, r.right + 1, y)
}

/// No wall cell touches row `y` of `r` on the left or on the right.
pub open spec fn sides_clear(walls: Seq<GridCoords>, width: int, height: int, r: WallRect, y: int) -> bool {
    !wall_cell(walls, width, height, r.left - 1, y) && !wall_cell(walls, width, height, r.right + 1, y)
}

/// Each row of `r` is a whole plate: it cannot be widened.
pub open spec fn rows_maximal(walls: Seq<GridCoords>, width: int, height: int, r: WallRect) -> bool {
    forall|y: int| r.bottom <= y <= r.top ==> #[trigger] sides_clear(walls, width, height, r, y)
}

/// Each row of `r` is a whole plate, and the rows right below and right above
/// do not hold a plate on the same columns, which would have been stacked onto it.
pub open spec fn rect_maximal(walls: Seq<GridCoords>, width: int, height: int, r: WallRect) -> bool {
    &&& rows_maximal(walls, width, height, r)
    &&& !same_run(walls, width, height, r, r.bottom - 1)
    &&& !same_run(walls, width, height, r, r.top + 1)
}

pub open spec fn in_rect(r: WallRect, x: int, y: int) -> bool {
    r.left <= x <= r.right && r.bottom <= y <= r.top
}

/// Some rectangle of the sequence holds the cell `(x, y)`.
pub open spec fn covered(rs: Seq<WallRect>, x: int, y: int) -> bool {
    exists|i: int| 0 <= i < rs.len() && in_rect(#[trigger] rs[i], x, y)
}

/// Two rectangles share no cell: they are apart on one axis.
pub open spec fn apart(a: WallRect, b: WallRect) -> bool {
    a.right < b.left || b.right < a.left || a.top < b.bottom || b.top < a.bottom
}

pub open spec fn rect_wf(r: WallRect, width: int) -> bool {
    0 <= r.left <= r.right < width && 0 <= r.bottom <= r.top
}

pub open spec fn pairwise_apart(rs: Seq<WallRect>) -> bool {
    forall|i: int, j: int| 0 <= i < rs.len() && 0 <= j < rs.len() && i != j ==> apart(#[trigger] rs[i], #[trigger] rs[j])
}

pub open spec fn cross_apart(a: Seq<WallRect>, b: Seq<WallRect>) -> bool {
    forall|i: int, j: int| 0 <= i < a.len() && 0 <= j < b.len() ==> apart(#[trigger] a[i], #[trigger] b[j])
}

/// The rectangles cover exactly the wall cells of the grid, each cell once.
pub open spec fn exact_cover(rs: Seq<WallRect>, walls: Seq<GridCoords>, width: int, height: int) -> bool {
    &&& forall|i: int| 0 <= i < rs.len() ==> rect_wf(#[trigger] rs[i], width)
    &&& forall|x: int, y: int| covered(rs, x, y) <==> wall_cell(walls, width, height, x, y)
    &&& forall|i: int, j: int, x: int, y: int| 0 <= i < rs.len() && 0 <= j < rs.len() && i != j ==>
        !(#[trigger] in_rect(rs[i], x, y) && #[trigger] in_rect(rs[j], x, y))
}

proof fn lemma_row_covered_push(ps: Seq<Plate>, p: Plate, x: int)
    requires
        row_covered(ps, x),
    ensures
        row_covered(ps.push(p), x),
{
    let i = choose|i: int| 0 <= i < ps.len() && plate_covers(#[trigger] ps[i], x);
    assert(ps.push(p)[i] == ps[i]);
}

/// A wall tile and the level it belongs to.
#[derive(Debug, Clone, Copy, PartialEq, Eq, Structural)]
pub struct LevelTile {
    pub coords: GridCoords,
    pub level: u64,
}

/// The positions of the tiles of `level`, in the order the tiles come.
pub open spec fn tiles_of_level(tiles: Seq<LevelTile>, level: u64) -> Seq<GridCoords>
    decreases tiles.len(),
{
    if tiles.len() == 0 {
        Seq::empty()
    } else {
        tiles_of_level(tiles.drop_last(), level) + (if tiles.last().level == level {
            seq![tiles.last().coords]
        } else {
            Seq::empty()
        })
    }
}

/// The wall positions of one level, out of the wall tiles of all loaded levels.
pub fn walls_of_level(tiles: &Vec<LevelTile>, level: u64) -> (walls: Vec<GridCoords>)
    ensures
        walls@ == tiles_of_level(tiles@, level),
        forall|x: int, y: int| occupied(walls@, x, y) <==>
            exists|k: int| 0 <= k < tiles@.len() && tiles@[k].level == level && #[trigger] tiles@[k].coords.x == x
                && tiles@[k].coords.y == y,
{
    let mut walls: Vec<GridCoords> = Vec::new();
    let mut i: usize = 0;
    while i < tiles.len()
        invariant
            0 <= i <= tiles@.len(),
            walls@ == tiles_of_level(tiles@.take(i as int), level),
            forall|x: int, y: int| occupied(walls@, x, y) <==>
                exists|k: int| 0 <= k < i && tiles@[k].level == level && #[trigger] tiles@[k].coords.x == x
                    && tiles@[k].coords.y == y,
        decreases tiles@.len() - i,
    {
        assert(tiles@.take(i + 1).drop_last() =~= tiles@.take(i as int));
        let t = tiles[i];
        let ghost before = walls@;
        if t.level == level {
            walls.push(t.coords);
        }
        assert forall|x: int, y: int| occupied(walls@, x, y) <==>
            exists|k: int| 0 <= k < i + 1 && tiles@[k].level == level && #[trigger] tiles@[k].coords.x == x
                && tiles@[k].coords.y == y by {
            if occupied(walls@, x, y) {
                let m = choose|m: int| 0 <= m < walls@.len() && walls@[m].x == x && walls@[m].y == y;
                if m < before.len() {
                    assert(before[m] == walls@[m]);
                    assert(occupied(before, x, y));
                } else {
                    assert(tiles@[i as int].coords.x == x);
                }
            }
            if exists|k: int| 0 <= k < i + 1 && tiles@[k].level == level && #[trigger] tiles@[k].coords.x == x
                && tiles@[k].coords.y == y {
                let k = choose|k: int| 0 <= k < i + 1 && tiles@[k].level == level && #[trigger] tiles@[k].coords.x == x
                    && tiles@[k].coords.y == y;
                if k < i {
                    assert(occupied(before, x, y));
                    let m = choose|m: int| 0 <= m < before.len() && before[m].x == x && before[m].y == y;
                    assert(walls@[m] == before[m]);
                } else {
                    assert(walls@[walls@.len() - 1] == t.coords);
                }
            }
        }
        i += 1;
    }
    assert(tiles@.take(i as int) =~= tiles@);
    walls
}

/// An exact cover by maximal rectangles: every row of a rectangle is a whole
/// plate, and a plate on the same columns right above or below a rectangle
/// is always part of it. Exactly one such cover exists for a set of wall cells.
pub open spec fn greedy_cover(rs: Seq<WallRect>, walls: Seq<GridCoords>, width: int, height: int) -> bool {
    &&& exact_cover(rs, walls, width, height)
    &&& forall|i: int| 0 <= i < rs.len() ==> rect_maximal(walls, width, height, #[trigger] rs[i])
}

/// A rectangle of one maximal cover is a rectangle of any other maximal
/// cover of the same wall cells.
proof fn lemma_greedy_rect_shared(rs1: Seq<WallRect>, rs2: Seq<WallRect>, walls: Seq<GridCoords>, width: int, height: int, i: int)
    requires
        greedy_cover(rs1, walls, width, height),
        greedy_cover(rs2, walls, width, height),
        0 <= i < rs1.len(),
    ensures
        rs2.contains(rs1[i]),
{
    let r = rs1[i];
    assert(rect_wf(r, width));
    assert(rect_maximal(walls, width, height, r));
    assert(in_rect(rs1[i], r.left as int, r.bottom as int));
    assert(covered(rs1, r.left as int, r.bottom as int));
    assert(covered(rs2, r.left as int, r.bottom as int));
    let k = choose|k: int| 0 <= k < rs2.len() && in_rect(#[trigger] rs2[k], r.left as int, r.bottom as int);
    let q = rs2[k];
    assert(rect_wf(q, width));
    assert(rect_maximal(walls, width, height, q));
    let yb = r.bottom as int;
    assert(sides_clear(walls, width, height, r, yb));
    assert(sides_clear(walls, width, height, q, yb));
    if q.left < r.left {
        assert(in_rect(rs2[k], r.left - 1, yb));
        assert(covered(rs2, r.left - 1, yb));
    }
    if q.right > r.right {
        assert(in_rect(rs2[k], r.right + 1, yb));
        assert(covered(rs2, r.right + 1, yb));
    }
    if q.right < r.right {
        assert(in_rect(rs1[i], q.right + 1, yb));
        assert(covered(rs1, q.right + 1, yb));
    }
    assert(q.left == r.left && q.right == r.right);
    if q.bottom < r.bottom {
        let row = r.bottom - 1;
        assert(sides_clear(walls, width, height, q, row));
        assert forall|x: int| r.left <= x <= r.right implies #[trigger] wall_cell(walls, width, height, x, row) by {
            assert(in_rect(rs2[k], x, row));
            assert(covered(rs2, x, row));
        }
        assert(same_run(walls, width, height, r, r.bottom - 1));
    }
    if q.top > r.top {
        let row = r.top + 1;
        assert(sides_clear(walls, width, height, q, row));
        assert forall|x: int| r.left <= x <= r.right implies #[trigger] wall_cell(walls, width, height, x, row) by {
            assert(in_rect(rs2[k], x, row));
            assert(covered(rs2, x, row));
        }
        assert(same_run(walls, width, height, r, r.top + 1));
    }
    if q.top < r.top {
        let row = q.top + 1;
        assert(sides_clear(walls, width, height, r, row));
        assert forall|x: int| q.left <= x <= q.right implies #[trigger] wall_cell(walls, width, height, x, row) by {
            assert(in_rect(rs1[i], x, row));
            assert(covered(rs1, x, row));
        }
        assert(same_run(walls, width, height, q, q.top + 1));
    }
    assert(q == r);
}

/// The maximal cover of a set of wall cells is unique: two lists naming the
/// same cells, in any order and with any repeats, are covered by the same
/// rectangles.
pub proof fn lemma_greedy_cover_unique(
    rs1: Seq<WallRect>,
    rs2: Seq<WallRect>,
    walls1: Seq<GridCoords>,
    walls2: Seq<GridCoords>,
    width: int,
    height: int,
)
    requires
        greedy_cover(rs1, walls1, width, height),
        greedy_cover(rs2, walls2, width, height),
        forall|x: int, y: int| occupied(walls1, x, y) == occupied(walls2, x, y),
    ensures
        forall|i: int| 0 <= i < rs1.len() ==> rs2.contains(#[trigger] rs1[i]),
        forall|i: int| 0 <= i < rs2.len() ==> rs1.contains(#[trigger] rs2[i]),
{
    assert(forall|x: int, y: int| wall_cell(walls1, width, height, x, y) == wall_cell(walls2, width, height, x, y));
    assert forall|r: WallRect, y: int| same_run(walls1, width, height, r, y) == same_run(walls2, width, height, r, y) by {
        if same_run(walls1, width, height, r, y) {
            assert forall|x: int| r.left <= x <= r.right implies #[trigger] wall_cell(walls2, width, height, x, y) by {
                assert(wall_cell(walls1, width, height, x, y));
            }
        }
        if same_run(walls2, width, height, r, y) {
            assert forall|x: int| r.left <= x <= r.right implies #[trigger] wall_cell(walls1, width, height, x, y) by {
                assert(wall_cell(walls2, width, height, x, y));
            }
        }
    }
    assert forall|r: WallRect| rect_maximal(walls1, width, height, r) == rect_maximal(walls2, width, height, r) by {
        assert(forall|y: int| sides_clear(walls1, width, height, r, y) == sides_clear(walls2, width, height, r, y));
    }
    assert(greedy_cover(rs2, walls1, width, height));
    assert forall|i: int| 0 <= i < rs1.len() implies rs2.contains(#[trigger] rs1[i]) by {
        lemma_greedy_rect_shared(rs1, rs2, walls1, width, height, i);
    }
    assert forall|i: int| 0 <= i < rs2.len() implies rs1.contains(#[trigger] rs2[i]) by {
        lemma_greedy_rect_shared(rs2, rs1, walls1, width, height, i);
    }
}

/// Whether `(x, y)` is one of the wall cells.
pub fn contains_cell(walls: &Vec<GridCoords>, x: i32, y: i32) -> (r: bool)
    ensures
        r == occupied(walls@, x as int, y as int),
{
    let mut k: usize = 0;
    while k < walls.len()
        invariant
            0 <= k <= walls@.len(),
            forall|m: int| 0 <= m < k ==> !(walls@[m].x == x && walls@[m].y == y),
        decreases walls@.len() - k,
    {
        if walls[k].x == x && walls[k].y == y {
            return true;
        }
        k += 1;
    }
    false
}

/// The wall plates of row `y`: each maximal run of wall cells in `0..width`,
/// from left to right.
pub fn plates_of_row(walls: &Vec<GridCoords>, width: i32, y: i32) -> (plates: Vec<Plate>)
    ensures
        plates_ordered(plates@, width as int),
        forall|x: int| 0 <= x < width ==> (row_covered(plates@, x) <==> occupied(walls@, x, y as int)),
        forall|i: int, x: int| 0 <= i < plates@.len() && #[trigger] plate_covers(plates@[i], x) ==> occupied(walls@, x, y as int),
        forall|i: int| 0 <= i < plates@.len() ==> plate_maximal(walls@, width as int, y as int, #[trigger] plates@[i]),
{
    let mut plates: Vec<Plate> = Vec::new();
    if width <= 0 {
        return plates;
    }
    let mut start: Option<i32> = None;
    let mut x: i64 = 0;
    // one column past the right edge closes a run that touches it
    while x <= width as i64
        invariant
            0 <= x <= width + 1,
            plates_ordered(plates@, width as int),
            forall|i: int, c: int| 0 <= i < plates@.len() && #[trigger] plate_covers(plates@[i], c) ==> occupied(walls@, c, y as int),
            forall|c: int| 0 <= c < x && c < width && occupied(walls@, c, y as int) ==>
                row_covered(plates@, c) || (start is Some && start->0 <= c),
            x > width ==> start is None,
            start is None ==> forall|i: int| 0 <= i < plates@.len() ==> #[trigger] plates@[i].right + 2 <= x,
            start is None ==> (x == 0 || x > width || !occupied(walls@, x - 1, y as int)),
            start is Some ==> {
                let s = start->0;
                &&& 0 <= s < x
                &&& s < width
                &&& forall|c: int| s <= c < x ==> c < width && occupied(walls@, c, y as int)
                &&& forall|i: int| 0 <= i < plates@.len() ==> #[trigger] plates@[i].right + 1 < s
            },
        decreases width + 1 - x,
    {
        let here = x < width as i64 && contains_cell(walls, x as i32, y);
        match start {
            Some(s) => {
                if !here {
                    let ghost before = plates@;
                    assert forall|c: int| 0 <= c < s && occupied(walls@, c, y as int) implies
                        row_covered(before, c) by {
                        assert(c < x && c < width);
                    }
                    let plate = Plate { left: s, right: (x - 1) as i32 };
                    plates.push(plate);
                    start = None;
                    assert forall|c: int| 0 <= c <= x && c < width && occupied(walls@, c, y as int) implies
                        row_covered(plates@, c) by {
                        if c >= s {
                            assert(plate_covers(plates@[before.len() as int], c));
                        } else {
                            lemma_row_covered_push(before, plate, c);
                        }
                    }
                }
            }
            None => {
                if here {
                    start = Some(x as i32);
                }
            }
        }
        x += 1;
    }
    assert forall|c: int| 0 <= c < width && row_covered(plates@, c) implies occupied(walls@, c, y as int) by {
        let i = choose|i: int| 0 <= i < plates@.len() && plate_covers(#[trigger] plates@[i], c);
        assert(plate_covers(plates@[i], c));
    }
    assert forall|i: int| 0 <= i < plates@.len() implies plate_maximal(walls@, width as int, y as int, #[trigger] plates@[i]) by {
        let p = plates@[i];
        if p.left > 0 && occupied(walls@, p.left - 1, y as int) {
            assert(row_covered(plates@, p.left - 1));
            let j = choose|j: int| 0 <= j < plates@.len() && plate_covers(#[trigger] plates@[j], p.left - 1);
            if j < i {
                assert(plates@[j].right + 1 < plates@[i].left);
            } else if j > i {
                assert(plates@[i].right + 1 < plates@[j].left);
            }
        }
        if p.right + 1 < width && occupied(walls@, p.right + 1, y as int) {
            assert(row_covered(plates@, p.right + 1));
            let j = choose|j: int| 0 <= j < plates@.len() && plate_covers(#[trigger] plates@[j], p.right + 1);
            if j < i {
                assert(plates@[j].right + 1 < plates@[i].left);
            } else if j > i {
                assert(plates@[i].right + 1 < plates@[j].left);
            }
        }
    }
    plates
}

/// The index of the open rectangle standing on exactly the columns of `p`.
fn find_open(open: &Vec<WallRect>, p: Plate) -> (r: Option<usize>)
    ensures
        match r {
            Some(j) => j < open@.len() && open@[j as int].left == p.left && open@[j as int].right == p.right,
            None => forall|j: int| 0 <= j < open@.len() ==> !(#[trigger] open@[j].left == p.left && open@[j].right == p.right),
        },
{
    let mut j: usize = 0;
    while j < open.len()
        invariant
            0 <= j <= open@.len(),
            forall|m: int| 0 <= m < j ==> !(#[trigger] open@[m].left == p.left && open@[m].right == p.right),
        decreases open@.len() - j,
    {
        if open[j].left == p.left && open[j].right == p.right {
            return Some(j);
        }
        j += 1;
    }
    None
}

/// After one row is merged, the finished and the open rectangles again cover
/// exactly the wall cells below the next row, each cell once.
proof fn lemma_row_merged(
    walls: Seq<GridCoords>,
    width: int,
    height: int,
    y: int,
    plates: Seq<Plate>,
    prior: Seq<WallRect>,
    open: Seq<WallRect>,
    used: Seq<bool>,
    current: Seq<WallRect>,
    src: Seq<int>,
    emitted: Seq<WallRect>,
    cidx: Seq<int>,
)
    requires
        0 <= y <= height,
        y == height ==> plates.len() == 0,
        y < height ==> forall|x: int| 0 <= x < width ==> (row_covered(plates, x) <==> occupied(walls, x, y)),
        y < height ==> forall|i: int, x: int| 0 <= i < plates.len() && #[trigger] plate_covers(plates[i], x) ==> occupied(walls, x, y),
        plates_ordered(plates, width),
        forall|j: int| 0 <= j < open.len() ==> rect_wf(#[trigger] open[j], width) && open[j].top == y - 1,
        forall|e: int| 0 <= e < prior.len() ==> rect_wf(#[trigger] prior[e], width) && prior[e].top < y - 1,
        forall|x: int, yy: int| #![all_triggers] (covered(prior, x, yy) || covered(open, x, yy)) <==>
            (wall_cell(walls, width, height, x, yy) && yy < y),
        pairwise_apart(prior),
        pairwise_apart(open),
        cross_apart(prior, open),
        current.len() == plates.len(),
        src.len() == plates.len(),
        used.len() == open.len(),
        forall|i: int| 0 <= i < current.len() ==> {
            &&& (#[trigger] current[i]).left == plates[i].left
            &&& current[i].right == plates[i].right
            &&& current[i].top == y
            &&& rect_wf(current[i], width)
            &&& src[i] >= 0 ==> src[i] < open.len() && used[src[i]] && current[i] == (WallRect { top: y as i32, ..open[src[i]] })
            &&& src[i] < 0 ==> current[i].bottom == y
        },
        forall|j: int| 0 <= j < used.len() && #[trigger] used[j] ==> exists|i: int| 0 <= i < current.len() && src[i] == j,
        emitted.len() == prior.len() + cidx.len(),
        emitted.subrange(0, prior.len() as int) == prior,
        forall|m: int| 0 <= m < cidx.len() ==> 0 <= #[trigger] cidx[m] < open.len() && !used[cidx[m]]
            && emitted[prior.len() + m] == open[cidx[m]],
        forall|m1: int, m2: int| 0 <= m1 < m2 < cidx.len() ==> #[trigger] cidx[m1] < #[trigger] cidx[m2],
        forall|jj: int| 0 <= jj < open.len() && !(#[trigger] used[jj]) ==> exists|m: int| 0 <= m < cidx.len() && cidx[m] == jj,
    ensures
        forall|e: int| 0 <= e < emitted.len() ==> rect_wf(#[trigger] emitted[e], width) && emitted[e].top < y,
        forall|x: int, yy: int| #![all_triggers] (covered(emitted, x, yy) || covered(current, x, yy)) <==>
            (wall_cell(walls, width, height, x, yy) && yy < y + 1),
        pairwise_apart(emitted),
        pairwise_apart(current),
        cross_apart(emitted, current),
{
    let base = prior.len() as int;
    assert forall|e: int| 0 <= e < base implies #[trigger] emitted[e] == prior[e] by {
        assert(emitted.subrange(0, base)[e] == emitted[e]);
    }
    assert forall|e: int| 0 <= e < emitted.len() implies rect_wf(#[trigger] emitted[e], width) && emitted[e].top < y by {
        if e >= base {
            assert(emitted[base + (e - base)] == open[cidx[e - base]]);
        }
    }
    assert forall|x: int, yy: int| (covered(emitted, x, yy) || covered(current, x, yy)) implies
        wall_cell(walls, width, height, x, yy) && yy < y + 1 by {
        if covered(emitted, x, yy) {
            let e = choose|e: int| 0 <= e < emitted.len() && in_rect(#[trigger] emitted[e], x, yy);
            if e < base {
                assert(in_rect(prior[e], x, yy));
                assert(covered(prior, x, yy));
            } else {
                let m = e - base;
                assert(emitted[base + m] == open[cidx[m]]);
                assert(in_rect(open[cidx[m]], x, yy));
                assert(covered(open, x, yy));
            }
        } else {
            let i = choose|i: int| 0 <= i < current.len() && in_rect(#[trigger] current[i], x, yy);
            if yy < y {
                assert(src[i] >= 0);
                assert(in_rect(open[src[i]], x, yy));
                assert(covered(open, x, yy));
            } else {
                assert(plate_covers(plates[i], x));
            }
        }
    }
    assert forall|x: int, yy: int| wall_cell(walls, width, height, x, yy) && yy < y + 1 implies
        (covered(emitted, x, yy) || covered(current, x, yy)) by {
        if yy < y {
            if covered(prior, x, yy) {
                let e = choose|e: int| 0 <= e < prior.len() && in_rect(#[trigger] prior[e], x, yy);
                assert(in_rect(emitted[e], x, yy));
            } else {
                assert(covered(open, x, yy));
                let jj = choose|jj: int| 0 <= jj < open.len() && in_rect(#[trigger] open[jj], x, yy);
                if used[jj] {
                    let i = choose|i: int| 0 <= i < current.len() && src[i] == jj;
                    assert(in_rect(current[i], x, yy));
                } else {
                    let m = choose|m: int| 0 <= m < cidx.len() && cidx[m] == jj;
                    assert(in_rect(emitted[base + m], x, yy));
                }
            }
        } else {
            assert(row_covered(plates, x));
            let i = choose|i: int| 0 <= i < plates.len() && plate_covers(#[trigger] plates[i], x);
            assert(in_rect(current[i], x, yy));
        }
    }
    assert forall|a: int, b: int| 0 <= a < emitted.len() && 0 <= b < emitted.len() && a != b implies
        apart(#[trigger] emitted[a], #[trigger] emitted[b]) by {
        if a < base && b < base {
            assert(apart(prior[a], prior[b]));
        } else if a < base {
            assert(emitted[base + (b - base)] == open[cidx[b - base]]);
            assert(apart(prior[a], open[cidx[b - base]]));
        } else if b < base {
            assert(emitted[base + (a - base)] == open[cidx[a - base]]);
            assert(apart(prior[b], open[cidx[a - base]]));
        } else {
            assert(emitted[base + (a - base)] == open[cidx[a - base]]);
            assert(emitted[base + (b - base)] == open[cidx[b - base]]);
            assert(cidx[a - base] != cidx[b - base]);
            assert(apart(open[cidx[a - base]], open[cidx[b - base]]));
        }
    }
    assert forall|a: int, b: int| 0 <= a < current.len() && 0 <= b < current.len() && a != b implies
        apart(#[trigger] current[a], #[trigger] current[b]) by {
        if a < b {
            assert(plates[a].right + 1 < plates[b].left);
        } else {
            assert(plates[b].right + 1 < plates[a].left);
        }
    }
    assert forall|a: int, b: int| 0 <= a < emitted.len() && 0 <= b < current.len() implies
        apart(#[trigger] emitted[a], #[trigger] current[b]) by {
        let cb = current[b];
        assert(cb.left == plates[b].left && cb.top == y);
        if src[b] >= 0 {
            let j = src[b];
            assert(0 <= j < open.len());
            if a < base {
                assert(apart(prior[a], open[j]));
            } else {
                let m = a - base;
                assert(emitted[base + m] == open[cidx[m]]);
                assert(cidx[m] != j);
                assert(apart(open[cidx[m]], open[j]));
            }
        } else if a >= base {
            assert(emitted[base + (a - base)] == open[cidx[a - base]]);
        }
    }
}

/// After one row is merged, every finished rectangle is maximal, and every
/// open one has whole plates for rows and nothing to stack below it.
proof fn lemma_row_maximal(
    walls: Seq<GridCoords>,
    width: int,
    height: int,
    y: int,
    plates: Seq<Plate>,
    prior: Seq<WallRect>,
    open: Seq<WallRect>,
    used: Seq<bool>,
    current: Seq<WallRect>,
    src: Seq<int>,
    emitted: Seq<WallRect>,
    cidx: Seq<int>,
)
    requires
        0 <= y <= height,
        y == height ==> plates.len() == 0,
        y < height ==> forall|x: int| 0 <= x < width ==> (row_covered(plates, x) <==> occupied(walls, x, y)),
        y < height ==> forall|i: int, x: int| 0 <= i < plates.len() && #[trigger] plate_covers(plates[i], x) ==> occupied(walls, x, y),
        forall|i: int| 0 <= i < plates.len() ==> plate_maximal(walls, width, y, #[trigger] plates[i]),
        plates_ordered(plates, width),
        forall|j: int| 0 <= j < open.len() ==> rect_wf(#[trigger] open[j], width) && open[j].top == y - 1,
        forall|j: int| 0 <= j < open.len() ==> rows_maximal(walls, width, height, #[trigger] open[j])
            && !same_run(walls, width, height, open[j], open[j].bottom - 1),
        forall|e: int| 0 <= e < prior.len() ==> rect_wf(#[trigger] prior[e], width) && prior[e].top < y - 1,
        forall|e: int| 0 <= e < prior.len() ==> rect_maximal(walls, width, height, #[trigger] prior[e]),
        forall|x: int, yy: int| #![all_triggers] (covered(prior, x, yy) || covered(open, x, yy)) <==>
            (wall_cell(walls, width, height, x, yy) && yy < y),
        pairwise_apart(open),
        current.len() == plates.len(),
        src.len() == plates.len(),
        used.len() == open.len(),
        forall|i: int| 0 <= i < current.len() ==> {
            &&& (#[trigger] current[i]).left == plates[i].left
            &&& current[i].right == plates[i].right
            &&& current[i].top == y
            &&& rect_wf(current[i], width)
            &&& src[i] >= 0 ==> src[i] < open.len() && used[src[i]] && current[i] == (WallRect { top: y as i32, ..open[src[i]] })
            &&& src[i] < 0 ==> current[i].bottom == y
            &&& src[i] < 0 ==> forall|j: int| 0 <= j < open.len() ==>
                !(#[trigger] open[j].left == plates[i].left && open[j].right == plates[i].right)
        },
        emitted.len() == prior.len() + cidx.len(),
        emitted.subrange(0, prior.len() as int) == prior,
        forall|m: int| 0 <= m < cidx.len() ==> 0 <= #[trigger] cidx[m] < open.len() && !used[cidx[m]]
            && emitted[prior.len() + m] == open[cidx[m]],
    ensures
        forall|e: int| 0 <= e < emitted.len() ==> rect_maximal(walls, width, height, #[trigger] emitted[e]),
        forall|i: int| 0 <= i < current.len() ==> rows_maximal(walls, width, height, #[trigger] current[i])
            && !same_run(walls, width, height, current[i], current[i].bottom - 1),
{
    let base = prior.len() as int;
    assert forall|i: int| 0 <= i < current.len() implies rows_maximal(walls, width, height, #[trigger] current[i])
        && !same_run(walls, width, height, current[i], current[i].bottom - 1) by {
        let c = current[i];
        let p = plates[i];
        assert(plate_maximal(walls, width, y, p));
        assert forall|yy: int| c.bottom <= yy <= c.top implies #[trigger] sides_clear(walls, width, height, c, yy) by {
            if yy < y {
                let o = open[src[i]];
                assert(rows_maximal(walls, width, height, o));
                assert(sides_clear(walls, width, height, o, yy));
            }
        }
        if src[i] >= 0 {
            let o = open[src[i]];
            assert(!same_run(walls, width, height, o, o.bottom - 1));
            assert forall|x: int| c.left <= x <= c.right implies
                (#[trigger] wall_cell(walls, width, height, x, c.bottom - 1)) == wall_cell(walls, width, height, x, o.bottom - 1) by {}
        } else if same_run(walls, width, height, c, y - 1) {
            assert(wall_cell(walls, width, height, c.left as int, y - 1));
            assert(!covered(prior, c.left as int, y - 1));
            assert(covered(open, c.left as int, y - 1));
            let j = choose|j: int| 0 <= j < open.len() && in_rect(#[trigger] open[j], c.left as int, y - 1);
            let o = open[j];
            assert(rows_maximal(walls, width, height, o));
            assert(sides_clear(walls, width, height, o, y - 1));
            if o.left < c.left {
                assert(in_rect(open[j], c.left - 1, y - 1));
                assert(wall_cell(walls, width, height, c.left - 1, y - 1));
            }
            if o.right > c.right {
                assert(in_rect(open[j], c.right + 1, y - 1));
                assert(wall_cell(walls, width, height, c.right + 1, y - 1));
            }
            if o.right < c.right {
                assert(wall_cell(walls, width, height, o.right + 1, y - 1));
            }
            assert(open[j].left == plates[i].left && open[j].right == plates[i].right);
        }
    }
    assert forall|e: int| 0 <= e < emitted.len() implies rect_maximal(walls, width, height, #[trigger] emitted[e]) by {
        if e < base {
            assert(emitted.subrange(0, base)[e] == emitted[e]);
            assert(rect_maximal(walls, width, height, prior[e]));
        } else {
            let m = e - base;
            let j = cidx[m];
            let o = open[j];
            assert(emitted[base + m] == o);
            assert(rows_maximal(walls, width, height, o));
            if same_run(walls, width, height, o, y) {
                assert(wall_cell(walls, width, height, o.left as int, y));
                assert(row_covered(plates, o.left as int));
                let i = choose|i: int| 0 <= i < plates.len() && plate_covers(#[trigger] plates[i], o.left as int);
                let p = plates[i];
                assert(plate_maximal(walls, width, y, p));
                if p.left < o.left {
                    assert(plate_covers(plates[i], o.left - 1));
                    assert(wall_cell(walls, width, height, o.left - 1, y));
                }
                if p.right > o.right {
                    assert(plate_covers(plates[i], o.right + 1));
                    assert(wall_cell(walls, width, height, o.right + 1, y));
                }
                if p.right < o.right {
                    assert(wall_cell(walls, width, height, p.right + 1, y));
                }
                assert(current[i].left == o.left && current[i].right == o.right);
                if src[i] < 0 {
                    assert(!(open[j].left == plates[i].left && open[j].right == plates[i].right));
                } else {
                    let k = src[i];
                    if k != j {
                        assert(apart(open[k], open[j]));
                    }
                }
            }
        }
    }
}

/// Merges the wall cells of a `width` by `height` grid into rectangles.
///
/// Rows are scanned bottom to top. A rectangle stays open while the next row
/// holds a plate on exactly its columns, which extends it by one row; any
/// other plate starts a new rectangle, and an open rectangle whose plate does
/// not recur is closed. Wall cells outside the grid are ignored.
pub fn compact_walls(walls: &Vec<GridCoords>, width: i32, height: i32) -> (rects: Vec<WallRect>)
    ensures
        greedy_cover(rects@, walls@, width as int, height as int),
{
    let mut emitted: Vec<WallRect> = Vec::new();
    if width <= 0 || height <= 0 {
        return emitted;
    }
    let mut open: Vec<WallRect> = Vec::new();
    let mut y: i64 = 0;
    // one empty row past the top edge closes every rectangle still open
    while y <= height as i64
        invariant
            0 <= y <= height + 1,
            0 < width,
            forall|j: int| 0 <= j < open@.len() ==> rect_wf(#[trigger] open@[j], width as int) && open@[j].top == y - 1,
            forall|e: int| 0 <= e < emitted@.len() ==> rect_wf(#[trigger] emitted@[e], width as int) && emitted@[e].top < y - 1,
            forall|e: int| 0 <= e < emitted@.len() ==> rect_maximal(walls@, width as int, height as int, #[trigger] emitted@[e]),
            forall|j: int| 0 <= j < open@.len() ==> rows_maximal(walls@, width as int, height as int, #[trigger] open@[j])
                && !same_run(walls@, width as int, height as int, open@[j], open@[j].bottom - 1),
            y > height ==> open@.len() == 0,
            forall|x: int, yy: int| #![all_triggers] (covered(emitted@, x, yy) || covered(open@, x, yy)) <==>
                (wall_cell(walls@, width as int, height as int, x, yy) && yy < y),
            pairwise_apart(emitted@),
            pairwise_apart(open@),
            cross_apart(emitted@, open@),
        decreases height + 1 - y,
    {
        let plates = if y < height as i64 {
            plates_of_row(walls, width, y as i32)
        } else {
            Vec::new()
        };
        let mut used: Vec<bool> = Vec::new();
        while used.len() < open.len()
            invariant
                used@.len() <= open@.len(),
                forall|j: int| 0 <= j < used@.len() ==> !used@[j],
            decreases open@.len() - used@.len(),
        {
            used.push(false);
        }
        // extend or start one rectangle per plate of this row
        let mut current: Vec<WallRect> = Vec::new();
        let ghost mut src: Seq<int> = Seq::empty();
        let mut k: usize = 0;
        #[verifier::loop_isolation(false)]
        while k < plates.len()
            invariant
                0 <= y <= height,
                0 < width,
                y == height ==> plates@.len() == 0,
                plates_ordered(plates@, width as int),
                forall|j: int| 0 <= j < open@.len() ==> rect_wf(#[trigger] open@[j], width as int) && open@[j].top == y - 1,
                0 <= k <= plates@.len(),
                current@.len() == k,
                src.len() == k,
                used@.len() == open@.len(),
                forall|i: int| 0 <= i < k ==> {
                    &&& (#[trigger] current@[i]).left == plates@[i].left
                    &&& current@[i].right == plates@[i].right
                    &&& current@[i].top == y
                    &&& rect_wf(current@[i], width as int)
                    &&& src[i] >= 0 ==> src[i] < open@.len() && used@[src[i]] && current@[i] == (WallRect { top: y as i32, ..open@[src[i]] })
                    &&& src[i] < 0 ==> current@[i].bottom == y
                    &&& src[i] < 0 ==> forall|j: int| 0 <= j < open@.len() ==>
                        !(#[trigger] open@[j].left == plates@[i].left && open@[j].right == plates@[i].right)
                },
                forall|j: int| 0 <= j < used@.len() && #[trigger] used@[j] ==> exists|i: int| 0 <= i < k && src[i] == j,
            decreases plates@.len() - k,
        {
            let plate = plates[k];
            match find_open(&open, plate) {
                Some(j) => {
                    let r = open[j];
                    current.push(WallRect { top: y as i32, ..r });
                    let ghost used_before = used@;
                    let ghost src_before = src;
                    used.set(j, true);
                    proof {
                        src = src.push(j as int);
                        assert forall|jj: int| 0 <= jj < used@.len() && #[trigger] used@[jj] implies
                            exists|i: int| 0 <= i < k + 1 && src[i] == jj by {
                            if jj == j {
                                assert(src[k as int] == jj);
                            } else {
                                assert(used_before[jj]);
                                let i = choose|i: int| 0 <= i < k && src_before[i] == jj;
                                assert(src[i] == jj);
                            }
                        }
                    }
                }
                None => {
                    current.push(WallRect { left: plate.left, right: plate.right, bottom: y as i32, top: y as i32 });
                    proof {
                        let ghost src_before = src;
                        src = src.push(-1);
                        assert forall|jj: int| 0 <= jj < used@.len() && #[trigger] used@[jj] implies
                            exists|i: int| 0 <= i < k + 1 && src[i] == jj by {
                            let i = choose|i: int| 0 <= i < k && src_before[i] == jj;
                            assert(src[i] == jj);
                        }
                    }
                }
            }
            k += 1;
        }
        // rectangles whose plate did not recur are finished
        let ghost base = emitted@.len();
        let ghost prior = emitted@;
        let ghost mut cidx: Seq<int> = Seq::empty();
        let mut j: usize = 0;
        #[verifier::loop_isolation(false)]
        while j < open.len()
            invariant
                0 <= j <= open@.len(),
                used@.len() == open@.len(),
                emitted@.len() == base + cidx.len(),
                emitted@.subrange(0, base as int) == prior,
                forall|m: int| 0 <= m < cidx.len() ==> 0 <= #[trigger] cidx[m] < j && !used@[cidx[m]]
                    && emitted@[base + m] == open@[cidx[m]],
                forall|m1: int, m2: int| 0 <= m1 < m2 < cidx.len() ==> #[trigger] cidx[m1] < #[trigger] cidx[m2],
                forall|jj: int| 0 <= jj < j && !(#[trigger] used@[jj]) ==> exists|m: int| 0 <= m < cidx.len() && cidx[m] == jj,
            decreases open@.len() - j,
        {
            if !used[j] {
                emitted.push(open[j]);
                proof {
                    let ghost cidx_before = cidx;
                    cidx = cidx.push(j as int);
                    assert forall|jj: int| 0 <= jj < j + 1 && !(#[trigger] used@[jj]) implies
                        exists|m: int| 0 <= m < cidx.len() && cidx[m] == jj by {
                        if jj == j {
                            assert(cidx[cidx.len() - 1] == jj);
                        } else {
                            let m = choose|m: int| 0 <= m < cidx_before.len() && cidx_before[m] == jj;
                            assert(cidx[m] == jj);
                        }
                    }
                    assert(emitted@.subrange(0, base as int) =~= prior);
                }
            }
            j += 1;
        }
        proof {
            lemma_row_merged(
                walls@, width as int, height as int, y as int, plates@, prior, open@, used@, current@, src,
                emitted@, cidx,
            );
            lemma_row_maximal(
                walls@, width as int, height as int, y as int, plates@, prior, open@, used@, current@, src,
                emitted@, cidx,
            );
        }
        open = current;
        y += 1;
    }
    assert forall|i: int, j: int, x: int, yy: int| 0 <= i < emitted@.len() && 0 <= j < emitted@.len() && i != j implies
        !(#[trigger] in_rect(emitted@[i], x, yy) && #[trigger] in_rect(emitted@[j], x, yy)) by {
        assert(apart(emitted@[i], emitted@[j]));
    }
    emitted
}

/// Friction of wall colliders: none, so that nothing sticks to a surface it
/// slides along.
pub const WALL_FRICTION: u32 = 0;

/// A wall collider in world units: the box from `(min_x, min_y)` to
/// `(max_x, max_y)`, with its body kind and friction.
#[derive(Debug, Clone, Copy, PartialEq, Eq, Structural)]
pub struct WallCollider {
    pub min_x: i64,
    pub min_y: i64,
    pub max_x: i64,
    pub max_y: i64,
    pub rigid_body: BodyKind,
    pub friction: u32,
}

/// The static, frictionless collider of a grid rectangle whose cells measure
/// `cell_size` units.
pub open spec fn collider_of(r: WallRect, cell_size: int) -> WallCollider {
    WallCollider {
        min_x: (r.left * cell_size) as i64,
        min_y: (r.bottom * cell_size) as i64,
        max_x: ((r.right + 1) * cell_size) as i64,
        max_y: ((r.top + 1) * cell_size) as i64,
        rigid_body: BodyKind::Static,
        friction: WALL_FRICTION,
    }
}

proof fn lemma_product_fits(a: int, b: int)
    requires
        -0x8000_0000 <= a <= 0x8000_0000,
        -0x8000_0000 <= b <= 0x8000_0000,
    ensures
        -0x4000_0000_0000_0000 <= a * b <= 0x4000_0000_0000_0000,
{
    assert(-0x4000_0000_0000_0000 <= a * b <= 0x4000_0000_0000_0000) by (nonlinear_arith)
        requires
            -0x8000_0000 <= a <= 0x8000_0000,
            -0x8000_0000 <= b <= 0x8000_0000,
    ;
}

/// The collider for one rectangle: `(right - left + 1, top - bottom + 1)` cells
/// wide, centred on the rectangle's midpoint.
pub fn wall_collider(r: WallRect, cell_size: i32) -> (c: WallCollider)
    ensures
        c == collider_of(r, cell_size as int),
        c.min_x == r.left * cell_size,
        c.min_y == r.bottom * cell_size,
        c.max_x == (r.right + 1) * cell_size,
        c.max_y == (r.top + 1) * cell_size,
        c.rigid_body == BodyKind::Static && c.friction == 0,
{
    let cell = cell_size as i64;
    proof {
        lemma_product_fits(r.left as int, cell_size as int);
        lemma_product_fits(r.bottom as int, cell_size as int);
        lemma_product_fits(r.right + 1, cell_size as int);
        lemma_product_fits(r.top + 1, cell_size as int);
    }
    WallCollider {
        min_x: r.left as i64 * cell,
        min_y: r.bottom as i64 * cell,
        max_x: (r.right as i64 + 1) * cell,
        max_y: (r.top as i64 + 1) * cell,
        rigid_body: BodyKind::Static,
        friction: WALL_FRICTION,
    }
}

/// The static colliders for one level's wall layer: the rectangles of
/// `compact_walls`, each turned into world units.
pub fn spawn_wall_collision(walls: &Vec<GridCoords>, width: i32, height: i32, grid_size: i32) -> (colliders: Vec<WallCollider>)
    ensures
        exists|rs: Seq<WallRect>| {
            &&& greedy_cover(rs, walls@, width as int, height as int)
            &&& colliders@.len() == rs.len()
            &&& forall|i: int| 0 <= i < rs.len() ==> colliders@[i] == collider_of(#[trigger] rs[i], grid_size as int)
        },
        forall|i: int| 0 <= i < colliders@.len() ==> (#[trigger] colliders@[i]).rigid_body == BodyKind::Static
            && colliders@[i].friction == 0,
{
    let rects = compact_walls(walls, width, height);
    let mut colliders: Vec<WallCollider> = Vec::new();
    let mut i: usize = 0;
    while i < rects.len()
        invariant
            0 <= i <= rects@.len(),
            colliders@.len() == i,
            forall|m: int| 0 <= m < i ==> colliders@[m] == collider_of(#[trigger] rects@[m], grid_size as int),
        decreases rects@.len() - i,
    {
        colliders.push(wall_collider(rects[i], grid_size));
        i += 1;
    }
    assert forall|m: int| 0 <= m < colliders@.len() implies (#[trigger] colliders@[m]).rigid_body == BodyKind::Static
        && colliders@[m].friction == 0 by {
        assert(colliders@[m] == collider_of(rects@[m], grid_size as int));
    }
    colliders
}

} // verus!
