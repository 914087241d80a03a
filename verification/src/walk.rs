use vstd::prelude::*;
use crate::grid::Grid;
use crate::pixel::Loc;
use crate::pixel::Pixel;

verus! {

/// A signed coordinate used transiently during the boundary walk; it may go
/// negative or leave the grid before the bounds check.
#[derive(Clone, Copy, PartialEq, Eq, Structural, Debug)]
pub struct SLoc {
    pub x: i64,
    pub y: i64,
}

/// The mathematical point a signed coordinate stands for.
pub struct IPoint {
    pub x: int,
    pub y: int,
}

pub open spec fn ip(p: SLoc) -> IPoint {
    IPoint { x: p.x as int, y: p.y as int }
}

pub open spec fn ip_of_loc(l: Loc) -> IPoint {
    IPoint { x: l.x as int, y: l.y as int }
}

/// Squared Euclidean distance between two points.
pub open spec fn dist_sq(p: IPoint, c: IPoint) -> int {
    (p.x - c.x) * (p.x - c.x) + (p.y - c.y) * (p.y - c.y)
}

/// The walk's target: the squared distance from a pixel's location to the
/// center of the blotch it belongs to.
pub open spec fn radius_of(p: Pixel) -> int {
    dist_sq(ip_of_loc(p.loc), ip_of_loc(p.center))
}

pub open spec fn abs_of(a: int) -> int {
    if a < 0 { -a } else { a }
}

/// How far a candidate strays from the target radius.
pub open spec fn walk_key(n: IPoint, center: IPoint, radius: int) -> int {
    abs_of(dist_sq(n, center) - radius)
}

/// The Moore neighborhood of `cur`, in the fixed enumeration order that
/// breaks ties.
pub open spec fn neighbor(cur: IPoint, k: int) -> IPoint {
    if k == 0 { IPoint { x: cur.x + 1, y: cur.y + 1 } }
    else if k == 1 { IPoint { x: cur.x, y: cur.y + 1 } }
    else if k == 2 { IPoint { x: cur.x - 1, y: cur.y + 1 } }
    else if k == 3 { IPoint { x: cur.x + 1, y: cur.y } }
    else if k == 4 { IPoint { x: cur.x - 1, y: cur.y } }
    else if k == 5 { IPoint { x: cur.x + 1, y: cur.y - 1 } }
    else if k == 6 { IPoint { x: cur.x, y: cur.y - 1 } }
    else { IPoint { x: cur.x - 1, y: cur.y - 1 } }
}

/// One step of the front-to-back scan for the best candidate: skip the
/// excluded predecessor, otherwise keep the strictly better point.
pub open spec fn scan_step(n: IPoint, last: IPoint, center: IPoint, radius: int,
    best: Option<IPoint>) -> Option<IPoint> {
    if n == last {
        best
    } else if best is None || walk_key(n, center, radius) < walk_key(best->0, center, radius) {
        Some(n)
    } else {
        best
    }
}

/// Folds `scan_step` over the neighbors of `cur` from position `k` on.
pub open spec fn select_scan(cur: IPoint, last: IPoint, center: IPoint, radius: int,
    k: int, best: Option<IPoint>) -> Option<IPoint>
    decreases 8 - k,
{
    if k < 0 || k >= 8 {
        best
    } else {
        select_scan(cur, last, center, radius, k + 1,
            scan_step(neighbor(cur, k), last, center, radius, best))
    }
}

/// The neighbor of `cur`, other than `last`, whose distance to `center`
/// stays closest to `radius`; ties prefer the earlier enumeration position.
pub open spec fn select_next_spec(cur: IPoint, last: IPoint, center: IPoint,
    radius: int) -> IPoint {
    select_scan(cur, last, center, radius, 0, None)->0
}

/// What one placement's boundary walk returns: either an open in-bounds cell
/// to grow into, or the instruction to fall back to random placement.
#[derive(Clone, Copy, PartialEq, Eq, Structural, Debug)]
pub enum WalkOutcome {
    Fallback,
    Open(Loc),
}

/// The walk from state `(last, cur)` after `j` completed steps: select the
/// best non-excluded neighbor; abort to the fallback when it closes the loop,
/// leaves the grid, or the step valve fires; commit when its cell is open;
/// otherwise move on.
pub open spec fn walk_rec(g: Seq<Option<Pixel>>, size: int, start: IPoint,
    center: IPoint, radius: int, last: IPoint, cur: IPoint, j: int) -> WalkOutcome
    decreases 8 * radius - j,
{
    let next = select_next_spec(cur, last, center, radius);
    if next == start || next.x < 0 || next.x >= size || next.y < 0 || next.y >= size
        || j + 1 > 8 * radius {
        WalkOutcome::Fallback
    } else if g[next.x * size + next.y] is None {
        WalkOutcome::Open(Loc { x: next.x as usize, y: next.y as usize })
    } else {
        walk_rec(g, size, start, center, radius, cur, next, j + 1)
    }
}

/// The whole boundary walk of one growth iteration, starting at the
/// reference pixel's location with its blotch center as anchor.
pub open spec fn walk_spec(g: Seq<Option<Pixel>>, size: int, nearest: Pixel) -> WalkOutcome {
    let start = ip_of_loc(nearest.loc);
    let center = ip_of_loc(nearest.center);
    walk_rec(g, size, start, center, radius_of(nearest), start, start, 0)
}

/// Signed coordinates the walk can actually reach stay far below this bound,
/// which keeps every distance computation in range.
pub open spec fn coord_ok(p: SLoc) -> bool {
    -0x100_0000_0000 <= p.x <= 0x100_0000_0000 && -0x100_0000_0000 <= p.y <= 0x100_0000_0000
}

/// One step stricter than `coord_ok`, so that every neighbor of such a
/// point still satisfies `coord_ok`.
pub open spec fn coord_inner(p: SLoc) -> bool {
    -0xFF_FFFF_FFFF <= p.x <= 0xFF_FFFF_FFFF && -0xFF_FFFF_FFFF <= p.y <= 0xFF_FFFF_FFFF
}

/// Computes the squared distance of two bounded signed points exactly.
fn dist_sq_exec(p: SLoc, c: SLoc) -> (d: i128)
    requires
        coord_ok(p),
        coord_ok(c),
    ensures
        d == dist_sq(ip(p), ip(c)),
        0 <= d <= 0x100_0000_0000_0000_0000_0000,
{
    let dx: i128 = p.x as i128 - c.x as i128;
    let dy: i128 = p.y as i128 - c.y as i128;
    proof {
        crate::numeric::lemma_square_bounded(dx as int, 0x200_0000_0000);
        crate::numeric::lemma_square_bounded(dy as int, 0x200_0000_0000);
    }
    dx * dx + dy * dy
}

/// Folds one candidate into the running best, exactly as `scan_step` does.
fn consider(n: SLoc, last: SLoc, center: SLoc, radius: i128, best_set: bool,
    best: SLoc, best_key: i128) -> (r: (bool, SLoc, i128))
    requires
        coord_ok(n),
        coord_ok(center),
        0 <= radius,
        best_set ==> coord_ok(best) && best_key == walk_key(ip(best), ip(center), radius as int),
    ensures
        (if r.0 { Some(ip(r.1)) } else { Option::<IPoint>::None })
            == scan_step(ip(n), ip(last), ip(center), radius as int,
                if best_set { Some(ip(best)) } else { Option::<IPoint>::None }),
        r.0 ==> coord_ok(r.1) && r.2 == walk_key(ip(r.1), ip(center), radius as int),
        best_set ==> r.0,
        r.0 ==> r.1 == n || (best_set && r.1 == best),
{
    if n.x == last.x && n.y == last.y {
        return (best_set, best, best_key);
    }
    let d = dist_sq_exec(n, center);
    let nk: i128 = if d >= radius { d - radius } else { radius - d };
    if !best_set || nk < best_key {
        (true, n, nk)
    } else {
        (best_set, best, best_key)
    }
}

/// Computes `select_next_spec` for bounded inputs.
fn select_next(cur: SLoc, last: SLoc, center: SLoc, radius: i128) -> (n: SLoc)
    requires
        coord_inner(cur),
        coord_ok(center),
        0 <= radius,
    ensures
        ip(n) == select_next_spec(ip(cur), ip(last), ip(center), radius as int),
        coord_ok(n),
        -1 <= ip(n).x - ip(cur).x <= 1,
        -1 <= ip(n).y - ip(cur).y <= 1,
        ip(n) != ip(cur),
{
    let n0 = SLoc { x: cur.x + 1, y: cur.y + 1 };
    let n1 = SLoc { x: cur.x, y: cur.y + 1 };
    let n2 = SLoc { x: cur.x - 1, y: cur.y + 1 };
    let n3 = SLoc { x: cur.x + 1, y: cur.y };
    let n4 = SLoc { x: cur.x - 1, y: cur.y };
    let n5 = SLoc { x: cur.x + 1, y: cur.y - 1 };
    let n6 = SLoc { x: cur.x, y: cur.y - 1 };
    let n7 = SLoc { x: cur.x - 1, y: cur.y - 1 };
    let dummy = SLoc { x: 0, y: 0 };
    let s0 = consider(n0, last, center, radius, false, dummy, 0);
    let s1 = consider(n1, last, center, radius, s0.0, s0.1, s0.2);
    let s2 = consider(n2, last, center, radius, s1.0, s1.1, s1.2);
    let s3 = consider(n3, last, center, radius, s2.0, s2.1, s2.2);
    let s4 = consider(n4, last, center, radius, s3.0, s3.1, s3.2);
    let s5 = consider(n5, last, center, radius, s4.0, s4.1, s4.2);
    let s6 = consider(n6, last, center, radius, s5.0, s5.1, s5.2);
    let s7 = consider(n7, last, center, radius, s6.0, s6.1, s6.2);
    proof {
        reveal_with_fuel(select_scan, 10);
        // At least one of the first two candidates differs from `last`, so
        // the scan cannot come back empty.
        assert(s7.0);
    }
    s7.1
}

/// Performs the boundary walk from `nearest.loc` around `nearest.center` on
/// the current grid. Returns the outcome together with the number of steps
/// taken, which the safety valve caps at `8 * radius + 1`.
pub fn boundary_walk(grid: &Grid, nearest: Pixel) -> (r: (WalkOutcome, u64))
    requires
        grid.wf(),
        grid.spec_size() <= 16384,
        nearest.loc.in_bounds(grid.spec_size()),
        nearest.center.in_bounds(grid.spec_size()),
    ensures
        r.0 == walk_spec(grid@, grid.spec_size(), nearest),
        1 <= r.1 <= 8 * radius_of(nearest) + 1,
        radius_of(nearest) == 0 ==> r.0 is Fallback && r.1 == 1,
        r.0 matches WalkOutcome::Open(l) ==> l.in_bounds(grid.spec_size())
            && grid@[l.cell_id(grid.spec_size())] is None,
{
    let ghost g = grid@;
    let ghost gsize = grid.spec_size();
    let size = grid.size();
    let start = SLoc { x: nearest.loc.x as i64, y: nearest.loc.y as i64 };
    let center = SLoc { x: nearest.center.x as i64, y: nearest.center.y as i64 };
    let radius: i128 = dist_sq_exec(start, center);
    proof {
        crate::numeric::lemma_square_bounded(start.x - center.x, 16383);
        crate::numeric::lemma_square_bounded(start.y - center.y, 16383);
        assert(radius <= 0x1FFF_8002);
    }
    let mut last = start;
    let mut cur = start;
    let mut j: u64 = 0;
    let mut outcome = WalkOutcome::Fallback;
    loop
        invariant_except_break
            grid.wf(),
            g == grid@,
            gsize == grid.spec_size(),
            size == gsize,
            1 <= gsize <= 16384,
            start.x == nearest.loc.x && start.y == nearest.loc.y,
            center.x == nearest.center.x && center.y == nearest.center.y,
            radius == radius_of(nearest),
            0 <= radius <= 0x1FFF_8002,
            j <= 8 * radius,
            -(j as int) <= cur.x <= size + j && -(j as int) <= cur.y <= size + j,
            coord_inner(cur) && coord_ok(center),
            walk_rec(g, gsize, ip(start), ip(center), radius as int, ip(last), ip(cur), j as int)
                == walk_spec(g, gsize, nearest),
        ensures
            outcome == walk_spec(g, gsize, nearest),
            1 <= j <= 8 * radius_of(nearest) + 1,
            radius_of(nearest) == 0 ==> outcome is Fallback && j == 1,
            outcome matches WalkOutcome::Open(l) ==> l.in_bounds(gsize)
                && g[l.cell_id(gsize)] is None,
        decreases 8 * (radius as int) - j,
    {
        j = j + 1;
        let next = select_next(cur, last, center, radius);
        let valve = (j as i128) > 8 * radius;
        if (next.x == start.x && next.y == start.y) || next.x < 0 || next.x >= size as i64
            || next.y < 0 || next.y >= size as i64 || valve {
            outcome = WalkOutcome::Fallback;
            break;
        }
        let l = Loc { x: next.x as usize, y: next.y as usize };
        proof {
            assert(l.cell_id(gsize) == ip(next).x * gsize + ip(next).y);
        }
        match grid.get(l) {
            Option::None => {
                outcome = WalkOutcome::Open(l);
                break;
            }
            Option::Some(_) => {}
        }
        last = cur;
        cur = next;
    }
    (outcome, j)
}

} // verus!
