//! The spatial grid partitioner: an `n x n` grid over `[0, width) x [0, height)`
//! mapping each cell to the ascending list of indices of the particles in it.
use vstd::prelude::*;
use crate::fixed::SCALE;
use crate::particle::Particle;

verus! {

/// The cell holding `p`, for an `n x n` grid over a `w x h` field (in units),
/// or `None` when `p` lies outside the field.
pub open spec fn cell_of(p: Particle, n: int, w: int, h: int) -> Option<int> {
    if 0 <= p.position.x < w * SCALE && 0 <= p.position.y < h * SCALE {
        Some(p.position.x * n / (w * SCALE) + n * (p.position.y * n / (h * SCALE)))
    } else {
        None
    }
}

/// Indices below `upto` of the particles in cell `c`, ascending.
pub open spec fn cell_members(ps: Seq<Particle>, n: int, w: int, h: int, c: int, upto: int) -> Seq<usize>
    decreases upto,
{
    if upto <= 0 {
        Seq::empty()
    } else {
        let rest = cell_members(ps, n, w, h, c, upto - 1);
        if cell_of(ps[upto - 1], n, w, h) == Some(c) {
            rest.push((upto - 1) as usize)
        } else {
            rest
        }
    }
}

/// The partition of `ps`: cell `c` holds the indices of the particles in it.
pub open spec fn partition(ps: Seq<Particle>, n: int, w: int, h: int) -> Seq<Seq<usize>> {
    Seq::new((n * n) as nat, |c: int| cell_members(ps, n, w, h, c, ps.len() as int))
}

pub open spec fn grid_view(g: Seq<Vec<usize>>) -> Seq<Seq<usize>> {
    g.map_values(|v: Vec<usize>| v@)
}

pub proof fn lemma_cell_in_grid(p: Particle, n: int, w: int, h: int)
    requires
        n > 0,
        cell_of(p, n, w, h) is Some,
    ensures
        0 <= cell_of(p, n, w, h)->0 < n * n,
{
    let x = p.position.x as int;
    let y = p.position.y as int;
    let cx = x * n / (w * SCALE);
    let cy = y * n / (h * SCALE);
    assert(0 <= cx < n) by (nonlinear_arith)
        requires
            0 <= x < w * SCALE,
            n > 0,
            cx == x * n / (w * SCALE),
    ;
    assert(0 <= cy < n) by (nonlinear_arith)
        requires
            0 <= y < h * SCALE,
            n > 0,
            cy == y * n / (h * SCALE),
    ;
    assert(0 <= cx + n * cy < n * n) by (nonlinear_arith)
        requires
            0 <= cx < n,
            0 <= cy < n,
    ;
}

/// Membership in a cell, and the order and range of its entries.
pub proof fn lemma_cell_members(ps: Seq<Particle>, n: int, w: int, h: int, c: int, upto: int)
    requires
        0 <= upto <= ps.len(),
        ps.len() <= usize::MAX,
    ensures
        forall|i: int|
            0 <= i < ps.len() ==> (cell_members(ps, n, w, h, c, upto).contains(i as usize) <==> (i
                < upto && cell_of(ps[i], n, w, h) == Some(c))),
        forall|k: int|
            0 <= k < cell_members(ps, n, w, h, c, upto).len() ==> cell_members(
                ps,
                n,
                w,
                h,
                c,
                upto,
            )[k] < upto,
        forall|k: int, l: int|
            0 <= k < l < cell_members(ps, n, w, h, c, upto).len() ==> cell_members(
                ps,
                n,
                w,
                h,
                c,
                upto,
            )[k] < cell_members(ps, n, w, h, c, upto)[l],
    decreases upto,
{
    if upto > 0 {
        lemma_cell_members(ps, n, w, h, c, upto - 1);
        let rest = cell_members(ps, n, w, h, c, upto - 1);
        let cur = cell_members(ps, n, w, h, c, upto);
        if cell_of(ps[upto - 1], n, w, h) == Some(c) {
            assert(cur == rest.push((upto - 1) as usize));
            assert(cur[rest.len() as int] == (upto - 1) as usize);
            assert forall|i: int| 0 <= i < ps.len() implies (cur.contains(i as usize) <==> (i < upto
                && cell_of(ps[i], n, w, h) == Some(c))) by {
                if cur.contains(i as usize) && i != upto - 1 {
                    let k = choose|k: int| 0 <= k < cur.len() && cur[k] == i as usize;
                    assert(k < rest.len());
                    assert(rest.contains(i as usize));
                }
                if i < upto - 1 && cell_of(ps[i], n, w, h) == Some(c) {
                    let k = choose|k: int| 0 <= k < rest.len() && rest[k] == i as usize;
                    assert(cur[k] == i as usize);
                }
                if i == upto - 1 {
                    assert(cur[cur.len() - 1] == i as usize);
                }
            }
        } else {
            assert forall|i: int| 0 <= i < ps.len() implies (cur.contains(i as usize) <==> (i < upto
                && cell_of(ps[i], n, w, h) == Some(c))) by {
                if cur.contains(i as usize) {
                    assert(i < upto - 1);
                }
            }
        }
    }
}

/// Every particle inside the field appears in exactly one cell, the one that
/// holds its position; every particle outside it appears in none.
pub proof fn lemma_partition_totality(ps: Seq<Particle>, n: int, w: int, h: int, i: int)
    requires
        n > 0,
        ps.len() <= usize::MAX,
        0 <= i < ps.len(),
    ensures
        forall|c: int|
            0 <= c < n * n ==> (partition(ps, n, w, h)[c].contains(i as usize) <==> cell_of(
                ps[i],
                n,
                w,
                h,
            ) == Some(c)),
        cell_of(ps[i], n, w, h) is Some ==> 0 <= cell_of(ps[i], n, w, h)->0 < n * n,
{
    assert forall|c: int| 0 <= c < n * n implies (partition(ps, n, w, h)[c].contains(i as usize)
        <==> cell_of(ps[i], n, w, h) == Some(c)) by {
        lemma_cell_members(ps, n, w, h, c, ps.len() as int);
    }
    if cell_of(ps[i], n, w, h) is Some {
        lemma_cell_in_grid(ps[i], n, w, h);
    }
}

/// The cell holding `p`, computed.
pub fn cell_index(p: &Particle, n: usize, w: u32, h: u32) -> (r: Option<usize>)
    requires
        n > 0,
        n * n <= usize::MAX,
    ensures
        r matches Some(c) ==> cell_of(*p, n as int, w as int, h as int) == Some(c as int),
        r is None ==> cell_of(*p, n as int, w as int, h as int) is None,
{
    if p.position.x < 0 || p.position.x >= w as i64 * SCALE || p.position.y < 0 || p.position.y
        >= h as i64 * SCALE {
        return None;
    }
    let x: u128 = p.position.x as u128;
    let y: u128 = p.position.y as u128;
    let ws: u128 = w as u128 * SCALE as u128;
    let hs: u128 = h as u128 * SCALE as u128;
    assert(x * n < 0x1_0000_0000_0000_0000_0000_0000_0000) by (nonlinear_arith)
        requires
            x < ws,
            ws <= 0x1_0000_0000 * 1000,
            n <= 0xffff_ffff_ffff_ffff,
    ;
    assert(y * n < 0x1_0000_0000_0000_0000_0000_0000_0000) by (nonlinear_arith)
        requires
            y < hs,
            hs <= 0x1_0000_0000 * 1000,
            n <= 0xffff_ffff_ffff_ffff,
    ;
    let cx: u128 = x * (n as u128) / ws;
    let cy: u128 = y * (n as u128) / hs;
    proof {
        lemma_cell_in_grid(*p, n as int, w as int, h as int);
        assert(0 <= cx < n) by (nonlinear_arith)
            requires
                x < ws,
                n > 0,
                cx == (x * n) as int / ws as int,
        ;
        assert(0 <= cy < n) by (nonlinear_arith)
            requires
                y < hs,
                n > 0,
                cy == (y * n) as int / hs as int,
        ;
        assert(cx + n * cy < n * n) by (nonlinear_arith)
            requires
                cx < n,
                cy < n,
        ;
    }
    Some(cx as usize + n * (cy as usize))
}

/// Builds the partition of `ps` over an `n x n` grid of a `w x h` field.
pub fn partition_particles(ps: &Vec<Particle>, n: usize, w: u32, h: u32) -> (grid: Vec<Vec<usize>>)
    requires
        n > 0,
        n * n <= usize::MAX,
    ensures
        grid_view(grid@) == partition(ps@, n as int, w as int, h as int),
        grid@.len() == n * n,
{
    let cells: usize = n * n;
    let mut grid: Vec<Vec<usize>> = Vec::new();
    let mut c: usize = 0;
    while c < cells
        invariant
            cells == n * n,
            c <= cells,
            grid@.len() == c,
            forall|k: int| 0 <= k < c ==> grid@[k]@ == Seq::<usize>::empty(),
        decreases cells - c,
    {
        grid.push(Vec::new());
        c = c + 1;
    }
    let ghost sn = n as int;
    let ghost sw = w as int;
    let ghost sh = h as int;
    let mut i: usize = 0;
    while i < ps.len()
        invariant
            cells == n * n,
            n > 0,
            sn == n,
            sw == w,
            sh == h,
            i <= ps@.len(),
            grid@.len() == cells,
            forall|k: int| 0 <= k < cells ==> grid@[k]@ == cell_members(ps@, sn, sw, sh, k, i as int),
        decreases ps@.len() - i,
    {
        let cell = cell_index(&ps[i], n, w, h);
        let ghost before = grid@;
        if let Some(k) = cell {
            proof {
                lemma_cell_in_grid(ps@[i as int], sn, sw, sh);
            }
            grid[k].push(i);
        }
        assert forall|k: int| 0 <= k < cells implies grid@[k]@ == cell_members(
            ps@,
            sn,
            sw,
            sh,
            k,
            i + 1,
        ) by {
            let ghost cm = cell_members(ps@, sn, sw, sh, k, i + 1);
            let ghost prev = cell_members(ps@, sn, sw, sh, k, i as int);
            assert(ps@[(i + 1) - 1] == ps@[i as int]);
            assert(cm == if cell_of(ps@[i as int], sn, sw, sh) == Some(k) {
                prev.push(i)
            } else {
                prev
            });
            if cell == Some(k as usize) {
                assert(grid@[k]@ == before[k]@.push(i));
            } else {
                assert(grid@[k] == before[k]);
            }
        }
        i = i + 1;
    }
    assert(grid_view(grid@) =~= partition(ps@, sn, sw, sh));
    grid
}

} // verus!
