use vstd::arithmetic::div_mod::{lemma_mod_pos_bound, lemma_multiply_divide_lt};
use vstd::arithmetic::mul::lemma_mul_increases;
use vstd::prelude::*;

verus! {

/// Thickness, in grid cells, of the shell that the structured sampler keeps
/// next to each face of the box.
pub const SHELL_MARGIN: usize = 2;

/// One emitted cell of the structured sampling grid.
#[derive(Clone, Copy, Debug, PartialEq, Eq)]
pub struct GridIndex {
    pub i: usize,
    pub j: usize,
    pub k: usize,
    /// The cell touches the first or the last layer along some axis.
    pub on_boundary: bool,
}

impl GridIndex {
    pub open spec fn coords(self) -> (int, int, int) {
        (self.i as int, self.j as int, self.k as int)
    }
}

#[derive(Clone, Copy, Debug, PartialEq, Eq)]
pub enum GenerationError {
    /// The grid resolution is zero along at least one axis.
    EmptyAxis,
    /// The bucket grid of the point container has a non-positive count.
    EmptyContainerGrid,
}

/// The `n`-th cell of an `nx * ny * nz` grid walked with `k` fastest, then
/// `j`, then `i`.
pub open spec fn cell_at(n: int, ny: int, nz: int) -> (int, int, int) {
    (n / (ny * nz), (n / nz) % ny, n % nz)
}

/// `x` lies at least `th` layers away from both ends of an axis of `n` cells.
pub open spec fn in_core(x: int, n: int, th: int) -> bool {
    th <= x && x < n - th
}

/// A cell is left out when it is deep inside the grid along all three axes.
pub open spec fn is_skipped(c: (int, int, int), nx: int, ny: int, nz: int, th: int) -> bool {
    in_core(c.0, nx, th) && in_core(c.1, ny, th) && in_core(c.2, nz, th)
}

pub open spec fn on_outer_layer(c: (int, int, int), nx: int, ny: int, nz: int) -> bool {
    c.0 == 0 || c.0 == nx - 1 || c.1 == 0 || c.1 == ny - 1 || c.2 == 0 || c.2 == nz - 1
}

/// The kept cells among the first `n` cells of the walk, in walk order.
pub open spec fn shell_prefix(n: nat, nx: int, ny: int, nz: int, th: int) -> Seq<(int, int, int)>
    decreases n,
{
    if n == 0 {
        Seq::empty()
    } else {
        let prev = shell_prefix((n - 1) as nat, nx, ny, nz, th);
        let c = cell_at(n - 1, ny, nz);
        if is_skipped(c, nx, ny, nz, th) {
            prev
        } else {
            prev.push(c)
        }
    }
}

/// The cells that the structured sampler emits, in emission order.
pub open spec fn shell_seq(nx: int, ny: int, nz: int, th: int) -> Seq<(int, int, int)> {
    shell_prefix((nx * ny * nz) as nat, nx, ny, nz, th)
}

/// `cells` is the emitted layout of an `nx * ny * nz` grid with margin `th`,
/// each cell flagged exactly when it lies on the outer layer.
pub open spec fn is_shell_layout(
    cells: Seq<GridIndex>,
    nx: int,
    ny: int,
    nz: int,
    th: int,
) -> bool {
    &&& cells.map_values(|g: GridIndex| g.coords()) =~= shell_seq(nx, ny, nz, th)
    &&& forall|t: int|
        0 <= t < cells.len() ==> (#[trigger] cells[t]).on_boundary == on_outer_layer(
            cells[t].coords(),
            nx,
            ny,
            nz,
        )
}

/// Every cell of the walk that is kept lies inside the grid.
proof fn lemma_shell_prefix_in_range(n: nat, nx: int, ny: int, nz: int, th: int)
    requires
        0 < nx,
        0 < ny,
        0 < nz,
        n <= nx * ny * nz,
    ensures
        forall|t: int|
            0 <= t < shell_prefix(n, nx, ny, nz, th).len() ==> {
                let c = #[trigger] shell_prefix(n, nx, ny, nz, th)[t];
                &&& 0 <= c.0 < nx
                &&& 0 <= c.1 < ny
                &&& 0 <= c.2 < nz
                &&& !is_skipped(c, nx, ny, nz, th)
            },
    decreases n,
{
    if n > 0 {
        lemma_shell_prefix_in_range((n - 1) as nat, nx, ny, nz, th);
        let m = n - 1;
        lemma_mul_increases(ny, nz);
        assert(nx * ny * nz == nx * (ny * nz)) by (nonlinear_arith);
        assert(m < (ny * nz) * nx) by (nonlinear_arith)
            requires
                m < nx * ny * nz,
                nx * ny * nz == nx * (ny * nz),
        ;
        lemma_multiply_divide_lt(m, ny * nz, nx);
        assert(0 <= m / (ny * nz)) by (nonlinear_arith)
            requires
                0 <= m,
                0 < ny * nz,
        ;
        assert(0 <= m / nz) by (nonlinear_arith)
            requires
                0 <= m,
                0 < nz,
        ;
        lemma_mod_pos_bound(m / nz, ny);
        lemma_mod_pos_bound(m, nz);
        let prev = shell_prefix((n - 1) as nat, nx, ny, nz, th);
        assert forall|t: int| 0 <= t < prev.len() implies #[trigger] shell_prefix(n, nx, ny, nz, th)[t] == prev[t] by {}
    }
}

/// The grid cells that structured sampling emits: every cell of the
/// `nx * ny * nz` grid except those at least `th` layers deep along all three
/// axes, walked with `k` fastest, each flagged when it lies on the outer layer.
pub fn shell_cells(nx: usize, ny: usize, nz: usize, th: usize) -> (r: Result<
    Vec<GridIndex>,
    GenerationError,
>)
    requires
        nx * ny * nz <= usize::MAX,
    ensures
        r is Err <==> (nx == 0 || ny == 0 || nz == 0),
        r matches Ok(cells) ==> is_shell_layout(cells@, nx as int, ny as int, nz as int, th as int),
{
    if nx == 0 || ny == 0 || nz == 0 {
        return Err(GenerationError::EmptyAxis);
    }
    proof {
        lemma_mul_increases(ny as int, nz as int);
        lemma_mul_increases(nx as int, (ny * nz) as int);
        assert(nx * ny * nz == nx * (ny * nz)) by (nonlinear_arith);
    }
    let plane = ny * nz;
    let total = nx * plane;
    let mut cells: Vec<GridIndex> = Vec::new();
    let mut n: usize = 0;
    while n < total
        invariant
            0 < nx,
            0 < ny,
            0 < nz,
            plane == ny * nz,
            0 < plane,
            total == nx * ny * nz,
            n <= total,
            cells@.map_values(|g: GridIndex| g.coords()) =~= shell_prefix(
                n as nat,
                nx as int,
                ny as int,
                nz as int,
                th as int,
            ),
            forall|t: int|
                0 <= t < cells.len() ==> (#[trigger] cells[t]).on_boundary == on_outer_layer(
                    cells[t].coords(),
                    nx as int,
                    ny as int,
                    nz as int,
                ),
        decreases total - n,
    {
        let i = n / plane;
        let j = (n / nz) % ny;
        let k = n % nz;
        proof {
            lemma_shell_prefix_in_range((n + 1) as nat, nx as int, ny as int, nz as int, th as int);
            assert(n < (ny * nz) * nx) by (nonlinear_arith)
                requires
                    n < nx * ny * nz,
            ;
            lemma_multiply_divide_lt(n as int, ny * nz, nx as int);
        }
        let skipped = (i >= th && nx - i > th) && (j >= th && ny - j > th) && (k >= th && nz - k
            > th);
        if !skipped {
            let edge = i == 0 || i == nx - 1 || j == 0 || j == ny - 1 || k == 0 || k == nz - 1;
            let g = GridIndex { i, j, k, on_boundary: edge };
            cells.push(g);
        }
        n = n + 1;
    }
    Ok(cells)
}

/// Checks the bucket grid that the point container of the cell-iterating
/// engine is built with: every count must be positive.
pub fn check_container_grid(gx: i32, gy: i32, gz: i32) -> (r: Result<(), GenerationError>)
    ensures
        r is Ok <==> (gx > 0 && gy > 0 && gz > 0),
        r matches Err(e) ==> e == GenerationError::EmptyContainerGrid,
{
    if gx <= 0 || gy <= 0 || gz <= 0 {
        return Err(GenerationError::EmptyContainerGrid);
    }
    Ok(())
}

/// The boundary flag of each emitted cell, in emission order: one entry per
/// generated point.
pub fn boundary_mask(cells: &Vec<GridIndex>) -> (mask: Vec<bool>)
    ensures
        mask.len() == cells.len(),
        forall|t: int| 0 <= t < cells.len() ==> mask[t] == (#[trigger] cells[t]).on_boundary,
{
    let mut mask: Vec<bool> = Vec::new();
    let mut t: usize = 0;
    while t < cells.len()
        invariant
            t <= cells.len(),
            mask.len() == t,
            forall|s: int| 0 <= s < t ==> mask[s] == (#[trigger] cells[s]).on_boundary,
        decreases cells.len() - t,
    {
        mask.push(cells[t].on_boundary);
        t = t + 1;
    }
    mask
}

/// Each emitted cell lies inside the grid, and a cell flagged as boundary has
/// a coordinate equal to `0` or to the last index of its axis.
pub proof fn lemma_boundary_flag_is_outer_index(
    cells: Seq<GridIndex>,
    nx: int,
    ny: int,
    nz: int,
    th: int,
)
    requires
        0 < nx,
        0 < ny,
        0 < nz,
        is_shell_layout(cells, nx, ny, nz, th),
    ensures
        forall|t: int|
            0 <= t < cells.len() ==> {
                let g = #[trigger] cells[t];
                &&& 0 <= g.i < nx
                &&& 0 <= g.j < ny
                &&& 0 <= g.k < nz
                &&& g.on_boundary ==> (g.i == 0 || g.i == nx - 1 || g.j == 0 || g.j == ny - 1
                    || g.k == 0 || g.k == nz - 1)
            },
{
    lemma_shell_prefix_in_range((nx * ny * nz) as nat, nx, ny, nz, th);
    assert forall|t: int| 0 <= t < cells.len() implies {
        let g = #[trigger] cells[t];
        &&& 0 <= g.i < nx
        &&& 0 <= g.j < ny
        &&& 0 <= g.k < nz
    } by {
        assert(cells.map_values(|g: GridIndex| g.coords())[t] == cells[t].coords());
        assert(shell_seq(nx, ny, nz, th)[t] == cells[t].coords());
    }
}

} // verus!
