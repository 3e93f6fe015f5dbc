//! The cellular-automaton engine: toroidal coordinate wrapping and the
//! Game of Life update rule over a flat row-major grid of cells.

use vstd::arithmetic::div_mod::{
    lemma_fundamental_div_mod, lemma_fundamental_div_mod_converse, lemma_mod_add_multiples_vanish,
    lemma_mod_division_less_than_divisor, lemma_mod_multiples_vanish, lemma_small_mod,
};
use vstd::prelude::*;

verus! {

/// Flat row-major index of the cell at `(row, col)` on a grid of the
/// given width.
pub open spec fn flat_index(row: int, col: int, width: int) -> int {
    row * width + col
}

/// A coordinate reduced into `[0, n)` by true mathematical modulo, so
/// that `-1` wraps to `n - 1`.
pub open spec fn wrap_coord_spec(x: int, n: int) -> int {
    x % n
}

/// Flat index of the cell reached from possibly out-of-range coordinates
/// by wrapping both of them, which makes the grid a torus.
pub open spec fn wrap_index_spec(row: int, col: int, width: int, height: int) -> int {
    flat_index(wrap_coord_spec(row, height), wrap_coord_spec(col, width), width)
}

/// The wrapped index always lands inside the grid.
pub proof fn lemma_wrap_index_in_range(row: int, col: int, width: int, height: int)
    requires
        width >= 1,
        height >= 1,
    ensures
        0 <= wrap_index_spec(row, col, width, height) < width * height,
{
    lemma_mod_division_less_than_divisor(row, height);
    lemma_mod_division_less_than_divisor(col, width);
    let r = wrap_coord_spec(row, height);
    let c = wrap_coord_spec(col, width);
    assert(0 <= r * width + c < width * height) by (nonlinear_arith)
        requires
            0 <= r < height,
            0 <= c < width,
    ;
}

/// Reduces one coordinate into `[0, n)` with Euclidean semantics.
pub fn wrap_coord(x: isize, n: usize) -> (r: usize)
    requires
        1 <= n <= isize::MAX,
    ensures
        r == wrap_coord_spec(x as int, n as int),
        r < n,
{
    if x >= 0 {
        (x as usize) % n
    } else {
        let k: usize = (-(x + 1)) as usize;
        let m: usize = k % n;
        proof {
            let xi = x as int;
            let ni = n as int;
            let ki = k as int;
            lemma_fundamental_div_mod(ki, ni);
            lemma_mod_division_less_than_divisor(ki, ni);
            assert(xi == ni * (-(ki / ni) - 1) + (ni - 1 - ki % ni)) by (nonlinear_arith)
                requires
                    ki == ni * (ki / ni) + ki % ni,
                    xi == -ki - 1,
            ;
            lemma_mod_multiples_vanish(-(ki / ni) - 1, ni - 1 - ki % ni, ni);
            lemma_small_mod((ni - 1 - ki % ni) as nat, ni as nat);
        }
        n - 1 - m
    }
}

/// 1 for a live cell, 0 for a dead one.
pub open spec fn count_bool(b: bool) -> int {
    if b {
        1
    } else {
        0
    }
}

/// Whether the cell reached from `(row, col)` by toroidal wrapping is
/// alive in `g`.
pub open spec fn live_at(g: Seq<bool>, row: int, col: int, width: int, height: int) -> bool {
    g[wrap_index_spec(row, col, width, height)]
}

/// Number of live cells among the 8 toroidally-wrapped neighbors of
/// `(row, col)`.
pub open spec fn neighbor_count(g: Seq<bool>, row: int, col: int, width: int, height: int) -> int {
    count_bool(live_at(g, row - 1, col - 1, width, height)) + count_bool(
        live_at(g, row - 1, col, width, height),
    ) + count_bool(live_at(g, row - 1, col + 1, width, height)) + count_bool(
        live_at(g, row, col - 1, width, height),
    ) + count_bool(live_at(g, row, col + 1, width, height)) + count_bool(
        live_at(g, row + 1, col - 1, width, height),
    ) + count_bool(live_at(g, row + 1, col, width, height)) + count_bool(
        live_at(g, row + 1, col + 1, width, height),
    )
}

/// The Game of Life rule: birth on exactly 3 live neighbors, survival
/// on 2 or 3, death otherwise.
pub open spec fn life_rule(alive: bool, neighbors: int) -> bool {
    neighbors == 3 || (alive && neighbors == 2)
}

/// State of the cell at `(row, col)` in the next generation of `g`.
pub open spec fn next_cell_spec(g: Seq<bool>, row: int, col: int, width: int, height: int) -> bool {
    life_rule(live_at(g, row, col, width, height), neighbor_count(g, row, col, width, height))
}

/// Flat row-major index of an in-range `(row, col)` pair.
pub fn pos(row: usize, col: usize, width: usize) -> (i: usize)
    requires
        row * width + col <= usize::MAX,
    ensures
        i == flat_index(row as int, col as int, width as int),
{
    row * width + col
}

/// Wrapping position: reduces possibly negative or overflowing
/// coordinates onto the torus and returns the flat index.
pub fn pos_wrap(row: isize, col: isize, width: usize, height: usize) -> (i: usize)
    requires
        1 <= width <= isize::MAX,
        1 <= height <= isize::MAX,
        width * height <= usize::MAX,
    ensures
        i == wrap_index_spec(row as int, col as int, width as int, height as int),
        i < width * height,
{
    let r = wrap_coord(row, height);
    let c = wrap_coord(col, width);
    proof {
        assert(r * width + c < width * height) by (nonlinear_arith)
            requires
                r < height,
                c < width,
                1 <= width,
                1 <= height,
        ;
    }
    pos(r, c, width)
}

/// Applies the Game of Life rule at one position: counts the 8
/// toroidally-wrapped neighbors and returns whether the cell is alive
/// in the next generation.
pub fn cell_next_state(grid: &[bool], row: isize, col: isize, width: usize, height: usize) -> (alive:
    bool)
    requires
        1 <= width <= isize::MAX,
        1 <= height <= isize::MAX,
        width * height <= usize::MAX,
        grid@.len() == width * height,
        isize::MIN < row < isize::MAX,
        isize::MIN < col < isize::MAX,
    ensures
        alive == next_cell_spec(grid@, row as int, col as int, width as int, height as int),
{
    let mut neighbors: u8 = 0;
    if grid[pos_wrap(row - 1, col - 1, width, height)] {
        neighbors += 1;
    }
    if grid[pos_wrap(row - 1, col, width, height)] {
        neighbors += 1;
    }
    if grid[pos_wrap(row - 1, col + 1, width, height)] {
        neighbors += 1;
    }
    if grid[pos_wrap(row, col - 1, width, height)] {
        neighbors += 1;
    }
    if grid[pos_wrap(row, col + 1, width, height)] {
        neighbors += 1;
    }
    if grid[pos_wrap(row + 1, col - 1, width, height)] {
        neighbors += 1;
    }
    if grid[pos_wrap(row + 1, col, width, height)] {
        neighbors += 1;
    }
    if grid[pos_wrap(row + 1, col + 1, width, height)] {
        neighbors += 1;
    }
    let alive = grid[pos_wrap(row, col, width, height)];
    (alive && (neighbors == 2 || neighbors == 3)) || (!alive && neighbors == 3)
}

/// The whole next generation of `g`: a fresh grid of the same
/// dimensions where entry `row * width + col` is the next state of the
/// cell at `(row, col)`.
pub open spec fn next_generation_spec(g: Seq<bool>, width: int, height: int) -> Seq<bool> {
    Seq::new(
        (width * height) as nat,
        |i: int| next_cell_spec(g, i / width, i % width, width, height),
    )
}

/// Computes the next generation into a fresh buffer, reading only the
/// prior, unmodified grid.
pub fn next_generation(grid: &[bool], width: usize, height: usize) -> (out: Vec<bool>)
    requires
        1 <= width <= isize::MAX,
        1 <= height <= isize::MAX,
        width * height <= usize::MAX,
        grid@.len() == width * height,
    ensures
        out@.len() == width * height,
        out@ == next_generation_spec(grid@, width as int, height as int),
{
    let ghost w = width as int;
    let ghost h = height as int;
    let mut out: Vec<bool> = Vec::new();
    let mut row: usize = 0;
    while row < height
        invariant
            w == width as int,
            h == height as int,
            1 <= width <= isize::MAX,
            1 <= height <= isize::MAX,
            width * height <= usize::MAX,
            grid@.len() == width * height,
            row <= height,
            out@.len() == row * width,
            forall|j: int|
                0 <= j < out@.len() ==> out@[j] == next_cell_spec(grid@, j / w, j % w, w, h),
        decreases height - row,
    {
        let mut col: usize = 0;
        proof {
            assert(row * width + width <= height * width) by (nonlinear_arith)
                requires
                    row < height,
                    1 <= width,
            ;
        }
        while col < width
            invariant
                w == width as int,
                h == height as int,
                1 <= width <= isize::MAX,
                1 <= height <= isize::MAX,
                width * height <= usize::MAX,
                grid@.len() == width * height,
                row < height,
                col <= width,
                row * width + width <= height * width,
                out@.len() == row * width + col,
                forall|j: int|
                    0 <= j < out@.len() ==> out@[j] == next_cell_spec(grid@, j / w, j % w, w, h),
            decreases width - col,
        {
            let cell = cell_next_state(grid, row as isize, col as isize, width, height);
            proof {
                lemma_fundamental_div_mod_converse(row * width + col, w, row as int, col as int);
            }
            out.push(cell);
            col += 1;
        }
        proof {
            assert((row + 1) * width == row * width + width) by (nonlinear_arith);
        }
        row += 1;
    }
    proof {
        assert(w * h >= 1) by (nonlinear_arith)
            requires
                w >= 1,
                h >= 1,
        ;
        assert(h * w == w * h) by (nonlinear_arith);
        assert(out@ =~= next_generation_spec(grid@, w, h));
    }
    out
}

/// Toroidal periodicity: translating a position by a full period in
/// each direction reaches the same cell, so wrapping is a no-op under
/// translation by `(height, width)`.
pub proof fn lemma_wrap_index_periodic(row: int, col: int, width: int, height: int)
    requires
        width >= 1,
        height >= 1,
    ensures
        wrap_index_spec(row + height, col + width, width, height) == wrap_index_spec(
            row,
            col,
            width,
            height,
        ),
{
    lemma_mod_add_multiples_vanish(row, height);
    lemma_mod_add_multiples_vanish(col, width);
}

/// The update rule case by case: a cell with exactly 3 live neighbors
/// is alive next generation whatever its current state; a live cell
/// with a neighbor count other than 2 or 3 dies; a dead cell with a
/// neighbor count other than 3 stays dead.
pub proof fn lemma_life_rule_cases(g: Seq<bool>, row: int, col: int, width: int, height: int)
    ensures
        neighbor_count(g, row, col, width, height) == 3 ==> next_cell_spec(
            g,
            row,
            col,
            width,
            height,
        ),
        live_at(g, row, col, width, height) && !(neighbor_count(g, row, col, width, height) == 2
            || neighbor_count(g, row, col, width, height) == 3) ==> !next_cell_spec(
            g,
            row,
            col,
            width,
            height,
        ),
        !live_at(g, row, col, width, height) && neighbor_count(g, row, col, width, height) != 3
            ==> !next_cell_spec(g, row, col, width, height),
{
}

/// Whether every cell of the grid is dead.
pub open spec fn all_dead(g: Seq<bool>) -> bool {
    forall|i: int| 0 <= i < g.len() ==> !g[i]
}

/// The grid after `n` full generations.
pub open spec fn advance(g: Seq<bool>, width: int, height: int, n: nat) -> Seq<bool>
    decreases n,
{
    if n == 0 {
        g
    } else {
        advance(next_generation_spec(g, width, height), width, height, (n - 1) as nat)
    }
}

/// One step of the dead fixed point: a fully dead grid has no live
/// neighbors anywhere, so its next generation is fully dead as well.
pub proof fn lemma_all_dead_one_step(g: Seq<bool>, width: int, height: int)
    requires
        width >= 1,
        height >= 1,
        g.len() == width * height,
        all_dead(g),
    ensures
        all_dead(next_generation_spec(g, width, height)),
        next_generation_spec(g, width, height).len() == width * height,
{
    assert(width * height >= 1) by (nonlinear_arith)
        requires
            width >= 1,
            height >= 1,
    ;
    let next = next_generation_spec(g, width, height);
    assert forall|i: int| 0 <= i < next.len() implies !next[i] by {
        let r = i / width;
        let c = i % width;
        lemma_wrap_index_in_range(r - 1, c - 1, width, height);
        lemma_wrap_index_in_range(r - 1, c, width, height);
        lemma_wrap_index_in_range(r - 1, c + 1, width, height);
        lemma_wrap_index_in_range(r, c - 1, width, height);
        lemma_wrap_index_in_range(r, c, width, height);
        lemma_wrap_index_in_range(r, c + 1, width, height);
        lemma_wrap_index_in_range(r + 1, c - 1, width, height);
        lemma_wrap_index_in_range(r + 1, c, width, height);
        lemma_wrap_index_in_range(r + 1, c + 1, width, height);
        assert(neighbor_count(g, r, c, width, height) == 0);
    }
}

/// The dead fixed point: a fully dead grid of any size remains fully
/// dead after any number of generations.
pub proof fn lemma_dead_grid_stays_dead(g: Seq<bool>, width: int, height: int, n: nat)
    requires
        width >= 1,
        height >= 1,
        g.len() == width * height,
        all_dead(g),
    ensures
        all_dead(advance(g, width, height, n)),
        advance(g, width, height, n).len() == width * height,
    decreases n,
{
    if n > 0 {
        lemma_all_dead_one_step(g, width, height);
        lemma_dead_grid_stays_dead(
            next_generation_spec(g, width, height),
            width,
            height,
            (n - 1) as nat,
        );
    }
}

} // verus!
