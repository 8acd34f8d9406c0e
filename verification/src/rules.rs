//! The mathematical model of the Game of Life.
//!
//! A generation is a sequence of rows, each a sequence of boolean cells
//! (`true` = alive). Cells outside the grid count as dead.

use vstd::prelude::*;

verus! {

/// Whether (x, y) lies on a grid of width `w` and height `h`.
pub open spec fn in_bounds(w: int, h: int, x: int, y: int) -> bool {
    0 <= x < w && 0 <= y < h
}

/// Whether the cell at (x, y) is alive; positions off the grid are dead.
pub open spec fn alive(g: Seq<Seq<bool>>, x: int, y: int) -> bool {
    0 <= y < g.len() && 0 <= x < g[y].len() && g[y][x]
}

/// 1 when the condition holds, else 0; used to sum live neighbors.
pub open spec fn one_if(b: bool) -> int {
    if b {
        1
    } else {
        0
    }
}

/// How many of the 8 neighbors of (x, y) are alive.
pub open spec fn neighbor_count(g: Seq<Seq<bool>>, x: int, y: int) -> int {
    one_if(alive(g, x - 1, y - 1)) + one_if(alive(g, x, y - 1)) + one_if(alive(g, x + 1, y - 1))
        + one_if(alive(g, x + 1, y)) + one_if(alive(g, x + 1, y + 1)) + one_if(alive(g, x, y + 1))
        + one_if(alive(g, x - 1, y + 1)) + one_if(alive(g, x - 1, y))
}

/// The standard rule: a cell is alive in the next generation iff it is
/// alive with exactly 2 live neighbors, or has exactly 3 live neighbors.
pub open spec fn rule(cur: bool, neighbors: int) -> bool {
    (cur && neighbors == 2) || neighbors == 3
}

/// One synchronous generation step: every cell is recomputed from the
/// same snapshot `g` of the previous generation.
pub open spec fn step(g: Seq<Seq<bool>>) -> Seq<Seq<bool>> {
    Seq::new(g.len(), |y: int| Seq::new(g[y].len(), |x: int| rule(g[y][x], neighbor_count(g, x, y))))
}

/// The character at position i of the rendered text of a grid of width
/// `w`: each line holds w cell characters and ends with a line break,
/// so position i shows row i / (w + 1), column i % (w + 1); an alive
/// cell renders as 'X', a dead one as '_'.
pub open spec fn text_char(g: Seq<Seq<bool>>, w: int, i: int) -> char {
    if i % (w + 1) == w {
        '\n'
    } else if g[i / (w + 1)][i % (w + 1)] {
        'X'
    } else {
        '_'
    }
}

/// The rendered text of a grid of width `w` and height `h`: h lines of
/// w characters, one per cell in row-major order, each line ended by a
/// line break.
pub open spec fn board_text(g: Seq<Seq<bool>>, w: int, h: int) -> Seq<char> {
    Seq::new((h * (w + 1)) as nat, |i: int| text_char(g, w, i))
}

/// A live cell with no live neighbors is dead in the next generation.
pub proof fn lemma_death_by_isolation(g: Seq<Seq<bool>>, x: int, y: int)
    requires
        0 <= y < g.len(),
        0 <= x < g[y].len(),
        g[y][x],
        neighbor_count(g, x, y) == 0,
    ensures
        !step(g)[y][x],
{
}

/// A live cell with 4 or more live neighbors is dead in the next
/// generation.
pub proof fn lemma_death_by_overcrowding(g: Seq<Seq<bool>>, x: int, y: int)
    requires
        0 <= y < g.len(),
        0 <= x < g[y].len(),
        g[y][x],
        neighbor_count(g, x, y) >= 4,
    ensures
        !step(g)[y][x],
{
}

/// Exactly the four cells of the 2-by-2 block with top-left corner
/// (a, b) are alive.
pub open spec fn only_block_alive(g: Seq<Seq<bool>>, a: int, b: int) -> bool {
    forall|x: int, y: int|
        #[trigger] alive(g, x, y) <==> ((x == a || x == a + 1) && (y == b || y == b + 1))
}

/// A 2-by-2 block of live cells whose 8-neighborhoods lie entirely on
/// the grid (a margin of at least one dead row and column around it)
/// is a still life: one generation step leaves the grid unchanged.
pub proof fn lemma_block_still_life(g: Seq<Seq<bool>>, w: int, a: int, b: int)
    requires
        forall|y: int| 0 <= y < g.len() ==> (#[trigger] g[y]).len() == w,
        1 <= a && a + 2 <= w - 1,
        1 <= b && b + 2 <= g.len() - 1,
        only_block_alive(g, a, b),
    ensures
        step(g) == g,
{
    assert forall|y: int| 0 <= y < g.len() implies #[trigger] step(g)[y] == g[y] by {
        assert forall|x: int| 0 <= x < w implies #[trigger] step(g)[y][x] == g[y][x] by {
            assert(alive(g, x, y) == g[y][x]);
        }
        assert(step(g)[y] =~= g[y]);
    }
    assert(step(g) =~= g);
}

/// Exactly the three cells (c - 1, r), (c, r), (c + 1, r) are alive: a
/// horizontal blinker centered at (c, r).
pub open spec fn only_row_alive(g: Seq<Seq<bool>>, c: int, r: int) -> bool {
    forall|x: int, y: int| #[trigger] alive(g, x, y) <==> (y == r && c - 1 <= x <= c + 1)
}

/// Exactly the three cells (c, r - 1), (c, r), (c, r + 1) are alive: a
/// vertical blinker centered at (c, r).
pub open spec fn only_column_alive(g: Seq<Seq<bool>>, c: int, r: int) -> bool {
    forall|x: int, y: int| #[trigger] alive(g, x, y) <==> (x == c && r - 1 <= y <= r + 1)
}

/// A horizontal blinker whose three cells and their neighborhoods lie
/// on the grid becomes the vertical blinker with the same center after
/// one generation step.
pub proof fn lemma_blinker_turns_vertical(g: Seq<Seq<bool>>, w: int, c: int, r: int)
    requires
        forall|y: int| 0 <= y < g.len() ==> (#[trigger] g[y]).len() == w,
        1 <= c && c + 1 <= w - 1,
        1 <= r && r + 1 <= g.len() - 1,
        only_row_alive(g, c, r),
    ensures
        only_column_alive(step(g), c, r),
{
    assert forall|x: int, y: int| #[trigger] alive(step(g), x, y) <==> (x == c && r - 1 <= y <= r
        + 1) by {
        if 0 <= y < g.len() && 0 <= x < w {
            assert(alive(step(g), x, y) == rule(g[y][x], neighbor_count(g, x, y)));
            assert(g[y][x] == alive(g, x, y));
        }
    }
}

/// A vertical blinker whose three cells and their neighborhoods lie on
/// the grid becomes the horizontal blinker with the same center after
/// one generation step.
pub proof fn lemma_blinker_turns_horizontal(g: Seq<Seq<bool>>, w: int, c: int, r: int)
    requires
        forall|y: int| 0 <= y < g.len() ==> (#[trigger] g[y]).len() == w,
        1 <= c && c + 1 <= w - 1,
        1 <= r && r + 1 <= g.len() - 1,
        only_column_alive(g, c, r),
    ensures
        only_row_alive(step(g), c, r),
{
    assert forall|x: int, y: int| #[trigger] alive(step(g), x, y) <==> (y == r && c - 1 <= x <= c
        + 1) by {
        if 0 <= y < g.len() && 0 <= x < w {
            assert(alive(step(g), x, y) == rule(g[y][x], neighbor_count(g, x, y)));
            assert(g[y][x] == alive(g, x, y));
        }
    }
}

/// The generation step is a pure function of the prior generation
/// alone: equal generations step to equal generations.
pub proof fn lemma_step_deterministic(a: Seq<Seq<bool>>, b: Seq<Seq<bool>>)
    requires
        a == b,
    ensures
        step(a) == step(b),
{
}

} // verus!
