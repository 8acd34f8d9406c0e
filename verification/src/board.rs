//! The executable grid: a rectangular board of boolean cells with
//! bounds-checked access, clipped stamping, the generation step and a
//! text rendering.

use vstd::prelude::*;
use vstd::arithmetic::div_mod::lemma_fundamental_div_mod_converse;
use crate::rules::board_text;
use crate::rules::in_bounds;
use crate::rules::neighbor_count;
use crate::rules::rule;
use crate::rules::step;
use crate::rules::text_char;

verus! {

/// A rectangular grid of cells, `width` columns by `height` rows.
/// (0, 0) is the top-left corner; x grows rightward, y downward.
pub struct Board {
    pub cells: Vec<Vec<bool>>,
    pub width: usize,
    pub height: usize,
}

impl View for Board {
    type V = Seq<Seq<bool>>;

    open spec fn view(&self) -> Seq<Seq<bool>> {
        Seq::new(self.cells@.len() as nat, |y: int| self.cells@[y]@)
    }
}

impl Board {
    /// The storage matches the stated dimensions, and both dimensions
    /// fit in a signed 32-bit coordinate.
    pub open spec fn wf(&self) -> bool {
        &&& self.cells@.len() == self.height
        &&& forall|y: int|
            0 <= y < self.height ==> (#[trigger] self.cells@[y])@.len() == self.width
        &&& self.width <= 0x7fff_ffff
        &&& self.height <= 0x7fff_ffff
    }

    /// Create a new board with every cell dead.
    pub fn new(width: usize, height: usize) -> (r: Board)
        requires
            width <= 0x7fff_ffff,
            height <= 0x7fff_ffff,
        ensures
            r.wf(),
            r.width == width,
            r.height == height,
            forall|x: int, y: int|
                in_bounds(width as int, height as int, x, y) ==> !(#[trigger] r@[y][x]),
    {
        let mut cells: Vec<Vec<bool>> = Vec::new();
        let mut y: usize = 0;
        while y < height
            invariant
                y <= height,
                cells@.len() == y,
                forall|yy: int| 0 <= yy < y ==> (#[trigger] cells@[yy])@.len() == width,
                forall|yy: int, xx: int|
                    0 <= yy < y && 0 <= xx < width ==> !(#[trigger] cells@[yy]@[xx]),
            decreases height - y,
        {
            let mut row: Vec<bool> = Vec::new();
            let mut x: usize = 0;
            while x < width
                invariant
                    x <= width,
                    row@.len() == x,
                    forall|xx: int| 0 <= xx < x ==> !(#[trigger] row@[xx]),
                decreases width - x,
            {
                row.push(false);
                x = x + 1;
            }
            cells.push(row);
            y = y + 1;
        }
        Board { cells, width, height }
    }

    /// Read the cell at (x, y): `Some` of its state when (x, y) is on the
    /// board, `None` when either coordinate is off it.
    pub fn get(&self, x: i32, y: i32) -> (r: Option<bool>)
        requires
            self.wf(),
        ensures
            r == (if in_bounds(self.width as int, self.height as int, x as int, y as int) {
                Some(self@[y as int][x as int])
            } else {
                None::<bool>
            }),
    {
        if x >= 0 && y >= 0 && (x as usize) < self.width && (y as usize) < self.height {
            Some(self.cells[y as usize][x as usize])
        } else {
            None
        }
    }

    /// Write the cell at (x, y): `Some(())` when (x, y) is on the board,
    /// `None` (and the board unchanged) when it is off it. The silent
    /// no-op is what lets stamping clip at the edges.
    pub fn set(&mut self, x: i32, y: i32, val: bool) -> (r: Option<()>)
        requires
            old(self).wf(),
        ensures
            final(self).wf(),
            final(self).width == old(self).width,
            final(self).height == old(self).height,
            in_bounds(old(self).width as int, old(self).height as int, x as int, y as int) ==> r
                == Some(()) && final(self)@ == old(self)@.update(
                y as int,
                old(self)@[y as int].update(x as int, val),
            ),
            !in_bounds(old(self).width as int, old(self).height as int, x as int, y as int) ==> r
                == None::<()> && final(self)@ == old(self)@,
    {
        if x >= 0 && y >= 0 && (x as usize) < self.width && (y as usize) < self.height {
            self.cells[y as usize][x as usize] = val;
            proof {
                assert(final(self)@ =~= old(self)@.update(
                    y as int,
                    old(self)@[y as int].update(x as int, val),
                ));
            }
            Some(())
        } else {
            proof {
                assert(final(self)@ =~= old(self)@);
            }
            None
        }
    }

    /// Count the live neighbors of the on-board cell (x, y); the 8
    /// positions around it that fall off the board count as dead.
    fn count_neighbors(&self, x: usize, y: usize) -> (n: u8)
        requires
            self.wf(),
            x < self.width,
            y < self.height,
        ensures
            n as int == neighbor_count(self@, x as int, y as int),
    {
        let xi: i32 = x as i32;
        let yi: i32 = y as i32;
        let mut n: u8 = 0;
        if self.get(xi - 1, yi - 1).unwrap_or(false) {
            n = n + 1;
        }
        if self.get(xi, yi - 1).unwrap_or(false) {
            n = n + 1;
        }
        if self.get(xi + 1, yi - 1).unwrap_or(false) {
            n = n + 1;
        }
        if self.get(xi + 1, yi).unwrap_or(false) {
            n = n + 1;
        }
        if self.get(xi + 1, yi + 1).unwrap_or(false) {
            n = n + 1;
        }
        if self.get(xi, yi + 1).unwrap_or(false) {
            n = n + 1;
        }
        if self.get(xi - 1, yi + 1).unwrap_or(false) {
            n = n + 1;
        }
        if self.get(xi - 1, yi).unwrap_or(false) {
            n = n + 1;
        }
        n
    }

    /// Compute the next generation: a fresh board of the same dimensions
    /// where every cell follows the rule applied to the snapshot `self`.
    pub fn next(self) -> (r: Board)
        requires
            self.wf(),
        ensures
            r.wf(),
            r.width == self.width,
            r.height == self.height,
            r@ == step(self@),
    {
        let mut cells: Vec<Vec<bool>> = Vec::new();
        let mut y: usize = 0;
        while y < self.height
            invariant
                self.wf(),
                y <= self.height,
                cells@.len() == y,
                forall|yy: int| 0 <= yy < y ==> (#[trigger] cells@[yy])@.len() == self.width,
                forall|yy: int, xx: int|
                    0 <= yy < y && 0 <= xx < self.width ==> (#[trigger] cells@[yy]@[xx]) == rule(
                        self@[yy][xx],
                        neighbor_count(self@, xx, yy),
                    ),
            decreases self.height - y,
        {
            let mut row: Vec<bool> = Vec::new();
            let mut x: usize = 0;
            while x < self.width
                invariant
                    self.wf(),
                    y < self.height,
                    x <= self.width,
                    row@.len() == x,
                    forall|xx: int|
                        0 <= xx < x ==> (#[trigger] row@[xx]) == rule(
                            self@[y as int][xx],
                            neighbor_count(self@, xx, y as int),
                        ),
                decreases self.width - x,
            {
                let neighbors = self.count_neighbors(x, y);
                let cur = self.cells[y][x];
                row.push((cur && neighbors == 2) || neighbors == 3);
                x = x + 1;
            }
            cells.push(row);
            y = y + 1;
        }
        let r = Board { cells, width: self.width, height: self.height };
        proof {
            assert forall|yy: int| 0 <= yy < r@.len() implies r@[yy] == step(self@)[yy] by {
                assert(r@[yy] =~= step(self@)[yy]);
            }
            assert(r@ =~= step(self@));
        }
        r
    }

    /// Copy every cell of `other` onto this board, placing `other`'s
    /// top-left corner at (x, y); cells that land off this board are
    /// silently dropped, and every other cell keeps its state.
    pub fn blit(&mut self, x: i32, y: i32, other: &Board)
        requires
            old(self).wf(),
            other.wf(),
        ensures
            final(self).wf(),
            final(self).width == old(self).width,
            final(self).height == old(self).height,
            forall|dx: int, dy: int|
                in_bounds(old(self).width as int, old(self).height as int, dx, dy) ==> (
                #[trigger] final(self)@[dy][dx]) == (if in_bounds(
                    other.width as int,
                    other.height as int,
                    dx - x,
                    dy - y,
                ) {
                    other@[dy - y][dx - x]
                } else {
                    old(self)@[dy][dx]
                }),
    {
        let mut sy: usize = 0;
        while sy < other.height
            invariant
                self.wf(),
                other.wf(),
                self.width == old(self).width,
                self.height == old(self).height,
                sy <= other.height,
                forall|dx: int, dy: int|
                    in_bounds(old(self).width as int, old(self).height as int, dx, dy) ==> (
                    #[trigger] self@[dy][dx]) == (if in_bounds(
                        other.width as int,
                        other.height as int,
                        dx - x,
                        dy - y,
                    ) && dy - y < sy {
                        other@[dy - y][dx - x]
                    } else {
                        old(self)@[dy][dx]
                    }),
            decreases other.height - sy,
        {
            let mut sx: usize = 0;
            while sx < other.width
                invariant
                    self.wf(),
                    other.wf(),
                    self.width == old(self).width,
                    self.height == old(self).height,
                    sy < other.height,
                    sx <= other.width,
                    forall|dx: int, dy: int|
                        in_bounds(old(self).width as int, old(self).height as int, dx, dy) ==> (
                        #[trigger] self@[dy][dx]) == (if in_bounds(
                            other.width as int,
                            other.height as int,
                            dx - x,
                            dy - y,
                        ) && (dy - y < sy || (dy - y == sy && dx - x < sx)) {
                            other@[dy - y][dx - x]
                        } else {
                            old(self)@[dy][dx]
                        }),
                decreases other.width - sx,
            {
                let val = other.cells[sy][sx];
                let tx: i64 = x as i64 + sx as i64;
                let ty: i64 = y as i64 + sy as i64;
                if 0 <= tx && tx <= 0x7fff_ffff && 0 <= ty && ty <= 0x7fff_ffff {
                    let _ = self.set(tx as i32, ty as i32, val);
                }
                sx = sx + 1;
            }
            sy = sy + 1;
        }
    }

    /// Render the board as text: one line per row, top to bottom, with
    /// 'X' for an alive cell, '_' for a dead one, and a line break at
    /// the end of every line.
    pub fn render(&self) -> (r: String)
        requires
            self.wf(),
        ensures
            r@ == board_text(self@, self.width as int, self.height as int),
    {
        let ghost wi: int = self.width as int;
        let mut s = String::new();
        let mut y: usize = 0;
        while y < self.height
            invariant
                self.wf(),
                y <= self.height,
                s@.len() == y * (wi + 1),
                wi == self.width as int,
                forall|i: int| 0 <= i < s@.len() ==> s@[i] == text_char(self@, wi, i),
            decreases self.height - y,
        {
            let mut x: usize = 0;
            while x < self.width
                invariant
                    self.wf(),
                    y < self.height,
                    x <= self.width,
                    s@.len() == y * (wi + 1) + x,
                    wi == self.width as int,
                    forall|i: int| 0 <= i < s@.len() ==> s@[i] == text_char(self@, wi, i),
                decreases self.width - x,
            {
                let ghost pre: Seq<char> = s@;
                if self.cells[y][x] {
                    s.append("X");
                } else {
                    s.append("_");
                }
                proof {
                    reveal_strlit("X");
                    reveal_strlit("_");
                    lemma_fundamental_div_mod_converse(
                        y * (wi + 1) + x,
                        wi + 1,
                        y as int,
                        x as int,
                    );
                    assert(s@[pre.len() as int] == text_char(self@, wi, pre.len() as int));
                }
                x = x + 1;
            }
            let ghost pre: Seq<char> = s@;
            s.append("\n");
            proof {
                reveal_strlit("\n");
                lemma_fundamental_div_mod_converse(
                    y * (wi + 1) + wi,
                    wi + 1,
                    y as int,
                    wi,
                );
                assert(s@[pre.len() as int] == text_char(self@, wi, pre.len() as int));
                assert((y + 1) * (wi + 1) == y * (wi + 1) + wi + 1) by (nonlinear_arith);
            }
            y = y + 1;
        }
        proof {
            assert(self.height as int * (wi + 1) >= 0) by (nonlinear_arith)
                requires
                    wi >= 0,
                    self.height as int >= 0,
            ;
            assert(s@ =~= board_text(self@, wi, self.height as int));
        }
        s
    }
}

/// Which cells of the 7-by-3 Acorn seed pattern are alive.
pub open spec fn acorn_alive(x: int, y: int) -> bool {
    ||| (y == 0 && x == 1)
    ||| (y == 1 && x == 3)
    ||| (y == 2 && (x == 0 || x == 1 || x == 4 || x == 5 || x == 6))
}

/// The Acorn: a 7-by-3 seed pattern known to evolve into a long-lived
/// structure under the standard rule.
pub fn acorn() -> (r: Board)
    ensures
        r.wf(),
        r.width == 7,
        r.height == 3,
        forall|x: int, y: int|
            in_bounds(7, 3, x, y) ==> (#[trigger] r@[y][x]) == acorn_alive(x, y),
{
    let mut b = Board::new(7, 3);
    let _ = b.set(1, 0, true);
    let _ = b.set(3, 1, true);
    let _ = b.set(0, 2, true);
    let _ = b.set(1, 2, true);
    let _ = b.set(4, 2, true);
    let _ = b.set(5, 2, true);
    let _ = b.set(6, 2, true);
    b
}

} // verus!
