//! The game state and the operations that read and change the board.

use vstd::prelude::*;
use crate::grid::{
    cell_at, clear_span, empty_row, fits, full_rows, grid_wf, lemma_full_rows_agree, remove_row,
    row_full, stamp, MAX_CELL,
};
use crate::dice::roll;
use crate::shapes::{
    height, lemma_extent_bounds, lemma_shape_in_box, offsets, shape, spec_height, spec_width,
    valid_shape, width, KINDS, ROTATIONS,
};
use rand::rngs::StdRng;
use crate::state::State;

verus! {

/// Iterations of the game loop between two gravity steps, unless another
/// threshold is set.
pub const GRAVITY_THRESHOLD: u8 = 30;

/// The board, the live piece, the place where the piece was last drawn, the
/// tick counter and the score.
#[derive(Clone, Copy, Debug)]
pub struct Game {
    /// Kind of the live piece, 0 to 6.
    pub kind: u8,
    /// Rotation of the live piece, 0 to 3.
    pub rotation: u8,
    /// Column of the live piece's anchor.
    pub x: u8,
    /// Row of the live piece's anchor.
    pub y: u8,
    /// Rotation in which the live piece was last drawn.
    pub prev_rotation: u8,
    /// Column at which the live piece was last drawn.
    pub prev_x: u8,
    /// Row at which the live piece was last drawn.
    pub prev_y: u8,
    /// Iterations since the last gravity step.
    pub tick: u8,
    /// The count of `tick` at which the next iteration is a gravity step.
    pub threshold: u8,
    /// Rows cleared so far.
    pub score: u32,
    /// The cells of the board: 20 rows of 10 columns, row 0 at the top.
    pub board: [[u8; 10]; 20],
}

impl View for Game {
    type V = State;

    open spec fn view(&self) -> State {
        State {
            kind: self.kind as int,
            rotation: self.rotation as int,
            x: self.x as int,
            y: self.y as int,
            prev_rotation: self.prev_rotation as int,
            prev_x: self.prev_x as int,
            prev_y: self.prev_y as int,
            tick: self.tick as int,
            threshold: self.threshold as int,
            score: self.score as int,
            grid: Seq::new(20, |r: int| self.board[r]@),
        }
    }
}

/// The first `n` cells of the shape anchored at (`y`, `x`) include the cell
/// (`row`, `col`).
spec fn covers_first(
    n: int,
    kind: int,
    rotation: int,
    x: int,
    y: int,
    row: int,
    col: int,
) -> bool {
    ||| 0 < n && cell_at(kind, rotation, x, y, 0, row, col)
    ||| 1 < n && cell_at(kind, rotation, x, y, 1, row, col)
    ||| 2 < n && cell_at(kind, rotation, x, y, 2, row, col)
    ||| 3 < n && cell_at(kind, rotation, x, y, 3, row, col)
}

/// Cell `i` of the shape anchored at (`y`, `x`) is not empty in the grid.
spec fn occupied(g: Seq<Seq<u8>>, kind: int, rotation: int, x: int, y: int, i: int) -> bool {
    let s = shape(kind, rotation);
    g[y + s[i].0][x + s[i].1] != 0
}

/// One of the first `n` cells of the shape anchored at (`y`, `x`) is not
/// empty in the grid.
spec fn occupied_first(
    n: int,
    g: Seq<Seq<u8>>,
    kind: int,
    rotation: int,
    x: int,
    y: int,
) -> bool {
    ||| 0 < n && occupied(g, kind, rotation, x, y, 0)
    ||| 1 < n && occupied(g, kind, rotation, x, y, 1)
    ||| 2 < n && occupied(g, kind, rotation, x, y, 2)
    ||| 3 < n && occupied(g, kind, rotation, x, y, 3)
}

impl Game {
    /// An empty board with tick counter and score at zero; the live piece is
    /// kind 0 in rotation 0 at the top-left corner, not drawn.
    pub fn empty() -> (g: Game)
        ensures
            g@ == State::initial(),
            g@.wf(),
            g@.settled(),
    {
        let g = Game {
            kind: 0,
            rotation: 0,
            x: 0,
            y: 0,
            prev_rotation: 0,
            prev_x: 0,
            prev_y: 0,
            tick: 0,
            threshold: GRAVITY_THRESHOLD,
            score: 0,
            board: [[0u8; 10]; 20],
        };
        proof {
            lemma_extent_bounds(0, 0);
            assert(g@.grid =~~= State::initial().grid);
        }
        g
    }

    /// Writes `value` into the four cells that the live piece's kind covers
    /// in `rotation` at row `y` and column `x`: 0 erases, the kind plus one
    /// draws.
    pub fn set_piece(&mut self, x: u8, y: u8, rotation: u8, value: u8)
        requires
            fits(old(self)@.kind, rotation as int, x as int, y as int),
        ensures
            final(self)@ == old(self)@.set_piece(x as int, y as int, rotation as int, value),
            old(self)@.shadow_wf() && value <= 7 ==> final(self)@.shadow_wf(),
            old(self)@.wf() && value <= 7 ==> final(self)@.wf(),
    {
        let ghost before = self@;
        let cells = offsets(self.kind, rotation);
        proof {
            lemma_shape_in_box(self.kind as int, rotation as int);
        }
        let mut i: usize = 0;
        while i < 4
            invariant
                i <= 4,
                fits(before.kind, rotation as int, x as int, y as int),
                cells@ == shape(before.kind, rotation as int),
                forall|j: int|
                    0 <= j < 4 ==> (#[trigger] cells@[j]).0 <= 3 && cells@[j].0 <= spec_height(
                        before.kind,
                        rotation as int,
                    ) && cells@[j].1 <= spec_width(before.kind, rotation as int),
                self@ == (State { grid: self@.grid, ..before }),
                forall|row: int, col: int|
                    0 <= row < 20 && 0 <= col < 10 ==> #[trigger] self@.grid[row][col] == (
                    if covers_first(
                        i as int,
                        before.kind,
                        rotation as int,
                        x as int,
                        y as int,
                        row,
                        col,
                    ) {
                        value
                    } else {
                        before.grid[row][col]
                    }),
            decreases 4 - i,
        {
            let row = (y + cells[i].0) as usize;
            let col = (x + cells[i].1) as usize;
            let ghost prior = self@.grid;
            self.board[row][col] = value;
            assert forall|r: int, c: int| 0 <= r < 20 && 0 <= c < 10 implies #[trigger] self@.grid[r][c]
                == (if r == row && c == col {
                value
            } else {
                prior[r][c]
            }) by {}
            i += 1;
        }
        assert(self@.grid =~~= stamp(
            before.grid,
            before.kind,
            rotation as int,
            x as int,
            y as int,
            value,
        ));
    }

    /// Moves the drawing of the live piece to where the piece now is: erases
    /// it at the shadow, makes the current position the shadow, and draws it
    /// there.
    pub fn update_piece(&mut self)
        requires
            old(self)@.wf(),
        ensures
            final(self)@ == old(self)@.update_piece(),
            final(self)@.wf(),
            final(self)@.settled(),
            final(self)@.shown(),
    {
        let (px, py, pr) = (self.prev_x, self.prev_y, self.prev_rotation);
        self.set_piece(px, py, pr, 0);
        self.prev_x = self.x;
        self.prev_y = self.y;
        self.prev_rotation = self.rotation;
        let (x, y, r, color) = (self.x, self.y, self.rotation, self.kind + 1);
        self.set_piece(x, y, r, color);
    }

    /// Tells whether the live piece, put in `rotation` at row `y` and column
    /// `x`, would reach below the last row or overlap a cell that something
    /// other than the piece itself occupies. Past the floor test the piece is
    /// erased at the shadow for the test and drawn there again after it.
    pub fn check_hit(&mut self, x: u8, y: u8, rotation: u8) -> (hit: bool)
        requires
            old(self)@.shadow_wf(),
            valid_shape(old(self)@.kind, rotation as int),
            x + spec_width(old(self)@.kind, rotation as int) <= 9,
        ensures
            hit == old(self)@.hit(x as int, y as int, rotation as int),
            final(self)@ == old(self)@.probed(y as int, rotation as int),
            final(self)@.shadow_wf(),
            old(self)@.wf() ==> final(self)@.wf(),
            old(self)@.shown() ==> final(self)@ == old(self)@,
    {
        let ghost before = self@;
        let h = height(self.kind, rotation);
        if y > 19 - h {
            return true;
        }
        let (px, py, pr, color) = (self.prev_x, self.prev_y, self.prev_rotation, self.kind + 1);
        self.set_piece(px, py, pr, 0);
        let ghost bare = self@;
        let cells = offsets(self.kind, rotation);
        proof {
            lemma_shape_in_box(self.kind as int, rotation as int);
        }
        let mut hits: u8 = 0;
        let mut i: usize = 0;
        while i < 4
            invariant
                i <= 4,
                hits <= i,
                self@ == bare,
                grid_wf(bare.grid),
                cells@ == shape(bare.kind, rotation as int),
                x + spec_width(bare.kind, rotation as int) <= 9,
                y + spec_height(bare.kind, rotation as int) <= 19,
                forall|j: int|
                    0 <= j < 4 ==> (#[trigger] cells@[j]).0 <= spec_height(
                        bare.kind,
                        rotation as int,
                    ) && cells@[j].1 <= spec_width(bare.kind, rotation as int),
                hits > 0 <==> occupied_first(
                    i as int,
                    bare.grid,
                    bare.kind,
                    rotation as int,
                    x as int,
                    y as int,
                ),
            decreases 4 - i,
        {
            if self.board[(y + cells[i].0) as usize][(x + cells[i].1) as usize] != 0 {
                hits += 1;
            }
            i += 1;
        }
        self.set_piece(px, py, pr, color);
        assert(self@.grid =~~= before.redrawn().grid);
        assert(before.shown() ==> self@.grid =~~= before.grid);
        hits > 0
    }

    /// The score can still grow by the four rows that one piece can fill.
    pub open spec fn can_score(&self) -> bool {
        self.score + 4 <= u32::MAX
    }

    /// Tells whether no cell of row `row` is empty.
    pub fn row_is_full(&self, row: u8) -> (full: bool)
        requires
            row < 20,
        ensures
            full == row_full(self@.grid[row as int]),
    {
        let mut col: usize = 0;
        while col < 10
            invariant
                col <= 10,
                row < 20,
                forall|c: int| 0 <= c < col ==> #[trigger] self@.grid[row as int][c] != 0,
            decreases 10 - col,
        {
            if self.board[row as usize][col] == 0 {
                return false;
            }
            col += 1;
        }
        true
    }

    /// Takes row `row` out of the board: each row above it moves down by
    /// one, from `row` upwards, and the top row becomes empty.
    pub fn remove_row(&mut self, row: u8)
        requires
            row < 20,
        ensures
            final(self)@ == (State { grid: remove_row(old(self)@.grid, row as int), ..old(self)@ }),
            old(self)@.wf() ==> final(self)@.wf(),
    {
        let ghost before = self@;
        let mut i: u8 = row;
        while i > 0
            invariant
                i <= row < 20,
                before.grid.len() == 20,
                self@ == (State { grid: self@.grid, ..before }),
                forall|r: int| 0 <= r <= i ==> #[trigger] self@.grid[r] == before.grid[r],
                forall|r: int| i < r <= row ==> #[trigger] self@.grid[r] == before.grid[r - 1],
                forall|r: int| row < r < 20 ==> #[trigger] self@.grid[r] == before.grid[r],
            decreases i,
        {
            let ghost prior = self@.grid;
            let above = self.board[(i - 1) as usize];
            self.board[i as usize] = above;
            assert forall|r: int| 0 <= r < 20 implies #[trigger] self@.grid[r] == (if r == i {
                prior[i - 1]
            } else {
                prior[r]
            }) by {}
            i -= 1;
        }
        let ghost prior = self@.grid;
        self.board[0] = [0u8; 10];
        assert forall|r: int| 0 < r < 20 implies #[trigger] self@.grid[r] == prior[r] by {}
        assert(self@.grid[0] =~= empty_row());
        assert(self@.grid =~= remove_row(before.grid, row as int));
    }

    /// Examines the rows of the live piece's bounding box from the top down,
    /// takes each full one out and adds one to the score for it.
    pub fn lock_and_clear(&mut self)
        requires
            old(self)@.wf(),
            old(self).can_score(),
        ensures
            final(self)@ == old(self)@.lock_and_clear(),
            final(self)@.wf(),
    {
        let ghost before = self@;
        let top = self.y;
        let bottom = self.y + height(self.kind, self.rotation);
        let mut row: u8 = top;
        while row <= bottom
            invariant
                top <= row <= bottom + 1,
                bottom <= 19,
                bottom - top <= 3,
                before.wf(),
                before.score + 4 <= u32::MAX,
                self@ == (State { grid: self@.grid, score: self@.score, ..before }),
                grid_wf(self@.grid),
                clear_span(self@.grid, row as int, bottom as int) == clear_span(
                    before.grid,
                    top as int,
                    bottom as int,
                ),
                self@.score + full_rows(self@.grid, row as int, bottom as int) == before.score
                    + full_rows(before.grid, top as int, bottom as int),
                before.score <= self@.score <= before.score + (row - top),
            decreases bottom + 1 - row,
        {
            if self.row_is_full(row) {
                proof {
                    lemma_full_rows_agree(
                        self@.grid,
                        remove_row(self@.grid, row as int),
                        row + 1,
                        bottom as int,
                    );
                }
                self.remove_row(row);
                self.score += 1;
            }
            row += 1;
        }
    }

    /// Makes `kind` in `rotation` at column `x` of the top row the live
    /// piece, with the shadow at the same place. The board is not touched:
    /// the piece is drawn by the next [`Game::update_piece`].
    pub fn place(&mut self, kind: u8, rotation: u8, x: u8)
        requires
            State::can_place(kind as int, rotation as int, x as int),
        ensures
            final(self)@ == old(self)@.place(kind as int, rotation as int, x as int),
            old(self)@.wf() ==> final(self)@.wf(),
            final(self)@.settled(),
    {
        proof {
            lemma_extent_bounds(kind as int, rotation as int);
        }
        self.kind = kind;
        self.rotation = rotation;
        self.x = x;
        self.y = 0;
        self.prev_y = 0;
        self.prev_rotation = rotation;
        self.prev_x = x;
    }

    /// Draws a kind, a rotation and a column at which that shape fits from
    /// `rng`, each uniformly, and places the new piece at the top row.
    pub fn spawn(&mut self, rng: &mut StdRng)
        ensures
            State::can_place(final(self)@.kind, final(self)@.rotation, final(self)@.x),
            0 <= final(self)@.x <= 9 - spec_width(final(self)@.kind, final(self)@.rotation),
            final(self)@.y == 0,
            final(self)@ == old(self)@.place(
                final(self)@.kind,
                final(self)@.rotation,
                final(self)@.x,
            ),
            old(self)@.wf() ==> final(self)@.wf(),
            final(self)@.settled(),
    {
        let kind = roll(rng, KINDS);
        let rotation = roll(rng, ROTATIONS);
        let x = roll(rng, 10 - width(kind, rotation));
        self.place(kind, rotation, x);
    }

    /// A new game: an empty board, tick counter and score at zero, and a
    /// first piece drawn from `rng`.
    pub fn new(rng: &mut StdRng) -> (g: Game)
        ensures
            g@ == State::initial().place(g@.kind, g@.rotation, g@.x),
            State::can_place(g@.kind, g@.rotation, g@.x),
            g@.wf(),
            g@.settled(),
    {
        let mut g = Game::empty();
        g.spawn(rng);
        g
    }

    /// Tells whether the state is well formed: every cell is at most 7, the
    /// live piece and its shadow lie on the board, and the tick counter is
    /// within its threshold.
    pub fn is_wf(&self) -> (ok: bool)
        ensures
            ok == self@.wf(),
    {
        if self.kind >= KINDS || self.rotation >= ROTATIONS || self.prev_rotation >= ROTATIONS {
            return false;
        }
        if self.x > 9 - width(self.kind, self.rotation) || self.y > 19 - height(
            self.kind,
            self.rotation,
        ) {
            return false;
        }
        if self.prev_x > 9 - width(self.kind, self.prev_rotation) || self.prev_y > 19 - height(
            self.kind,
            self.prev_rotation,
        ) {
            return false;
        }
        if self.tick > self.threshold {
            return false;
        }
        let mut row: usize = 0;
        while row < 20
            invariant
                row <= 20,
                forall|r: int, c: int|
                    0 <= r < row && 0 <= c < 10 ==> #[trigger] self@.grid[r][c] <= 7,
            decreases 20 - row,
        {
            let mut col: usize = 0;
            while col < 10
                invariant
                    row < 20,
                    col <= 10,
                    forall|r: int, c: int|
                        0 <= r < row && 0 <= c < 10 ==> #[trigger] self@.grid[r][c] <= 7,
                    forall|c: int| 0 <= c < col ==> #[trigger] self@.grid[row as int][c] <= 7,
                decreases 10 - col,
            {
                if self.board[row][col] > MAX_CELL {
                    assert(self@.grid[row as int][col as int] > 7);
                    return false;
                }
                col += 1;
            }
            row += 1;
        }
        true
    }

    /// Tells whether the shadow records the live piece's current position.
    pub fn is_settled(&self) -> (ok: bool)
        ensures
            ok == self@.settled(),
    {
        self.prev_rotation == self.rotation && self.prev_x == self.x && self.prev_y == self.y
    }
}

} // verus!
