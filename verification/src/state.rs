//! The game state as a mathematical value, and each operation of the game as
//! a function from state to state. The executable operations are specified
//! against these.

use vstd::prelude::*;
use crate::grid::{
    clear_span, covers, empty_row, fits, full_rows, grid_empty, grid_wf,
    lemma_clear_keeps_rows_below, lemma_clear_single_full_row, lemma_full_rows_bounds, remove_row,
    row_full, stamp,
};
use crate::shapes::{
    lemma_extent_bounds, lemma_shape_in_box, shape, spec_height, spec_width, valid_shape,
};

verus! {

/// What a [`crate::game::Game`] holds, over integers and sequences.
#[verifier::ext_equal]
pub struct State {
    /// Kind of the live piece, 0 to 6.
    pub kind: int,
    /// Rotation of the live piece, 0 to 3.
    pub rotation: int,
    /// Column of the live piece's anchor.
    pub x: int,
    /// Row of the live piece's anchor.
    pub y: int,
    /// Rotation in which the live piece was last drawn.
    pub prev_rotation: int,
    /// Column at which the live piece was last drawn.
    pub prev_x: int,
    /// Row at which the live piece was last drawn.
    pub prev_y: int,
    /// Iterations since the last gravity step.
    pub tick: int,
    /// The count of `tick` at which the next iteration is a gravity step.
    pub threshold: int,
    /// Rows cleared so far.
    pub score: int,
    /// The cells of the board, row by row.
    pub grid: Seq<Seq<u8>>,
}

impl State {
    /// The state in which a game starts, before its first piece is drawn: an
    /// empty board, tick counter and score at zero, a gravity threshold of
    /// 30, and kind 0 in rotation 0 at the top-left corner.
    pub open spec fn initial() -> State {
        State {
            kind: 0,
            rotation: 0,
            x: 0,
            y: 0,
            prev_rotation: 0,
            prev_x: 0,
            prev_y: 0,
            tick: 0,
            threshold: 30,
            score: 0,
            grid: Seq::new(20, |r: int| empty_row()),
        }
    }

    /// The grid is well formed and the shadow lies on the board: what
    /// drawing the live piece and testing for collisions rely on.
    pub open spec fn shadow_wf(self) -> bool {
        &&& grid_wf(self.grid)
        &&& fits(self.kind, self.prev_rotation, self.prev_x, self.prev_y)
    }

    /// The grid is well formed, the live piece and its shadow both lie on
    /// the board, and the tick counter is within its threshold.
    pub open spec fn wf(self) -> bool {
        &&& self.shadow_wf()
        &&& fits(self.kind, self.rotation, self.x, self.y)
        &&& 0 <= self.tick <= self.threshold
        &&& 0 <= self.score
    }

    /// The shadow records the live piece's current position.
    pub open spec fn settled(self) -> bool {
        &&& self.prev_rotation == self.rotation
        &&& self.prev_x == self.x
        &&& self.prev_y == self.y
    }

    /// The value that the live piece's cells hold on the board.
    pub open spec fn color(self) -> u8 {
        (self.kind + 1) as u8
    }

    /// The four cells of the shadow hold the live piece's value.
    pub open spec fn shown(self) -> bool {
        forall|row: int, col: int|
            0 <= row < 20 && 0 <= col < 10 && covers(
                self.kind,
                self.prev_rotation,
                self.prev_x,
                self.prev_y,
                row,
                col,
            ) ==> #[trigger] self.grid[row][col] == self.color()
    }

    /// `value` written into the four cells of the live piece's kind in
    /// `rotation` at (`y`, `x`).
    pub open spec fn set_piece(self, x: int, y: int, rotation: int, value: u8) -> State {
        State { grid: stamp(self.grid, self.kind, rotation, x, y, value), ..self }
    }

    /// The live piece's cells at the shadow emptied.
    pub open spec fn erased(self) -> State {
        self.set_piece(self.prev_x, self.prev_y, self.prev_rotation, 0)
    }

    /// The live piece drawn at the shadow.
    pub open spec fn redrawn(self) -> State {
        self.set_piece(self.prev_x, self.prev_y, self.prev_rotation, self.color())
    }

    /// The live piece erased at the shadow and drawn at its current
    /// position, which becomes the shadow.
    pub open spec fn update_piece(self) -> State {
        State {
            prev_rotation: self.rotation,
            prev_x: self.x,
            prev_y: self.y,
            ..self.erased()
        }.set_piece(self.x, self.y, self.rotation, self.color())
    }

    /// The cell is occupied, and not by the live piece as drawn at the
    /// shadow.
    pub open spec fn blocked(self, row: int, col: int) -> bool {
        &&& self.grid[row][col] != 0
        &&& !covers(self.kind, self.prev_rotation, self.prev_x, self.prev_y, row, col)
    }

    /// The live piece, in `rotation` at (`y`, `x`), would reach below the
    /// last row.
    pub open spec fn below_floor(self, y: int, rotation: int) -> bool {
        y + spec_height(self.kind, rotation) > 19
    }

    /// The live piece, in `rotation` at (`y`, `x`), would reach below the
    /// last row or overlap a cell that something else occupies.
    pub open spec fn hit(self, x: int, y: int, rotation: int) -> bool {
        let s = shape(self.kind, rotation);
        ||| self.below_floor(y, rotation)
        ||| self.blocked(y + s[0].0, x + s[0].1)
        ||| self.blocked(y + s[1].0, x + s[1].1)
        ||| self.blocked(y + s[2].0, x + s[2].1)
        ||| self.blocked(y + s[3].0, x + s[3].1)
    }

    /// The state that a collision test at row `y` in `rotation` leaves: the
    /// live piece drawn at the shadow, unless the test stopped at the floor.
    pub open spec fn probed(self, y: int, rotation: int) -> State {
        if self.below_floor(y, rotation) {
            self
        } else {
            self.redrawn()
        }
    }

    /// First row of the live piece's bounding box.
    pub open spec fn span_top(self) -> int {
        self.y
    }

    /// Last row of the live piece's bounding box.
    pub open spec fn span_bottom(self) -> int {
        self.y + spec_height(self.kind, self.rotation)
    }

    /// Every full row among those of the live piece's bounding box taken
    /// out, and the score raised by their number.
    pub open spec fn lock_and_clear(self) -> State {
        State {
            grid: clear_span(self.grid, self.span_top(), self.span_bottom()),
            score: self.score + full_rows(self.grid, self.span_top(), self.span_bottom()),
            ..self
        }
    }

    /// A kind, a rotation and a column with which a new piece can start at
    /// the top row.
    pub open spec fn can_place(kind: int, rotation: int, x: int) -> bool {
        &&& valid_shape(kind, rotation)
        &&& 0 <= x <= 9 - spec_width(kind, rotation)
    }

    /// A new live piece at the top row, with the shadow at the same place.
    /// The board is not touched.
    pub open spec fn place(self, kind: int, rotation: int, x: int) -> State {
        State {
            kind,
            rotation,
            x,
            y: 0,
            prev_rotation: rotation,
            prev_x: x,
            prev_y: 0,
            ..self
        }
    }
}

/// Writing a value into the cells of a piece and then 0 into the same cells
/// leaves those cells empty and all others as they were: the first value
/// does not matter.
pub proof fn lemma_set_then_erase(s: State, x: int, y: int, rotation: int, value: u8)
    ensures
        s.set_piece(x, y, rotation, value).set_piece(x, y, rotation, 0) == s.set_piece(
            x,
            y,
            rotation,
            0,
        ),
{
    assert(s.set_piece(x, y, rotation, value).set_piece(x, y, rotation, 0).grid =~~= s.set_piece(
        x,
        y,
        rotation,
        0,
    ).grid);
}

/// Drawing a piece over empty cells and erasing it again gives back the
/// state as it was.
pub proof fn lemma_set_then_erase_restores(s: State, x: int, y: int, rotation: int, value: u8)
    requires
        grid_wf(s.grid),
        forall|row: int, col: int|
            0 <= row < 20 && 0 <= col < 10 && covers(s.kind, rotation, x, y, row, col)
                ==> #[trigger] s.grid[row][col] == 0,
    ensures
        s.set_piece(x, y, rotation, value).set_piece(x, y, rotation, 0) == s,
{
    assert(s.set_piece(x, y, rotation, value).set_piece(x, y, rotation, 0).grid =~~= s.grid);
}

/// Where the live piece is shown at the shadow, drawing it there again
/// changes nothing, and so a collision test leaves the state as it was.
pub proof fn lemma_probe_of_shown(s: State, y: int, rotation: int)
    requires
        grid_wf(s.grid),
        s.shown(),
    ensures
        s.redrawn() == s,
        s.probed(y, rotation) == s,
{
    assert(s.redrawn().grid =~~= s.grid);
}

/// Drawing the live piece at the shadow does not change what a collision
/// test finds.
pub proof fn lemma_redraw_keeps_hit(s: State, x: int, y: int, rotation: int)
    requires
        s.shadow_wf(),
        valid_shape(s.kind, rotation),
        0 <= x,
        x + spec_width(s.kind, rotation) <= 9,
        0 <= y,
    ensures
        s.redrawn().hit(x, y, rotation) == s.hit(x, y, rotation),
{
    lemma_shape_in_box(s.kind, rotation);
}

/// On an empty board a piece that lies on the board collides with nothing.
pub proof fn lemma_no_hit_on_empty_board(s: State, x: int, y: int, rotation: int)
    requires
        grid_empty(s.grid),
        fits(s.kind, rotation, x, y),
    ensures
        !s.hit(x, y, rotation),
{
    lemma_shape_in_box(s.kind, rotation);
}

/// After the drawing was moved, the live piece is shown where it is, the
/// shadow records that place, and every cell that neither the old nor the
/// new drawing covers is as it was.
pub proof fn lemma_update_piece_shows(s: State)
    requires
        s.wf(),
    ensures
        s.update_piece().wf(),
        s.update_piece().settled(),
        s.update_piece().shown(),
        forall|row: int, col: int|
            0 <= row < 20 && 0 <= col < 10 && !covers(
                s.kind,
                s.prev_rotation,
                s.prev_x,
                s.prev_y,
                row,
                col,
            ) && !covers(s.kind, s.rotation, s.x, s.y, row, col)
                ==> #[trigger] s.update_piece().grid[row][col] == s.grid[row][col],
{
}

/// Locking a piece never lowers the score and raises it by at most four,
/// and leaves every row below the piece as it was.
pub proof fn lemma_lock_and_clear_bounds(s: State)
    requires
        s.wf(),
    ensures
        s.lock_and_clear().wf(),
        s.score <= s.lock_and_clear().score <= s.score + 4,
        forall|r: int| s.span_bottom() < r < 20 ==> #[trigger] s.lock_and_clear().grid[r] == s.grid[r],
{
    lemma_extent_bounds(s.kind, s.rotation);
    lemma_full_rows_bounds(s.grid, s.span_top(), s.span_bottom());
    lemma_clear_keeps_rows_below(s.grid, s.span_top(), s.span_bottom());
}

/// Where row `r` is the only full one among the rows of the live piece's
/// bounding box, locking the piece empties the top row, moves each row above
/// `r` down by one, so that the contents of row `r` are gone, leaves the rows
/// below `r` as they were, and raises the score by exactly one.
pub proof fn lemma_lock_single_full_row(s: State, r: int)
    requires
        s.wf(),
        s.span_top() <= r <= s.span_bottom(),
        row_full(s.grid[r]),
        forall|i: int| s.span_top() <= i <= s.span_bottom() && i != r ==> !row_full(#[trigger] s.grid[i]),
    ensures
        s.lock_and_clear().score == s.score + 1,
        s.lock_and_clear().grid == remove_row(s.grid, r),
        s.lock_and_clear().grid[0] == empty_row(),
        forall|i: int| 1 <= i <= r ==> #[trigger] s.lock_and_clear().grid[i] == s.grid[i - 1],
        forall|i: int| r < i < 20 ==> #[trigger] s.lock_and_clear().grid[i] == s.grid[i],
{
    lemma_extent_bounds(s.kind, s.rotation);
    lemma_clear_single_full_row(s.grid, s.span_top(), s.span_bottom(), r);
}

} // verus!
