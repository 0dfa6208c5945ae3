//! The rules that one iteration of the game loop applies: the gravity tick and
//! the player's moves. The loop itself, with its delay, its keyboard and its
//! screen, belongs to the caller.

use vstd::prelude::*;
use crate::game::Game;
use crate::shapes::{lemma_extent_bounds, spec_width, width};
use crate::state::{
    lemma_probe_of_shown, lemma_redraw_keeps_hit, lemma_update_piece_shows, State,
};
use rand::rngs::StdRng;

verus! {

/// What the player asked for in one iteration.
#[derive(Clone, Copy, Debug, PartialEq, Eq, Structural)]
pub enum Key {
    /// One column to the left.
    Left,
    /// One column to the right.
    Right,
    /// Drop the piece as far as it goes and lock it.
    Down,
    /// Turn the piece to its next rotation.
    Rotate,
    /// Leave the game.
    Quit,
    /// No key, or one that means nothing.
    Nothing,
}

/// Whether the loop goes on, and why not.
#[derive(Clone, Copy, Debug, PartialEq, Eq, Structural)]
pub enum Status {
    /// The loop goes on.
    Running,
    /// A piece landed in the top row: the game is lost.
    GameOver,
    /// The player left.
    Quit,
}

impl State {
    /// The piece can go down by one row.
    pub open spec fn can_fall(self) -> bool {
        !self.hit(self.x, self.y + 1, self.rotation)
    }

    /// The state after a collision test one row below the piece.
    pub open spec fn probed_below(self) -> State {
        self.probed(self.y + 1, self.rotation)
    }

    /// One column to the left, unless the piece is at the left edge or
    /// something is in the way.
    pub open spec fn moved_left(self) -> State {
        if self.x <= 0 {
            self
        } else if self.hit(self.x - 1, self.y, self.rotation) {
            self.probed(self.y, self.rotation)
        } else {
            State { x: self.x - 1, ..self.probed(self.y, self.rotation) }
        }
    }

    /// One column to the right, unless the piece is at the right edge or
    /// something is in the way.
    pub open spec fn moved_right(self) -> State {
        if self.x + spec_width(self.kind, self.rotation) >= 9 {
            self
        } else if self.hit(self.x + 1, self.y, self.rotation) {
            self.probed(self.y, self.rotation)
        } else {
            State { x: self.x + 1, ..self.probed(self.y, self.rotation) }
        }
    }

    /// The rotation after the current one.
    pub open spec fn next_rotation(self) -> int {
        (self.rotation + 1) % 4
    }

    /// The column nearest to the piece's at which it fits within the right
    /// edge in its next rotation.
    pub open spec fn turned_x(self) -> int {
        let limit = 9 - spec_width(self.kind, self.next_rotation());
        if self.x > limit {
            limit
        } else {
            self.x
        }
    }

    /// The piece can take its next rotation at the column `turned_x`.
    pub open spec fn can_turn(self) -> bool {
        !self.hit(self.turned_x(), self.y, self.next_rotation())
    }

    /// The piece in its next rotation, pushed left as far as the right edge
    /// demands; or, where that collides, back in the rotation and the column
    /// of the shadow.
    pub open spec fn rotated(self) -> State {
        let s = self.probed(self.y, self.next_rotation());
        if self.can_turn() {
            State { rotation: self.next_rotation(), x: self.turned_x(), ..s }
        } else {
            State { rotation: self.prev_rotation, x: self.prev_x, ..s }
        }
    }

    /// The piece moved down, row by row, to the last row at which nothing
    /// stops it, and drawn there.
    pub open spec fn fallen(self) -> State
        decreases 19 - self.y,
    {
        if self.y < 19 && self.can_fall() {
            State { y: self.y + 1, ..self.probed_below() }.update_piece().fallen()
        } else {
            self.probed_below()
        }
    }

    /// The piece dropped as far as it goes and locked, and the piece
    /// `kind`, `rotation`, `x` placed as the next one.
    pub open spec fn hard_dropped(self, kind: int, rotation: int, x: int) -> State {
        self.fallen().lock_and_clear().place(kind, rotation, x)
    }

    /// This iteration is a gravity step.
    pub open spec fn gravity_due(self) -> bool {
        self.tick >= self.threshold
    }

    /// This iteration's gravity step finds the piece stopped in the top row.
    pub open spec fn tops_out(self) -> bool {
        self.gravity_due() && !self.can_fall() && self.y == 0
    }

    /// This iteration's gravity step finds the piece stopped below the top
    /// row, where it is locked.
    pub open spec fn lands(self) -> bool {
        self.gravity_due() && !self.can_fall() && self.y != 0
    }

    /// The state after one tick. Until the counter reaches the threshold it
    /// only counts. Then it starts again at zero and the piece goes down by
    /// one row; or, where it cannot, it stays if it is in the top row, and
    /// else it is locked and the piece `kind`, `rotation`, `x` is placed as
    /// the next one.
    pub open spec fn ticked(self, kind: int, rotation: int, x: int) -> State {
        if !self.gravity_due() {
            State { tick: self.tick + 1, ..self }
        } else {
            let s = State { tick: 0, ..self.probed_below() };
            if self.can_fall() {
                State { y: self.y + 1, ..s }.update_piece()
            } else if self.y == 0 {
                s
            } else {
                s.lock_and_clear().place(kind, rotation, x)
            }
        }
    }

    /// The state after the player's key was handled: the move, then the
    /// piece drawn where it now is. On `Quit` nothing changes. Where the key
    /// drops the piece, `kind`, `rotation`, `x` is placed as the next one.
    pub open spec fn after_key(self, key: Key, kind: int, rotation: int, x: int) -> State {
        match key {
            Key::Left => self.moved_left().update_piece(),
            Key::Right => self.moved_right().update_piece(),
            Key::Down => self.hard_dropped(kind, rotation, x).update_piece(),
            Key::Rotate => self.rotated().update_piece(),
            Key::Quit => self,
            Key::Nothing => self.update_piece(),
        }
    }
}

impl Game {
    /// Moves the piece one column to the left if it is not at the left edge
    /// and nothing is in the way.
    pub fn move_left(&mut self)
        requires
            old(self)@.wf(),
        ensures
            final(self)@ == old(self)@.moved_left(),
            final(self)@.wf(),
    {
        if self.x > 0 {
            let (x, y, r) = (self.x - 1, self.y, self.rotation);
            if !self.check_hit(x, y, r) {
                self.x -= 1;
            }
        }
    }

    /// Moves the piece one column to the right if it is not at the right
    /// edge and nothing is in the way.
    pub fn move_right(&mut self)
        requires
            old(self)@.wf(),
        ensures
            final(self)@ == old(self)@.moved_right(),
            final(self)@.wf(),
    {
        if self.x + width(self.kind, self.rotation) < 9 {
            let (x, y, r) = (self.x + 1, self.y, self.rotation);
            if !self.check_hit(x, y, r) {
                self.x += 1;
            }
        }
    }

    /// Turns the piece to its next rotation, pushing it left until it is
    /// within the right edge. Where it collides there, rotation and column go
    /// back to those of the shadow.
    pub fn rotate(&mut self)
        requires
            old(self)@.wf(),
            old(self)@.settled(),
        ensures
            final(self)@ == old(self)@.rotated(),
            final(self)@.wf(),
            old(self)@.can_turn() ==> final(self)@.rotation == old(self)@.next_rotation()
                && final(self)@.x <= old(self)@.x && final(self)@.x + spec_width(
                final(self)@.kind,
                final(self)@.rotation,
            ) <= 9,
            !old(self)@.can_turn() ==> final(self)@.rotation == old(self)@.rotation
                && final(self)@.x == old(self)@.x,
    {
        self.rotation = (self.rotation + 1) % 4;
        let w = width(self.kind, self.rotation);
        while self.x + w > 9
            invariant
                self@ == (State { x: self@.x, rotation: old(self)@.next_rotation(), ..old(self)@ }),
                w == spec_width(self@.kind, self@.rotation),
                w <= 3,
                old(self)@.turned_x() <= self@.x <= old(self)@.x,
                old(self)@.wf(),
            decreases self.x,
        {
            self.x -= 1;
        }
        let (x, y, r) = (self.x, self.y, self.rotation);
        if self.check_hit(x, y, r) {
            self.x = self.prev_x;
            self.rotation = self.prev_rotation;
        }
    }

    /// Moves the piece down until something stops it, locks it there, and
    /// spawns the next piece from `rng`.
    pub fn hard_drop(&mut self, rng: &mut StdRng)
        requires
            old(self)@.wf(),
            old(self).can_score(),
        ensures
            final(self)@ == old(self)@.hard_dropped(
                final(self)@.kind,
                final(self)@.rotation,
                final(self)@.x,
            ),
            State::can_place(final(self)@.kind, final(self)@.rotation, final(self)@.x),
            final(self)@.wf(),
            final(self)@.settled(),
    {
        let mut stopped = false;
        while !stopped
            invariant
                self@.wf(),
                self.can_score(),
                old(self)@.fallen() == if stopped {
                    self@
                } else {
                    self@.fallen()
                },
            decreases 20 - self.y + (if stopped { 0int } else { 1int }),
        {
            proof {
                lemma_extent_bounds(self@.kind, self@.rotation);
            }
            let (x, below, r) = (self.x, self.y + 1, self.rotation);
            if self.check_hit(x, below, r) {
                stopped = true;
            } else {
                self.y = below;
                self.update_piece();
            }
        }
        self.lock_and_clear();
        self.spawn(rng);
    }

    /// One tick of the loop. Counts up to the threshold; the tick after that
    /// starts the count again and moves the piece down by one row. Where the
    /// piece cannot go down, the game is over if it is in the top row; else
    /// the piece is locked and the next one is spawned from `rng`.
    pub fn tick(&mut self, rng: &mut StdRng) -> (status: Status)
        requires
            old(self)@.wf(),
            old(self).can_score(),
        ensures
            final(self)@ == old(self)@.ticked(
                final(self)@.kind,
                final(self)@.rotation,
                final(self)@.x,
            ),
            old(self)@.lands() ==> State::can_place(
                final(self)@.kind,
                final(self)@.rotation,
                final(self)@.x,
            ),
            status == (if old(self)@.tops_out() {
                Status::GameOver
            } else {
                Status::Running
            }),
            final(self)@.wf(),
            old(self)@.settled() ==> final(self)@.settled(),
    {
        if self.tick < self.threshold {
            self.tick += 1;
            return Status::Running;
        }
        self.tick = 0;
        proof {
            lemma_extent_bounds(self@.kind, self@.rotation);
        }
        let (x, below, r) = (self.x, self.y + 1, self.rotation);
        if self.check_hit(x, below, r) {
            if self.y == 0 {
                return Status::GameOver;
            }
            self.lock_and_clear();
            self.spawn(rng);
        } else {
            self.y = below;
            self.update_piece();
        }
        Status::Running
    }

    /// Applies the player's key and then draws the piece where it now is.
    /// On `Quit` nothing is changed.
    pub fn handle_input(&mut self, key: Key, rng: &mut StdRng) -> (status: Status)
        requires
            old(self)@.wf(),
            old(self)@.settled(),
            old(self).can_score(),
        ensures
            final(self)@ == old(self)@.after_key(
                key,
                final(self)@.kind,
                final(self)@.rotation,
                final(self)@.x,
            ),
            key == Key::Down ==> State::can_place(
                final(self)@.kind,
                final(self)@.rotation,
                final(self)@.x,
            ),
            status == (if key == Key::Quit {
                Status::Quit
            } else {
                Status::Running
            }),
            final(self)@.wf(),
            final(self)@.settled(),
    {
        match key {
            Key::Left => self.move_left(),
            Key::Right => self.move_right(),
            Key::Down => self.hard_drop(rng),
            Key::Rotate => self.rotate(),
            Key::Quit => {
                return Status::Quit;
            },
            Key::Nothing => {},
        }
        self.update_piece();
        Status::Running
    }
}

/// A dropped piece rests: it has kept its column and its rotation, it is not
/// above where it started, and it cannot go down by another row.
pub proof fn lemma_fallen_rests(s: State)
    requires
        s.wf(),
    ensures
        s.fallen().wf(),
        !s.fallen().can_fall(),
        s.fallen().y >= s.y,
        s.fallen() == (State {
            y: s.fallen().y,
            prev_rotation: s.fallen().prev_rotation,
            prev_x: s.fallen().prev_x,
            prev_y: s.fallen().prev_y,
            grid: s.fallen().grid,
            ..s
        }),
    decreases 19 - s.y,
{
    lemma_extent_bounds(s.kind, s.rotation);
    if s.y < 19 && s.can_fall() {
        let down = State { y: s.y + 1, ..s.probed_below() };
        lemma_update_piece_shows(down);
        lemma_fallen_rests(down.update_piece());
    } else {
        lemma_redraw_keeps_hit(s, s.x, s.y + 1, s.rotation);
    }
}

/// A turned piece lies within the right edge in its new rotation, at its old
/// column or to the left of it; a piece that could not turn is back in the
/// rotation and the column of the shadow.
pub proof fn lemma_rotated_fits(s: State)
    requires
        s.wf(),
        s.settled(),
    ensures
        s.rotated().wf(),
        s.can_turn() ==> s.rotated().rotation == s.next_rotation() && s.rotated().x <= s.x
            && s.rotated().x + spec_width(s.kind, s.rotated().rotation) <= 9,
        !s.can_turn() ==> s.rotated().rotation == s.rotation && s.rotated().x == s.x,
{
    lemma_extent_bounds(s.kind, s.next_rotation());
}

/// A gravity step that finds the shown piece stopped in the top row ends
/// the game and changes nothing but the tick counter.
pub proof fn lemma_top_out_keeps_board(s: State, kind: int, rotation: int, x: int)
    requires
        s.wf(),
        s.shown(),
        s.tops_out(),
    ensures
        s.ticked(kind, rotation, x) == (State { tick: 0, ..s }),
{
    lemma_probe_of_shown(s, s.y + 1, s.rotation);
}

} // verus!
