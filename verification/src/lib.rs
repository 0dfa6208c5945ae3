//! A falling-block puzzle on a grid of twenty rows and ten columns: the
//! tetromino table, the board and the live piece, collision detection, line
//! clearing, and the rules that one iteration of the game loop applies.

pub mod shapes;
pub mod grid;
pub mod state;
pub mod dice;
pub mod game;
pub mod play;
