//! The back-end used when no graphical or terminal back-end is built: it
//! accepts a terminal and a game state and does nothing with them.
use vstd::prelude::*;

verus! {

/// Runs nothing: with no back-end there is no loop to run.
pub fn main_loop<B, G>(_bterm: B, _gamestate: G) {
}

} // verus!
