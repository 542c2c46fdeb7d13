//! Verified core of the bracket-terminal hardware abstraction layer: the index,
//! layout and bookkeeping logic that the rendering back-ends run around their
//! GPU, terminal and window calls.
pub mod quad;
pub mod term;
pub mod zorder;
pub mod backing;
pub mod builder;
pub mod input;
mod seqs;
pub mod timing;
pub mod layout;
pub mod grid;
pub mod font;
pub mod curses;
pub mod dummy;
