//! Fretboard diagrams for guitar-like instruments: the selections on a
//! diagram, toggling them, laying them out, and the pitches they sound.

pub mod board;
pub mod layout;
pub mod notes;
pub mod pitch;
pub mod range;

pub use board::{Fretboard, IndexOutOfRange};
pub use layout::{Cells, GridLine, Marker};
pub use pitch::{roots, Pitch};
pub use range::Range;
