//! Line, word, byte and character counts of a text, the choice of counts
//! that command-line flags make, and the report built from them.

pub mod counting;
pub mod options;
pub mod args;
