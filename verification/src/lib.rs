//! Validation of the command line of a world generator: exact decimal
//! coordinates, bounding boxes, timeouts and the rules that turn the options
//! given on a command line into a configuration.

pub mod args;
pub mod bbox;
pub mod decimal;
pub mod digits;
pub mod duration;
pub mod integer;
pub mod laws;
pub mod literal;
pub mod number;
pub mod scale;
pub mod text;
