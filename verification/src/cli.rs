//! What the command-line tools read, compute and print.

pub mod aggregation;
pub mod input;
pub mod output;
pub mod signing;
