//! A discrete-time PID controller over decimal fixed-point numbers.

pub mod fixed;
pub mod pid;

pub use fixed::{Fixed, SCALE};
pub use pid::{truncate_pos_or_neg, Pid, PidTerms, Step};
