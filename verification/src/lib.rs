//! A heartbeat-driven dataflow scheduler for computation nodes placed on a
//! hexagonal grid.
//!
//! Nodes are wired to their neighbours by direction, requested once per
//! heartbeat, and fired frame by frame as soon as every wired input holds a
//! result. Numbers are held as bit patterns; the arithmetic on them comes
//! from the program that hosts the board.
//!
//! Every function of this crate is verified; the few calls into `hexx` are
//! stated as contracts on small wrappers in the modules `hex` and `tile`.

pub mod arith;
pub mod board;
pub mod dispatch;
pub mod effects;
pub mod eval;
pub mod eval_entity;
pub mod eval_list;
pub mod eval_math;
pub mod eval_weapon;
pub mod hex;
pub mod inputs;
pub mod kinds;
pub mod laws;
pub mod node;
pub mod ports;
pub mod reach;
pub mod registry;
pub mod sched;
pub mod tile;
pub mod value;
