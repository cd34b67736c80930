//! What the execution engine needs of a parsed program: its entry point,
//! and the frames in which variables are looked up.
pub mod frame;
pub mod program;
