//! What the operations promise their callers.
//!
//! Each law takes the arguments and the results of one or more calls and says how they
//! relate, in terms of the values themselves.

pub mod bench;
pub mod border;
pub mod options;
pub mod refresh;
pub mod text;
