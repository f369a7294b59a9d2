//! Refresh policy for the legacy e-ink frame buffer of the Kindle 4.
//!
//! The library decides and computes; it makes no call to the device. An operation
//! says what to ask of the driver, and takes the reply (`session`). What it decides
//! by is the refresh policy (`fx`). What holds of every call, and of calls that follow each
//! other, is stated in `laws`.

pub mod abi;
pub mod bench;
pub mod cli;
pub mod eink;
pub mod fx;
pub mod laws;
pub mod session;
pub mod text;

pub use session::{
    choose_update, decide_with_state, flash_full, record, refresh, resume, screen_size,
    screen_size_reply, set_mode, updated, Pending, Request, State, Step,
};
