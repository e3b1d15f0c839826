//! Event multiplexing and translation for remapping input devices.
//!
//! Raw events of grabbed input devices come in, a small remapping policy
//! decides what each of them turns into, and the result leaves as events
//! for one synthetic device. This library is the pipeline's logic: it does
//! no input or output of its own, and proves what it decides.

pub mod codes;
pub mod destdev;
pub mod error;
pub mod evenger;
pub mod event;
pub mod muxer;
pub mod registry;
pub mod rule;
pub mod srcdev;
pub mod text;

pub use crate::error::Error;
pub use crate::evenger::Evenger;
