//! Buffer bookkeeping and streaming decisions for memory-mapped and
//! user-pointer video capture, plus control-request validation.
//!
//! The library performs no device I/O. Each operation is split into the
//! request the caller must issue against its device handle and the update that
//! records the device's answer, so every decision is checked here while the
//! caller stays a thin loop around the handle.

pub mod control;
pub mod ctrl_name;
pub mod device;
pub mod mmap_arena;
pub mod stream;
pub mod user_arena;
