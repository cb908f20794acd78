use vstd::prelude::*;

verus! {

/// The OS error code a device handle reports once the device is gone
/// (unplugged, or its USB/PCI link broke down). Linux's `ENODEV`.
pub const ENODEV: i32 = 19;

/// Where the memory behind a buffer comes from.
#[derive(Clone, Copy, Debug, PartialEq, Eq, Structural)]
pub enum Memory {
    Mmap,
    UserPtr,
}

/// A buffer-count negotiation to issue against the device handle.
#[derive(Clone, Copy, Debug, PartialEq, Eq, Structural)]
pub struct BufferRequest {
    pub buf_type: u32,
    pub memory: Memory,
    pub count: u32,
}

/// What to do when an implicit release at teardown failed.
#[derive(Clone, Copy, Debug, PartialEq, Eq, Structural)]
pub enum Teardown {
    /// The device is gone and dropped its references: nothing can be corrupted.
    Ignore,
    /// A mapping may be left without an owner: the process must stop at once.
    Abort,
}

/// The verdict on a failed implicit release, given the OS error code of the
/// failure, if it had one. Only a vanished device is forgiven.
pub fn teardown_verdict(code: Option<i32>) -> (t: Teardown)
    ensures
        t == (if code == Some(ENODEV) { Teardown::Ignore } else { Teardown::Abort }),
{
    match code {
        Some(c) => if c == ENODEV { Teardown::Ignore } else { Teardown::Abort },
        None => Teardown::Abort,
    }
}

} // verus!
