//! Host-side control state shared with the deployment loop.

use vstd::prelude::*;

verus! {

/// Lifecycle flags of the host's device link. A deployment loop shares them
/// across its reader and writer threads behind a lock of its own; the flags
/// themselves are plain state.
#[derive(Clone, Copy, PartialEq, Eq, Structural, Debug)]
pub struct HidControlFlags {
    /// The loop was asked to stop.
    pub shutdown: bool,
    /// A device is attached.
    pub connected: bool,
    /// The device finished its handshake.
    pub initialized: bool,
}

impl HidControlFlags {
    /// All flags down: running, detached, uninitialized.
    pub fn new() -> (r: HidControlFlags)
        ensures
            r == (HidControlFlags { shutdown: false, connected: false, initialized: false }),
    {
        HidControlFlags { shutdown: false, connected: false, initialized: false }
    }

    /// Whether the loop was asked to stop.
    pub fn is_shutdown(&self) -> (r: bool)
        ensures
            r == self.shutdown,
    {
        self.shutdown
    }

    /// Ask the loop to stop.
    pub fn shutdown(&mut self)
        ensures
            *final(self) == (HidControlFlags { shutdown: true, ..*old(self) }),
    {
        self.shutdown = true;
    }

    /// Clear the stop request.
    pub fn startup(&mut self)
        ensures
            *final(self) == (HidControlFlags { shutdown: false, ..*old(self) }),
    {
        self.shutdown = false;
    }

    /// Whether a device is attached.
    pub fn is_connected(&self) -> (r: bool)
        ensures
            r == self.connected,
    {
        self.connected
    }

    /// Record that a device attached.
    pub fn connect(&mut self)
        ensures
            *final(self) == (HidControlFlags { connected: true, ..*old(self) }),
    {
        self.connected = true;
    }

    /// Record that the device detached.
    pub fn disconnect(&mut self)
        ensures
            *final(self) == (HidControlFlags { connected: false, ..*old(self) }),
    {
        self.connected = false;
    }

    /// Whether the device finished its handshake.
    pub fn is_initialized(&self) -> (r: bool)
        ensures
            r == self.initialized,
    {
        self.initialized
    }

    /// Record whether the device finished its handshake.
    pub fn initialize(&mut self, status: bool)
        ensures
            *final(self) == (HidControlFlags { initialized: status, ..*old(self) }),
    {
        self.initialized = status;
    }
}

} // verus!
