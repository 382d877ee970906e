//! Capabilities: what a monitor declared it can do, read on Re-check and kept by device
//! path. The entry is what the config stores; how it is read is the hardware module's
//! business.

use vstd::prelude::*;

verus! {

/// VCP code 0xD6 value a monitor must accept as a write for the app to wake it.
pub const POWER_MODE_AWAKE: u32 = 1;

/// One monitor's capabilities, as last read.
#[derive(Debug, Clone, PartialEq, Eq)]
pub struct Capabilities {
    /// When the read ran, as the script's local ISO 8601 timestamp.
    pub read_at: String,
    /// Whether the monitor answered the capabilities request at all. False means the rest
    /// is empty and the monitor is treated as it was before the read.
    pub answered: bool,
    /// The input source codes (VCP 0x60) the monitor declares it accepts.
    pub input_codes: Vec<u32>,
    /// The power mode values (VCP 0xD6) the monitor declares it accepts as a write.
    pub power_modes: Vec<u32>,
    /// The modes Windows lists for the monitor, largest first, without duplicates.
    pub modes: Vec<Mode>,
    /// The capabilities string as the monitor sent it, for diagnostics.
    pub raw: String,
}

/// One display mode Windows lists: a resolution at a refresh rate.
#[derive(Debug, Clone, Copy, PartialEq, Eq, Structural)]
pub struct Mode {
    pub width: u32,
    pub height: u32,
    pub hz: u32,
}

/// The app can wake the monitor: it answered, and declared the awake power mode
/// writable.
pub open spec fn wakeable(c: Capabilities) -> bool {
    c.answered && c.power_modes@.contains(POWER_MODE_AWAKE)
}

impl Capabilities {
    /// Whether the app can wake the monitor over DDC-CI: it declared the awake power mode
    /// writable. Unknown until a read answered, and false for a monitor that declares
    /// other modes only.
    pub fn can_wake(&self) -> (r: bool)
        ensures
            r == wakeable(*self),
    {
        if !self.answered {
            return false;
        }
        let mut i: usize = 0;
        while i < self.power_modes.len()
            invariant
                self.answered,
                i <= self.power_modes.len(),
                forall|k: int| 0 <= k < i ==> self.power_modes@[k] != POWER_MODE_AWAKE,
            decreases self.power_modes.len() - i,
        {
            if self.power_modes[i] == POWER_MODE_AWAKE {
                assert(self.power_modes@[i as int] == POWER_MODE_AWAKE);
                assert(self.power_modes@.contains(POWER_MODE_AWAKE));
                return true;
            }
            i = i + 1;
        }
        false
    }
}

} // verus!
