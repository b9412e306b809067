use vstd::prelude::*;

verus! {

/// The DMA master interrupt register: per-channel and master enable bits in
/// the low three bytes, per-channel flag bits in the high byte.
#[derive(Clone, Copy, PartialEq, Eq, Structural)]
pub struct DmaInterrupt {
    pub val: u32,
}

impl DmaInterrupt {
    /// The register after a guest write: the low 24 bits are stored as
    /// written, a 1 written to one of the seven channel-flag bits
    /// acknowledges (clears) that flag, and the master flag bit is
    /// read-only.
    pub open spec fn spec_written(self, value: u32) -> u32 {
        (value & 0x00ff_ffff) | (self.val & 0xff00_0000 & !(value & 0x7f00_0000))
    }

    pub fn new() -> (interrupt: DmaInterrupt)
        ensures
            interrupt.val == 0,
    {
        DmaInterrupt { val: 0 }
    }

    pub fn write(&mut self, value: u32)
        ensures
            final(self).val == old(self).spec_written(value),
    {
        self.val = (value & 0x00ff_ffff) | (self.val & 0xff00_0000 & !(value & 0x7f00_0000));
    }
}

} // verus!
