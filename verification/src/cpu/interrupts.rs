use vstd::prelude::*;

verus! {

/// The shared hardware interrupt registers: a status word of pending flags
/// and a mask word of enabled sources. Peripherals set status bits; the CPU
/// polls `pending` once per step to drive the exception coprocessor's
/// hardware-interrupt cause bit.
pub struct InterruptRegisters {
    /// Pending interrupt flags, one bit per source.
    pub status: u32,
    /// Enabled interrupt sources, one bit per source.
    pub mask: u32,
}

impl InterruptRegisters {
    /// Some pending interrupt source is enabled.
    pub open spec fn spec_pending(self) -> bool {
        self.status & self.mask != 0
    }

    pub fn new() -> (regs: InterruptRegisters)
        ensures
            regs.status == 0,
            regs.mask == 0,
    {
        InterruptRegisters { status: 0, mask: 0 }
    }

    /// Whether any enabled interrupt source is pending.
    pub fn pending(&self) -> (r: bool)
        ensures
            r == self.spec_pending(),
    {
        self.status & self.mask != 0
    }

    /// Raise the pending flag of one interrupt source.
    pub fn set_flag(&mut self, source: u32)
        requires
            source < 32,
        ensures
            final(self).status == old(self).status | (1u32 << source),
            final(self).mask == old(self).mask,
    {
        self.status = self.status | (1u32 << source);
    }

    /// Acknowledge (clear) the pending flag of one interrupt source.
    pub fn clear_flag(&mut self, source: u32)
        requires
            source < 32,
        ensures
            final(self).status == old(self).status & !(1u32 << source),
            final(self).mask == old(self).mask,
    {
        self.status = self.status & !(1u32 << source);
    }
}

} // verus!
