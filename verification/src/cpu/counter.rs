use vstd::prelude::*;

verus! {

/// A device that keeps its own synchronization point against the shared
/// cycle clock.
#[derive(Clone, Copy)]
pub enum Device {
    Cpu,
    Dma,
}

/// Process-wide monotonic cycle clock. Each device remembers the clock value
/// at its last synchronization point, so that time spent by one device is
/// visible to the other without any locking.
pub struct Counter {
    /// Total cycles elapsed since reset.
    pub cycles: u64,
    /// Clock value at the processor's last synchronization point.
    pub cpu_sync: u64,
    /// Clock value at the DMA engine's last synchronization point.
    pub dma_sync: u64,
}

impl Counter {
    /// Clock value at `device`'s last synchronization point.
    pub open spec fn spec_last_sync(self, device: Device) -> u64 {
        match device {
            Device::Cpu => self.cpu_sync,
            Device::Dma => self.dma_sync,
        }
    }

    /// No synchronization point lies in the future.
    pub open spec fn wf(self) -> bool {
        self.cpu_sync <= self.cycles && self.dma_sync <= self.cycles
    }

    /// Room left on the clock for every single charge the core makes: any
    /// one charge is below `u32::MAX`, so this slack can never be exhausted
    /// within one call into the core.
    pub open spec fn has_headroom(self) -> bool {
        self.cycles < 0xffff_ffff_0000_0000u64
    }

    pub fn new() -> (counter: Counter)
        ensures
            counter.cycles == 0,
            counter.cpu_sync == 0,
            counter.dma_sync == 0,
    {
        Counter { cycles: 0, cpu_sync: 0, dma_sync: 0 }
    }

    /// Advance the global clock by `amount` cycles; synchronization points
    /// are untouched.
    pub fn tick(&mut self, amount: u32)
        requires
            old(self).cycles + amount <= u64::MAX,
        ensures
            final(self).cycles == old(self).cycles + amount,
            final(self).cpu_sync == old(self).cpu_sync,
            final(self).dma_sync == old(self).dma_sync,
    {
        self.cycles = self.cycles + amount as u64;
    }

    /// Cycles elapsed since `device` last synchronized; moves that device's
    /// synchronization point up to the present. The clock itself does not
    /// advance.
    pub fn sync_and_get_elapsed_cycles(&mut self, device: Device) -> (elapsed: u64)
        requires
            old(self).wf(),
        ensures
            elapsed == old(self).cycles - old(self).spec_last_sync(device),
            final(self).cycles == old(self).cycles,
            final(self).spec_last_sync(device) == old(self).cycles,
            match device {
                Device::Cpu => final(self).dma_sync == old(self).dma_sync,
                Device::Dma => final(self).cpu_sync == old(self).cpu_sync,
            },
            final(self).wf(),
    {
        match device {
            Device::Cpu => {
                let elapsed = self.cycles - self.cpu_sync;
                self.cpu_sync = self.cycles;
                elapsed
            },
            Device::Dma => {
                let elapsed = self.cycles - self.dma_sync;
                self.dma_sync = self.cycles;
                elapsed
            },
        }
    }
}

} // verus!
