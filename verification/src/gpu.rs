pub mod gpu_stat_register;

use vstd::prelude::*;

verus! {

/// The graphics peripheral's narrow command intake. The core consumes only
/// its "accept one 32-bit command word" interface; this model records every
/// word handed over, in order, so that transfer contracts can say exactly
/// which words reached the peripheral.
pub struct Gpu {
    /// Every command word received so far, oldest first.
    pub commands: Vec<u32>,
}

impl Gpu {
    pub fn new() -> (gpu: Gpu)
        ensures
            gpu.commands@ == Seq::<u32>::empty(),
    {
        Gpu { commands: Vec::new() }
    }

    /// Accept one 32-bit command word.
    pub fn gp0(&mut self, word: u32)
        ensures
            final(self).commands@ == old(self).commands@.push(word),
    {
        self.commands.push(word);
    }
}

} // verus!
