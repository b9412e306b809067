use vstd::prelude::*;

use crate::cpu::counter::Counter;
use crate::cpu::interrupts::InterruptRegisters;
use crate::gpu::Gpu;

verus! {

/// Number of 32-bit words of main RAM (2 MiB).
pub const RAM_WORDS: usize = 0x8_0000;

/// First physical address of the boot ROM window.
pub const BIOS_START: u32 = 0x1fc0_0000;

/// First physical address past the boot ROM window (512 KiB wide).
pub const BIOS_END: u32 = 0x1fc8_0000;

/// The memory bus. Main RAM is held as an array of 32-bit words, the boot
/// ROM as the byte image handed to the constructor. Reads of any address
/// outside those two windows return 0 and writes there are discarded (an
/// open bus); the core itself routes DMA register addresses before they
/// reach the bus. The bus also carries the shared cycle counter, the
/// graphics command intake and the interrupt registers.
pub struct Bus {
    /// Main RAM, word-addressed.
    pub ram: Vec<u32>,
    /// Boot ROM image, byte-addressed, mapped at `BIOS_START`.
    pub bios: Vec<u8>,
    /// The shared cycle clock.
    pub counter: Counter,
    /// The graphics peripheral's command intake.
    pub gpu: Gpu,
    /// The shared interrupt registers.
    pub interrupts: InterruptRegisters,
}

/// Physical address of a virtual address: the two cached/uncached mirror
/// segments in the upper half of the address space map down onto the low
/// 512 MiB; every other address maps to itself.
pub open spec fn spec_translate_address(address: u32) -> u32 {
    if (address >> 29) == 4 || (address >> 29) == 5 {
        address & 0x1fff_ffff
    } else {
        address
    }
}

/// RAM word index of a physical address in the RAM window: the address is
/// masked to the 2 MiB range and to word alignment.
pub open spec fn spec_ram_index(physical: u32) -> int {
    ((physical & 0x1f_fffc) >> 2) as int
}

/// One byte of the ROM image; bytes past its end read as 0.
pub open spec fn spec_bios_byte(bios: Seq<u8>, offset: int) -> u8 {
    if 0 <= offset < bios.len() {
        bios[offset]
    } else {
        0
    }
}

/// Little-endian 32-bit word of the ROM image at a byte offset.
pub open spec fn spec_bios_word(bios: Seq<u8>, offset: int) -> u32 {
    (spec_bios_byte(bios, offset) as u32) | ((spec_bios_byte(bios, offset + 1) as u32) << 8) | ((
    spec_bios_byte(bios, offset + 2) as u32) << 16) | ((spec_bios_byte(bios, offset + 3) as u32)
        << 24)
}

/// Addresses masked into the word-aligned RAM window translate to
/// themselves and land inside RAM.
pub proof fn lemma_masked_ram_window(address: u32)
    ensures
        spec_translate_address(address & 0x1f_fffc) == address & 0x1f_fffc,
        (address & 0x1f_fffc) < 0x20_0000,
{
    assert(((address & 0x1f_fffc) >> 29) != 4 && ((address & 0x1f_fffc) >> 29) != 5 && (address
        & 0x1f_fffc) < 0x20_0000) by (bit_vector);
}

impl Bus {
    /// RAM has its full size; the clock is well formed.
    pub open spec fn wf(self) -> bool {
        self.ram@.len() == RAM_WORDS && self.counter.wf()
    }

    /// The 32-bit word a read of `address` returns.
    pub open spec fn spec_read_32(self, address: u32) -> u32 {
        let physical = spec_translate_address(address);
        if physical < 0x20_0000 {
            self.ram@[spec_ram_index(physical)]
        } else if BIOS_START <= physical < BIOS_END {
            spec_bios_word(self.bios@, (((physical - BIOS_START) as u32) & 0xffff_fffc) as int)
        } else {
            0
        }
    }

    /// The byte a read of `address` returns: within a RAM word, bytes are
    /// little-endian.
    pub open spec fn spec_read_8(self, address: u32) -> u8 {
        let physical = spec_translate_address(address);
        if physical < 0x20_0000 {
            (((self.ram@[spec_ram_index(physical)] >> ((physical % 4) * 8)) & 0xff)) as u8
        } else if BIOS_START <= physical < BIOS_END {
            spec_bios_byte(self.bios@, (physical - BIOS_START) as int)
        } else {
            0
        }
    }

    /// The halfword a read of `address` returns: two consecutive bytes,
    /// little-endian.
    pub open spec fn spec_read_16(self, address: u32) -> u16 {
        (self.spec_read_8(address) as u16) | ((self.spec_read_8(address.wrapping_add(1)) as u16)
            << 8)
    }

    /// RAM contents after a 32-bit write to `address`; writes outside the
    /// RAM window change nothing.
    pub open spec fn spec_write_32(self, address: u32, value: u32) -> Seq<u32> {
        let physical = spec_translate_address(address);
        if physical < 0x20_0000 {
            self.ram@.update(spec_ram_index(physical), value)
        } else {
            self.ram@
        }
    }

    /// A fresh bus: RAM zeroed, the given ROM image, clock at zero, no
    /// command words received, no interrupts pending.
    pub fn new(bios: Vec<u8>) -> (bus: Bus)
        ensures
            bus.wf(),
            bus.ram@ == Seq::new(RAM_WORDS as nat, |i: int| 0u32),
            bus.bios@ == bios@,
            bus.counter.cycles == 0,
            bus.counter.cpu_sync == 0,
            bus.counter.dma_sync == 0,
            bus.gpu.commands@ == Seq::<u32>::empty(),
            bus.interrupts.status == 0,
            bus.interrupts.mask == 0,
    {
        let mut ram: Vec<u32> = Vec::new();
        let mut i: usize = 0;
        while i < RAM_WORDS
            invariant
                i <= RAM_WORDS,
                ram@ =~= Seq::new(i as nat, |j: int| 0u32),
            decreases RAM_WORDS - i,
        {
            ram.push(0);
            i = i + 1;
        }
        proof {
            assert(ram@ =~= Seq::new(RAM_WORDS as nat, |i: int| 0u32));
        }
        Bus {
            ram,
            bios,
            counter: Counter::new(),
            gpu: Gpu::new(),
            interrupts: InterruptRegisters::new(),
        }
    }

    /// Map a virtual address to its physical address.
    pub fn translate_address(address: u32) -> (physical: u32)
        ensures
            physical == spec_translate_address(address),
    {
        if (address >> 29) == 4 || (address >> 29) == 5 {
            address & 0x1fff_ffff
        } else {
            address
        }
    }

    /// Read the aligned 32-bit word containing `address`.
    pub fn mem_read_32(&self, address: u32) -> (word: u32)
        requires
            self.wf(),
        ensures
            word == self.spec_read_32(address),
    {
        let physical = Bus::translate_address(address);
        if physical < 0x20_0000 {
            let index: usize = ((physical & 0x1f_fffc) >> 2) as usize;
            proof {
                assert(((physical & 0x1f_fffc) >> 2) < 0x8_0000) by (bit_vector);
            }
            self.ram[index]
        } else if BIOS_START <= physical && physical < BIOS_END {
            let delta = physical - BIOS_START;
            let offset = delta & 0xffff_fffc;
            proof {
                assert((delta & 0xffff_fffc) <= delta) by (bit_vector);
            }
            (self.bios_byte(offset) as u32) | ((self.bios_byte(offset + 1) as u32) << 8) | ((
            self.bios_byte(offset + 2) as u32) << 16) | ((self.bios_byte(offset + 3) as u32) << 24)
        } else {
            0
        }
    }

    /// Read the byte at `address`.
    pub fn mem_read_8(&self, address: u32) -> (byte: u8)
        requires
            self.wf(),
        ensures
            byte == self.spec_read_8(address),
    {
        let physical = Bus::translate_address(address);
        if physical < 0x20_0000 {
            let index: usize = ((physical & 0x1f_fffc) >> 2) as usize;
            proof {
                assert(((physical & 0x1f_fffc) >> 2) < 0x8_0000) by (bit_vector);
            }
            (((self.ram[index] >> ((physical % 4) * 8)) & 0xff)) as u8
        } else if BIOS_START <= physical && physical < BIOS_END {
            self.bios_byte(physical - BIOS_START)
        } else {
            0
        }
    }

    /// Read the halfword at `address`, little-endian.
    pub fn mem_read_16(&self, address: u32) -> (half: u16)
        requires
            self.wf(),
        ensures
            half == self.spec_read_16(address),
    {
        (self.mem_read_8(address) as u16) | ((self.mem_read_8(address.wrapping_add(1)) as u16) << 8)
    }

    /// Write a 32-bit word at `address`; only RAM is writable.
    pub fn mem_write_32(&mut self, address: u32, value: u32)
        requires
            old(self).wf(),
        ensures
            final(self).wf(),
            final(self).ram@ == old(self).spec_write_32(address, value),
            final(self).bios == old(self).bios,
            final(self).counter == old(self).counter,
            final(self).gpu == old(self).gpu,
            final(self).interrupts == old(self).interrupts,
    {
        let physical = Bus::translate_address(address);
        if physical < 0x20_0000 {
            let index: usize = ((physical & 0x1f_fffc) >> 2) as usize;
            proof {
                assert(((physical & 0x1f_fffc) >> 2) < 0x8_0000) by (bit_vector);
            }
            self.ram[index] = value;
        }
    }

    fn bios_byte(&self, offset: u32) -> (byte: u8)
        ensures
            byte == spec_bios_byte(self.bios@, offset as int),
    {
        if (offset as usize) < self.bios.len() {
            self.bios[offset as usize]
        } else {
            0
        }
    }
}

} // verus!
