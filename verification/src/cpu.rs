pub mod bus;
pub mod counter;
pub mod dma;
pub mod interrupts;

use vstd::prelude::*;

use crate::cpu::bus::Bus;
use crate::cpu::dma::{spec_sweep_from, DmaFault, SweepState, DMA};

verus! {

/// Why an exception was raised; written into the exception coprocessor's
/// cause register as a numeric code.
#[derive(Clone, Copy, PartialEq, Eq, Structural, Debug)]
pub enum Cause {
    Interrupt,
    LoadAddressError,
    StoreAddressError,
    SysCall,
    Break,
    IllegalInstruction,
    CoprocessorError,
    Overflow,
}

impl Cause {
    /// The numeric code of this cause in the cause register's code field.
    pub open spec fn spec_code(self) -> u32 {
        match self {
            Cause::Interrupt => 0x0,
            Cause::LoadAddressError => 0x4,
            Cause::StoreAddressError => 0x5,
            Cause::SysCall => 0x8,
            Cause::Break => 0x9,
            Cause::IllegalInstruction => 0xa,
            Cause::CoprocessorError => 0xb,
            Cause::Overflow => 0xc,
        }
    }

    pub fn code(self) -> (r: u32)
        ensures
            r == self.spec_code(),
    {
        match self {
            Cause::Interrupt => 0x0,
            Cause::LoadAddressError => 0x4,
            Cause::StoreAddressError => 0x5,
            Cause::SysCall => 0x8,
            Cause::Break => 0x9,
            Cause::IllegalInstruction => 0xa,
            Cause::CoprocessorError => 0xb,
            Cause::Overflow => 0xc,
        }
    }
}

/// The status register after exception entry: the six-bit
/// interrupt-enable/mode stack is pushed (shifted left by two, masked back
/// to six bits); the rest of the register is untouched.
pub open spec fn spec_mode_stack_push(sr: u32) -> u32 {
    (sr & !0x3fu32) | (((sr & 0x3f) << 2) & 0x3f)
}

/// The status register after exception return: the stack is popped — bits
/// 0 to 3 take bits 2 to 5, bits 4 and 5 are kept.
pub open spec fn spec_mode_stack_pop(sr: u32) -> u32 {
    (sr & !0xfu32) | ((sr & 0x3f) >> 2)
}

/// The cause register after exception entry: the code field holds the new
/// cause, and the branch-delay flag (bit 31) records whether the fault sat
/// in a delay slot.
pub open spec fn spec_exception_cause(cause_reg: u32, cause: Cause, delay_slot: bool) -> u32 {
    let with_code = (cause_reg & !0x7cu32) | (cause.spec_code() << 2);
    if delay_slot {
        with_code | 0x8000_0000u32
    } else {
        with_code & !0x8000_0000u32
    }
}

/// The saved return address: the current program counter for a pure
/// hardware interrupt, else the faulting instruction's address; one
/// instruction earlier when the fault sat in a branch-delay slot.
pub open spec fn spec_exception_epc(pc: u32, current_pc: u32, delay_slot: bool, cause: Cause) -> u32 {
    let base = if cause == Cause::Interrupt {
        pc
    } else {
        current_pc
    };
    if delay_slot {
        base.wrapping_sub(4)
    } else {
        base
    }
}

/// The cause register after the hardware-interrupt pending bit (bit 10) is
/// driven to `active`.
pub open spec fn spec_cause_with_interrupt(cause_reg: u32, active: bool) -> u32 {
    if active {
        cause_reg | (1u32 << 10)
    } else {
        cause_reg & !(1u32 << 10)
    }
}

/// The exception coprocessor: status, cause and exception-return registers,
/// and the entry/return transitions on them.
pub struct COP0 {
    /// Status register: interrupt-enable/mode stack in the low six bits,
    /// interrupt mask in bits 8 to 15, cache and boot-vector control above.
    pub sr: u32,
    /// Cause register: exception code in bits 2 to 6, pending-interrupt
    /// bits 8 to 15, branch-delay flag in bit 31.
    pub cause: u32,
    /// Saved return address of the last exception.
    pub epc: u32,
}

impl COP0 {
    /// The boot-exception-vector select bit.
    pub open spec fn spec_bev(self) -> bool {
        (self.sr >> 22) & 0b1 == 1
    }

    pub fn bev(&self) -> (r: bool)
        ensures
            r == self.spec_bev(),
    {
        (self.sr >> 22) & 0b1 == 1
    }

    /// The cache-disable (isolate) control bit, active low.
    pub open spec fn spec_is_cache_disabled(self) -> bool {
        self.sr & 0x10000 == 0
    }

    pub fn is_cache_disabled(&self) -> (r: bool)
        ensures
            r == self.spec_is_cache_disabled(),
    {
        self.sr & 0x10000 == 0
    }

    /// Pending interrupts that the status register also unmasks.
    pub open spec fn spec_interrupt_mask(self) -> u8 {
        ((self.sr >> 8) as u8) & ((self.cause >> 8) as u8)
    }

    pub fn interrupt_mask(&self) -> (r: u8)
        ensures
            r == self.spec_interrupt_mask(),
    {
        ((self.sr >> 8) as u8) & ((self.cause >> 8) as u8)
    }

    /// An interrupt is deliverable: globally enabled and some pending
    /// source unmasked.
    pub open spec fn spec_interrupts_ready(self) -> bool {
        self.sr & 0b1 == 1 && self.spec_interrupt_mask() != 0
    }

    pub fn interrupts_ready(&self) -> (r: bool)
        ensures
            r == self.spec_interrupts_ready(),
    {
        self.sr & 0b1 == 1 && self.interrupt_mask() != 0
    }

    /// Enter an exception: push the mode stack, record the cause code, and
    /// return the vector address selected by the boot-exception bit.
    pub fn enter_exception(&mut self, cause: Cause) -> (exception_address: u32)
        ensures
            exception_address == (if old(self).spec_bev() {
                0xbfc0_0180u32
            } else {
                0x8000_0080u32
            }),
            final(self).sr == spec_mode_stack_push(old(self).sr),
            final(self).cause == (old(self).cause & !0x7cu32) | (cause.spec_code() << 2),
            final(self).epc == old(self).epc,
    {
        let exception_address: u32 = if self.bev() {
            0xbfc0_0180
        } else {
            0x8000_0080
        };
        let mode = self.sr & 0x3f;
        self.sr = self.sr & !0x3fu32;
        self.sr = self.sr | ((mode << 2) & 0x3f);
        self.cause = self.cause & !0x7cu32;
        self.cause = self.cause | (cause.code() << 2);
        exception_address
    }

    /// Return from an exception: pop the mode stack, restoring the
    /// previous interrupt-enable/mode level.
    pub fn return_from_exception(&mut self)
        ensures
            final(self).sr == spec_mode_stack_pop(old(self).sr),
            final(self).cause == old(self).cause,
            final(self).epc == old(self).epc,
    {
        let mode = self.sr & 0x3f;
        self.sr = self.sr & !0xfu32;
        self.sr = self.sr | (mode >> 2);
    }

    /// Drive the hardware-interrupt pending bit of the cause register.
    pub fn set_interrupt(&mut self, set_active: bool)
        ensures
            final(self).cause == spec_cause_with_interrupt(old(self).cause, set_active),
            final(self).sr == old(self).sr,
            final(self).epc == old(self).epc,
    {
        if set_active {
            self.cause = self.cause | (1u32 << 10);
        } else {
            self.cause = self.cause & !(1u32 << 10);
        }
    }
}

/// Exception entry pushes the six-bit interrupt-enable/mode stack left by
/// two within its field and leaves the bits above the stack untouched, and
/// the vector is fixed by the boot-exception bit alone.
pub proof fn lemma_mode_stack_push(sr: u32)
    ensures
        spec_mode_stack_push(sr) & 0x3f == ((sr & 0x3f) << 2) & 0x3f,
        spec_mode_stack_push(sr) & !0x3fu32 == sr & !0x3fu32,
{
    assert(((sr & !0x3fu32) | (((sr & 0x3f) << 2) & 0x3f)) & 0x3f == ((sr & 0x3f) << 2) & 0x3f)
        by (bit_vector);
    assert(((sr & !0x3fu32) | (((sr & 0x3f) << 2) & 0x3f)) & !0x3fu32 == sr & !0x3fu32)
        by (bit_vector);
}

/// A fault in a branch-delay slot sets the cause register's delay flag and
/// any other fault clears it, whatever the cause code; the code field holds
/// exactly the cause's code.
pub proof fn lemma_exception_cause_fields(cause_reg: u32, cause: Cause, delay_slot: bool)
    ensures
        delay_slot ==> spec_exception_cause(cause_reg, cause, delay_slot) & 0x8000_0000u32 != 0,
        !delay_slot ==> spec_exception_cause(cause_reg, cause, delay_slot) & 0x8000_0000u32 == 0,
        (spec_exception_cause(cause_reg, cause, delay_slot) >> 2) & 0x1f == cause.spec_code(),
{
    let code = cause.spec_code();
    assert(code <= 0xc);
    assert(code == code & 0x1f) by (bit_vector)
        requires
            code <= 0xc,
    ;
    assert((((cause_reg & !0x7cu32) | ((code & 0x1f) << 2)) | 0x8000_0000u32) & 0x8000_0000u32
        != 0) by (bit_vector);
    assert((((cause_reg & !0x7cu32) | ((code & 0x1f) << 2)) & !0x8000_0000u32) & 0x8000_0000u32
        == 0) by (bit_vector);
    assert(((((cause_reg & !0x7cu32) | ((code & 0x1f) << 2)) | 0x8000_0000u32) >> 2) & 0x1f == code
        & 0x1f) by (bit_vector);
    assert(((((cause_reg & !0x7cu32) | ((code & 0x1f) << 2)) & !0x8000_0000u32) >> 2) & 0x1f
        == code & 0x1f) by (bit_vector);
}

/// What one step of the core did, handed back to the host: the host owns
/// the instruction decode/execute table, so a fetched word is returned for
/// it to dispatch.
#[derive(Clone, Copy, PartialEq, Eq, Structural, Debug)]
pub enum StepAction {
    /// A DMA sweep had the bus; no instruction ran.
    DmaTransfer,
    /// A DMA gap was counted down with chopping disabled; no instruction
    /// ran.
    DmaGap,
    /// An exception redirected control; the fetched word, if any, was
    /// discarded.
    Exception(Cause),
    /// The instruction word fetched at the old program counter, to be
    /// dispatched by the decode/execute collaborator.
    Execute(u32),
}

/// The CPU execution engine: general-purpose registers, the program
/// counter pair implementing the branch-delay pipeline, the exception
/// coprocessor, the single-slot delayed-load buffer, and the bus and DMA
/// engine it arbitrates between.
pub struct CPU {
    /// Address of the instruction being executed.
    pub pc: u32,
    /// Address of the instruction after the one about to execute.
    pub next_pc: u32,
    /// Address of the instruction being executed, kept for exception
    /// reporting.
    pub current_pc: u32,
    /// The 32 general-purpose registers; register 0 is wired to zero.
    pub r: [u32; 32],
    /// The exception coprocessor.
    pub cop0: COP0,
    /// Whether the previous instruction initiated a branch.
    pub branch: bool,
    /// Whether the current instruction sits in a branch-delay slot.
    pub delay_slot: bool,
    /// Multiply/divide result registers.
    pub hi: u32,
    pub low: u32,
    /// The memory bus, carrying the shared clock, graphics intake and
    /// interrupt registers.
    pub bus: Bus,
    /// The single delayed-load slot: target register, value, remaining
    /// delay.
    pub load: Option<(usize, u32, u16)>,
    /// Per-register free-cycle accounting used by load synchronization.
    pub free_cycles: [u16; 32],
    pub free_cycles_reg: usize,
    /// The DMA engine.
    pub dma: DMA,
}

impl CPU {
    /// Register 0 reads as zero, the bus and DMA engine are well formed,
    /// and the delayed-load slot names a real register.
    pub open spec fn wf(self) -> bool {
        &&& self.r@[0] == 0
        &&& self.bus.wf()
        &&& self.dma.wf()
        &&& self.free_cycles_reg < 32
        &&& match self.load {
            Some((reg, _, _)) => reg < 32,
            None => true,
        }
    }

    /// The register file after the pending load, if any, lands; a load
    /// aimed at register 0 is discarded.
    pub open spec fn spec_committed_regs(self) -> Seq<u32> {
        match self.load {
            Some((reg, value, _)) => if reg == 0 {
                self.r@
            } else {
                self.r@.update(reg as int, value)
            },
            None => self.r@,
        }
    }

    /// A fresh core at the reset vector, with the given boot ROM image on
    /// the bus.
    pub fn new(bios: Vec<u8>) -> (cpu: CPU)
        ensures
            cpu.wf(),
            cpu.pc == 0xbfc0_0000u32,
            cpu.next_pc == 0xbfc0_0004u32,
            cpu.current_pc == 0xbfc0_0000u32,
            cpu.r@ == Seq::new(32, |i: int| 0u32),
            cpu.cop0.sr == 0 && cpu.cop0.cause == 0 && cpu.cop0.epc == 0,
            !cpu.branch && !cpu.delay_slot,
            cpu.hi == 0 && cpu.low == 0,
            cpu.load is None,
            cpu.bus.bios@ == bios@,
            cpu.bus.counter.cycles == 0,
            cpu.bus.gpu.commands@ == Seq::<u32>::empty(),
            cpu.bus.interrupts.status == 0 && cpu.bus.interrupts.mask == 0,
            cpu.dma.control == 0x0765_4321u32,
            cpu.dma.interrupt.val == 0,
            !cpu.dma.spec_is_active(),
            !cpu.dma.spec_in_gap(),
    {
        let cpu = CPU {
            pc: 0xbfc0_0000,
            next_pc: 0xbfc0_0004,
            current_pc: 0xbfc0_0000,
            r: [0; 32],
            cop0: COP0 { sr: 0, cause: 0, epc: 0 },
            branch: false,
            delay_slot: false,
            hi: 0,
            low: 0,
            bus: Bus::new(bios),
            load: None,
            free_cycles: [0; 32],
            free_cycles_reg: 0,
            dma: DMA::new(),
        };
        proof {
            assert(cpu.r@ =~= Seq::new(32, |i: int| 0u32));
        }
        cpu
    }

    /// Write `val` into register `rt` — silently discarded for register 0,
    /// which stays zero on every write path.
    pub fn set_reg(&mut self, rt: usize, val: u32)
        requires
            rt < 32,
        ensures
            final(self).r@ == (if rt == 0 {
                old(self).r@
            } else {
                old(self).r@.update(rt as int, val)
            }),
            final(self).r@[0] == old(self).r@[0],
            *final(self) == (CPU { r: final(self).r, ..*old(self) }),
    {
        if rt != 0 {
            self.r[rt] = val;
        }
    }

    /// Commit the pending delayed load, if any, into the register file and
    /// clear the slot.
    pub fn execute_load_delay(&mut self)
        requires
            old(self).wf(),
        ensures
            final(self).wf(),
            final(self).r@ == old(self).spec_committed_regs(),
            final(self).load is None,
            *final(self) == (CPU { r: final(self).r, load: None, ..*old(self) }),
    {
        match self.load {
            Some((reg, value, _)) => {
                self.load = None;
                self.set_reg(reg, value);
            },
            None => {},
        }
    }

    /// Register a delayed load: the single slot holds at most one pending
    /// load, so a load issued while another is pending first commits the
    /// older one — unless both aim at the same register, in which case the
    /// older value never becomes visible.
    pub fn delayed_load(&mut self, rt: usize, val: u32, delay: u16)
        requires
            old(self).wf(),
            rt < 32,
        ensures
            final(self).wf(),
            final(self).load == Some((rt, val, delay)),
            final(self).r@ == (match old(self).load {
                Some((reg, value, _)) => if reg == rt || reg == 0 {
                    old(self).r@
                } else {
                    old(self).r@.update(reg as int, value)
                },
                None => old(self).r@,
            }),
            *final(self) == (CPU { r: final(self).r, load: Some((rt, val, delay)), ..*old(self) }),
    {
        match self.load {
            Some((reg, value, _)) => {
                if reg != rt {
                    self.set_reg(reg, value);
                }
            },
            None => {},
        }
        self.load = Some((rt, val, delay));
    }

    /// Recompute the hardware-interrupt cause bit from the shared
    /// interrupt registers.
    pub fn check_irqs(&mut self)
        ensures
            final(self).cop0.cause == spec_cause_with_interrupt(
                old(self).cop0.cause,
                old(self).bus.interrupts.spec_pending(),
            ),
            final(self).cop0.sr == old(self).cop0.sr,
            final(self).cop0.epc == old(self).cop0.epc,
            *final(self) == (CPU { cop0: final(self).cop0, ..*old(self) }),
    {
        let pending = self.bus.interrupts.pending();
        self.cop0.set_interrupt(pending);
    }

    /// Raise an exception: enter the coprocessor's exception state, save
    /// the return address — stepping back one instruction and flagging the
    /// cause register when the fault sat in a branch-delay slot — and
    /// redirect control to the exception vector.
    pub fn exception(&mut self, cause: Cause)
        ensures
            final(self).cop0.sr == spec_mode_stack_push(old(self).cop0.sr),
            final(self).cop0.cause == spec_exception_cause(
                old(self).cop0.cause,
                cause,
                old(self).delay_slot,
            ),
            final(self).cop0.epc == spec_exception_epc(
                old(self).pc,
                old(self).current_pc,
                old(self).delay_slot,
                cause,
            ),
            final(self).pc == (if old(self).cop0.spec_bev() {
                0xbfc0_0180u32
            } else {
                0x8000_0080u32
            }),
            final(self).next_pc == final(self).pc.wrapping_add(4),
            *final(self) == (CPU {
                cop0: final(self).cop0,
                pc: final(self).pc,
                next_pc: final(self).next_pc,
                ..*old(self)
            }),
    {
        let exception_address = self.cop0.enter_exception(cause);
        self.cop0.epc = match cause {
            Cause::Interrupt => self.pc,
            _ => self.current_pc,
        };
        if self.delay_slot {
            self.cop0.epc = self.cop0.epc.wrapping_sub(4);
            self.cop0.cause = self.cop0.cause | 0x8000_0000u32;
        } else {
            self.cop0.cause = self.cop0.cause & !0x8000_0000u32;
        }
        self.pc = exception_address;
        self.next_pc = self.pc.wrapping_add(4);
    }

    /// Fetch the 32-bit instruction word at the program counter, charging
    /// the four bus cycles of an instruction fetch.
    pub fn fetch_instruction(&mut self) -> (instr: u32)
        requires
            old(self).wf(),
            old(self).bus.counter.cycles + 4 <= u64::MAX,
        ensures
            final(self).wf(),
            instr == old(self).bus.spec_read_32(old(self).pc),
            final(self).bus.counter.cycles == old(self).bus.counter.cycles + 4,
            final(self).bus.counter.cpu_sync == old(self).bus.counter.cpu_sync,
            final(self).bus.counter.dma_sync == old(self).bus.counter.dma_sync,
            *final(self) == (CPU { bus: final(self).bus, ..*old(self) }),
            final(self).bus == (Bus { counter: final(self).bus.counter, ..old(self).bus }),
    {
        self.bus.counter.tick(4);
        self.bus.mem_read_32(self.pc)
    }

    /// Charge the one cycle an instruction dispatch costs.
    pub fn tick_instruction(&mut self)
        requires
            old(self).wf(),
            old(self).bus.counter.cycles + 1 <= u64::MAX,
        ensures
            final(self).wf(),
            final(self).bus.counter.cycles == old(self).bus.counter.cycles + 1,
            final(self).bus.counter.cpu_sync == old(self).bus.counter.cpu_sync,
            final(self).bus.counter.dma_sync == old(self).bus.counter.dma_sync,
            *final(self) == (CPU { bus: final(self).bus, ..*old(self) }),
            final(self).bus == (Bus { counter: final(self).bus.counter, ..old(self).bus }),
    {
        self.bus.counter.tick(1);
    }

    /// Reset the free-cycle slot of the current load target.
    pub fn synchronize_load(&mut self)
        requires
            old(self).wf(),
        ensures
            final(self).wf(),
            final(self).free_cycles@ == old(self).free_cycles@.update(
                old(self).free_cycles_reg as int,
                0u16,
            ),
            *final(self) == (CPU { free_cycles: final(self).free_cycles, ..*old(self) }),
    {
        self.free_cycles[self.free_cycles_reg] = 0;
    }

    /// Synchronize the pending-load slot and charge the fixed bus-access
    /// latency, returning the clock value from which the access's duration
    /// is measured.
    pub fn synchronize_and_get_current_cycles(&mut self) -> (previous_cycles: u64)
        requires
            old(self).wf(),
            old(self).bus.counter.cycles + 4 <= u64::MAX,
        ensures
            final(self).wf(),
            previous_cycles == old(self).bus.counter.cycles + (if old(self).load is None {
                2int
            } else {
                0int
            }),
            final(self).bus.counter.cycles == previous_cycles + 2,
            final(self).bus.counter.cpu_sync == old(self).bus.counter.cpu_sync,
            final(self).bus.counter.dma_sync == old(self).bus.counter.dma_sync,
            final(self).free_cycles@ == old(self).free_cycles@.update(
                old(self).free_cycles_reg as int,
                0u16,
            ),
            *final(self) == (CPU {
                bus: final(self).bus,
                free_cycles: final(self).free_cycles,
                ..*old(self)
            }),
            final(self).bus == (Bus { counter: final(self).bus.counter, ..old(self).bus }),
    {
        self.synchronize_load();
        if self.load.is_none() {
            self.bus.counter.tick(2);
        }
        let previous_cycles = self.bus.counter.cycles;
        self.bus.counter.tick(2);
        previous_cycles
    }

    /// Advance emulated time by one unit of work. The DMA engine has first
    /// refusal on the bus: if a channel is mid-transfer the engine sweeps
    /// once and the CPU does not run; if a channel is pausing in a gap the
    /// gap is counted down and the CPU runs only when chopping allows it.
    /// Otherwise the CPU takes one instruction: a misaligned program
    /// counter raises an address error before anything is fetched, a
    /// deliverable interrupt preempts the fetched instruction (committing
    /// any pending delayed load first), and otherwise the pipeline
    /// advances and the fetched word is handed to the host's
    /// decode/execute collaborator.
    pub fn step(&mut self) -> (r: Result<StepAction, DmaFault>)
        requires
            old(self).wf(),
            old(self).bus.counter.has_headroom(),
        ensures
            final(self).wf(),
            final(self).bus.bios == old(self).bus.bios,
            final(self).bus.interrupts == old(self).bus.interrupts,
            final(self).bus.counter.cpu_sync == old(self).bus.counter.cpu_sync,
            ({
                let pre = *old(self);
                let dma_active = pre.dma.spec_is_active();
                let in_gap = pre.dma.spec_in_gap();
                let chopping = pre.dma.spec_chopping_enabled();
                let cpu_ran = !dma_active || (in_gap && chopping);
                &&& (dma_active && !in_gap ==> {
                    let end = spec_sweep_from(
                        pre.dma.control,
                        SweepState {
                            channels: pre.dma.channels@,
                            ram: pre.bus.ram@,
                            gpu: pre.bus.gpu.commands@,
                            count: 0,
                            fault: None,
                        },
                        0,
                    );
                    &&& final(self).dma.channels@ == end.channels
                    &&& final(self).dma.control == pre.dma.control
                    &&& final(self).dma.interrupt == pre.dma.interrupt
                    &&& final(self).bus.ram@ == end.ram
                    &&& final(self).bus.gpu.commands@ == end.gpu
                    &&& final(self).bus.counter.dma_sync == pre.bus.counter.dma_sync
                    &&& *final(self) == (CPU {
                        dma: final(self).dma,
                        bus: final(self).bus,
                        ..pre
                    })
                    &&& final(self).bus == (Bus {
                        ram: final(self).bus.ram,
                        gpu: final(self).bus.gpu,
                        counter: final(self).bus.counter,
                        ..pre.bus
                    })
                    &&& (match r {
                        Ok(action) => {
                            &&& action == StepAction::DmaTransfer
                            &&& end.fault is None
                            &&& final(self).bus.counter.cycles == pre.bus.counter.cycles
                                + end.count
                        },
                        Err(f) => {
                            &&& end.fault == Some(f)
                            &&& final(self).bus.counter.cycles == pre.bus.counter.cycles
                        },
                    })
                })
                &&& (dma_active && in_gap ==> {
                    let elapsed = (pre.bus.counter.cycles - pre.bus.counter.dma_sync) as u64;
                    &&& forall|i: int|
                        0 <= i < 7 ==> final(self).dma.channels@[i] == dma::spec_gap_drained(
                            pre.dma.channels@[i],
                            elapsed,
                        )
                    &&& final(self).dma.control == pre.dma.control
                    &&& final(self).dma.interrupt == pre.dma.interrupt
                    &&& final(self).bus.counter.dma_sync == pre.bus.counter.cycles
                })
                &&& (!dma_active ==> final(self).dma == pre.dma
                    && final(self).bus.counter.dma_sync == pre.bus.counter.dma_sync)
                &&& (dma_active && in_gap && !chopping ==> {
                    &&& r == Ok::<StepAction, DmaFault>(StepAction::DmaGap)
                    &&& final(self).bus.counter.cycles == pre.bus.counter.cycles
                    &&& final(self).bus == (Bus { counter: final(self).bus.counter, ..pre.bus })
                    &&& *final(self) == (CPU {
                        dma: final(self).dma,
                        bus: final(self).bus,
                        ..pre
                    })
                })
                &&& (cpu_ran ==> {
                    let pending = pre.bus.interrupts.spec_pending();
                    let cause_mid = spec_cause_with_interrupt(pre.cop0.cause, pending);
                    let cop0_mid = COP0 { sr: pre.cop0.sr, cause: cause_mid, epc: pre.cop0.epc };
                    let vector = if pre.cop0.spec_bev() {
                        0xbfc0_0180u32
                    } else {
                        0x8000_0080u32
                    };
                    let instr = pre.bus.spec_read_32(pre.pc);
                    &&& final(self).current_pc == pre.pc
                    &&& final(self).hi == pre.hi && final(self).low == pre.low
                    &&& final(self).bus.ram@ == pre.bus.ram@
                    &&& final(self).bus.gpu.commands@ == pre.bus.gpu.commands@
                    &&& (if pre.pc & 0b11 != 0 {
                        &&& r == Ok::<StepAction, DmaFault>(
                            StepAction::Exception(Cause::LoadAddressError),
                        )
                        &&& final(self).cop0.sr == spec_mode_stack_push(pre.cop0.sr)
                        &&& final(self).cop0.cause == spec_exception_cause(
                            pre.cop0.cause,
                            Cause::LoadAddressError,
                            pre.delay_slot,
                        )
                        &&& final(self).cop0.epc == spec_exception_epc(
                            pre.pc,
                            pre.pc,
                            pre.delay_slot,
                            Cause::LoadAddressError,
                        )
                        &&& final(self).pc == vector
                        &&& final(self).next_pc == vector.wrapping_add(4)
                        &&& final(self).r@ == pre.r@
                        &&& final(self).load == pre.load
                        &&& final(self).branch == pre.branch
                        &&& final(self).delay_slot == pre.delay_slot
                        &&& final(self).bus.counter.cycles == pre.bus.counter.cycles
                    } else if cop0_mid.spec_interrupts_ready() {
                        &&& r == Ok::<StepAction, DmaFault>(StepAction::Exception(Cause::Interrupt))
                        &&& final(self).cop0.sr == spec_mode_stack_push(pre.cop0.sr)
                        &&& final(self).cop0.cause == spec_exception_cause(
                            cause_mid,
                            Cause::Interrupt,
                            pre.delay_slot,
                        )
                        &&& final(self).cop0.epc == spec_exception_epc(
                            pre.pc,
                            pre.pc,
                            pre.delay_slot,
                            Cause::Interrupt,
                        )
                        &&& final(self).pc == vector
                        &&& final(self).next_pc == vector.wrapping_add(4)
                        &&& final(self).r@ == pre.spec_committed_regs()
                        &&& final(self).load is None
                        &&& final(self).branch == pre.branch
                        &&& final(self).delay_slot == pre.delay_slot
                        &&& final(self).bus.counter.cycles == pre.bus.counter.cycles + 4
                    } else {
                        &&& r == Ok::<StepAction, DmaFault>(StepAction::Execute(instr))
                        &&& final(self).cop0 == cop0_mid
                        &&& final(self).pc == pre.next_pc
                        &&& final(self).next_pc == pre.next_pc.wrapping_add(4)
                        &&& final(self).r@ == pre.r@
                        &&& final(self).load == pre.load
                        &&& final(self).branch == false
                        &&& final(self).delay_slot == pre.branch
                        &&& final(self).bus.counter.cycles == pre.bus.counter.cycles + 5
                    })
                })
            }),
    {
        let ghost pre = *self;
        if self.dma.is_active() {
            if self.dma.in_gap() {
                self.dma.tick_gap(&mut self.bus.counter);
                proof {
                    assert forall|i: int|
                        0 <= i < 7 implies ((#[trigger] self.dma.channels@[i]).spec_is_active()
                        == pre.dma.channels@[i].spec_is_active() && self.dma.channels@[i].control
                        == pre.dma.channels@[i].control) by {
                        assert(self.dma.channels@[i] == dma::spec_gap_drained(
                            pre.dma.channels@[i],
                            (pre.bus.counter.cycles - pre.bus.counter.dma_sync) as u64,
                        ));
                    }
                    assert(self.dma.spec_chopping_enabled() == pre.dma.spec_chopping_enabled())
                        by {
                        if self.dma.spec_chopping_enabled() {
                            let i = choose|i: int|
                                0 <= i < 7 && (#[trigger] self.dma.channels@[i]).spec_is_active()
                                    && self.dma.channels@[i].control.spec_chopping_enabled();
                            assert(pre.dma.channels@[i].spec_is_active()
                                && pre.dma.channels@[i].control.spec_chopping_enabled());
                        }
                        if pre.dma.spec_chopping_enabled() {
                            let i = choose|i: int|
                                0 <= i < 7 && (#[trigger] pre.dma.channels@[i]).spec_is_active()
                                    && pre.dma.channels@[i].control.spec_chopping_enabled();
                            assert(self.dma.channels@[i].spec_is_active()
                                && self.dma.channels@[i].control.spec_chopping_enabled());
                        }
                    }
                }
                if !self.dma.chopping_enabled() {
                    return Ok(StepAction::DmaGap);
                }
            } else {
                match self.dma.tick(&mut self.bus) {
                    Ok(count) => {
                        self.bus.counter.tick(count);
                        return Ok(StepAction::DmaTransfer);
                    },
                    Err(f) => {
                        return Err(f);
                    },
                }
            }
        }
        self.current_pc = self.pc;
        if self.current_pc & 0b11 != 0 {
            self.exception(Cause::LoadAddressError);
            return Ok(StepAction::Exception(Cause::LoadAddressError));
        }
        self.check_irqs();
        let instr = self.fetch_instruction();
        if self.cop0.interrupts_ready() {
            self.exception(Cause::Interrupt);
            self.execute_load_delay();
            return Ok(StepAction::Exception(Cause::Interrupt));
        }
        self.delay_slot = self.branch;
        self.branch = false;
        self.pc = self.next_pc;
        self.next_pc = self.next_pc.wrapping_add(4);
        self.tick_instruction();
        Ok(StepAction::Execute(instr))
    }

    /// Store a 32-bit word: addresses in the DMA register window go to the
    /// DMA engine — where an undecoded offset or a rejected control write
    /// is a fault — and every other address goes to the bus.
    pub fn store_32(&mut self, address: u32, value: u32) -> (r: Result<(), DmaFault>)
        requires
            old(self).wf(),
        ensures
            final(self).wf(),
            ({
                let physical = bus::spec_translate_address(address);
                if 0x1f80_1080 <= physical <= 0x1f80_10ff {
                    &&& final(self).bus == old(self).bus
                    &&& (match r {
                        Ok(()) => dma::spec_register_write_post(
                            old(self).dma,
                            final(self).dma,
                            physical,
                            value,
                        ) && *final(self) == (CPU { dma: final(self).dma, ..*old(self) }),
                        Err(_) => *final(self) == *old(self),
                    })
                    &&& (r is Ok <==> dma::spec_register_write_ok(old(self).dma, physical, value))
                } else {
                    &&& r is Ok
                    &&& final(self).bus.ram@ == old(self).bus.spec_write_32(physical, value)
                    &&& final(self).bus == (Bus { ram: final(self).bus.ram, ..old(self).bus })
                    &&& *final(self) == (CPU { bus: final(self).bus, ..*old(self) })
                }
            }),
    {
        let physical = Bus::translate_address(address);
        if 0x1f80_1080 <= physical && physical <= 0x1f80_10ff {
            match self.dma.write(physical, value) {
                Ok(()) => Ok(()),
                Err(f) => Err(f),
            }
        } else {
            self.bus.mem_write_32(physical, value);
            Ok(())
        }
    }

    /// Load a 32-bit word and the duration of the access: addresses in the
    /// DMA register window read the DMA engine's registers — where an
    /// undecoded offset is a fault — and every other address reads the
    /// bus.
    pub fn load_32(&mut self, address: u32) -> (r: Result<(u32, u16), DmaFault>)
        requires
            old(self).wf(),
            old(self).bus.counter.cycles + 4 <= u64::MAX,
        ensures
            final(self).wf(),
            final(self).bus.counter.cycles == old(self).bus.counter.cycles + (if old(
                self,
            ).load is None {
                4int
            } else {
                2int
            }),
            final(self).free_cycles@ == old(self).free_cycles@.update(
                old(self).free_cycles_reg as int,
                0u16,
            ),
            *final(self) == (CPU {
                bus: final(self).bus,
                free_cycles: final(self).free_cycles,
                ..*old(self)
            }),
            final(self).bus == (Bus { counter: final(self).bus.counter, ..old(self).bus }),
            ({
                let physical = bus::spec_translate_address(address);
                if 0x1f80_1080 <= physical <= 0x1f80_10ff {
                    match r {
                        Ok((value, duration)) => old(self).dma.spec_register_read(physical)
                            == Some(value) && duration == 2,
                        Err(_) => old(self).dma.spec_register_read(physical) is None,
                    }
                } else {
                    r == Ok::<(u32, u16), DmaFault>(
                        (old(self).bus.spec_read_32(physical), 2u16),
                    )
                }
            }),
    {
        let previous_cycles = self.synchronize_and_get_current_cycles();
        let physical = Bus::translate_address(address);
        let result: Result<u32, DmaFault> = if 0x1f80_1080 <= physical && physical <= 0x1f80_10ff {
            self.dma.read(physical)
        } else {
            Ok(self.bus.mem_read_32(physical))
        };
        let duration = (self.bus.counter.cycles - previous_cycles) as u16;
        match result {
            Ok(value) => Ok((value, duration)),
            Err(f) => Err(f),
        }
    }

    /// Load a halfword and the duration of the access.
    pub fn load_16(&mut self, address: u32) -> (r: (u16, u16))
        requires
            old(self).wf(),
            old(self).bus.counter.cycles + 4 <= u64::MAX,
        ensures
            final(self).wf(),
            r.0 == old(self).bus.spec_read_16(address),
            r.1 == 2,
            final(self).bus.counter.cycles == old(self).bus.counter.cycles + (if old(
                self,
            ).load is None {
                4int
            } else {
                2int
            }),
            final(self).free_cycles@ == old(self).free_cycles@.update(
                old(self).free_cycles_reg as int,
                0u16,
            ),
            *final(self) == (CPU {
                bus: final(self).bus,
                free_cycles: final(self).free_cycles,
                ..*old(self)
            }),
            final(self).bus == (Bus { counter: final(self).bus.counter, ..old(self).bus }),
    {
        let previous_cycles = self.synchronize_and_get_current_cycles();
        let result = self.bus.mem_read_16(address);
        let duration = (self.bus.counter.cycles - previous_cycles) as u16;
        (result, duration)
    }

    /// Load a byte and the duration of the access.
    pub fn load_8(&mut self, address: u32) -> (r: (u8, u16))
        requires
            old(self).wf(),
            old(self).bus.counter.cycles + 4 <= u64::MAX,
        ensures
            final(self).wf(),
            r.0 == old(self).bus.spec_read_8(address),
            r.1 == 2,
            final(self).bus.counter.cycles == old(self).bus.counter.cycles + (if old(
                self,
            ).load is None {
                4int
            } else {
                2int
            }),
            final(self).free_cycles@ == old(self).free_cycles@.update(
                old(self).free_cycles_reg as int,
                0u16,
            ),
            *final(self) == (CPU {
                bus: final(self).bus,
                free_cycles: final(self).free_cycles,
                ..*old(self)
            }),
            final(self).bus == (Bus { counter: final(self).bus.counter, ..old(self).bus }),
    {
        let previous_cycles = self.synchronize_and_get_current_cycles();
        let result = self.bus.mem_read_8(address);
        let duration = (self.bus.counter.cycles - previous_cycles) as u16;
        (result, duration)
    }
}

} // verus!
