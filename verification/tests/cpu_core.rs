use psx_core::cpu::{Cause, StepAction, CPU, COP0};

fn nop_bios() -> Vec<u8> {
    // eight NOP words at the reset vector
    vec![0u8; 32]
}

#[test]
fn register_zero_ignores_writes() {
    let mut cpu = CPU::new(nop_bios());
    cpu.set_reg(0, 0xdead_beef);
    assert_eq!(cpu.r[0], 0);
    cpu.set_reg(0, 0xffff_ffff);
    assert_eq!(cpu.r[0], 0);
    cpu.set_reg(5, 0x1234_5678);
    assert_eq!(cpu.r[5], 0x1234_5678);
    assert_eq!(cpu.r[0], 0);
}

#[test]
fn reset_state_and_first_step_executes_nop() {
    let mut cpu = CPU::new(nop_bios());
    assert_eq!(cpu.pc, 0xbfc0_0000);
    assert_eq!(cpu.next_pc, 0xbfc0_0004);
    let action = cpu.step().unwrap();
    assert_eq!(action, StepAction::Execute(0x0000_0000));
    assert_eq!(cpu.pc, 0xbfc0_0004);
    assert_eq!(cpu.next_pc, 0xbfc0_0008);
    for i in 0..32 {
        assert_eq!(cpu.r[i], 0);
    }
}

#[test]
fn bios_words_are_fetched_little_endian() {
    let mut bios = vec![0u8; 8];
    bios[0] = 0x78;
    bios[1] = 0x56;
    bios[2] = 0x34;
    bios[3] = 0x12;
    let mut cpu = CPU::new(bios);
    let action = cpu.step().unwrap();
    assert_eq!(action, StepAction::Execute(0x1234_5678));
}

#[test]
fn misaligned_pc_raises_address_error_without_fetch() {
    let mut cpu = CPU::new(nop_bios());
    cpu.pc = 0xbfc0_0002;
    let cycles_before = cpu.bus.counter.cycles;
    let action = cpu.step().unwrap();
    assert_eq!(action, StepAction::Exception(Cause::LoadAddressError));
    // no fetch, no instruction charge: the clock did not move
    assert_eq!(cpu.bus.counter.cycles, cycles_before);
    // control was redirected to the normal exception vector
    assert_eq!(cpu.pc, 0x8000_0080);
    assert_eq!(cpu.next_pc, 0x8000_0084);
    // the cause code field holds the address-error code 0x4
    assert_eq!((cpu.cop0.cause >> 2) & 0x1f, 0x4);
    assert_eq!(cpu.cop0.epc, 0xbfc0_0002);
}

#[test]
fn exception_vector_follows_boot_vector_bit() {
    let mut cop0 = COP0 { sr: 0, cause: 0, epc: 0 };
    assert_eq!(cop0.enter_exception(Cause::SysCall), 0x8000_0080);
    let mut cop0 = COP0 { sr: 1 << 22, cause: 0, epc: 0 };
    assert_eq!(cop0.enter_exception(Cause::SysCall), 0xbfc0_0180);
}

#[test]
fn exception_entry_pushes_mode_stack() {
    // stack 0b01_10_11 shifts left by two within its six bits
    let mut cop0 = COP0 { sr: 0xffff_ffc0 | 0b011011, cause: 0, epc: 0 };
    cop0.enter_exception(Cause::SysCall);
    assert_eq!(cop0.sr & 0x3f, 0b101100);
    assert_eq!(cop0.sr & !0x3f, 0xffff_ffc0);
    // the code field holds the syscall code
    assert_eq!((cop0.cause >> 2) & 0x1f, 0x8);
}

#[test]
fn exception_return_pops_mode_stack() {
    let mut cop0 = COP0 { sr: 0b101100, cause: 0, epc: 0 };
    cop0.return_from_exception();
    assert_eq!(cop0.sr & 0x3f, 0b101011);
}

#[test]
fn exception_in_delay_slot_rewinds_epc_and_sets_flag() {
    let mut cpu = CPU::new(nop_bios());
    cpu.current_pc = 0x8000_1004;
    cpu.delay_slot = true;
    cpu.exception(Cause::Overflow);
    assert_eq!(cpu.cop0.epc, 0x8000_1000);
    assert_ne!(cpu.cop0.cause & 0x8000_0000, 0);
}

#[test]
fn exception_outside_delay_slot_keeps_epc_and_clears_flag() {
    let mut cpu = CPU::new(nop_bios());
    cpu.current_pc = 0x8000_1004;
    cpu.delay_slot = false;
    cpu.cop0.cause = 0x8000_0000;
    cpu.exception(Cause::Overflow);
    assert_eq!(cpu.cop0.epc, 0x8000_1004);
    assert_eq!(cpu.cop0.cause & 0x8000_0000, 0);
}

#[test]
fn deliverable_interrupt_preempts_execution_and_commits_load() {
    let mut cpu = CPU::new(nop_bios());
    // interrupt source 0 pending and unmasked in the shared registers
    cpu.bus.interrupts.status = 1;
    cpu.bus.interrupts.mask = 1;
    // globally enabled, hardware-interrupt line unmasked in the status register
    cpu.cop0.sr = 1 | (1 << 10);
    // a pending delayed load must still land
    cpu.delayed_load(7, 0xabcd, 0);
    let action = cpu.step().unwrap();
    assert_eq!(action, StepAction::Exception(Cause::Interrupt));
    assert_eq!(cpu.r[7], 0xabcd);
    assert!(cpu.load.is_none());
    assert_eq!(cpu.pc, 0x8000_0080);
    assert_eq!(cpu.cop0.epc, 0xbfc0_0000);
}

#[test]
fn delayed_load_slot_holds_one_entry() {
    let mut cpu = CPU::new(nop_bios());
    cpu.delayed_load(3, 11, 2);
    // a second load to another register commits the first
    cpu.delayed_load(4, 22, 2);
    assert_eq!(cpu.r[3], 11);
    assert_eq!(cpu.r[4], 0);
    // a second load to the same register discards the first
    cpu.delayed_load(4, 33, 2);
    assert_eq!(cpu.r[4], 0);
    cpu.execute_load_delay();
    assert_eq!(cpu.r[4], 33);
    assert!(cpu.load.is_none());
}

#[test]
fn ram_store_and_loads_round_trip() {
    let mut cpu = CPU::new(nop_bios());
    cpu.store_32(0x0000_1000, 0x8899_aabb).unwrap();
    let (word, duration) = cpu.load_32(0x0000_1000).unwrap();
    assert_eq!(word, 0x8899_aabb);
    assert_eq!(duration, 2);
    let (half, _) = cpu.load_16(0x0000_1000);
    assert_eq!(half, 0xaabb);
    let (byte, _) = cpu.load_8(0x0000_1001);
    assert_eq!(byte, 0xaa);
    // the cached mirror maps onto the same memory
    let (mirrored, _) = cpu.load_32(0x8000_1000).unwrap();
    assert_eq!(mirrored, 0x8899_aabb);
}

#[test]
fn check_irqs_drives_cause_bit_ten() {
    let mut cpu = CPU::new(nop_bios());
    cpu.bus.interrupts.status = 4;
    cpu.bus.interrupts.mask = 4;
    cpu.check_irqs();
    assert_ne!(cpu.cop0.cause & (1 << 10), 0);
    cpu.bus.interrupts.mask = 0;
    cpu.check_irqs();
    assert_eq!(cpu.cop0.cause & (1 << 10), 0);
}

#[test]
fn cop0_predicates_read_status_fields() {
    let cop0 = COP0 { sr: (1 << 22) | 0x10000, cause: 0, epc: 0 };
    assert!(cop0.bev());
    assert!(!cop0.is_cache_disabled());
    let cop0 = COP0 { sr: 1 | (0xff << 8), cause: 0x04 << 8, epc: 0 };
    assert_eq!(cop0.interrupt_mask(), 0x04);
    assert!(cop0.interrupts_ready());
}
