use psx_core::cpu::bus::Bus;
use psx_core::cpu::counter::{Counter, Device};
use psx_core::cpu::dma::channel::SyncMode;
use psx_core::cpu::dma::{DmaFault, DMA};
use psx_core::cpu::{StepAction, CPU};

const CH2_BASE: u32 = 0x1f80_10a0;
const CH2_BLOCK: u32 = 0x1f80_10a4;
const CH2_CONTROL: u32 = 0x1f80_10a8;
const CH6_BASE: u32 = 0x1f80_10e0;
const CH6_BLOCK: u32 = 0x1f80_10e4;
const CH6_CONTROL: u32 = 0x1f80_10e8;

// from RAM, forward step, manual mode, enabled and triggered
const MANUAL_FROM_RAM: u32 = 0x1100_0001;
// from RAM, forward step, request mode, enabled
const REQUEST_FROM_RAM: u32 = 0x0100_0201;
// from RAM, forward step, linked-list mode, enabled
const LINKED_LIST_FROM_RAM: u32 = 0x0100_0401;
// toward RAM, backward step, manual mode, enabled and triggered
const MANUAL_TO_RAM_DECREMENT: u32 = 0x1100_0002;

#[test]
fn manual_transfer_streams_block_and_idles_once() {
    let mut cpu = CPU::new(Vec::new());
    // master-enable channel 2 and park the CPU's view of the window
    cpu.dma.control = 1 << 11;
    for i in 0..4u32 {
        cpu.store_32(0x100 + 4 * i, 0x1000 + i).unwrap();
    }
    cpu.store_32(CH2_BASE, 0x100).unwrap();
    cpu.store_32(CH2_BLOCK, 4).unwrap();
    cpu.store_32(CH2_CONTROL, MANUAL_FROM_RAM).unwrap();
    assert!(cpu.dma.is_active());
    let mut idle_transitions = 0;
    let mut sweeps = 0;
    while cpu.dma.is_active() {
        let was_active = cpu.dma.channels[2].is_active();
        assert_eq!(cpu.step().unwrap(), StepAction::DmaTransfer);
        sweeps += 1;
        if was_active && !cpu.dma.channels[2].is_active() {
            idle_transitions += 1;
        }
        assert!(sweeps <= 4);
    }
    // exactly one word per sweep, exactly one transition to idle
    assert_eq!(sweeps, 4);
    assert_eq!(idle_transitions, 1);
    assert_eq!(cpu.dma.channels[2].word_count, 0);
    assert_eq!(
        cpu.bus.gpu.commands,
        vec![0x1000, 0x1001, 0x1002, 0x1003]
    );
}

#[test]
fn request_transfer_moves_all_blocks_with_gaps() {
    let mut cpu = CPU::new(Vec::new());
    cpu.dma.control = 1 << 11;
    for i in 0..6u32 {
        cpu.store_32(0x200 + 4 * i, 0x2000 + i).unwrap();
    }
    cpu.store_32(CH2_BASE, 0x200).unwrap();
    // block size 2, block count 3
    cpu.store_32(CH2_BLOCK, (3 << 16) | 2).unwrap();
    cpu.store_32(CH2_CONTROL, REQUEST_FROM_RAM).unwrap();
    let mut transfers = 0;
    let mut gap_steps = 0;
    let mut steps = 0;
    while cpu.dma.is_active() {
        match cpu.step().unwrap() {
            StepAction::DmaTransfer => transfers += 1,
            StepAction::DmaGap => gap_steps += 1,
            other => panic!("unexpected action {:?}", other),
        }
        steps += 1;
        assert!(steps <= 32);
    }
    // one word per transfer sweep: 2 * 3 words, one gap between blocks
    assert_eq!(transfers, 6);
    assert_eq!(gap_steps, 2);
    assert_eq!(
        cpu.bus.gpu.commands,
        vec![0x2000, 0x2001, 0x2002, 0x2003, 0x2004, 0x2005]
    );
    assert!(!cpu.dma.channels[2].is_active());
}

#[test]
fn ordering_table_channel_writes_reverse_links() {
    let mut cpu = CPU::new(Vec::new());
    cpu.dma.control = 1 << 27;
    cpu.store_32(CH6_BASE, 0x110).unwrap();
    cpu.store_32(CH6_BLOCK, 3).unwrap();
    cpu.store_32(CH6_CONTROL, MANUAL_TO_RAM_DECREMENT).unwrap();
    let mut steps = 0;
    while cpu.dma.is_active() {
        cpu.step().unwrap();
        steps += 1;
        assert!(steps <= 3);
    }
    // each entry links to the previous word; the last holds the terminator
    assert_eq!(cpu.load_32(0x110).unwrap().0, 0x10c);
    assert_eq!(cpu.load_32(0x10c).unwrap().0, 0x108);
    assert_eq!(cpu.load_32(0x108).unwrap().0, 0xff_ffff);
}

#[test]
fn linked_list_transfer_follows_chain_to_terminator() {
    let mut dma = DMA::new();
    let mut bus = Bus::new(Vec::new());
    dma.control = 1 << 11;
    // node one at 0x300: two payload words, next node at 0x400
    bus.mem_write_32(0x300, (2 << 24) | 0x400);
    bus.mem_write_32(0x304, 0xaaaa);
    bus.mem_write_32(0x308, 0xbbbb);
    // node two at 0x400: one payload word, then the terminator
    bus.mem_write_32(0x400, (1 << 24) | 0xff_ffff);
    bus.mem_write_32(0x404, 0xcccc);
    dma.write(CH2_BASE, 0x300).unwrap();
    dma.write(CH2_CONTROL, LINKED_LIST_FROM_RAM).unwrap();
    let mut sweeps = 0;
    while dma.is_active() {
        if dma.in_gap() {
            // stand in for the CPU spending time on the bus
            bus.counter.tick(1);
            dma.tick_gap(&mut bus.counter);
        } else {
            dma.tick(&mut bus).unwrap();
        }
        sweeps += 1;
        assert!(sweeps <= 8);
    }
    // the sum of the nodes' declared word counts reached the graphics port
    assert_eq!(bus.gpu.commands, vec![0xaaaa, 0xbbbb, 0xcccc]);
    assert!(!dma.channels[2].is_active());
}

#[test]
fn malformed_linked_list_chain_never_finishes() {
    let mut dma = DMA::new();
    let mut bus = Bus::new(Vec::new());
    dma.control = 1 << 11;
    // two nodes pointing at each other, never reaching the terminator
    bus.mem_write_32(0x300, 0x400);
    bus.mem_write_32(0x400, 0x300);
    dma.write(CH2_BASE, 0x300).unwrap();
    dma.write(CH2_CONTROL, LINKED_LIST_FROM_RAM).unwrap();
    for _ in 0..64 {
        if dma.in_gap() {
            bus.counter.tick(1);
            dma.tick_gap(&mut bus.counter);
        } else {
            dma.tick(&mut bus).unwrap();
        }
        assert!(dma.channels[2].is_active());
    }
}

#[test]
fn channel_registers_round_trip() {
    let mut dma = DMA::new();
    // base address is masked to its word-aligned 24-bit field
    dma.write(CH2_BASE, 0xffff_ffff).unwrap();
    assert_eq!(dma.read(CH2_BASE).unwrap(), 0x00ff_fffc);
    dma.write(CH2_BLOCK, 0x1234_5678).unwrap();
    assert_eq!(dma.read(CH2_BLOCK).unwrap(), 0x1234_5678);
    // an idle-leaving control value is stored bit for bit
    dma.write(CH2_CONTROL, 0x0000_0201).unwrap();
    assert_eq!(dma.read(CH2_CONTROL).unwrap(), 0x0000_0201);
    // an activating control write keeps the register value too
    dma.write(CH2_BLOCK, 4).unwrap();
    dma.write(CH2_CONTROL, REQUEST_FROM_RAM).unwrap();
    assert_eq!(dma.read(CH2_CONTROL).unwrap(), REQUEST_FROM_RAM);
}

#[test]
fn master_registers_read_back() {
    let mut dma = DMA::new();
    assert_eq!(dma.read(0x1f80_10f0).unwrap(), 0x0765_4321);
    dma.write(0x1f80_10f0, 0x0800_0800).unwrap();
    assert_eq!(dma.read(0x1f80_10f0).unwrap(), 0x0800_0800);
    // interrupt register: low bits stored, flag bits acknowledged by ones
    dma.write(0x1f80_10f4, 0x00ff_ffff).unwrap();
    assert_eq!(dma.read(0x1f80_10f4).unwrap(), 0x00ff_ffff);
    assert_eq!(dma.read(0x1f80_10f6).unwrap(), 0x00ff);
}

#[test]
fn unknown_register_offset_is_reported() {
    let mut dma = DMA::new();
    assert_eq!(
        dma.read(0x1f80_10ac),
        Err(DmaFault::UnknownRegister { offset: 0x2c })
    );
    assert_eq!(
        dma.write(0x1f80_10ac, 0),
        Err(DmaFault::UnknownRegister { offset: 0x2c })
    );
}

#[test]
fn reserved_sync_mode_is_refused_on_activation() {
    let mut dma = DMA::new();
    // both synchronization bits set with the channel enabled
    let refused = dma.write(CH2_CONTROL, 0x0100_0601);
    assert_eq!(
        refused,
        Err(DmaFault::ReservedSyncMode { channel_id: 2, value: 0x0100_0601 })
    );
    // the register is left unchanged
    assert_eq!(dma.read(CH2_CONTROL).unwrap(), 0);
}

#[test]
fn unsupported_transfer_halts_with_diagnostic() {
    let mut cpu = CPU::new(Vec::new());
    // channel 0 cannot stream toward the graphics port
    cpu.dma.control = 1 << 3;
    cpu.store_32(0x1f80_1080, 0x100).unwrap();
    cpu.store_32(0x1f80_1084, 1).unwrap();
    cpu.store_32(0x1f80_1088, MANUAL_FROM_RAM).unwrap();
    let fault = cpu.step().unwrap_err();
    assert_eq!(
        fault,
        DmaFault::UnsupportedTransfer {
            channel_id: 0,
            sync_mode: SyncMode::Manual,
            from_ram: true,
        }
    );
}

#[test]
fn masterless_channel_is_defensively_idled() {
    let mut cpu = CPU::new(Vec::new());
    // channel 2 active but not master-enabled
    cpu.dma.control = 0;
    cpu.store_32(CH2_BASE, 0x100).unwrap();
    cpu.store_32(CH2_BLOCK, 4).unwrap();
    cpu.store_32(CH2_CONTROL, MANUAL_FROM_RAM).unwrap();
    assert_eq!(cpu.step().unwrap(), StepAction::DmaTransfer);
    assert!(!cpu.dma.is_active());
    assert_eq!(cpu.bus.gpu.commands.len(), 0);
}

#[test]
fn dma_window_loads_read_registers() {
    let mut cpu = CPU::new(Vec::new());
    cpu.store_32(CH2_BASE, 0x1234).unwrap();
    let (value, duration) = cpu.load_32(CH2_BASE).unwrap();
    assert_eq!(value, 0x1234);
    assert_eq!(duration, 2);
}

#[test]
fn activation_with_nothing_to_move_finishes_on_the_spot() {
    let mut dma = DMA::new();
    dma.control = 1 << 11;
    dma.write(CH2_BASE, 0x100).unwrap();
    // manual mode with a zero block size: the enable and trigger bits are
    // cleared by the write itself
    dma.write(CH2_BLOCK, 0).unwrap();
    dma.write(CH2_CONTROL, MANUAL_FROM_RAM).unwrap();
    assert!(!dma.is_active());
    assert_eq!(
        dma.read(CH2_CONTROL).unwrap(),
        MANUAL_FROM_RAM & !0x1100_0000
    );
}

#[test]
fn request_with_zero_block_count_moves_one_block() {
    let mut cpu = CPU::new(Vec::new());
    cpu.dma.control = 1 << 11;
    for i in 0..2u32 {
        cpu.store_32(0x200 + 4 * i, 0x3000 + i).unwrap();
    }
    cpu.store_32(CH2_BASE, 0x200).unwrap();
    cpu.store_32(CH2_BLOCK, 2).unwrap();
    cpu.store_32(CH2_CONTROL, REQUEST_FROM_RAM).unwrap();
    let mut steps = 0;
    while cpu.dma.is_active() {
        cpu.step().unwrap();
        steps += 1;
        assert!(steps <= 2);
    }
    assert_eq!(cpu.bus.gpu.commands, vec![0x3000, 0x3001]);
}

#[test]
fn interrupt_flags_are_acknowledged_by_writing_ones() {
    let mut dma = DMA::new();
    dma.interrupt.val = 0x7500_0000;
    // a one acknowledges a flag; zeros leave the others standing
    dma.write(0x1f80_10f4, 0x0100_0000).unwrap();
    assert_eq!(dma.read(0x1f80_10f4).unwrap(), 0x7400_0000);
}

#[test]
fn counter_synchronization_reports_elapsed_cycles() {
    let mut counter = Counter::new();
    counter.tick(10);
    assert_eq!(counter.sync_and_get_elapsed_cycles(Device::Dma), 10);
    assert_eq!(counter.sync_and_get_elapsed_cycles(Device::Dma), 0);
    counter.tick(3);
    assert_eq!(counter.sync_and_get_elapsed_cycles(Device::Cpu), 13);
    assert_eq!(counter.sync_and_get_elapsed_cycles(Device::Dma), 3);
}

#[test]
fn chopping_gap_lets_cpu_run() {
    let mut cpu = CPU::new(vec![0u8; 64]);
    cpu.dma.control = 1 << 11;
    for i in 0..4u32 {
        cpu.store_32(0x200 + 4 * i, 0x2000 + i).unwrap();
    }
    cpu.store_32(CH2_BASE, 0x200).unwrap();
    cpu.store_32(CH2_BLOCK, (2 << 16) | 2).unwrap();
    // request mode with the chopping option set
    cpu.store_32(CH2_CONTROL, REQUEST_FROM_RAM | (1 << 8)).unwrap();
    let mut executed = 0;
    let mut steps = 0;
    while cpu.dma.is_active() {
        match cpu.step().unwrap() {
            StepAction::Execute(_) => executed += 1,
            StepAction::DmaTransfer => {},
            other => panic!("unexpected action {:?}", other),
        }
        steps += 1;
        assert!(steps <= 32);
    }
    // the CPU advanced during the inter-block gap
    assert!(executed >= 1);
    assert_eq!(cpu.bus.gpu.commands.len(), 4);
}
