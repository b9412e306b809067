pub mod channel;
pub mod interrupt;

use vstd::prelude::*;

use crate::cpu::bus::{lemma_masked_ram_window, Bus};
use crate::cpu::counter::{Counter, Device};
use crate::cpu::dma::channel::{
    spec_linked_list_step, spec_linked_list_supported, spec_ll_payload, spec_manual_step,
    spec_manual_supported, spec_request_step, spec_request_supported, BlockControl,
    ChannelControl, ChannelOutcome, DmaChannel, SyncMode,
};
use crate::cpu::dma::interrupt::DmaInterrupt;

verus! {

/// A condition that halts the emulation session: either a transfer
/// configuration the engine does not implement, or an access to a register
/// offset it does not decode. The fields identify the offending channel,
/// mode, direction or offset.
#[derive(Clone, Copy, PartialEq, Eq, Structural, Debug)]
pub enum DmaFault {
    /// A direction/channel/mode combination the engine does not implement.
    UnsupportedTransfer { channel_id: usize, sync_mode: SyncMode, from_ram: bool },
    /// A control write that would start a channel in the reserved
    /// synchronization mode.
    ReservedSyncMode { channel_id: usize, value: u32 },
    /// A read or write of an unrecognized register offset.
    UnknownRegister { offset: u32 },
}

/// The master-enable bit of one channel in the DMA control register.
pub open spec fn spec_master_enabled(control: u32, channel_id: u32) -> bool {
    control & (1u32 << ((channel_id * 4 + 3) as u32)) != 0
}

/// State threaded through one sweep of the seven channels: the channel
/// table, the RAM image, the graphics-port log, the cycle cost gathered so
/// far, and the first fault hit, if any.
#[verifier::ext_equal]
pub struct SweepState {
    pub channels: Seq<DmaChannel>,
    pub ram: Seq<u32>,
    pub gpu: Seq<u32>,
    pub count: int,
    pub fault: Option<DmaFault>,
}

/// Fold one channel outcome into the sweep.
pub open spec fn spec_sweep_apply(s: SweepState, i: int, outcome: ChannelOutcome) -> SweepState {
    SweepState {
        channels: s.channels.update(i, outcome.channel),
        ram: outcome.ram,
        gpu: outcome.gpu,
        count: s.count + outcome.cost,
        fault: None,
    }
}

/// Service one channel of the sweep: an active, master-enabled channel is
/// dispatched by synchronization mode; any other channel is defensively
/// returned to idle. An unimplemented configuration stops the sweep with a
/// fault.
pub open spec fn spec_service_channel(control: u32, s: SweepState, i: int) -> SweepState {
    let ch = s.channels[i];
    if ch.spec_is_active() && spec_master_enabled(control, i as u32) {
        match ch.control.spec_synchronization_mode() {
            Some(SyncMode::Manual) => if spec_manual_supported(ch) {
                spec_sweep_apply(s, i, spec_manual_step(ch, s.ram, s.gpu))
            } else {
                SweepState {
                    fault: Some(
                        DmaFault::UnsupportedTransfer {
                            channel_id: ch.channel_id,
                            sync_mode: SyncMode::Manual,
                            from_ram: ch.control.spec_is_from_ram(),
                        },
                    ),
                    ..s
                }
            },
            Some(SyncMode::Request) => if spec_request_supported(ch) {
                spec_sweep_apply(s, i, spec_request_step(ch, s.ram, s.gpu))
            } else {
                SweepState {
                    fault: Some(
                        DmaFault::UnsupportedTransfer {
                            channel_id: ch.channel_id,
                            sync_mode: SyncMode::Request,
                            from_ram: ch.control.spec_is_from_ram(),
                        },
                    ),
                    ..s
                }
            },
            Some(SyncMode::LinkedList) => if spec_linked_list_supported(ch) {
                spec_sweep_apply(s, i, spec_linked_list_step(ch, s.ram, s.gpu))
            } else {
                SweepState {
                    fault: Some(
                        DmaFault::UnsupportedTransfer {
                            channel_id: ch.channel_id,
                            sync_mode: SyncMode::LinkedList,
                            from_ram: ch.control.spec_is_from_ram(),
                        },
                    ),
                    ..s
                }
            },
            None => SweepState {
                fault: Some(
                    DmaFault::ReservedSyncMode { channel_id: ch.channel_id, value: ch.control.val },
                ),
                ..s
            },
        }
    } else {
        SweepState { channels: s.channels.update(i, ch.spec_finished()), ..s }
    }
}

/// The sweep from channel `i` on: channels are served in slot order, and a
/// fault stops the sweep where it stands.
pub open spec fn spec_sweep_from(control: u32, s: SweepState, i: int) -> SweepState
    decreases 7 - i,
{
    if s.fault is Some || i >= 7 || i < 0 {
        s
    } else {
        spec_sweep_from(control, spec_service_channel(control, s, i), i + 1)
    }
}

/// One channel after a gap service: a pending gap is shortened by the
/// elapsed cycles, but never below the point where the channel resumes.
pub open spec fn spec_gap_drained(ch: DmaChannel, elapsed: u64) -> DmaChannel {
    if ch.gap_ticks > 0 {
        DmaChannel {
            gap_ticks: if ch.gap_ticks > elapsed {
                (ch.gap_ticks - elapsed) as u64
            } else {
                0u64
            },
            ..ch
        }
    } else {
        ch
    }
}

/// Whether the engine accepts a register write of `value` at `address`:
/// the offset must decode to a known register, and a control write must
/// not start the channel in the reserved synchronization mode.
pub open spec fn spec_register_write_ok(pre: DMA, address: u32, value: u32) -> bool {
    let offset = address.wrapping_sub(0x1f80_1080);
    let major = (offset & 0x70) >> 4;
    let minor = offset & 0xf;
    if major <= 6 {
        minor == 0 || minor == 4 || (minor == 8 && !({
            let written = pre.channels@[major as int].spec_register_written(8, value);
            written.spec_is_active() && written.control.spec_synchronization_mode() is None
        }))
    } else {
        minor == 0 || minor == 4
    }
}

/// How an accepted register write relates the engine's states before and
/// after: a channel register stores the (masked) value, a control write
/// that leaves the channel active re-derives its cursor state, and the
/// master registers store by their own rules.
pub open spec fn spec_register_write_post(pre: DMA, post: DMA, address: u32, value: u32) -> bool {
    let offset = address.wrapping_sub(0x1f80_1080);
    let major = (offset & 0x70) >> 4;
    let minor = offset & 0xf;
    &&& post.active_count == pre.active_count
    &&& (major <= 6 ==> {
        let written = pre.channels@[major as int].spec_register_written(minor, value);
        let settled = if minor == 8 && written.spec_is_active() {
            written.spec_activated()
        } else {
            written
        };
        &&& post.channels@ == pre.channels@.update(major as int, settled)
        &&& post.control == pre.control
        &&& post.interrupt == pre.interrupt
    })
    &&& (major > 6 ==> {
        &&& post.channels@ == pre.channels@
        &&& post.control == (if minor == 0 {
            value
        } else {
            pre.control
        })
        &&& post.interrupt.val == (if minor == 4 {
            pre.interrupt.spec_written(value)
        } else {
            pre.interrupt.val
        })
    })
}

/// Writing a channel's base-address, block-control, or channel-control
/// register and then reading the same offset back returns the value
/// written, field for field — the base address masked to its word-aligned
/// 24-bit field — independent of the runtime-only cursor state the write
/// may re-derive. `pre` and `post` are the engine before and after the
/// accepted write. A control write must not finish the transfer on the
/// spot: one that starts a channel with nothing to move clears its own
/// enable and trigger bits.
pub proof fn lemma_channel_register_round_trip(pre: DMA, post: DMA, address: u32, value: u32)
    requires
        ({
            let offset = address.wrapping_sub(0x1f80_1080);
            let major = (offset & 0x70) >> 4;
            let minor = offset & 0xf;
            &&& major <= 6
            &&& (minor == 0 || minor == 4 || minor == 8)
            &&& spec_register_write_post(pre, post, address, value)
            &&& (minor == 8 ==> ({
                let written = pre.channels@[major as int].spec_register_written(8, value);
                written.spec_is_active() ==> written.spec_activated().word_count != 0
            }))
        }),
    ensures
        ({
            let offset = address.wrapping_sub(0x1f80_1080);
            let minor = offset & 0xf;
            post.spec_register_read(address) == Some(
                if minor == 0 {
                    value & 0xff_fffc
                } else {
                    value
                },
            )
        }),
{
}

/// The DMA engine: seven transfer channels, the master control register
/// with one enable bit per channel, and the master interrupt register.
pub struct DMA {
    /// Master control register; bit `4 * n + 3` enables channel `n`.
    pub control: u32,
    /// Master interrupt register.
    pub interrupt: DmaInterrupt,
    /// The seven transfer channels, one per peripheral slot.
    pub channels: [DmaChannel; 7],
    /// Cycle cost gathered from the channel being served, folded into the
    /// sweep total once per channel; zero between calls.
    pub active_count: u32,
}

impl DMA {
    /// Every channel sits in its own slot, an active channel always has a
    /// word outstanding and a recognized synchronization mode, and no
    /// sweep cost is left half-folded.
    pub open spec fn wf(self) -> bool {
        &&& forall|i: int| 0 <= i < 7 ==> (#[trigger] self.channels@[i]).wf(i)
        &&& self.active_count == 0
    }

    /// Some channel is mid-transfer.
    pub open spec fn spec_is_active(self) -> bool {
        exists|i: int| 0 <= i < 7 && (#[trigger] self.channels@[i]).spec_is_active()
    }

    /// Some channel is pausing in a timing gap.
    pub open spec fn spec_in_gap(self) -> bool {
        exists|i: int| 0 <= i < 7 && (#[trigger] self.channels@[i]).gap_ticks > 0
    }

    /// Some active channel lets the CPU interleave with its gaps.
    pub open spec fn spec_chopping_enabled(self) -> bool {
        exists|i: int|
            0 <= i < 7 && (#[trigger] self.channels@[i]).spec_is_active()
                && self.channels@[i].control.spec_chopping_enabled()
    }

    pub fn new() -> (dma: DMA)
        ensures
            dma.wf(),
            dma.control == 0x0765_4321,
            dma.interrupt.val == 0,
            dma.channels@.len() == 7,
            forall|i: int|
                0 <= i < 7 ==> (#[trigger] dma.channels@[i]) == DmaChannel::spec_idle(i as usize),
            !dma.spec_is_active(),
            !dma.spec_in_gap(),
    {
        let dma = DMA {
            // reset value of the master control register
            control: 0x0765_4321,
            interrupt: DmaInterrupt::new(),
            channels: [
                DmaChannel::new(0),
                DmaChannel::new(1),
                DmaChannel::new(2),
                DmaChannel::new(3),
                DmaChannel::new(4),
                DmaChannel::new(5),
                DmaChannel::new(6),
            ],
            active_count: 0,
        };
        proof {
            assert forall|i: int| 0 <= i < 7 implies !(#[trigger] dma.channels@[i]).spec_is_active() by {
                assert(((0u32 >> 24) & 1) != 1) by (bit_vector);
            }
        }
        dma
    }

    /// Serve one word of a manual-mode transfer on channel `channel_id`.
    fn tick_manual(&mut self, channel_id: usize, bus: &mut Bus) -> (r: Result<(), DmaFault>)
        requires
            channel_id < 7,
            old(self).channels@[channel_id as int].wf(channel_id as int),
            old(self).channels@[channel_id as int].spec_is_active(),
            old(self).active_count == 0,
            old(bus).wf(),
        ensures
            final(bus).wf(),
            final(bus).bios == old(bus).bios,
            final(bus).counter == old(bus).counter,
            final(bus).interrupts == old(bus).interrupts,
            final(self).control == old(self).control,
            final(self).interrupt == old(self).interrupt,
            final(self).active_count <= 0xffff,
            final(self).channels@[channel_id as int].wf(channel_id as int),
            match r {
                Ok(()) => {
                    let outcome = spec_manual_step(
                        old(self).channels@[channel_id as int],
                        old(bus).ram@,
                        old(bus).gpu.commands@,
                    );
                    &&& spec_manual_supported(old(self).channels@[channel_id as int])
                    &&& final(self).channels@ == old(self).channels@.update(
                        channel_id as int,
                        outcome.channel,
                    )
                    &&& final(bus).ram@ == outcome.ram
                    &&& final(bus).gpu.commands@ == outcome.gpu
                    &&& final(self).active_count == outcome.cost
                },
                Err(f) => {
                    &&& !spec_manual_supported(old(self).channels@[channel_id as int])
                    &&& f == (DmaFault::UnsupportedTransfer {
                        channel_id,
                        sync_mode: SyncMode::Manual,
                        from_ram: old(
                            self,
                        ).channels@[channel_id as int].control.spec_is_from_ram(),
                    })
                    &&& final(self).channels@ == old(self).channels@
                    &&& final(self).active_count == old(self).active_count
                    &&& final(bus).ram@ == old(bus).ram@
                    &&& final(bus).gpu == old(bus).gpu
                },
            },
    {
        let mut channel = self.channels[channel_id];
        let is_increment = channel.control.is_address_increment();
        let masked_address = channel.active_address & 0x1f_fffc;
        proof {
            lemma_masked_ram_window(channel.active_address);
        }
        if channel.control.is_from_ram() {
            if channel.channel_id == 2 {
                let word = bus.mem_read_32(masked_address);
                bus.gpu.gp0(word);
            } else {
                return Err(
                    DmaFault::UnsupportedTransfer {
                        channel_id,
                        sync_mode: SyncMode::Manual,
                        from_ram: true,
                    },
                );
            }
        } else {
            if channel.channel_id == 6 {
                let value = if channel.word_count == 1 {
                    0xff_ffff
                } else {
                    channel.active_address.wrapping_sub(4) & 0x1f_ffff
                };
                bus.mem_write_32(masked_address, value);
            } else {
                return Err(
                    DmaFault::UnsupportedTransfer {
                        channel_id,
                        sync_mode: SyncMode::Manual,
                        from_ram: false,
                    },
                );
            }
        }
        if is_increment {
            channel.active_address = channel.active_address.wrapping_add(4);
        } else {
            channel.active_address = channel.active_address.wrapping_sub(4);
        }
        channel.word_count = channel.word_count - 1;
        if channel.word_count == 0 {
            let size = channel.block_size();
            proof {
                channel::lemma_block_size_bound(channel.block_control.val);
            }
            self.active_count = self.active_count + size;
            let ghost before = channel;
            channel.finish();
            proof {
                before.lemma_finished_is_idle();
            }
        }
        self.channels[channel_id] = channel;
        Ok(())
    }

    /// Serve one word of a request-mode transfer on channel `channel_id`.
    fn tick_request(&mut self, channel_id: usize, bus: &mut Bus) -> (r: Result<(), DmaFault>)
        requires
            channel_id < 7,
            old(self).channels@[channel_id as int].wf(channel_id as int),
            old(self).channels@[channel_id as int].spec_is_active(),
            old(self).active_count == 0,
            old(bus).wf(),
        ensures
            final(bus).wf(),
            final(bus).bios == old(bus).bios,
            final(bus).counter == old(bus).counter,
            final(bus).interrupts == old(bus).interrupts,
            final(bus).ram@ == old(bus).ram@,
            final(self).control == old(self).control,
            final(self).interrupt == old(self).interrupt,
            final(self).active_count <= 0xffff,
            final(self).channels@[channel_id as int].wf(channel_id as int),
            match r {
                Ok(()) => {
                    let outcome = spec_request_step(
                        old(self).channels@[channel_id as int],
                        old(bus).ram@,
                        old(bus).gpu.commands@,
                    );
                    &&& spec_request_supported(old(self).channels@[channel_id as int])
                    &&& final(self).channels@ == old(self).channels@.update(
                        channel_id as int,
                        outcome.channel,
                    )
                    &&& final(bus).gpu.commands@ == outcome.gpu
                    &&& final(self).active_count == outcome.cost
                },
                Err(f) => {
                    &&& !spec_request_supported(old(self).channels@[channel_id as int])
                    &&& f == (DmaFault::UnsupportedTransfer {
                        channel_id,
                        sync_mode: SyncMode::Request,
                        from_ram: old(
                            self,
                        ).channels@[channel_id as int].control.spec_is_from_ram(),
                    })
                    &&& final(self).channels@ == old(self).channels@
                    &&& final(self).active_count == old(self).active_count
                    &&& final(bus).gpu == old(bus).gpu
                },
            },
    {
        let mut channel = self.channels[channel_id];
        let is_increment = channel.control.is_address_increment();
        let masked_address = channel.active_address & 0x1f_fffc;
        proof {
            lemma_masked_ram_window(channel.active_address);
        }
        if channel.control.is_from_ram() {
            if channel.channel_id == 2 {
                let word = bus.mem_read_32(masked_address);
                bus.gpu.gp0(word);
            } else {
                return Err(
                    DmaFault::UnsupportedTransfer {
                        channel_id,
                        sync_mode: SyncMode::Request,
                        from_ram: true,
                    },
                );
            }
        } else {
            return Err(
                DmaFault::UnsupportedTransfer {
                    channel_id,
                    sync_mode: SyncMode::Request,
                    from_ram: false,
                },
            );
        }
        if is_increment {
            channel.active_address = channel.active_address.wrapping_add(4);
        } else {
            channel.active_address = channel.active_address.wrapping_sub(4);
        }
        channel.word_count = channel.word_count - 1;
        if channel.word_count == 0 {
            let size = channel.block_size();
            proof {
                channel::lemma_block_size_bound(channel.block_control.val);
            }
            self.active_count = self.active_count + size;
            if channel.blocks_remaining > 0 {
                channel.blocks_remaining = channel.blocks_remaining - 1;
            }
            if channel.blocks_remaining > 0 {
                channel.word_count = size;
                if channel.word_count == 0 {
                    let ghost before = channel;
                    channel.finish();
                    proof {
                        before.lemma_finished_is_idle();
                    }
                } else {
                    channel.gap_ticks = if channel.gap_ticks == 0xffff_ffff_ffff_ffff {
                        channel.gap_ticks
                    } else {
                        channel.gap_ticks + 1
                    };
                }
            } else {
                let ghost before = channel;
                channel.finish();
                proof {
                    before.lemma_finished_is_idle();
                }
            }
        }
        self.channels[channel_id] = channel;
        Ok(())
    }

    /// Serve one linked-list node (or count one gap tick down) on channel
    /// `channel_id`.
    fn tick_linked_list(&mut self, channel_id: usize, bus: &mut Bus) -> (r: Result<(), DmaFault>)
        requires
            channel_id < 7,
            old(self).channels@[channel_id as int].wf(channel_id as int),
            old(self).channels@[channel_id as int].spec_is_active(),
            old(self).active_count == 0,
            old(bus).wf(),
        ensures
            final(bus).wf(),
            final(bus).bios == old(bus).bios,
            final(bus).counter == old(bus).counter,
            final(bus).interrupts == old(bus).interrupts,
            final(bus).ram@ == old(bus).ram@,
            final(self).control == old(self).control,
            final(self).interrupt == old(self).interrupt,
            final(self).active_count <= 0xffff,
            final(self).channels@[channel_id as int].wf(channel_id as int),
            match r {
                Ok(()) => {
                    let outcome = spec_linked_list_step(
                        old(self).channels@[channel_id as int],
                        old(bus).ram@,
                        old(bus).gpu.commands@,
                    );
                    &&& spec_linked_list_supported(old(self).channels@[channel_id as int])
                    &&& final(self).channels@ == old(self).channels@.update(
                        channel_id as int,
                        outcome.channel,
                    )
                    &&& final(bus).gpu.commands@ == outcome.gpu
                    &&& final(self).active_count == outcome.cost
                },
                Err(f) => {
                    &&& !spec_linked_list_supported(old(self).channels@[channel_id as int])
                    &&& f == (DmaFault::UnsupportedTransfer {
                        channel_id,
                        sync_mode: SyncMode::LinkedList,
                        from_ram: old(
                            self,
                        ).channels@[channel_id as int].control.spec_is_from_ram(),
                    })
                    &&& final(self).channels@ == old(self).channels@
                    &&& final(self).active_count == old(self).active_count
                    &&& final(bus).gpu == old(bus).gpu
                },
            },
    {
        let mut channel = self.channels[channel_id];
        if !channel.control.is_from_ram() {
            return Err(
                DmaFault::UnsupportedTransfer {
                    channel_id,
                    sync_mode: SyncMode::LinkedList,
                    from_ram: false,
                },
            );
        }
        if channel.channel_id != 2 {
            return Err(
                DmaFault::UnsupportedTransfer {
                    channel_id,
                    sync_mode: SyncMode::LinkedList,
                    from_ram: true,
                },
            );
        }
        if channel.gap_ticks > 0 {
            channel.gap_ticks = channel.gap_ticks - 1;
            self.channels[channel_id] = channel;
            return Ok(());
        }
        let masked = channel.active_address & 0x1f_fffc;
        proof {
            lemma_masked_ram_window(channel.active_address);
        }
        let header = bus.mem_read_32(masked);
        let ghost gpu_at_node: Seq<u32> = bus.gpu.commands@;
        let mut words_left: u32 = header >> 24;
        let mut cursor: u32 = masked;
        while words_left > 0
            invariant
                bus.wf(),
                bus.ram@ == old(bus).ram@,
                bus.bios == old(bus).bios,
                bus.counter == old(bus).counter,
                bus.interrupts == old(bus).interrupts,
                spec_ll_payload(bus.ram@, masked, header >> 24, gpu_at_node) == spec_ll_payload(
                    bus.ram@,
                    cursor,
                    words_left,
                    bus.gpu.commands@,
                ),
            decreases words_left,
        {
            proof {
                lemma_masked_ram_window(cursor.wrapping_add(4));
            }
            cursor = cursor.wrapping_add(4) & 0x1f_fffc;
            let word = bus.mem_read_32(cursor);
            bus.gpu.gp0(word);
            words_left = words_left - 1;
        }
        channel.active_address = header & 0x1f_fffc;
        if header & 0xff_ffff == 0xff_ffff {
            let ghost before = channel;
            channel.finish();
            proof {
                before.lemma_finished_is_idle();
            }
        } else {
            channel.gap_ticks = if channel.gap_ticks == 0xffff_ffff_ffff_ffff {
                channel.gap_ticks
            } else {
                channel.gap_ticks + 1
            };
        }
        self.channels[channel_id] = channel;
        Ok(())
    }

    /// Sweep the seven channels once: each active, master-enabled channel
    /// is served one unit of work by its synchronization mode, any other
    /// channel is defensively returned to idle, and the per-channel cycle
    /// costs are folded into one total for the caller to charge on the
    /// shared clock. A transfer configuration the engine does not implement
    /// halts the sweep with its diagnostic.
    pub fn tick(&mut self, bus: &mut Bus) -> (r: Result<u32, DmaFault>)
        requires
            old(self).wf(),
            old(bus).wf(),
        ensures
            final(self).wf(),
            final(bus).wf(),
            final(self).control == old(self).control,
            final(self).interrupt == old(self).interrupt,
            final(bus).bios == old(bus).bios,
            final(bus).counter == old(bus).counter,
            final(bus).interrupts == old(bus).interrupts,
            ({
                let end = spec_sweep_from(
                    old(self).control,
                    SweepState {
                        channels: old(self).channels@,
                        ram: old(bus).ram@,
                        gpu: old(bus).gpu.commands@,
                        count: 0,
                        fault: None,
                    },
                    0,
                );
                &&& final(self).channels@ == end.channels
                &&& final(bus).ram@ == end.ram
                &&& final(bus).gpu.commands@ == end.gpu
                &&& (match r {
                    Ok(count) => end.fault is None && count == end.count,
                    Err(f) => end.fault == Some(f),
                })
            }),
    {
        let ghost control0 = self.control;
        let ghost init = SweepState {
            channels: self.channels@,
            ram: bus.ram@,
            gpu: bus.gpu.commands@,
            count: 0,
            fault: None,
        };
        let mut count: u32 = 0;
        let mut i: usize = 0;
        while i < 7
            invariant
                i <= 7,
                count <= 0xffff * i,
                self.active_count == 0,
                self.control == control0,
                self.interrupt == old(self).interrupt,
                old(self).wf(),
                control0 == old(self).control,
                bus.wf(),
                bus.bios == old(bus).bios,
                bus.counter == old(bus).counter,
                bus.interrupts == old(bus).interrupts,
                forall|j: int| 0 <= j < i ==> (#[trigger] self.channels@[j]).wf(j),
                forall|j: int| i <= j < 7 ==> self.channels@[j] == init.channels[j],
                init == (SweepState {
                    channels: old(self).channels@,
                    ram: old(bus).ram@,
                    gpu: old(bus).gpu.commands@,
                    count: 0,
                    fault: None,
                }),
                spec_sweep_from(control0, init, 0) == spec_sweep_from(
                    control0,
                    SweepState {
                        channels: self.channels@,
                        ram: bus.ram@,
                        gpu: bus.gpu.commands@,
                        count: count as int,
                        fault: None,
                    },
                    i as int,
                ),
            decreases 7 - i,
        {
            let ghost cur = SweepState {
                channels: self.channels@,
                ram: bus.ram@,
                gpu: bus.gpu.commands@,
                count: count as int,
                fault: None,
            };
            let channel = self.channels[i];
            let active = channel.is_active();
            let enabled = self.is_master_enabled(i);
            proof {
                assert(old(self).channels@[i as int].wf(i as int));
                assert(self.channels@[i as int] == init.channels[i as int]);
            }
            if active && enabled {
                let served = match channel.control.synchronization_mode() {
                    Some(SyncMode::Manual) => self.tick_manual(i, bus),
                    Some(SyncMode::Request) => self.tick_request(i, bus),
                    Some(SyncMode::LinkedList) => self.tick_linked_list(i, bus),
                    None => {
                        // a well-formed engine never holds an active channel
                        // in the reserved synchronization mode
                        proof {
                            assert(false);
                        }
                        Err(
                            DmaFault::ReservedSyncMode {
                                channel_id: i,
                                value: channel.control.val,
                            },
                        )
                    },
                };
                match served {
                    Ok(()) => {},
                    Err(f) => {
                        proof {
                            assert(self.control == control0);
                            assert forall|j: int|
                                0 <= j < 7 implies (#[trigger] self.channels@[j]).wf(j) by {
                                if j >= i {
                                    assert(old(self).channels@[j].wf(j));
                                    assert(self.channels@[j] == init.channels[j]);
                                }
                            }
                            let faulted = spec_service_channel(control0, cur, i as int);
                            assert(faulted.fault == Some(f));
                            assert(spec_sweep_from(control0, cur, i as int) == faulted);
                        }
                        return Err(f);
                    },
                }
                count = count + self.active_count;
                self.active_count = 0;
            } else {
                let mut idle = self.channels[i];
                let ghost before = idle;
                idle.finish();
                proof {
                    before.lemma_finished_is_idle();
                }
                self.channels[i] = idle;
            }
            proof {
                let next = SweepState {
                    channels: self.channels@,
                    ram: bus.ram@,
                    gpu: bus.gpu.commands@,
                    count: count as int,
                    fault: None,
                };
                assert(next =~= spec_service_channel(control0, cur, i as int));
                assert(spec_sweep_from(control0, cur, i as int) == spec_sweep_from(
                    control0,
                    next,
                    i as int + 1,
                ));
            }
            i = i + 1;
        }
        Ok(count)
    }

    /// The master-enable bit of channel `channel_id`.
    pub fn is_master_enabled(&self, channel_id: usize) -> (r: bool)
        requires
            channel_id < 7,
        ensures
            r == spec_master_enabled(self.control, channel_id as u32),
    {
        let shift: u32 = (channel_id as u32) * 4 + 3;
        self.control & (1u32 << shift) != 0
    }

    /// Count every pending gap down by the cycles elapsed since the engine
    /// last synchronized — never below the point where the channel resumes
    /// — and move the engine's synchronization point up to the present.
    pub fn tick_gap(&mut self, counter: &mut Counter)
        requires
            old(self).wf(),
            old(counter).wf(),
        ensures
            final(self).wf(),
            final(counter).wf(),
            final(counter).cycles == old(counter).cycles,
            final(counter).cpu_sync == old(counter).cpu_sync,
            final(counter).dma_sync == old(counter).cycles,
            final(self).control == old(self).control,
            final(self).interrupt == old(self).interrupt,
            forall|j: int|
                0 <= j < 7 ==> final(self).channels@[j] == spec_gap_drained(
                    old(self).channels@[j],
                    (old(counter).cycles - old(counter).spec_last_sync(Device::Dma)) as u64,
                ),
    {
        let elapsed = counter.sync_and_get_elapsed_cycles(Device::Dma);
        let mut i: usize = 0;
        while i < 7
            invariant
                i <= 7,
                old(self).wf(),
                elapsed == (old(counter).cycles - old(counter).spec_last_sync(Device::Dma)) as u64,
                self.control == old(self).control,
                self.interrupt == old(self).interrupt,
                self.active_count == old(self).active_count,
                forall|j: int|
                    0 <= j < i ==> self.channels@[j] == spec_gap_drained(
                        old(self).channels@[j],
                        elapsed,
                    ),
                forall|j: int| i <= j < 7 ==> self.channels@[j] == old(self).channels@[j],
            decreases 7 - i,
        {
            let mut ch = self.channels[i];
            if ch.gap_ticks > 0 {
                if ch.gap_ticks > elapsed {
                    ch.gap_ticks = ch.gap_ticks - elapsed;
                } else {
                    ch.gap_ticks = 0;
                }
                self.channels[i] = ch;
            }
            i = i + 1;
        }
        proof {
            assert forall|j: int| 0 <= j < 7 implies (#[trigger] self.channels@[j]).wf(j) by {
                assert(old(self).channels@[j].wf(j));
            }
        }
    }

    /// Whether any active channel has the chopping option set; if none
    /// does, a pending gap blocks the CPU entirely.
    pub fn chopping_enabled(&self) -> (r: bool)
        ensures
            r == self.spec_chopping_enabled(),
    {
        let mut i: usize = 0;
        while i < 7
            invariant
                i <= 7,
                forall|j: int|
                    0 <= j < i ==> !((#[trigger] self.channels@[j]).spec_is_active()
                        && self.channels@[j].control.spec_chopping_enabled()),
            decreases 7 - i,
        {
            let ch = self.channels[i];
            if ch.is_active() && ch.control.chopping_enabled() {
                return true;
            }
            i = i + 1;
        }
        false
    }

    /// Whether any channel is pausing in a timing gap.
    pub fn in_gap(&self) -> (r: bool)
        ensures
            r == self.spec_in_gap(),
    {
        let mut i: usize = 0;
        while i < 7
            invariant
                i <= 7,
                forall|j: int| 0 <= j < i ==> !((#[trigger] self.channels@[j]).gap_ticks > 0),
            decreases 7 - i,
        {
            if self.channels[i].gap_ticks > 0 {
                return true;
            }
            i = i + 1;
        }
        false
    }

    /// Whether any channel is mid-transfer.
    pub fn is_active(&self) -> (r: bool)
        ensures
            r == self.spec_is_active(),
    {
        let mut i: usize = 0;
        while i < 7
            invariant
                i <= 7,
                forall|j: int| 0 <= j < i ==> !(#[trigger] self.channels@[j]).spec_is_active(),
            decreases 7 - i,
        {
            if self.channels[i].is_active() {
                return true;
            }
            i = i + 1;
        }
        false
    }

    /// The value a read of a register address in the DMA window returns,
    /// or nothing for an offset the engine does not decode.
    pub open spec fn spec_register_read(self, address: u32) -> Option<u32> {
        let offset = address.wrapping_sub(0x1f80_1080);
        let major = (offset & 0x70) >> 4;
        let minor = offset & 0xf;
        if major <= 6 {
            let ch = self.channels@[major as int];
            if minor == 0 {
                Some(ch.base_address)
            } else if minor == 4 {
                Some(ch.block_control.val)
            } else if minor == 8 {
                Some(ch.control.val)
            } else {
                None
            }
        } else {
            if minor == 0 {
                Some(self.control)
            } else if minor == 4 {
                Some(self.interrupt.val)
            } else if minor == 6 {
                Some(self.interrupt.val >> 16)
            } else {
                None
            }
        }
    }

    /// Read a register in the DMA window: a channel's base-address,
    /// block-control or channel-control register, or the master control or
    /// interrupt register (whose high half has a read alias). An offset
    /// the engine does not decode is a fault naming that offset.
    pub fn read(&self, address: u32) -> (r: Result<u32, DmaFault>)
        ensures
            match r {
                Ok(v) => self.spec_register_read(address) == Some(v),
                Err(f) => {
                    &&& self.spec_register_read(address) is None
                    &&& f == (DmaFault::UnknownRegister {
                        offset: address.wrapping_sub(0x1f80_1080),
                    })
                },
            },
    {
        let offset = address.wrapping_sub(0x1f80_1080);
        let major = (offset & 0x70) >> 4;
        let minor = offset & 0xf;
        if major <= 6 {
            let channel = self.channels[major as usize];
            if minor == 0 {
                Ok(channel.base_address)
            } else if minor == 4 {
                Ok(channel.block_control.val)
            } else if minor == 8 {
                Ok(channel.control.val)
            } else {
                Err(DmaFault::UnknownRegister { offset })
            }
        } else {
            if minor == 0 {
                Ok(self.control)
            } else if minor == 4 {
                Ok(self.interrupt.val)
            } else if minor == 6 {
                Ok(self.interrupt.val >> 16)
            } else {
                Err(DmaFault::UnknownRegister { offset })
            }
        }
    }

    /// Write a register in the DMA window. A control write that leaves the
    /// channel enabled and triggered re-derives its cursor state from the
    /// registers; one that would start it in the reserved synchronization
    /// mode is refused, as is an offset the engine does not decode, either
    /// leaving the engine unchanged.
    pub fn write(&mut self, address: u32, value: u32) -> (r: Result<(), DmaFault>)
        requires
            old(self).wf(),
        ensures
            final(self).wf(),
            r is Ok <==> spec_register_write_ok(*old(self), address, value),
            match r {
                Ok(()) => spec_register_write_post(*old(self), *final(self), address, value),
                Err(f) => ({
                    let offset = address.wrapping_sub(0x1f80_1080);
                    let major = (offset & 0x70) >> 4;
                    let minor = offset & 0xf;
                    &&& *final(self) == *old(self)
                    &&& f == (if major <= 6 && minor == 8 {
                        DmaFault::ReservedSyncMode { channel_id: major as usize, value }
                    } else {
                        DmaFault::UnknownRegister { offset }
                    })
                }),
            },
    {
        let offset = address.wrapping_sub(0x1f80_1080);
        let major = (offset & 0x70) >> 4;
        let minor = offset & 0xf;
        if major <= 6 {
            let index = major as usize;
            let mut channel = self.channels[index];
            if minor == 0 {
                channel.base_address = value & 0xff_fffc;
            } else if minor == 4 {
                channel.block_control = BlockControl { val: value };
            } else if minor == 8 {
                channel.control = ChannelControl { val: value };
            } else {
                return Err(DmaFault::UnknownRegister { offset });
            }
            if minor == 8 && channel.is_active() {
                match channel.control.synchronization_mode() {
                    None => {
                        return Err(DmaFault::ReservedSyncMode { channel_id: index, value });
                    },
                    Some(SyncMode::LinkedList) => {
                        channel.active_address = channel.base_address & 0x1f_fffc;
                        channel.word_count = 1;
                    },
                    Some(SyncMode::Manual) => {
                        channel.active_address = channel.base_address & 0x1f_fffc;
                        channel.word_count = channel.block_size();
                    },
                    Some(SyncMode::Request) => {
                        channel.active_address = channel.base_address & 0x1f_fffc;
                        channel.word_count = channel.block_size();
                        channel.blocks_remaining = channel.block_control.block_count();
                    },
                }
                if channel.word_count == 0 {
                    let ghost before = channel;
                    channel.finish();
                    proof {
                        before.lemma_finished_is_idle();
                    }
                }
            }
            self.channels[index] = channel;
            proof {
                assert forall|j: int| 0 <= j < 7 implies (#[trigger] self.channels@[j]).wf(j) by {
                    assert(old(self).channels@[j].wf(j));
                }
            }
            Ok(())
        } else {
            if minor == 0 {
                self.control = value;
                Ok(())
            } else if minor == 4 {
                self.interrupt.write(value);
                Ok(())
            } else {
                Err(DmaFault::UnknownRegister { offset })
            }
        }
    }
}

} // verus!
