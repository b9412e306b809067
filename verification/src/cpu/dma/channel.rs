use vstd::prelude::*;

use crate::cpu::bus::spec_ram_index;

verus! {

/// Transfer pattern of a channel: one fixed-size block, repeated blocks with
/// inter-block gaps, or chained variable-size nodes read from memory.
#[derive(Clone, Copy, PartialEq, Eq, Structural, Debug)]
pub enum SyncMode {
    Manual,
    Request,
    LinkedList,
}

/// A channel's control register, kept in its 32-bit hardware encoding.
#[derive(Clone, Copy, PartialEq, Eq, Structural)]
pub struct ChannelControl {
    pub val: u32,
}

impl ChannelControl {
    /// Transfer direction: set means RAM is the source.
    pub open spec fn spec_is_from_ram(self) -> bool {
        self.val & 1 == 1
    }

    pub fn is_from_ram(&self) -> (r: bool)
        ensures
            r == self.spec_is_from_ram(),
    {
        self.val & 1 == 1
    }

    /// Address step direction: clear means the cursor walks forward by 4.
    pub open spec fn spec_is_address_increment(self) -> bool {
        (self.val >> 1) & 1 == 0
    }

    pub fn is_address_increment(&self) -> (r: bool)
        ensures
            r == self.spec_is_address_increment(),
    {
        (self.val >> 1) & 1 == 0
    }

    /// Whether the CPU may interleave with this channel's timing gaps.
    pub open spec fn spec_chopping_enabled(self) -> bool {
        (self.val >> 8) & 1 == 1
    }

    pub fn chopping_enabled(&self) -> (r: bool)
        ensures
            r == self.spec_chopping_enabled(),
    {
        (self.val >> 8) & 1 == 1
    }

    /// The two synchronization-mode bits.
    pub open spec fn spec_sync_bits(self) -> u32 {
        (self.val >> 9) & 0b11
    }

    /// The synchronization mode; the fourth encoding is reserved.
    pub open spec fn spec_synchronization_mode(self) -> Option<SyncMode> {
        if self.spec_sync_bits() == 0 {
            Some(SyncMode::Manual)
        } else if self.spec_sync_bits() == 1 {
            Some(SyncMode::Request)
        } else if self.spec_sync_bits() == 2 {
            Some(SyncMode::LinkedList)
        } else {
            None
        }
    }

    pub fn synchronization_mode(&self) -> (r: Option<SyncMode>)
        ensures
            r == self.spec_synchronization_mode(),
    {
        let bits = (self.val >> 9) & 0b11;
        if bits == 0 {
            Some(SyncMode::Manual)
        } else if bits == 1 {
            Some(SyncMode::Request)
        } else if bits == 2 {
            Some(SyncMode::LinkedList)
        } else {
            None
        }
    }

    /// The channel-enable bit.
    pub open spec fn spec_is_enabled(self) -> bool {
        (self.val >> 24) & 1 == 1
    }

    pub fn is_enabled(&self) -> (r: bool)
        ensures
            r == self.spec_is_enabled(),
    {
        (self.val >> 24) & 1 == 1
    }

    /// The manual-start trigger bit.
    pub open spec fn spec_trigger(self) -> bool {
        (self.val >> 28) & 1 == 1
    }

    pub fn trigger(&self) -> (r: bool)
        ensures
            r == self.spec_trigger(),
    {
        (self.val >> 28) & 1 == 1
    }
}

/// A channel's block-control register: block size in the low half, block
/// count in the high half.
#[derive(Clone, Copy, PartialEq, Eq, Structural)]
pub struct BlockControl {
    pub val: u32,
}

impl BlockControl {
    /// Words per block.
    pub open spec fn spec_block_size(self) -> u32 {
        self.val & 0xffff
    }

    pub fn block_size(&self) -> (r: u32)
        ensures
            r == self.spec_block_size(),
    {
        self.val & 0xffff
    }

    /// Blocks per transfer (request mode only).
    pub open spec fn spec_block_count(self) -> u32 {
        self.val >> 16
    }

    pub fn block_count(&self) -> (r: u32)
        ensures
            r == self.spec_block_count(),
    {
        self.val >> 16
    }
}

/// One DMA channel: its three guest-visible registers and the runtime cursor
/// state derived from them while a transfer runs.
#[derive(Clone, Copy, PartialEq, Eq, Structural)]
pub struct DmaChannel {
    /// Which peripheral slot this channel serves.
    pub channel_id: usize,
    /// Start address register, masked to a word-aligned 24-bit address.
    pub base_address: u32,
    /// Block-control register.
    pub block_control: BlockControl,
    /// Channel-control register.
    pub control: ChannelControl,
    /// Cursor: the address of the next word moved.
    pub active_address: u32,
    /// Words left in the current block or node.
    pub word_count: u32,
    /// Blocks left after the current one (request mode).
    pub blocks_remaining: u32,
    /// Countdown of the pause before the channel resumes.
    pub gap_ticks: u64,
}

impl DmaChannel {
    /// A channel is active when enabled, and in manual mode additionally
    /// triggered.
    pub open spec fn spec_is_active(self) -> bool {
        self.control.spec_is_enabled() && (if self.control.spec_sync_bits() == 0 {
            self.control.spec_trigger()
        } else {
            true
        })
    }

    pub fn is_active(&self) -> (r: bool)
        ensures
            r == self.spec_is_active(),
    {
        let bits = (self.control.val >> 9) & 0b11;
        self.control.is_enabled() && (if bits == 0 {
            self.control.trigger()
        } else {
            true
        })
    }

    /// Words per block, from the block-control register.
    pub open spec fn spec_block_size(self) -> u32 {
        self.block_control.spec_block_size()
    }

    pub fn block_size(&self) -> (r: u32)
        ensures
            r == self.spec_block_size(),
    {
        self.block_control.block_size()
    }

    /// The control register after a transfer completes: enable and trigger
    /// both cleared.
    pub open spec fn spec_finished_control(self) -> ChannelControl {
        ChannelControl { val: self.control.val & !0x1100_0000u32 }
    }

    /// An idle channel, as `finish` leaves it.
    pub open spec fn spec_finished(self) -> DmaChannel {
        DmaChannel { control: self.spec_finished_control(), ..self }
    }

    /// A channel at reset: all registers and cursor state zero.
    pub open spec fn spec_idle(channel_id: usize) -> DmaChannel {
        DmaChannel {
            channel_id,
            base_address: 0,
            block_control: BlockControl { val: 0 },
            control: ChannelControl { val: 0 },
            active_address: 0,
            word_count: 0,
            blocks_remaining: 0,
            gap_ticks: 0,
        }
    }

    pub fn new(channel_id: usize) -> (channel: DmaChannel)
        ensures
            channel == DmaChannel::spec_idle(channel_id),
            channel.channel_id == channel_id,
            channel.base_address == 0,
            channel.block_control.val == 0,
            channel.control.val == 0,
            channel.active_address == 0,
            channel.word_count == 0,
            channel.blocks_remaining == 0,
            channel.gap_ticks == 0,
    {
        DmaChannel {
            channel_id,
            base_address: 0,
            block_control: BlockControl { val: 0 },
            control: ChannelControl { val: 0 },
            active_address: 0,
            word_count: 0,
            blocks_remaining: 0,
            gap_ticks: 0,
        }
    }

    /// Return the channel to idle: clear the enable and trigger bits.
    pub fn finish(&mut self)
        ensures
            *final(self) == old(self).spec_finished(),
    {
        self.control = ChannelControl { val: self.control.val & !0x1100_0000u32 };
    }

    /// An idle channel is never reported active.
    pub proof fn lemma_finished_is_idle(self)
        ensures
            !self.spec_finished().spec_is_active(),
    {
        let v = self.control.val;
        assert(((v & !0x1100_0000u32) >> 24) & 1 != 1) by (bit_vector);
    }

    /// The channel after a guest write of one of its three registers: the
    /// base address is masked to its word-aligned 24-bit field, the other
    /// two registers store the value as written.
    pub open spec fn spec_register_written(self, minor: u32, value: u32) -> DmaChannel {
        if minor == 0 {
            DmaChannel { base_address: value & 0xff_fffc, ..self }
        } else if minor == 4 {
            DmaChannel { block_control: BlockControl { val: value }, ..self }
        } else {
            DmaChannel { control: ChannelControl { val: value }, ..self }
        }
    }

    /// Cursor state freshly derived from the registers when a control
    /// write leaves the channel active: the cursor starts at the masked
    /// base address, and the word count comes from the synchronization
    /// mode. A transfer with nothing to move finishes on the spot.
    pub open spec fn spec_activated(self) -> DmaChannel {
        let started = match self.control.spec_synchronization_mode() {
            Some(SyncMode::LinkedList) => DmaChannel {
                active_address: self.base_address & 0x1f_fffc,
                word_count: 1,
                ..self
            },
            Some(SyncMode::Manual) => DmaChannel {
                active_address: self.base_address & 0x1f_fffc,
                word_count: self.spec_block_size(),
                ..self
            },
            _ => DmaChannel {
                active_address: self.base_address & 0x1f_fffc,
                word_count: self.spec_block_size(),
                blocks_remaining: self.block_control.spec_block_count(),
                ..self
            },
        };
        if started.word_count == 0 {
            started.spec_finished()
        } else {
            started
        }
    }

    /// Well-formedness at slot `i` of the engine: the identifier matches the
    /// slot, and an active channel always has at least one word outstanding
    /// and a recognized synchronization mode.
    pub open spec fn wf(self, i: int) -> bool {
        self.channel_id == i && (self.spec_is_active() ==> self.word_count >= 1
            && self.control.spec_synchronization_mode() is Some)
    }
}

/// A block size always fits in its sixteen-bit field.
pub proof fn lemma_block_size_bound(x: u32)
    ensures
        x & 0xffff <= 0xffff,
{
    assert(x & 0xffff <= 0xffff) by (bit_vector);
}

/// What one service call leaves behind: the channel, the RAM image, the
/// graphics-port log, and the cycle cost folded into the sweep's total.
pub struct ChannelOutcome {
    pub channel: DmaChannel,
    pub ram: Seq<u32>,
    pub gpu: Seq<u32>,
    pub cost: int,
}

/// The word a manual-mode channel writes toward RAM: the reverse-ordering
/// table of channel 6 links each entry to the previous word, and its final
/// entry holds the list terminator.
pub open spec fn spec_manual_fill_value(channel: DmaChannel) -> u32 {
    if channel.word_count == 1 {
        0xff_ffff
    } else {
        channel.active_address.wrapping_sub(4) & 0x1f_ffff
    }
}

/// The cursor after one word: a step of 4, up or down, wrapping.
pub open spec fn spec_next_address(channel: DmaChannel) -> u32 {
    if channel.control.spec_is_address_increment() {
        channel.active_address.wrapping_add(4)
    } else {
        channel.active_address.wrapping_sub(4)
    }
}

/// A manual-mode service call moves exactly one word — toward the graphics
/// port when RAM is the source, toward RAM for the ordering table — steps
/// the cursor, and finishes the channel when the block is exhausted,
/// charging the block size as its cycle cost.
pub open spec fn spec_manual_step(channel: DmaChannel, ram: Seq<u32>, gpu: Seq<u32>) -> ChannelOutcome {
    let masked = channel.active_address & 0x1f_fffc;
    let gpu2 = if channel.control.spec_is_from_ram() {
        gpu.push(ram[spec_ram_index(masked)])
    } else {
        gpu
    };
    let ram2 = if channel.control.spec_is_from_ram() {
        ram
    } else {
        ram.update(spec_ram_index(masked), spec_manual_fill_value(channel))
    };
    let wc2 = (channel.word_count - 1) as u32;
    let stepped = DmaChannel {
        active_address: spec_next_address(channel),
        word_count: wc2,
        ..channel
    };
    if wc2 == 0 {
        ChannelOutcome {
            channel: stepped.spec_finished(),
            ram: ram2,
            gpu: gpu2,
            cost: channel.spec_block_size() as int,
        }
    } else {
        ChannelOutcome { channel: stepped, ram: ram2, gpu: gpu2, cost: 0 }
    }
}

/// A request-mode service call moves one word from RAM to the graphics
/// port. When the block is exhausted it charges the block size, and either
/// reloads the word count and starts a one-tick gap (blocks remain) or
/// finishes the channel.
pub open spec fn spec_request_step(channel: DmaChannel, ram: Seq<u32>, gpu: Seq<u32>) -> ChannelOutcome {
    let masked = channel.active_address & 0x1f_fffc;
    let gpu2 = gpu.push(ram[spec_ram_index(masked)]);
    let wc2 = (channel.word_count - 1) as u32;
    let stepped = DmaChannel {
        active_address: spec_next_address(channel),
        word_count: wc2,
        ..channel
    };
    if wc2 != 0 {
        ChannelOutcome { channel: stepped, ram, gpu: gpu2, cost: 0 }
    } else {
        let cost = channel.spec_block_size() as int;
        let br2 = if channel.blocks_remaining > 0 {
            (channel.blocks_remaining - 1) as u32
        } else {
            0u32
        };
        if br2 > 0 {
            let reloaded = DmaChannel {
                word_count: channel.spec_block_size(),
                blocks_remaining: br2,
                gap_ticks: spec_gap_inc(channel.gap_ticks),
                ..stepped
            };
            if channel.spec_block_size() == 0 {
                ChannelOutcome {
                    channel: (DmaChannel { blocks_remaining: br2, ..stepped }).spec_finished(),
                    ram,
                    gpu: gpu2,
                    cost,
                }
            } else {
                ChannelOutcome { channel: reloaded, ram, gpu: gpu2, cost }
            }
        } else {
            ChannelOutcome {
                channel: (DmaChannel { blocks_remaining: br2, ..stepped }).spec_finished(),
                ram,
                gpu: gpu2,
                cost,
            }
        }
    }
}

/// A gap countdown saturates upward rather than overflowing.
pub open spec fn spec_gap_inc(gap: u64) -> u64 {
    if gap == 0xffff_ffff_ffff_ffffu64 {
        gap
    } else {
        (gap + 1) as u64
    }
}

/// The graphics log and final cursor after streaming `count` payload words
/// of a linked-list node: each word sits one step past the previous one,
/// masked to the word-aligned RAM range.
pub open spec fn spec_ll_payload(ram: Seq<u32>, address: u32, count: u32, gpu: Seq<u32>) -> (
    u32,
    Seq<u32>,
)
    decreases count,
{
    if count == 0 {
        (address, gpu)
    } else {
        let next = address.wrapping_add(4) & 0x1f_fffc;
        spec_ll_payload(ram, next, (count - 1) as u32, gpu.push(ram[spec_ram_index(next)]))
    }
}

/// A linked-list service call with a pending gap only counts the gap down.
/// Otherwise it reads the node header at the cursor, streams the payload
/// words the header announces, moves the cursor to the header's next-node
/// field, and finishes on the terminator value; a node charges no sweep
/// cost of its own, its pacing comes from the inter-node gap.
pub open spec fn spec_linked_list_step(channel: DmaChannel, ram: Seq<u32>, gpu: Seq<u32>) -> ChannelOutcome {
    if channel.gap_ticks > 0 {
        ChannelOutcome {
            channel: DmaChannel { gap_ticks: (channel.gap_ticks - 1) as u64, ..channel },
            ram,
            gpu,
            cost: 0,
        }
    } else {
        let header = ram[spec_ram_index(channel.active_address & 0x1f_fffc)];
        let streamed = spec_ll_payload(ram, channel.active_address & 0x1f_fffc, header >> 24, gpu);
        let moved = DmaChannel { active_address: header & 0x1f_fffc, ..channel };
        if header & 0xff_ffff == 0xff_ffff {
            ChannelOutcome { channel: moved.spec_finished(), ram, gpu: streamed.1, cost: 0 }
        } else {
            ChannelOutcome {
                channel: DmaChannel { gap_ticks: spec_gap_inc(channel.gap_ticks), ..moved },
                ram,
                gpu: streamed.1,
                cost: 0,
            }
        }
    }
}

/// The state after `k` manual-mode service calls, costs accumulated.
pub open spec fn spec_manual_run(channel: DmaChannel, ram: Seq<u32>, gpu: Seq<u32>, k: nat) -> ChannelOutcome
    decreases k,
{
    if k == 0 {
        ChannelOutcome { channel, ram, gpu, cost: 0 }
    } else {
        let first = spec_manual_step(channel, ram, gpu);
        let rest = spec_manual_run(first.channel, first.ram, first.gpu, (k - 1) as nat);
        ChannelOutcome { cost: first.cost + rest.cost, ..rest }
    }
}

/// The state after `k` request-mode service calls, costs accumulated.
pub open spec fn spec_request_run(channel: DmaChannel, ram: Seq<u32>, gpu: Seq<u32>, k: nat) -> ChannelOutcome
    decreases k,
{
    if k == 0 {
        ChannelOutcome { channel, ram, gpu, cost: 0 }
    } else {
        let first = spec_request_step(channel, ram, gpu);
        let rest = spec_request_run(first.channel, first.ram, first.gpu, (k - 1) as nat);
        ChannelOutcome { cost: first.cost + rest.cost, ..rest }
    }
}

/// The state after `k` linked-list service calls, costs accumulated.
pub open spec fn spec_linked_list_run(channel: DmaChannel, ram: Seq<u32>, gpu: Seq<u32>, k: nat) -> ChannelOutcome
    decreases k,
{
    if k == 0 {
        ChannelOutcome { channel, ram, gpu, cost: 0 }
    } else {
        let first = spec_linked_list_step(channel, ram, gpu);
        let rest = spec_linked_list_run(first.channel, first.ram, first.gpu, (k - 1) as nat);
        ChannelOutcome { cost: first.cost + rest.cost, ..rest }
    }
}

/// A manual-mode channel streaming from RAM to the graphics port with `n`
/// words outstanding performs exactly `n` word transfers and then goes
/// idle, exactly once: it is still active after every earlier service
/// call, and after the `n`th its word count is zero, its enable and
/// trigger bits are cleared, and the graphics log has grown by exactly
/// `n` words. RAM is untouched.
pub proof fn lemma_manual_block_transfers(channel: DmaChannel, ram: Seq<u32>, gpu: Seq<u32>)
    requires
        channel.spec_is_active(),
        channel.control.spec_synchronization_mode() == Some(SyncMode::Manual),
        channel.control.spec_is_from_ram(),
        channel.channel_id == 2,
        channel.word_count >= 1,
    ensures
        ({
            let end = spec_manual_run(channel, ram, gpu, channel.word_count as nat);
            &&& end.channel.word_count == 0
            &&& !end.channel.spec_is_active()
            &&& end.gpu.len() == gpu.len() + channel.word_count
            &&& end.ram == ram
        }),
        forall|k: nat|
            k < channel.word_count ==> (#[trigger] spec_manual_run(
                channel,
                ram,
                gpu,
                k,
            )).channel.spec_is_active(),
    decreases channel.word_count,
{
    let first = spec_manual_step(channel, ram, gpu);
    if channel.word_count == 1 {
        let stepped = DmaChannel {
            active_address: spec_next_address(channel),
            word_count: 0,
            ..channel
        };
        stepped.lemma_finished_is_idle();
        assert(spec_manual_run(first.channel, first.ram, first.gpu, 0) == ChannelOutcome {
            channel: first.channel,
            ram: first.ram,
            gpu: first.gpu,
            cost: 0,
        });
    } else {
        lemma_manual_block_transfers(first.channel, first.ram, first.gpu);
        assert forall|k: nat|
            k < channel.word_count implies (#[trigger] spec_manual_run(
            channel,
            ram,
            gpu,
            k,
        )).channel.spec_is_active() by {
            if k > 0 {
                assert(spec_manual_run(channel, ram, gpu, k).channel == spec_manual_run(
                    first.channel,
                    first.ram,
                    first.gpu,
                    (k - 1) as nat,
                ).channel);
            }
        }
    }
}

/// Splitting a request-mode run: running `a + b` calls is running `a`,
/// then `b` from where that left off, with the costs added.
pub proof fn lemma_request_run_split(
    channel: DmaChannel,
    ram: Seq<u32>,
    gpu: Seq<u32>,
    a: nat,
    b: nat,
)
    ensures
        ({
            let mid = spec_request_run(channel, ram, gpu, a);
            let rest = spec_request_run(mid.channel, mid.ram, mid.gpu, b);
            spec_request_run(channel, ram, gpu, a + b) == (ChannelOutcome {
                cost: mid.cost + rest.cost,
                ..rest
            })
        }),
    decreases a,
{
    if a == 0 {
        let mid = spec_request_run(channel, ram, gpu, 0);
        let rest = spec_request_run(mid.channel, mid.ram, mid.gpu, b);
        assert(spec_request_run(channel, ram, gpu, b) == rest);
    } else {
        let first = spec_request_step(channel, ram, gpu);
        lemma_request_run_split(first.channel, first.ram, first.gpu, (a - 1) as nat, b);
        assert(a + b == 1 + ((a - 1) + b));
    }
}

/// One block of a request-mode run: with `w` words outstanding, `w`
/// service calls stream `w` words and charge the block size once; then the
/// channel either reloads a fresh block and starts a one-tick gap (more
/// blocks remain and the block size is nonzero) or goes idle.
pub proof fn lemma_request_block(channel: DmaChannel, ram: Seq<u32>, gpu: Seq<u32>)
    requires
        channel.spec_is_active(),
        channel.control.spec_synchronization_mode() == Some(SyncMode::Request),
        channel.control.spec_is_from_ram(),
        channel.channel_id == 2,
        channel.word_count >= 1,
    ensures
        ({
            let end = spec_request_run(channel, ram, gpu, channel.word_count as nat);
            let br2 = if channel.blocks_remaining > 0 {
                (channel.blocks_remaining - 1) as u32
            } else {
                0u32
            };
            &&& end.ram == ram
            &&& end.gpu.len() == gpu.len() + channel.word_count
            &&& end.cost == channel.spec_block_size()
            &&& (if br2 > 0 && channel.spec_block_size() > 0 {
                &&& end.channel.spec_is_active()
                &&& end.channel.control == channel.control
                &&& end.channel.block_control == channel.block_control
                &&& end.channel.channel_id == channel.channel_id
                &&& end.channel.word_count == channel.spec_block_size()
                &&& end.channel.blocks_remaining == br2
                &&& end.channel.gap_ticks == spec_gap_inc(channel.gap_ticks)
            } else {
                &&& !end.channel.spec_is_active()
                &&& end.channel.word_count == 0
                &&& end.channel.gap_ticks == channel.gap_ticks
            })
        }),
        forall|k: nat|
            k < channel.word_count ==> (#[trigger] spec_request_run(
                channel,
                ram,
                gpu,
                k,
            )).channel.spec_is_active(),
    decreases channel.word_count,
{
    let first = spec_request_step(channel, ram, gpu);
    if channel.word_count == 1 {
        let br2 = if channel.blocks_remaining > 0 {
            (channel.blocks_remaining - 1) as u32
        } else {
            0u32
        };
        let stepped = DmaChannel {
            active_address: spec_next_address(channel),
            word_count: 0,
            ..channel
        };
        if br2 > 0 && channel.spec_block_size() > 0 {
        } else if br2 > 0 {
            (DmaChannel { blocks_remaining: br2, ..stepped }).lemma_finished_is_idle();
        } else {
            (DmaChannel { blocks_remaining: br2, ..stepped }).lemma_finished_is_idle();
        }
        assert(spec_request_run(first.channel, first.ram, first.gpu, 0) == ChannelOutcome {
            channel: first.channel,
            ram: first.ram,
            gpu: first.gpu,
            cost: 0,
        });
    } else {
        lemma_request_block(first.channel, first.ram, first.gpu);
        assert forall|k: nat|
            k < channel.word_count implies (#[trigger] spec_request_run(
            channel,
            ram,
            gpu,
            k,
        )).channel.spec_is_active() by {
            if k > 0 {
                assert(spec_request_run(channel, ram, gpu, k).channel == spec_request_run(
                    first.channel,
                    first.ram,
                    first.gpu,
                    (k - 1) as nat,
                ).channel);
            }
        }
    }
}

/// A request-mode channel freshly on a block boundary — word count equal
/// to a nonzero block size `B`, `C` blocks remaining, no pending gap —
/// performs exactly `B * C` word transfers over `B * C` service calls and
/// then goes idle, inserting one gap tick at each of the `C - 1`
/// boundaries between consecutive blocks and charging the block size once
/// per block. RAM is untouched.
pub proof fn lemma_request_transfers_all_blocks(channel: DmaChannel, ram: Seq<u32>, gpu: Seq<u32>)
    requires
        channel.spec_is_active(),
        channel.control.spec_synchronization_mode() == Some(SyncMode::Request),
        channel.control.spec_is_from_ram(),
        channel.channel_id == 2,
        channel.spec_block_size() >= 1,
        channel.word_count == channel.spec_block_size(),
        channel.blocks_remaining >= 1,
        channel.gap_ticks + channel.blocks_remaining <= 0xffff_ffff_ffff_ffffu64,
    ensures
        ({
            let total = (channel.spec_block_size() * channel.blocks_remaining) as nat;
            let end = spec_request_run(channel, ram, gpu, total);
            &&& !end.channel.spec_is_active()
            &&& end.ram == ram
            &&& end.gpu.len() == gpu.len() + total
            &&& end.cost == total
            &&& end.channel.gap_ticks == channel.gap_ticks + (channel.blocks_remaining - 1)
        }),
    decreases channel.blocks_remaining,
{
    let size = channel.spec_block_size();
    let blocks = channel.blocks_remaining;
    let total = (size * blocks) as nat;
    lemma_request_block(channel, ram, gpu);
    let mid = spec_request_run(channel, ram, gpu, size as nat);
    if blocks == 1 {
        assert(size * blocks == size) by (nonlinear_arith)
            requires
                blocks == 1,
        ;
    } else {
        assert(mid == spec_request_run(channel, ram, gpu, channel.word_count as nat));
        assert(mid.channel.gap_ticks == spec_gap_inc(channel.gap_ticks));
        lemma_request_transfers_all_blocks(mid.channel, mid.ram, mid.gpu);
        lemma_request_run_split(channel, ram, gpu, size as nat, (size * (blocks - 1)) as nat);
        assert(size * blocks == size + size * (blocks - 1)) by (nonlinear_arith);
    }
}

/// Streaming a payload grows the graphics log by exactly the declared
/// word count.
pub proof fn lemma_ll_payload_len(ram: Seq<u32>, address: u32, count: u32, gpu: Seq<u32>)
    ensures
        spec_ll_payload(ram, address, count, gpu).1.len() == gpu.len() + count,
    decreases count,
{
    if count > 0 {
        let next = address.wrapping_add(4) & 0x1f_fffc;
        lemma_ll_payload_len(ram, next, (count - 1) as u32, gpu.push(ram[spec_ram_index(next)]));
    }
}

/// The cursor sits at the head of a chain of exactly `m` nodes whose last
/// node's next field holds the terminator.
pub open spec fn spec_chain(ram: Seq<u32>, address: u32, m: nat) -> bool
    decreases m,
{
    if m == 0 {
        false
    } else {
        let header = ram[spec_ram_index(address & 0x1f_fffc)];
        if header & 0xff_ffff == 0xff_ffff {
            m == 1
        } else {
            spec_chain(ram, header & 0x1f_fffc, (m - 1) as nat)
        }
    }
}

/// The total payload word count the first `m` nodes of a chain declare.
pub open spec fn spec_chain_words(ram: Seq<u32>, address: u32, m: nat) -> nat
    decreases m,
{
    if m == 0 {
        0
    } else {
        let header = ram[spec_ram_index(address & 0x1f_fffc)];
        ((header >> 24) + (if header & 0xff_ffff == 0xff_ffff {
            0nat
        } else {
            spec_chain_words(ram, header & 0x1f_fffc, (m - 1) as nat)
        })) as nat
    }
}

/// The first `m` nodes from the cursor all lack the terminator.
pub open spec fn spec_chain_open(ram: Seq<u32>, address: u32, m: nat) -> bool
    decreases m,
{
    if m == 0 {
        true
    } else {
        let header = ram[spec_ram_index(address & 0x1f_fffc)];
        header & 0xff_ffff != 0xff_ffff && spec_chain_open(ram, header & 0x1f_fffc, (m - 1) as nat)
    }
}

/// Splitting a linked-list run: running `a + b` calls is running `a`,
/// then `b` from where that left off, with the costs added.
pub proof fn lemma_linked_list_run_split(
    channel: DmaChannel,
    ram: Seq<u32>,
    gpu: Seq<u32>,
    a: nat,
    b: nat,
)
    ensures
        ({
            let mid = spec_linked_list_run(channel, ram, gpu, a);
            let rest = spec_linked_list_run(mid.channel, mid.ram, mid.gpu, b);
            spec_linked_list_run(channel, ram, gpu, a + b) == (ChannelOutcome {
                cost: mid.cost + rest.cost,
                ..rest
            })
        }),
    decreases a,
{
    if a == 0 {
        let mid = spec_linked_list_run(channel, ram, gpu, 0);
        let rest = spec_linked_list_run(mid.channel, mid.ram, mid.gpu, b);
        assert(spec_linked_list_run(channel, ram, gpu, b) == rest);
    } else {
        let first = spec_linked_list_step(channel, ram, gpu);
        lemma_linked_list_run_split(first.channel, first.ram, first.gpu, (a - 1) as nat, b);
        assert(a + b == 1 + ((a - 1) + b));
    }
}

/// A linked-list transfer over a chain of `m` nodes terminated by the
/// next-field terminator streams exactly the sum of the nodes' declared
/// word counts to the graphics port and then goes idle — one service call
/// per node plus one per inter-node gap, `2 m - 1` in all. RAM is
/// untouched.
pub proof fn lemma_linked_list_chain_transfers(
    channel: DmaChannel,
    ram: Seq<u32>,
    gpu: Seq<u32>,
    m: nat,
)
    requires
        channel.spec_is_active(),
        channel.control.spec_synchronization_mode() == Some(SyncMode::LinkedList),
        channel.control.spec_is_from_ram(),
        channel.channel_id == 2,
        channel.gap_ticks == 0,
        spec_chain(ram, channel.active_address, m),
    ensures
        ({
            let end = spec_linked_list_run(channel, ram, gpu, (2 * m - 1) as nat);
            &&& !end.channel.spec_is_active()
            &&& end.ram == ram
            &&& end.gpu.len() == gpu.len() + spec_chain_words(ram, channel.active_address, m)
        }),
    decreases m,
{
    let header = ram[spec_ram_index(channel.active_address & 0x1f_fffc)];
    let first = spec_linked_list_step(channel, ram, gpu);
    lemma_ll_payload_len(ram, channel.active_address & 0x1f_fffc, header >> 24, gpu);
    if header & 0xff_ffff == 0xff_ffff {
        let moved = DmaChannel { active_address: header & 0x1f_fffc, ..channel };
        moved.lemma_finished_is_idle();
        assert((2 * m - 1) as nat == 1nat);
        assert(spec_linked_list_run(channel, ram, gpu, 1) == (ChannelOutcome {
            cost: first.cost + spec_linked_list_run(first.channel, first.ram, first.gpu, 0).cost,
            ..spec_linked_list_run(first.channel, first.ram, first.gpu, 0)
        }));
    } else {
        let drained = spec_linked_list_step(first.channel, first.ram, first.gpu);
        assert(first.channel.gap_ticks == 1);
        assert(drained.channel.gap_ticks == 0);
        lemma_linked_list_chain_transfers(drained.channel, drained.ram, drained.gpu, (m - 1) as nat);
        lemma_linked_list_run_split(channel, ram, gpu, 2, (2 * (m - 1) - 1) as nat);
        assert(2 * m - 1 == 2 + (2 * (m - 1) - 1));
        reveal_with_fuel(spec_linked_list_run, 3);
        assert(spec_linked_list_run(channel, ram, gpu, 2).channel == drained.channel);
        assert(spec_linked_list_run(channel, ram, gpu, 2).gpu == drained.gpu);
        assert(spec_linked_list_run(channel, ram, gpu, 2).ram == drained.ram);
        if m < 2 {
            assert(!spec_chain(ram, header & 0x1f_fffc, 0));
        }
        assert((2 * m - 1) as nat == 2 + (2 * (m - 1) - 1) as nat);
    }
}

/// A malformed chain whose first `m` nodes never reach the terminator
/// never finishes: after `2 m` service calls the channel is still active,
/// mid-chain.
pub proof fn lemma_linked_list_open_chain_stays_active(
    channel: DmaChannel,
    ram: Seq<u32>,
    gpu: Seq<u32>,
    m: nat,
)
    requires
        channel.spec_is_active(),
        channel.control.spec_synchronization_mode() == Some(SyncMode::LinkedList),
        channel.control.spec_is_from_ram(),
        channel.channel_id == 2,
        channel.gap_ticks == 0,
        spec_chain_open(ram, channel.active_address, m),
    ensures
        ({
            let end = spec_linked_list_run(channel, ram, gpu, 2 * m);
            &&& end.channel.spec_is_active()
            &&& end.channel.gap_ticks == 0
        }),
    decreases m,
{
    if m > 0 {
        let first = spec_linked_list_step(channel, ram, gpu);
        let drained = spec_linked_list_step(first.channel, first.ram, first.gpu);
        assert(first.channel.gap_ticks == 1);
        assert(drained.channel.gap_ticks == 0);
        lemma_linked_list_open_chain_stays_active(
            drained.channel,
            drained.ram,
            drained.gpu,
            (m - 1) as nat,
        );
        lemma_linked_list_run_split(channel, ram, gpu, 2, (2 * (m - 1)) as nat);
        assert(2 * m == 2 + (2 * (m - 1)) as nat);
        reveal_with_fuel(spec_linked_list_run, 3);
        assert(spec_linked_list_run(channel, ram, gpu, 2).channel == drained.channel);
    }
}

/// Combinations the engine implements: from RAM only toward the graphics
/// port; toward RAM only the ordering-table channel, and only manually.
pub open spec fn spec_manual_supported(channel: DmaChannel) -> bool {
    if channel.control.spec_is_from_ram() {
        channel.channel_id == 2
    } else {
        channel.channel_id == 6
    }
}

pub open spec fn spec_request_supported(channel: DmaChannel) -> bool {
    channel.control.spec_is_from_ram() && channel.channel_id == 2
}

pub open spec fn spec_linked_list_supported(channel: DmaChannel) -> bool {
    channel.control.spec_is_from_ram() && channel.channel_id == 2
}

} // verus!
