//! Cycle-level core of a 32-bit RISC-style game-console chipset: the CPU
//! instruction-dispatch loop with branch- and load-delay-slot semantics, the
//! exception coprocessor, a seven-channel DMA engine with three
//! synchronization modes, and the shared cycle counter that keeps CPU and DMA
//! time-synchronized.

pub mod cpu;
pub mod gpu;
