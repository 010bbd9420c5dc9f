//! Interrupt and console logic of the SG2002 (RISC-V) platform layer: the
//! `scause` classification of interrupt numbers, the PLIC register layout and
//! the write-only enable shadow that stands in for the enable registers this
//! SoC faults on when read, the inter-processor interrupt hart masks, and the
//! byte-level console protocol.

pub mod cause;
pub mod plic;
pub mod enable_shadow;
pub mod irq;
pub mod ipi;
pub mod console;
pub mod table_lookup;
