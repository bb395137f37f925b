//! A fixed-capacity snapshot table for market ticks, shared by one writer and
//! many readers through a sequence-counter (seqlock) protocol.
pub mod error;
pub mod layout;
pub mod protocol;
pub mod slot;
pub mod tick;
