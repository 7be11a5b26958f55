//! A verified disruptor: a ring buffer that hands items from one publisher through a chain of
//! consumers, every stage of which follows the others by sequence number.
pub mod args;
pub mod barrier;
pub mod bench;
pub mod chain;
pub mod chain_wait;
pub mod dependency;
pub mod growing_chain;
pub mod laws;
pub mod memory;
pub mod owner;
pub mod pipeline;
pub mod power;
pub mod protocol;
pub mod resizing;
pub mod ring_buffer;
pub mod sequence;
pub mod steps;
pub mod text;
pub mod wait;
pub mod wakeup;
