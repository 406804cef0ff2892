//! A ring buffer with a producer and a consumer end.
//!
//! The crate states what every operation does over the sequence of items that a
//! buffer holds, oldest first, and Verus proves that the code does it.

pub mod async_wrap;
pub mod byte_io;
pub mod calls;
pub mod consumer;
pub mod discard;
pub mod gate;
pub mod laws;
pub mod mutex_spin;
pub mod outside;
pub mod producer;
pub mod promises;
pub mod ring_buffer;
pub mod shared;
pub mod slices;
pub mod storage;
pub mod sync_spin;
pub mod transfer;
