//! A bounded history of host metric samples and the scheduler that fills it.
//!
//! Samples are kept, serialized, in a fixed number of fixed-size segments.
//! When the newest segment is full the oldest one is recycled, so the history
//! never grows. A small state machine decides when the next sample is due and
//! how it reacts to reconfiguration and termination signals.
//!
//! Time is counted in nanoseconds on a monotonic clock whose origin the
//! caller chooses, and measurements are carried as the bit patterns of the
//! IEEE 754 doubles they stand for.

pub mod cache_worker;
pub mod collector;
pub mod history;
pub mod settings;
pub mod shmem_ring_buffer;
pub mod wire;
