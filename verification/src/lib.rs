//! The decisions of a Dante-compatible audio-over-IP device, with their proofs.
//!
//! The crate does no input or output of its own. Callers hand it what they read (requests,
//! counters, the samples that arrived) and get back what to send, what to play and what to do
//! next.

pub mod byte_utils;
pub mod common;
pub mod device_info;
pub mod device_server;
pub mod hex_text;
pub mod media_clock;
pub mod protocol;
pub mod real_time_box_channel;
pub mod ring_buffer;
pub mod text;
