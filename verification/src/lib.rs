//! Verified core of a two-controller e-paper picture frame.
//!
//! The library covers the image-delivery pipeline: quantizing a photo onto
//! the panel's fixed six-color palette, packing the quantized pixels into the
//! byte layout the two half-panel controllers expect, streaming those bytes
//! over an ack-paced chunked transport, and the driver state machine that
//! routes the incoming stream to the correct controller.

pub mod cache;
pub mod encode;
pub mod epd;
pub mod errors;
pub mod frame;
pub mod immich;
pub mod network;
pub mod palette;
pub mod pipeline;
pub mod quantize;
pub mod receiver;
pub mod transport;
