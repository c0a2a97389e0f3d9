//! A byte-at-a-time decoder for Ethernet-style link-layer frames.
//!
//! A [`decoder::Decoder`] is fed one byte per call. It hunts for the preamble and
//! the start-of-frame delimiter, collects the two addresses, the length tag and
//! the payload, and releases the frame once the trailing CRC-32 agrees with the
//! collected fields. Anything that does not fit sends it back to hunting.
//!
//! The behaviour is stated over a mathematical model: [`model::Phase`] is the
//! decoder's state, [`model::step`] its transition function, [`wire::wire`] the
//! byte string of a frame, and the theorems about whole byte streams live in
//! [`laws`].

pub mod bytes;
pub mod checksum;
pub mod decoder;
pub mod frame;
pub mod laws;
pub mod model;
pub mod wire;
