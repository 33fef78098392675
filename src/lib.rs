//! Reassembly of fragmented messages delivered out of order.
//!
//! `decode` turns one input record into a [`Packet`]; `assembler` buffers
//! fragments per message and emits each message once all of its slots are
//! filled.
use vstd::prelude::*;

pub mod decode;
pub mod text;
pub mod message;
pub mod assembler;
pub mod laws;

verus! {

/// The two failure kinds of the reassembly run.
#[derive(Debug, Clone, Copy, PartialEq, Eq, Structural)]
pub enum ReassemblyError {
    /// A record lacks one of its three leading fields, or one of them is not
    /// an unsigned integer.
    MalformedRecord,
    /// A fragment index does not fit in the slots of its message.
    IndexOutOfRange { message_id: usize, fragment_index: usize, expected_count: usize },
}

} // verus!
