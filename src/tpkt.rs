//! The TPKT header that frames a payload on a TCP stream.

use vstd::prelude::*;

verus! {

/// A TPKT header: version, a reserved byte, and the packet length.
#[derive(Debug, Clone, Copy, PartialEq, Eq)]
pub struct TpktPayloadHeader {
    version: u8,
    pre_reserved: u8,
    header: u8,
    packet_length: u8,
}

} // verus!
