//! Predicates over a packet's overlay bytes, read as an IPv4 header followed by a TCP header.
use vstd::prelude::*;
use crate::bytes::{u16_be, read_u16_be};
use crate::capture::Packet;

verus! {

/// Offset of the protocol-number field in the IPv4 header.
pub const IP_PROTOCOL_OFFSET: usize = 9;
/// Size of the IPv4 header that the TCP header follows.
pub const IP_HEADER_LEN: usize = 20;
/// Offset, within the TCP header, of the 16-bit word that ends in the control flags.
pub const TCP_FLAGS_OFFSET: usize = 12;
/// IP protocol number of TCP.
pub const PROTOCOL_TCP: u8 = 6;
/// The SYN control bit.
pub const FLAG_SYN: u16 = 0x01;
/// The ACK control bit.
pub const FLAG_ACK: u16 = 0x10;

/// The IPv4 protocol number of an overlay, if the overlay reaches that field.
pub open spec fn protocol_of(ev: Seq<u8>) -> Option<u8> {
    if ev.len() > IP_PROTOCOL_OFFSET {
        Some(ev[IP_PROTOCOL_OFFSET as int])
    } else {
        None
    }
}

/// Whether an overlay carries TCP.
pub open spec fn is_tcp_of(ev: Seq<u8>) -> bool {
    protocol_of(ev) == Some(PROTOCOL_TCP)
}

/// The TCP data-offset/flags word of an overlay, in host order, if the overlay reaches it.
pub open spec fn tcp_flags_of(ev: Seq<u8>) -> Option<u16> {
    if ev.len() >= IP_HEADER_LEN + TCP_FLAGS_OFFSET + 2 {
        Some(u16_be(ev, IP_HEADER_LEN + TCP_FLAGS_OFFSET))
    } else {
        None
    }
}

/// SYN set and ACK clear.
pub open spec fn syn_bits(w: u16) -> bool {
    w & FLAG_SYN != 0 && w & FLAG_ACK == 0
}

/// SYN and ACK both set.
pub open spec fn synack_bits(w: u16) -> bool {
    w & FLAG_SYN != 0 && w & FLAG_ACK != 0
}

/// Whether an overlay is a TCP segment with SYN set and ACK clear.
pub open spec fn is_syn_of(ev: Seq<u8>) -> bool {
    match tcp_flags_of(ev) {
        Some(w) => syn_bits(w),
        None => false,
    }
}

/// Whether an overlay is a TCP segment with both SYN and ACK set.
pub open spec fn is_synack_of(ev: Seq<u8>) -> bool {
    match tcp_flags_of(ev) {
        Some(w) => synack_bits(w),
        None => false,
    }
}

/// Whether a flags word has SYN set and ACK clear.
pub fn is_syn_flags(w: u16) -> (r: bool)
    ensures
        r == syn_bits(w),
{
    w & FLAG_SYN != 0 && w & FLAG_ACK == 0
}

/// Whether a flags word has both SYN and ACK set.
pub fn is_synack_flags(w: u16) -> (r: bool)
    ensures
        r == synack_bits(w),
{
    w & FLAG_SYN != 0 && w & FLAG_ACK != 0
}

/// No flags word is both a SYN and a SYN-ACK.
pub proof fn lemma_syn_synack_exclusive(w: u16)
    ensures
        !(syn_bits(w) && synack_bits(w)),
{
}

impl Packet {
    /// The IPv4 header's protocol number, or `None` when the overlay is too short to hold it.
    pub fn protocol(&self) -> (r: Option<u8>)
        ensures
            r == protocol_of(self@.1),
    {
        if self.event.bytes.len() > IP_PROTOCOL_OFFSET {
            Some(self.event.bytes[IP_PROTOCOL_OFFSET])
        } else {
            None
        }
    }

    /// Whether the packet's protocol number is TCP.
    pub fn is_tcp(&self) -> (r: bool)
        ensures
            r == is_tcp_of(self@.1),
    {
        match self.protocol() {
            Some(p) => p == PROTOCOL_TCP,
            None => false,
        }
    }

    /// The TCP header's data-offset/flags word, converted from network order, or `None`
    /// when the overlay is too short to hold it.
    pub fn tcp_flags(&self) -> (r: Option<u16>)
        ensures
            r == tcp_flags_of(self@.1),
    {
        if self.event.bytes.len() >= IP_HEADER_LEN + TCP_FLAGS_OFFSET + 2 {
            Some(read_u16_be(self.event.bytes.as_slice(), IP_HEADER_LEN + TCP_FLAGS_OFFSET))
        } else {
            None
        }
    }

    /// Whether this TCP packet has SYN set and ACK clear.
    pub fn is_syn(&self) -> (r: bool)
        requires
            is_tcp_of(self@.1),
        ensures
            r == is_syn_of(self@.1),
    {
        match self.tcp_flags() {
            Some(w) => is_syn_flags(w),
            None => false,
        }
    }

    /// Whether this TCP packet has both SYN and ACK set.
    pub fn is_synack(&self) -> (r: bool)
        requires
            is_tcp_of(self@.1),
        ensures
            r == is_synack_of(self@.1),
    {
        match self.tcp_flags() {
            Some(w) => is_synack_flags(w),
            None => false,
        }
    }
}

} // verus!
