//! Exact-size reads from an in-memory byte stream, and little/big-endian field decoding.
use vstd::prelude::*;

verus! {

/// Why a decode stopped.
#[derive(Debug, Clone, Copy, PartialEq, Eq, Structural)]
pub enum DecodeError {
    /// No byte at all was left where a read started: the clean end of the stream.
    Truncated,
    /// Some bytes, but fewer than the read needed, were left before the stream ended.
    ShortRead,
    /// The capture header's magic number is not the one recognised format.
    InvalidMagic,
    /// The capture header's link-layer type is not Ethernet.
    UnsupportedLinkType,
    /// A record's captured length is smaller than its link-layer header.
    OverlaySizeUnderflow,
}

/// Outcome of reading `n` bytes at `pos` from a stream of `len` bytes.
pub open spec fn take_spec(len: int, pos: int, n: int) -> Result<int, DecodeError> {
    if len - pos >= n {
        Ok(pos + n)
    } else if pos == len {
        Err(DecodeError::Truncated)
    } else {
        Err(DecodeError::ShortRead)
    }
}

/// Reads exactly `n` bytes of `data` starting at `pos`, returning the position after them.
/// Fails with `Truncated` when the stream ends exactly at `pos` and `n` bytes were needed,
/// and with `ShortRead` when some but not enough bytes remain.
pub fn take(data: &[u8], pos: usize, n: usize) -> (r: Result<usize, DecodeError>)
    requires
        pos <= data@.len(),
    ensures
        r matches Ok(p) ==> take_spec(data@.len() as int, pos as int, n as int) == Ok::<int, DecodeError>(p as int),
        r matches Err(e) ==> take_spec(data@.len() as int, pos as int, n as int) == Err::<int, DecodeError>(e),
{
    let avail = data.len() - pos;
    if avail >= n {
        Ok(pos + n)
    } else if avail == 0 {
        Err(DecodeError::Truncated)
    } else {
        Err(DecodeError::ShortRead)
    }
}

/// The unsigned 16-bit value stored little-endian at `i`.
pub open spec fn u16_le(s: Seq<u8>, i: int) -> u16 {
    (s[i] as int + 256 * s[i + 1] as int) as u16
}

/// The unsigned 16-bit value stored big-endian (network order) at `i`.
pub open spec fn u16_be(s: Seq<u8>, i: int) -> u16 {
    (256 * s[i] as int + s[i + 1] as int) as u16
}

/// The unsigned 32-bit value stored little-endian at `i`.
pub open spec fn u32_le(s: Seq<u8>, i: int) -> u32 {
    (s[i] as int + 256 * s[i + 1] as int + 65536 * s[i + 2] as int + 16777216 * s[i + 3] as int) as u32
}

/// Decodes the little-endian 16-bit field at `i`.
pub fn read_u16_le(data: &[u8], i: usize) -> (r: u16)
    requires
        i + 2 <= data@.len(),
    ensures
        r == u16_le(data@, i as int),
{
    (data[i] as u16) + 256 * (data[i + 1] as u16)
}

/// Decodes the big-endian 16-bit field at `i`.
pub fn read_u16_be(data: &[u8], i: usize) -> (r: u16)
    requires
        i + 2 <= data@.len(),
    ensures
        r == u16_be(data@, i as int),
{
    256 * (data[i] as u16) + (data[i + 1] as u16)
}

/// Decodes the little-endian 32-bit field at `i`.
pub fn read_u32_le(data: &[u8], i: usize) -> (r: u32)
    requires
        i + 4 <= data@.len(),
    ensures
        r == u32_le(data@, i as int),
{
    (data[i] as u32) + 256 * (data[i + 1] as u32) + 65536 * (data[i + 2] as u32) + 16777216 * (data[i + 3] as u32)
}

} // verus!
