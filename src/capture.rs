//! The capture-file header, packet records, and the decoder that walks them.
use vstd::prelude::*;
use crate::bytes::{DecodeError, take, take_spec, u16_le, u16_be, u32_le, read_u16_le, read_u16_be, read_u32_le};

verus! {

/// Magic number of the recognised capture format, as read little-endian from its first four bytes.
pub const CAPTURE_MAGIC: u32 = 0xa1b2c3d4;
/// Link-layer type value for Ethernet.
pub const LINKTYPE_ETHERNET: u32 = 1;
/// Ethertype of IPv4.
pub const ETHERTYPE_IPV4: u16 = 0x0800;
/// Size of the capture header in bytes.
pub const CAPTURE_HEADER_LEN: usize = 24;
/// Size of a packet record header in bytes.
pub const RECORD_HEADER_LEN: usize = 16;
/// Size of the Ethernet link-layer header in bytes.
pub const LINK_HEADER_LEN: usize = 14;

/// The file-level header of a capture. All fields are stored little-endian.
#[derive(Debug, Clone, Copy, PartialEq, Eq, Structural)]
pub struct CaptureHeader {
    pub magic: u32,
    pub version_major: u16,
    pub version_minor: u16,
    pub thiszone: i32,
    pub sigfigs: u32,
    pub snaplen: u32,
    pub linktype: u32,
}

/// The per-packet record header: timestamp, captured length and length on the wire.
#[derive(Debug, Clone, Copy, PartialEq, Eq, Structural)]
pub struct PacketHeader {
    pub ts_sec: u32,
    pub ts_usec: u32,
    pub caplen: u32,
    pub orig_len: u32,
}

/// The network- and transport-layer bytes that follow the link-layer header,
/// exactly as many as the record captured.
#[derive(Debug, PartialEq, Eq)]
pub struct PacketEvent {
    pub bytes: Vec<u8>,
}

/// A decoded packet: its record header and the bytes after its link-layer header.
#[derive(Debug, PartialEq, Eq)]
pub struct Packet {
    pub header: PacketHeader,
    pub event: PacketEvent,
}

/// The mathematical view of a packet: its header and its overlay bytes.
pub type PacketModel = (PacketHeader, Seq<u8>);

impl View for Packet {
    type V = PacketModel;

    open spec fn view(&self) -> PacketModel {
        (self.header, self.event.bytes@)
    }
}

/// The views of a list of packets.
pub open spec fn packet_models(ps: Seq<Packet>) -> Seq<PacketModel> {
    ps.map_values(|p: Packet| p@)
}

/// The capture header stored in the first 24 bytes of `d`.
pub open spec fn capture_header_of(d: Seq<u8>) -> CaptureHeader {
    CaptureHeader {
        magic: u32_le(d, 0),
        version_major: u16_le(d, 4),
        version_minor: u16_le(d, 6),
        thiszone: u32_le(d, 8) as i32,
        sigfigs: u32_le(d, 12),
        snaplen: u32_le(d, 16),
        linktype: u32_le(d, 20),
    }
}

/// What reading and validating the capture header of `d` gives.
pub open spec fn capture_header_spec(d: Seq<u8>) -> Result<CaptureHeader, DecodeError> {
    match take_spec(d.len() as int, 0, CAPTURE_HEADER_LEN as int) {
        Err(e) => Err(e),
        Ok(_) => {
            let h = capture_header_of(d);
            if h.magic != CAPTURE_MAGIC {
                Err(DecodeError::InvalidMagic)
            } else if h.linktype != LINKTYPE_ETHERNET {
                Err(DecodeError::UnsupportedLinkType)
            } else {
                Ok(h)
            }
        },
    }
}

/// Reads the capture header at the start of `data` and checks that it names the
/// recognised format and Ethernet framing.
pub fn read_capture_header(data: &[u8]) -> (r: Result<CaptureHeader, DecodeError>)
    ensures
        r == capture_header_spec(data@),
{
    match take(data, 0, CAPTURE_HEADER_LEN) {
        Err(e) => Err(e),
        Ok(_) => {
            let h = CaptureHeader {
                magic: read_u32_le(data, 0),
                version_major: read_u16_le(data, 4),
                version_minor: read_u16_le(data, 6),
                thiszone: read_u32_le(data, 8) as i32,
                sigfigs: read_u32_le(data, 12),
                snaplen: read_u32_le(data, 16),
                linktype: read_u32_le(data, 20),
            };
            if h.magic != CAPTURE_MAGIC {
                Err(DecodeError::InvalidMagic)
            } else if h.linktype != LINKTYPE_ETHERNET {
                Err(DecodeError::UnsupportedLinkType)
            } else {
                Ok(h)
            }
        },
    }
}

/// The record header stored at the start of `d`.
pub open spec fn packet_header_of(d: Seq<u8>) -> PacketHeader {
    PacketHeader {
        ts_sec: u32_le(d, 0),
        ts_usec: u32_le(d, 4),
        caplen: u32_le(d, 8),
        orig_len: u32_le(d, 12),
    }
}

/// The ethertype of the record at the start of `d`: the last two bytes of its
/// link-layer header, big-endian.
pub open spec fn ethertype_of(d: Seq<u8>) -> u16 {
    u16_be(d, RECORD_HEADER_LEN + LINK_HEADER_LEN - 2)
}

/// What reading one record at the start of `d` gives: the packet, whether it is IPv4
/// (and so kept), and the number of bytes the record occupies.
pub open spec fn frame_spec(d: Seq<u8>) -> Result<(PacketModel, bool, int), DecodeError> {
    let len = d.len() as int;
    match take_spec(len, 0, RECORD_HEADER_LEN as int) {
        Err(e) => Err(e),
        Ok(_) => match take_spec(len, RECORD_HEADER_LEN as int, LINK_HEADER_LEN as int) {
            Err(_) => Err(DecodeError::ShortRead),
            Ok(start) => {
                let h = packet_header_of(d);
                if h.caplen < LINK_HEADER_LEN {
                    Err(DecodeError::OverlaySizeUnderflow)
                } else {
                    match take_spec(len, start, h.caplen - LINK_HEADER_LEN) {
                        Err(_) => Err(DecodeError::ShortRead),
                        Ok(end) => Ok(((h, d.subrange(start, end)), ethertype_of(d) == ETHERTYPE_IPV4, end)),
                    }
                }
            },
        },
    }
}

/// Puts `acc` in front of the packets of a successful decode; an error stays as it is.
pub open spec fn prefixed(acc: Seq<PacketModel>, r: Result<Seq<PacketModel>, DecodeError>) -> Result<Seq<PacketModel>, DecodeError> {
    match r {
        Ok(s) => Ok(acc + s),
        Err(e) => Err(e),
    }
}

/// The packets kept from the record sequence `d`, in stream order. The stream ends
/// cleanly only where a record header would start and no byte is left.
pub open spec fn decode_records(d: Seq<u8>) -> Result<Seq<PacketModel>, DecodeError>
    decreases d.len(),
{
    match frame_spec(d) {
        Err(DecodeError::Truncated) => Ok(Seq::empty()),
        Err(e) => Err(e),
        Ok((p, keep, end)) => {
            let rest = decode_records(d.subrange(end, d.len() as int));
            if keep {
                prefixed(seq![p], rest)
            } else {
                rest
            }
        },
    }
}

/// What decoding the whole capture `d` gives.
pub open spec fn capture_spec(d: Seq<u8>) -> Result<Seq<PacketModel>, DecodeError> {
    match capture_header_spec(d) {
        Err(e) => Err(e),
        Ok(_) => decode_records(d.subrange(CAPTURE_HEADER_LEN as int, d.len() as int)),
    }
}

/// Reads the record that starts at `pos`: its header, its link-layer header and its
/// overlay bytes. Returns the packet, whether its ethertype is IPv4, and the position
/// after the record. Every byte of the record is consumed, kept or not.
pub fn read_frame(data: &[u8], pos: usize) -> (r: Result<(Packet, bool, usize), DecodeError>)
    requires
        pos <= data@.len(),
    ensures
        ({
            let d = data@.subrange(pos as int, data@.len() as int);
            match r {
                Ok((p, keep, next)) => frame_spec(d) == Ok::<(PacketModel, bool, int), DecodeError>(
                    (p@, keep, next - pos),
                ),
                Err(e) => frame_spec(d) == Err::<(PacketModel, bool, int), DecodeError>(e),
            }
        }),
{
    let ghost d = data@.subrange(pos as int, data@.len() as int);
    let hstart = match take(data, pos, RECORD_HEADER_LEN) {
        Err(e) => return Err(e),
        Ok(p) => p,
    };
    let start = match take(data, hstart, LINK_HEADER_LEN) {
        Err(_) => return Err(DecodeError::ShortRead),
        Ok(p) => p,
    };
    let header = PacketHeader {
        ts_sec: read_u32_le(data, pos),
        ts_usec: read_u32_le(data, pos + 4),
        caplen: read_u32_le(data, pos + 8),
        orig_len: read_u32_le(data, pos + 12),
    };
    assert(header == packet_header_of(d));
    let ethertype = read_u16_be(data, start - 2);
    assert(ethertype == ethertype_of(d));
    if header.caplen < LINK_HEADER_LEN as u32 {
        return Err(DecodeError::OverlaySizeUnderflow);
    }
    let overlay = (header.caplen - LINK_HEADER_LEN as u32) as usize;
    let end = match take(data, start, overlay) {
        Err(_) => return Err(DecodeError::ShortRead),
        Ok(p) => p,
    };
    let bytes = vstd::slice::slice_to_vec(vstd::slice::slice_subrange(data, start, end));
    assert(bytes@ =~= d.subrange(start - pos, end - pos));
    let packet = Packet { header, event: PacketEvent { bytes } };
    Ok((packet, ethertype == ETHERTYPE_IPV4, end))
}

/// Decodes a whole capture held in `data`: the header, then every record up to the
/// clean end of the stream. Returns the IPv4 packets in stream order, or the first
/// failure: a bad header, a short read, or a captured length below the link-layer
/// header size.
pub fn decode_capture(data: &[u8]) -> (r: Result<Vec<Packet>, DecodeError>)
    ensures
        r matches Ok(v) ==> capture_spec(data@) == Ok::<Seq<PacketModel>, DecodeError>(packet_models(v@)),
        r matches Err(e) ==> capture_spec(data@) == Err::<Seq<PacketModel>, DecodeError>(e),
{
    match read_capture_header(data) {
        Err(e) => return Err(e),
        Ok(_) => {},
    }
    let mut packets: Vec<Packet> = Vec::new();
    let mut pos: usize = CAPTURE_HEADER_LEN;
    assert(packet_models(packets@) =~= Seq::<PacketModel>::empty());
    proof {
        let rest = decode_records(data@.subrange(pos as int, data@.len() as int));
        if rest is Ok {
            assert(Seq::<PacketModel>::empty() + rest->Ok_0 =~= rest->Ok_0);
        }
    }
    loop
        invariant
            pos <= data@.len(),
            capture_spec(data@) == prefixed(
                packet_models(packets@),
                decode_records(data@.subrange(pos as int, data@.len() as int)),
            ),
        decreases data@.len() - pos,
    {
        let ghost d = data@.subrange(pos as int, data@.len() as int);
        match read_frame(data, pos) {
            Err(DecodeError::Truncated) => {
                assert(packet_models(packets@) + Seq::<PacketModel>::empty() =~= packet_models(packets@));
                return Ok(packets);
            },
            Err(e) => return Err(e),
            Ok((p, keep, next)) => {
                let ghost old_models = packet_models(packets@);
                let ghost pm = p@;
                assert(data@.subrange(next as int, data@.len() as int) =~= d.subrange(next - pos, d.len() as int));
                if keep {
                    packets.push(p);
                    assert(packet_models(packets@) =~= old_models + seq![pm]);
                    proof {
                        let rest = decode_records(data@.subrange(next as int, data@.len() as int));
                        if rest is Ok {
                            assert(old_models + (seq![pm] + rest->Ok_0) =~= (old_models + seq![pm]) + rest->Ok_0);
                        }
                    }
                }
                pos = next;
            },
        }
    }
}

/// A capture whose header has the wrong magic number is rejected with `InvalidMagic`,
/// whatever records follow the header.
pub proof fn lemma_wrong_magic_rejected(h: Seq<u8>, rest: Seq<u8>)
    requires
        h.len() == CAPTURE_HEADER_LEN,
        u32_le(h, 0) != CAPTURE_MAGIC,
    ensures
        capture_spec(h + rest) == Err::<Seq<PacketModel>, DecodeError>(DecodeError::InvalidMagic),
{
    assert(u32_le(h + rest, 0) == u32_le(h, 0));
}

/// A capture with the right magic number but a link-layer type other than Ethernet is
/// rejected with `UnsupportedLinkType`, whatever records follow the header.
pub proof fn lemma_wrong_linktype_rejected(h: Seq<u8>, rest: Seq<u8>)
    requires
        h.len() == CAPTURE_HEADER_LEN,
        u32_le(h, 0) == CAPTURE_MAGIC,
        u32_le(h, 20) != LINKTYPE_ETHERNET,
    ensures
        capture_spec(h + rest) == Err::<Seq<PacketModel>, DecodeError>(DecodeError::UnsupportedLinkType),
{
    assert(u32_le(h + rest, 0) == u32_le(h, 0));
    assert(u32_le(h + rest, 20) == u32_le(h, 20));
}

/// Behind a valid capture header, decoding the capture is decoding the records that follow it.
pub proof fn lemma_valid_header_then_records(h: Seq<u8>, rest: Seq<u8>)
    requires
        h.len() == CAPTURE_HEADER_LEN,
        u32_le(h, 0) == CAPTURE_MAGIC,
        u32_le(h, 20) == LINKTYPE_ETHERNET,
    ensures
        capture_spec(h + rest) == decode_records(rest),
{
    assert(u32_le(h + rest, 0) == u32_le(h, 0));
    assert(u32_le(h + rest, 20) == u32_le(h, 20));
    assert((h + rest).subrange(CAPTURE_HEADER_LEN as int, (h + rest).len() as int) =~= rest);
}

/// A complete record: a record header whose captured length covers the link-layer
/// header and exactly the bytes after it.
pub open spec fn well_formed_record(r: Seq<u8>) -> bool {
    r.len() >= RECORD_HEADER_LEN + LINK_HEADER_LEN && u32_le(r, 8) as int == r.len() - RECORD_HEADER_LEN
}

/// The records laid end to end.
pub open spec fn concat_records(rs: Seq<Seq<u8>>) -> Seq<u8>
    decreases rs.len(),
{
    if rs.len() == 0 {
        Seq::empty()
    } else {
        rs[0] + concat_records(rs.drop_first())
    }
}

/// The packet that a complete record holds.
pub open spec fn record_model(r: Seq<u8>) -> PacketModel {
    (packet_header_of(r), r.subrange(RECORD_HEADER_LEN + LINK_HEADER_LEN, r.len() as int))
}

/// The packets of the IPv4 records among `rs`, in order.
pub open spec fn kept_packets(rs: Seq<Seq<u8>>) -> Seq<PacketModel>
    decreases rs.len(),
{
    if rs.len() == 0 {
        Seq::empty()
    } else {
        let first: Seq<PacketModel> = if ethertype_of(rs[0]) == ETHERTYPE_IPV4 {
            seq![record_model(rs[0])]
        } else {
            Seq::empty()
        };
        first + kept_packets(rs.drop_first())
    }
}

/// Complete records followed by any bytes decode to the IPv4 packets of those records,
/// then whatever the bytes after them decode to: each record, kept or not, moves the
/// cursor exactly to the next one.
pub proof fn lemma_records_then(rs: Seq<Seq<u8>>, x: Seq<u8>)
    requires
        forall|i: int| 0 <= i < rs.len() ==> well_formed_record(#[trigger] rs[i]),
    ensures
        decode_records(concat_records(rs) + x) == prefixed(kept_packets(rs), decode_records(x)),
    decreases rs.len(),
{
    if rs.len() == 0 {
        assert(concat_records(rs) + x =~= x);
        if decode_records(x) is Ok {
            assert(Seq::<PacketModel>::empty() + decode_records(x)->Ok_0 =~= decode_records(x)->Ok_0);
        }
    } else {
        let r = rs[0];
        let tail = rs.drop_first();
        assert forall|i: int| 0 <= i < tail.len() implies well_formed_record(#[trigger] tail[i]) by {
            assert(tail[i] == rs[i + 1]);
        }
        lemma_records_then(tail, x);
        let after = concat_records(tail) + x;
        let d = concat_records(rs) + x;
        assert(d =~= r + after);
        assert(well_formed_record(r));
        assert(packet_header_of(d) == packet_header_of(r));
        assert(ethertype_of(d) == ethertype_of(r));
        assert(d.subrange(RECORD_HEADER_LEN + LINK_HEADER_LEN, r.len() as int)
            =~= r.subrange(RECORD_HEADER_LEN + LINK_HEADER_LEN, r.len() as int));
        assert(d.subrange(r.len() as int, d.len() as int) =~= after);
        let rest = decode_records(x);
        if rest is Ok {
            let first: Seq<PacketModel> = if ethertype_of(r) == ETHERTYPE_IPV4 {
                seq![record_model(r)]
            } else {
                Seq::empty()
            };
            assert(first + (kept_packets(tail) + rest->Ok_0) =~= (first + kept_packets(tail)) + rest->Ok_0);
            assert(Seq::<PacketModel>::empty() + (kept_packets(tail) + rest->Ok_0) =~= kept_packets(tail) + rest->Ok_0);
        }
    }
}

/// At most one packet per record is kept, and a record is dropped only when it is not IPv4.
pub proof fn lemma_kept_packets_len(rs: Seq<Seq<u8>>)
    ensures
        kept_packets(rs).len() <= rs.len(),
        kept_packets(rs).len() == rs.len() <==> forall|i: int| 0 <= i < rs.len() ==> ethertype_of(#[trigger] rs[i]) == ETHERTYPE_IPV4,
    decreases rs.len(),
{
    if rs.len() > 0 {
        let tail = rs.drop_first();
        lemma_kept_packets_len(tail);
        if kept_packets(rs).len() == rs.len() {
            assert forall|i: int| 0 <= i < rs.len() implies ethertype_of(#[trigger] rs[i]) == ETHERTYPE_IPV4 by {
                if i > 0 {
                    assert(rs[i] == tail[i - 1]);
                }
            }
        }
        if forall|i: int| 0 <= i < rs.len() ==> ethertype_of(#[trigger] rs[i]) == ETHERTYPE_IPV4 {
            assert(ethertype_of(rs[0]) == ETHERTYPE_IPV4);
            assert forall|i: int| 0 <= i < tail.len() implies ethertype_of(#[trigger] tail[i]) == ETHERTYPE_IPV4 by {
                assert(tail[i] == rs[i + 1]);
            }
        }
    }
}

/// A stream of N complete records decodes to exactly the packets of its IPv4 records:
/// N of them when every record is IPv4, fewer otherwise.
pub proof fn lemma_stream_of_records(rs: Seq<Seq<u8>>)
    requires
        forall|i: int| 0 <= i < rs.len() ==> well_formed_record(#[trigger] rs[i]),
    ensures
        decode_records(concat_records(rs)) == Ok::<Seq<PacketModel>, DecodeError>(kept_packets(rs)),
        kept_packets(rs).len() <= rs.len(),
        kept_packets(rs).len() == rs.len() <==> forall|i: int| 0 <= i < rs.len() ==> ethertype_of(#[trigger] rs[i]) == ETHERTYPE_IPV4,
{
    lemma_records_then(rs, Seq::empty());
    assert(concat_records(rs) + Seq::<u8>::empty() =~= concat_records(rs));
    assert(kept_packets(rs) + Seq::<PacketModel>::empty() =~= kept_packets(rs));
    lemma_kept_packets_len(rs);
}

/// A record whose captured length is below the link-layer header size is a fatal
/// `OverlaySizeUnderflow`, wherever it stands after complete records.
pub proof fn lemma_short_caplen_rejected(rs: Seq<Seq<u8>>, bad: Seq<u8>)
    requires
        forall|i: int| 0 <= i < rs.len() ==> well_formed_record(#[trigger] rs[i]),
        bad.len() >= RECORD_HEADER_LEN + LINK_HEADER_LEN,
        u32_le(bad, 8) < LINK_HEADER_LEN,
    ensures
        decode_records(concat_records(rs) + bad) == Err::<Seq<PacketModel>, DecodeError>(DecodeError::OverlaySizeUnderflow),
{
    lemma_records_then(rs, bad);
}

/// Complete records followed by the first `k` bytes of another complete record: with
/// `k` zero the stream ends cleanly, otherwise the decode fails with `ShortRead`.
pub proof fn lemma_truncated_stream(rs: Seq<Seq<u8>>, r: Seq<u8>, k: int)
    requires
        forall|i: int| 0 <= i < rs.len() ==> well_formed_record(#[trigger] rs[i]),
        well_formed_record(r),
        0 <= k < r.len(),
    ensures
        k == 0 ==> decode_records(concat_records(rs) + r.subrange(0, k)) == Ok::<Seq<PacketModel>, DecodeError>(kept_packets(rs)),
        k > 0 ==> decode_records(concat_records(rs) + r.subrange(0, k)) == Err::<Seq<PacketModel>, DecodeError>(DecodeError::ShortRead),
{
    let part = r.subrange(0, k);
    lemma_records_then(rs, part);
    if k == 0 {
        assert(kept_packets(rs) + Seq::<PacketModel>::empty() =~= kept_packets(rs));
    } else if k >= RECORD_HEADER_LEN + LINK_HEADER_LEN {
        assert(u32_le(part, 8) == u32_le(r, 8));
    }
}

} // verus!
