use pcap_series::bytes::{take, read_u16_be, read_u16_le, read_u32_le, DecodeError};
use pcap_series::capture::{decode_capture, read_capture_header, read_frame, CAPTURE_MAGIC};

fn le32(v: u32) -> Vec<u8> {
    v.to_le_bytes().to_vec()
}

fn capture_header(magic: u32, linktype: u32) -> Vec<u8> {
    let mut h = le32(magic);
    h.extend_from_slice(&2u16.to_le_bytes());
    h.extend_from_slice(&4u16.to_le_bytes());
    h.extend(le32(0));
    h.extend(le32(0));
    h.extend(le32(65535));
    h.extend(le32(linktype));
    h
}

fn record(sec: u32, usec: u32, ethertype: u16, overlay: &[u8]) -> Vec<u8> {
    let caplen = 14 + overlay.len() as u32;
    let mut r = le32(sec);
    r.extend(le32(usec));
    r.extend(le32(caplen));
    r.extend(le32(caplen + 4));
    r.extend_from_slice(&[0xff; 6]);
    r.extend_from_slice(&[0x11; 6]);
    r.extend_from_slice(&ethertype.to_be_bytes());
    r.extend_from_slice(overlay);
    r
}

fn tcp_overlay(flags: u8) -> Vec<u8> {
    let mut o = vec![0u8; 40];
    o[0] = 0x45;
    o[9] = 6;
    o[32] = 0x50;
    o[33] = flags;
    o
}

#[test]
fn take_distinguishes_end_from_short() {
    let data = [1u8, 2, 3];
    assert_eq!(take(&data, 0, 3), Ok(3));
    assert_eq!(take(&data, 3, 2), Err(DecodeError::Truncated));
    assert_eq!(take(&data, 1, 3), Err(DecodeError::ShortRead));
    assert_eq!(take(&data, 3, 0), Ok(3));
}

#[test]
fn field_byte_order() {
    let data = [0x12u8, 0x34, 0x56, 0x78];
    assert_eq!(read_u16_le(&data, 0), 0x3412);
    assert_eq!(read_u16_be(&data, 0), 0x1234);
    assert_eq!(read_u32_le(&data, 0), 0x78563412);
}

#[test]
fn header_fields_decoded() {
    let h = read_capture_header(&capture_header(CAPTURE_MAGIC, 1)).unwrap();
    assert_eq!(h.magic, 0xa1b2c3d4);
    assert_eq!(h.version_major, 2);
    assert_eq!(h.version_minor, 4);
    assert_eq!(h.snaplen, 65535);
    assert_eq!(h.linktype, 1);
}

#[test]
fn wrong_magic_rejected() {
    let mut data = capture_header(0xd4c3b2a1, 1);
    assert_eq!(decode_capture(&data), Err(DecodeError::InvalidMagic));
    data.extend(record(0, 0, 0x0800, &tcp_overlay(0x01)));
    assert_eq!(decode_capture(&data), Err(DecodeError::InvalidMagic));
    // a corrupt record after a bad header is never looked at
    data.extend_from_slice(&[1, 2, 3]);
    assert_eq!(decode_capture(&data), Err(DecodeError::InvalidMagic));
}

#[test]
fn non_ethernet_rejected() {
    let mut data = capture_header(CAPTURE_MAGIC, 101);
    assert_eq!(decode_capture(&data), Err(DecodeError::UnsupportedLinkType));
    data.extend_from_slice(&[9, 9]);
    assert_eq!(decode_capture(&data), Err(DecodeError::UnsupportedLinkType));
}

#[test]
fn empty_and_short_header() {
    assert_eq!(decode_capture(&[]), Err(DecodeError::Truncated));
    assert_eq!(decode_capture(&[0xd4, 0xc3, 0xb2]), Err(DecodeError::ShortRead));
}

#[test]
fn all_ipv4_records_kept() {
    let mut data = capture_header(CAPTURE_MAGIC, 1);
    for i in 0..5u32 {
        data.extend(record(i, 10 * i, 0x0800, &tcp_overlay(0x10)));
    }
    let packets = decode_capture(&data).unwrap();
    assert_eq!(packets.len(), 5);
    for (i, p) in packets.iter().enumerate() {
        assert_eq!(p.header.ts_sec, i as u32);
        assert_eq!(p.header.ts_usec, 10 * i as u32);
        assert_eq!(p.header.caplen, 54);
        assert_eq!(p.header.orig_len, 58);
        assert_eq!(p.event.bytes, tcp_overlay(0x10));
    }
}

#[test]
fn non_ipv4_records_skipped_without_drift() {
    let mut data = capture_header(CAPTURE_MAGIC, 1);
    data.extend(record(1, 0, 0x0800, &tcp_overlay(0x01)));
    data.extend(record(2, 0, 0x86dd, &[0u8; 60]));
    data.extend(record(3, 0, 0x0806, &[0u8; 28]));
    data.extend(record(4, 0, 0x0800, &[0u8; 3]));
    data.extend(record(5, 0, 0x0800, &tcp_overlay(0x11)));
    let packets = decode_capture(&data).unwrap();
    assert_eq!(packets.len(), 3);
    let secs: Vec<u32> = packets.iter().map(|p| p.header.ts_sec).collect();
    assert_eq!(secs, vec![1, 4, 5]);
    assert_eq!(packets[1].event.bytes, vec![0u8; 3]);
    assert_eq!(packets[2].event.bytes, tcp_overlay(0x11));
}

#[test]
fn caplen_below_link_header_is_fatal() {
    let mut data = capture_header(CAPTURE_MAGIC, 1);
    data.extend(record(1, 0, 0x0800, &tcp_overlay(0x01)));
    let mut bad = record(2, 0, 0x0800, &[0u8; 20]);
    bad[8..12].copy_from_slice(&10u32.to_le_bytes());
    data.extend(bad);
    assert_eq!(decode_capture(&data), Err(DecodeError::OverlaySizeUnderflow));
}

#[test]
fn empty_overlay_at_end_of_stream() {
    let mut data = capture_header(CAPTURE_MAGIC, 1);
    data.extend(record(7, 8, 0x0800, &[]));
    let packets = decode_capture(&data).unwrap();
    assert_eq!(packets.len(), 1);
    assert!(packets[0].event.bytes.is_empty());
}

#[test]
fn truncation_at_boundary_and_mid_record() {
    let mut data = capture_header(CAPTURE_MAGIC, 1);
    data.extend(record(1, 0, 0x0800, &tcp_overlay(0x01)));
    let next = record(2, 0, 0x0800, &tcp_overlay(0x11));
    assert_eq!(decode_capture(&data).unwrap().len(), 1);
    for k in 1..next.len() {
        let mut cut = data.clone();
        cut.extend_from_slice(&next[..k]);
        assert_eq!(decode_capture(&cut), Err(DecodeError::ShortRead), "cut after {} bytes", k);
    }
    data.extend(next);
    assert_eq!(decode_capture(&data).unwrap().len(), 2);
}

#[test]
fn read_frame_reports_next_position() {
    let mut data = vec![0u8; 5];
    data.extend(record(3, 4, 0x86dd, &[1, 2, 3]));
    let (p, keep, next) = read_frame(&data, 5).unwrap();
    assert!(!keep);
    assert_eq!(next, 5 + 16 + 14 + 3);
    assert_eq!(p.event.bytes, vec![1, 2, 3]);
    assert_eq!(read_frame(&data, next), Err(DecodeError::Truncated));
}
