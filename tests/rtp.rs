use byteorder::{BigEndian, ByteOrder};
use media_proto::rtp::{RtpHeader, RtpPacket};

#[test]
fn test_rtp_header_new() {
    let csrc_list = [1, 2, 3, 4];
    let header = RtpHeader::new(2, true, false, 1, true, 96, 12345, 67890, 1234567890, &csrc_list);

    assert_eq!(header.version(), 2);
    assert_eq!(header.padding(), true);
    assert_eq!(header.extension(), false);
    assert_eq!(header.csrc_count(), 1);
    assert_eq!(header.marker(), true);
    assert_eq!(header.payload_type(), 96);
    assert_eq!(header.sequence_number(), 12345);
    assert_eq!(header.timestamp(), 67890);
    assert_eq!(header.ssrc(), 1234567890);
    assert_eq!(header.csrc_list(), &csrc_list);
}

#[test]
fn test_rtp_header_write() {
    let csrc_list = [1, 2, 3, 4];
    let header = RtpHeader::new(2, true, false, 1, true, 64, 12345, 67890, 1234567890, &csrc_list);

    let mut buffer = vec![0u8; 16];
    let bytes_written = header.write(&mut buffer);

    assert_eq!(bytes_written, 16);
    assert_eq!(buffer[0], 0b10100001);
    assert_eq!(buffer[1], 0b11000000);
    assert_eq!(BigEndian::read_u16(&buffer[2..4]), 12345);
    assert_eq!(BigEndian::read_u32(&buffer[4..8]), 67890);
    assert_eq!(BigEndian::read_u32(&buffer[8..12]), 1234567890);
    assert_eq!(&buffer[12..16], &csrc_list);
}

#[test]
fn test_rtp_header_try_from() {
    let buffer = [
        0b10100001, 0b11000000, 0x30, 0x39, 0x00, 0x01, 0x09, 0x32, 0x49, 0x96, 0x02, 0xd2, 1, 2, 3, 4,
    ];

    let header = RtpHeader::try_from(&buffer[..]).unwrap();
    assert_eq!(header.version(), 2);
    assert_eq!(header.padding(), true);
    assert_eq!(header.extension(), false);
    assert_eq!(header.csrc_count(), 1);
    assert_eq!(header.marker(), true);
    assert_eq!(header.payload_type(), 64);
    assert_eq!(header.sequence_number(), 12345);
    assert_eq!(header.timestamp(), 67890);
    assert_eq!(header.ssrc(), 1234567890);
    assert_eq!(header.csrc_list(), &buffer[12..16]);
}

#[test]
fn test_rtp_header_byte_size() {
    let csrc_list = [1, 2, 3, 4];
    let header = RtpHeader::new(2, true, false, 1, true, 96, 12345, 67890, 1234567890, &csrc_list);

    assert_eq!(header.byte_size(), 16);
}

#[test]
fn rtp_header_round_trip() {
    let csrc_list = [1, 2, 3, 4];
    let header = RtpHeader::new(2, true, false, 1, true, 64, 12345, 67890, 1234567890, &csrc_list);
    let mut buffer = vec![0u8; 20];
    let n = header.write(&mut buffer);
    let decoded = RtpHeader::try_from(&buffer[..n]).unwrap();
    assert_eq!(decoded.version(), 2);
    assert_eq!(decoded.padding(), true);
    assert_eq!(decoded.extension(), false);
    assert_eq!(decoded.csrc_count(), 1);
    assert_eq!(decoded.marker(), true);
    assert_eq!(decoded.payload_type(), 64);
    assert_eq!(decoded.sequence_number(), 12345);
    assert_eq!(decoded.timestamp(), 67890);
    assert_eq!(decoded.ssrc(), 1234567890);
    assert_eq!(decoded.csrc_list(), &csrc_list);
    assert_eq!(decoded.byte_size(), 16);
}

#[test]
fn rtp_header_short_buffers() {
    let buffer = [0x80u8, 0x60, 0x30, 0x39, 0x00, 0x01, 0x09, 0x32, 0x49, 0x96, 0x02];
    assert!(RtpHeader::try_from(&buffer[..]).is_err());
    let with_csrc = [0x81u8, 0x60, 0x30, 0x39, 0x00, 0x01, 0x09, 0x32, 0x49, 0x96, 0x02, 0xd2, 1, 2, 3];
    assert!(RtpHeader::try_from(&with_csrc[..]).is_err());
    assert!(RtpPacket::try_from(&with_csrc[..]).is_err());
}

#[test]
fn test_rtp_packet_new() {
    let header = RtpHeader::new(2, false, false, 0, false, 96, 12345, 67890, 1234567890, &[]);
    let payload = &[1, 2, 3, 4, 5];
    let packet = RtpPacket::new(header, payload);

    assert_eq!(packet.header().version(), 2);
    assert_eq!(packet.header().padding(), false);
    assert_eq!(packet.header().extension(), false);
    assert_eq!(packet.header().csrc_count(), 0);
    assert_eq!(packet.header().marker(), false);
    assert_eq!(packet.header().payload_type(), 96);
    assert_eq!(packet.header().sequence_number(), 12345);
    assert_eq!(packet.header().timestamp(), 67890);
    assert_eq!(packet.header().ssrc(), 1234567890);
    assert_eq!(packet.payload(), payload);
}

#[test]
fn test_rtp_packet_write() {
    let header = RtpHeader::new(2, false, false, 0, false, 96, 12345, 67890, 1234567890, &[]);
    let payload = &[1, 2, 3, 4, 5];
    let packet = RtpPacket::new(header, payload);

    let mut buffer = vec![0u8; 1024];
    let len = packet.write(&mut buffer);

    assert_eq!(len, packet.byte_size());
    assert_eq!(
        &buffer[..len],
        &[0x80, 0x60, 0x30, 0x39, 0x00, 0x01, 0x09, 0x32, 0x49, 0x96, 0x02, 0xd2, 1, 2, 3, 4, 5]
    );
}

#[test]
fn test_rtp_packet_try_from() {
    let buffer = [0x80, 0x60, 0x30, 0x39, 0x00, 0x01, 0x09, 0x32, 0x49, 0x96, 0x02, 0xd2, 1, 2, 3, 4, 5];

    let packet = RtpPacket::try_from(&buffer[..]).unwrap();

    assert_eq!(packet.header().version(), 2);
    assert_eq!(packet.header().padding(), false);
    assert_eq!(packet.header().extension(), false);
    assert_eq!(packet.header().csrc_count(), 0);
    assert_eq!(packet.header().marker(), false);
    assert_eq!(packet.header().payload_type(), 96);
    assert_eq!(packet.header().sequence_number(), 12345);
    assert_eq!(packet.header().timestamp(), 67890);
    assert_eq!(packet.header().ssrc(), 1234567890);
    assert_eq!(packet.payload(), &buffer[12..]);
}

#[test]
fn test_rtp_packet_byte_size() {
    let header = RtpHeader::new(2, false, false, 0, false, 96, 12345, 67890, 1234567890, &[]);
    let payload = &[1, 2, 3, 4, 5];
    let packet = RtpPacket::new(header, payload);

    assert_eq!(packet.byte_size(), 17);
}
