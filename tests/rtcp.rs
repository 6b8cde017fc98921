use media_proto::rtcp::{
    ApplicationDefined, Goodbye, ReceiverReport, ReportBlock, RtcpHeader, RtcpPacketType, SenderReport,
    SourceDescription,
};

#[test]
fn test_application_defined_try_from() {
    let buffer = [
        0b10100001, 204, 0x00, 0x04, // RTCP header
        0x12, 0x34, 0x56, 0x78, // SSRC
        b'A', b'P', b'P', b'1', // Name
        1, 2, 3, 4, 5, 6, 7, 8, // Application-specific data
    ];

    let app_defined = ApplicationDefined::try_from(&buffer[..]).unwrap();

    assert_eq!(app_defined.header().version(), 2);
    assert_eq!(app_defined.header().padding(), true);
    assert_eq!(app_defined.header().report_count(), 1);
    assert_eq!(app_defined.header().packet_type(), &RtcpPacketType::ApplicationDefined);
    assert_eq!(app_defined.header().length(), 4);
    assert_eq!(app_defined.subtype(), 1);
    assert_eq!(app_defined.ssrc(), 0x12345678);
    assert_eq!(app_defined.name(), b"APP1");
    assert_eq!(app_defined.data(), &[1, 2, 3, 4, 5, 6, 7, 8]);
}

#[test]
fn test_application_defined_try_from_short_buffer() {
    let buffer = [
        0b10100001, 204, 0x00, // Too short buffer
    ];

    let result = ApplicationDefined::try_from(&buffer[..]);
    assert!(result.is_err());
}

#[test]
fn test_goodbye_try_from() {
    let buffer = [
        0b10000001, 203, 0x00, 0x03, // RTCP header
        0x12, 0x34, 0x56, 0x78, // SSRC
        4, b'T', b'e', b's', b't', // Reason
        0, 0, 0, // Padding
    ];

    let goodbye = Goodbye::try_from(&buffer[..]).unwrap();

    assert_eq!(goodbye.header().version(), 2);
    assert_eq!(goodbye.header().padding(), false);
    assert_eq!(goodbye.header().report_count(), 1);
    assert_eq!(goodbye.header().packet_type(), &RtcpPacketType::Goodbye);
    assert_eq!(goodbye.header().length(), 3);

    let sources = goodbye.sources();
    assert_eq!(sources.len(), 1);
    assert_eq!(sources[0], 0x12345678);

    assert_eq!(goodbye.reason(), Some("Test"));
}

#[test]
fn test_goodbye_try_from_no_reason() {
    let buffer = [
        0b10000001, 203, 0x00, 0x01, // RTCP header
        0x12, 0x34, 0x56, 0x78, // SSRC
    ];

    let goodbye = Goodbye::try_from(&buffer[..]).unwrap();

    assert_eq!(goodbye.header().version(), 2);
    assert_eq!(goodbye.header().padding(), false);
    assert_eq!(goodbye.header().report_count(), 1);
    assert_eq!(goodbye.header().packet_type(), &RtcpPacketType::Goodbye);
    assert_eq!(goodbye.header().length(), 1);

    let sources = goodbye.sources();
    assert_eq!(sources.len(), 1);
    assert_eq!(sources[0], 0x12345678);

    assert_eq!(goodbye.reason(), None);
}

#[test]
fn test_goodbye_try_from_short_buffer() {
    let buffer = [
        0b10000001, 203, 0x00, // Too short buffer
    ];

    let result = Goodbye::try_from(&buffer[..]);
    assert!(result.is_err());
}

#[test]
fn test_goodbye_try_from_insufficient_sources() {
    let buffer = [
        0b10000010, 203, 0x00, 0x01, // RTCP header with report_count = 2
        0x12, 0x34, 0x56, 0x78, // Only one source provided
    ];

    let result = Goodbye::try_from(&buffer[..]);
    assert!(result.is_err());
}

#[test]
fn test_receiver_report_try_from() {
    let buffer = [
        0b10000001, 201, 0x00, 0x07, // RTCP header
        0x12, 0x34, 0x56, 0x78, // SSRC
        // Report block
        0x12, 0x34, 0x56, 0x78, // SSRC
        0x01, // Fraction lost
        0x00, 0x00, 0x02, // Cumulative lost
        0x00, 0x00, 0x00, 0x03, // Highest sequence number
        0x00, 0x00, 0x00, 0x04, // Jitter
        0x00, 0x00, 0x00, 0x05, // Last SR
        0x00, 0x00, 0x00, 0x06, // Delay since last SR
    ];

    let receiver_report = ReceiverReport::try_from(&buffer[..]).unwrap();

    assert_eq!(receiver_report.header().version(), 2);
    assert_eq!(receiver_report.header().padding(), false);
    assert_eq!(receiver_report.header().report_count(), 1);
    assert_eq!(receiver_report.header().packet_type(), &RtcpPacketType::ReceiverReport);
    assert_eq!(receiver_report.header().length(), 7);
    assert_eq!(receiver_report.ssrc(), 0x12345678);

    let report_blocks = receiver_report.report_blocks();
    assert_eq!(report_blocks.len(), 1);
    assert_eq!(report_blocks[0].ssrc(), 0x12345678);
    assert_eq!(report_blocks[0].fraction_lost(), 0x01);
    assert_eq!(report_blocks[0].cumulative_lost(), 0x000002);
    assert_eq!(report_blocks[0].highest_seq_num(), 0x00000003);
    assert_eq!(report_blocks[0].jitter(), 0x00000004);
    assert_eq!(report_blocks[0].last_sr(), 0x00000005);
    assert_eq!(report_blocks[0].delay_since_last_sr(), 0x00000006);
}

#[test]
fn test_receiver_report_try_from_short_buffer() {
    let buffer = [
        0b10000001, 201, 0x00, 0x07, // RTCP header
        0x12, 0x34, 0x56, 0x78, // SSRC
        // Missing report blocks
    ];

    let result = ReceiverReport::try_from(&buffer[..]);
    assert!(result.is_err());
}

#[test]
fn receiver_report_tests_test_report_block_try_from() {
    let buffer = [
        0x12, 0x34, 0x56, 0x78, // SSRC
        0x01, // Fraction lost
        0x00, 0x00, 0x02, // Cumulative lost
        0x00, 0x00, 0x00, 0x03, // Highest sequence number
        0x00, 0x00, 0x00, 0x04, // Jitter
        0x00, 0x00, 0x00, 0x05, // Last SR
        0x00, 0x00, 0x00, 0x06, // Delay since last SR
    ];

    let report_block = ReportBlock::try_from(&buffer[..]).unwrap();

    assert_eq!(report_block.ssrc(), 0x12345678);
    assert_eq!(report_block.fraction_lost(), 0x01);
    assert_eq!(report_block.cumulative_lost(), 0x000002);
    assert_eq!(report_block.highest_seq_num(), 0x00000003);
    assert_eq!(report_block.jitter(), 0x00000004);
    assert_eq!(report_block.last_sr(), 0x00000005);
    assert_eq!(report_block.delay_since_last_sr(), 0x00000006);
}

#[test]
fn receiver_report_tests_test_report_block_try_from_short_buffer() {
    let buffer = [
        0x12, 0x34, 0x56, 0x78, // SSRC
        0x01, // Fraction lost
        0x00, 0x00, 0x02, // Cumulative lost
        0x00, 0x00, 0x00, 0x03, // Highest sequence number
        0x00, 0x00, 0x00, 0x04, // Jitter
        0x00, 0x00, 0x00, // Incomplete Last SR
    ];

    let result = ReportBlock::try_from(&buffer[..]);
    assert!(result.is_err());
}

#[test]
fn test_rtcp_header_new() {
    let header = RtcpHeader::new(2, true, 1, RtcpPacketType::SenderReport, 6);

    assert_eq!(header.version(), 2);
    assert_eq!(header.padding(), true);
    assert_eq!(header.report_count(), 1);
    assert_eq!(header.packet_type(), &RtcpPacketType::SenderReport);
    assert_eq!(header.length(), 6);
}

#[test]
fn test_rtcp_header_try_from() {
    let buffer = [0b10000001, 200, 0x00, 0x06]; // Example buffer

    let header = RtcpHeader::try_from(&buffer[..]).unwrap();

    assert_eq!(header.version(), 2);
    assert_eq!(header.padding(), false);
    assert_eq!(header.report_count(), 1);
    assert_eq!(header.packet_type(), &RtcpPacketType::SenderReport);
    assert_eq!(header.length(), 6);
}

#[test]
fn test_rtcp_header_try_from_short_buffer() {
    let buffer = [0b10000001, 200]; // Too short buffer

    let result = RtcpHeader::try_from(&buffer[..]);
    assert!(result.is_err());
}

#[test]
fn test_sender_report_try_from() {
    let buffer = [
        0b10000001, 200, 0x00, 0x0c, // RTCP header
        0x12, 0x34, 0x56, 0x78, // SSRC
        0x00, 0x00, 0x00, 0x01, 0x00, 0x00, 0x00, 0x02, // NTP timestamp
        0x00, 0x00, 0x00, 0x03, // RTP timestamp
        0x00, 0x00, 0x00, 0x04, // Packet count
        0x00, 0x00, 0x00, 0x05, // Octet count
        // Report block
        0x12, 0x34, 0x56, 0x78, // SSRC
        0x01, // Fraction lost
        0x00, 0x00, 0x02, // Cumulative lost
        0x00, 0x00, 0x00, 0x03, // Highest sequence number
        0x00, 0x00, 0x00, 0x04, // Jitter
        0x00, 0x00, 0x00, 0x05, // Last SR
        0x00, 0x00, 0x00, 0x06, // Delay since last SR
    ];

    let sender_report = SenderReport::try_from(&buffer[..]).unwrap();

    assert_eq!(sender_report.header().version(), 2);
    assert_eq!(sender_report.header().padding(), false);
    assert_eq!(sender_report.header().report_count(), 1);
    assert_eq!(sender_report.header().packet_type(), &RtcpPacketType::SenderReport);
    assert_eq!(sender_report.header().length(), 12);
    assert_eq!(sender_report.ssrc(), 0x12345678);
    assert_eq!(sender_report.ntp_timestamp(), 0x0000000100000002);
    assert_eq!(sender_report.rtp_timestamp(), 0x00000003);
    assert_eq!(sender_report.packet_count(), 0x00000004);
    assert_eq!(sender_report.octet_count(), 0x00000005);

    let report_blocks = sender_report.report_blocks();
    assert_eq!(report_blocks.len(), 1);
    assert_eq!(report_blocks[0].ssrc(), 0x12345678);
    assert_eq!(report_blocks[0].fraction_lost(), 0x01);
    assert_eq!(report_blocks[0].cumulative_lost(), 0x000002);
    assert_eq!(report_blocks[0].highest_seq_num(), 0x00000003);
    assert_eq!(report_blocks[0].jitter(), 0x00000004);
    assert_eq!(report_blocks[0].last_sr(), 0x00000005);
    assert_eq!(report_blocks[0].delay_since_last_sr(), 0x00000006);
}

#[test]
fn test_sender_report_try_from_short_buffer() {
    let buffer = [
        0b10000001, 200, 0x00, 0x06, // RTCP header
        0x12, 0x34, 0x56, 0x78, // SSRC
        0x00, 0x00, 0x00, 0x01, 0x00, 0x00, 0x00, 0x02, // NTP timestamp
        0x00, 0x00, 0x00, 0x03, // RTP timestamp
        0x00, 0x00, 0x00, 0x04, // Packet count
        // Missing octet count and report blocks
    ];

    let result = SenderReport::try_from(&buffer[..]);
    assert!(result.is_err());
}

#[test]
fn sender_report_tests_test_report_block_try_from() {
    let buffer = [
        0x12, 0x34, 0x56, 0x78, // SSRC
        0x01, // Fraction lost
        0x00, 0x00, 0x02, // Cumulative lost
        0x00, 0x00, 0x00, 0x03, // Highest sequence number
        0x00, 0x00, 0x00, 0x04, // Jitter
        0x00, 0x00, 0x00, 0x05, // Last SR
        0x00, 0x00, 0x00, 0x06, // Delay since last SR
    ];

    let report_block = ReportBlock::try_from(&buffer[..]).unwrap();

    assert_eq!(report_block.ssrc(), 0x12345678);
    assert_eq!(report_block.fraction_lost(), 0x01);
    assert_eq!(report_block.cumulative_lost(), 0x000002);
    assert_eq!(report_block.highest_seq_num(), 0x00000003);
    assert_eq!(report_block.jitter(), 0x00000004);
    assert_eq!(report_block.last_sr(), 0x00000005);
    assert_eq!(report_block.delay_since_last_sr(), 0x00000006);
}

#[test]
fn sender_report_tests_test_report_block_try_from_short_buffer() {
    let buffer = [
        0x12, 0x34, 0x56, 0x78, // SSRC
        0x01, // Fraction lost
        0x00, 0x00, 0x02, // Cumulative lost
        0x00, 0x00, 0x00, 0x03, // Highest sequence number
        0x00, 0x00, 0x00, 0x04, // Jitter
        0x00, 0x00, 0x00, // Incomplete Last SR
    ];

    let result = ReportBlock::try_from(&buffer[..]);
    assert!(result.is_err());
}

#[test]
fn test_source_description_try_from() {
    let buffer = [
        0b10000001, 202, 0x00, 0x06, // RTCP header
        0x12, 0x34, 0x56, 0x78, // SSRC
        1, 3, b'c', b's', b'r', // CNAME item
        0, // End of items
        0, 0, 0, 0, 0, 0, 0, 0, 0, 0, 0, 0, 0, 0, // Padding to the declared length
    ];

    let source_description = SourceDescription::try_from(&buffer[..]).unwrap();

    assert_eq!(source_description.header().version(), 2);
    assert_eq!(source_description.header().padding(), false);
    assert_eq!(source_description.header().report_count(), 1);
    assert_eq!(source_description.header().packet_type(), &RtcpPacketType::SourceDescription);
    assert_eq!(source_description.header().length(), 6);

    let chunks = source_description.chunks();
    assert_eq!(chunks.len(), 1);
    assert_eq!(chunks[0].ssrc(), 0x12345678);
    let items = chunks[0].items();
    assert_eq!(items.len(), 1);
    assert_eq!(items[0].item_type(), 1);
    assert_eq!(items[0].length(), 3);
    assert_eq!(chunks[0].items()[0].data(), b"csr");
}

#[test]
fn test_source_description_try_from_short_buffer() {
    let buffer = [
        0b10000001, 202, 0x00, // Too short buffer
    ];

    let result = SourceDescription::try_from(&buffer[..]);
    assert!(result.is_err());
}

#[test]
fn test_source_description_try_from_insufficient_chunks() {
    let buffer = [
        0b10000010, 202, 0x00, 0x06, // RTCP header with report_count = 2
        0x12, 0x34, 0x56, 0x78, // Only one chunk provided
    ];

    let result = SourceDescription::try_from(&buffer[..]);
    assert!(result.is_err());
}

#[test]
fn rtcp_header_unknown_packet_type_fails() {
    let buffer = [0b10000001, 199, 0x00, 0x06];
    assert!(matches!(RtcpHeader::try_from(&buffer[..]), Err(media_proto::error::CastError::InvalidData(_))));
    assert_eq!(RtcpPacketType::from_u8(205), None);
    assert_eq!(RtcpPacketType::from_u8(202), Some(RtcpPacketType::SourceDescription));
    assert_eq!(RtcpPacketType::ApplicationDefined.as_u8(), 204);
}

#[test]
fn sender_report_one_byte_short_fails() {
    let mut buffer = vec![0b10000001, 200, 0x00, 0x0c];
    buffer.extend_from_slice(&[0x12, 0x34, 0x56, 0x78]);
    buffer.extend_from_slice(&[0, 0, 0, 1, 0, 0, 0, 2, 0, 0, 0, 3, 0, 0, 0, 4, 0, 0, 0, 5]);
    buffer.extend_from_slice(&[0x12, 0x34, 0x56, 0x78, 1, 0, 0, 2, 0, 0, 0, 3, 0, 0, 0, 4, 0, 0, 0, 5, 0, 0, 0, 6]);
    assert_eq!(buffer.len(), 52);
    let sr = SenderReport::try_from(&buffer[..]).unwrap();
    assert_eq!(sr.ntp_timestamp(), 0x0000000100000002);
    assert_eq!(sr.report_blocks()[0].cumulative_lost(), 2);
    assert!(SenderReport::try_from(&buffer[..51]).is_err());
    assert!(ReceiverReport::try_from(&buffer[..7]).is_err());
}

#[test]
fn goodbye_reason_not_utf8() {
    let buffer = [0b10000001, 203, 0x00, 0x02, 0x12, 0x34, 0x56, 0x78, 2, 0xff, 0xfe, 0];
    assert!(matches!(Goodbye::try_from(&buffer[..]), Err(media_proto::error::CastError::Utf8Error(_))));
    let cut = [0b10000001, 203, 0x00, 0x02, 0x12, 0x34, 0x56, 0x78, 5, b'a'];
    assert!(matches!(Goodbye::try_from(&cut[..]), Err(media_proto::error::CastError::InvalidData(_))));
}

#[test]
fn source_description_two_chunks() {
    let buffer = [
        0b10000010, 202, 0x00, 0x06, 0, 0, 0, 1, 1, 2, b'a', b'b', 0, 0, 0, 0, 2, 2, 1, b'x', 3, 0, 0, 0, 0, 0, 0, 0,
    ];
    let sd = SourceDescription::try_from(&buffer[..]).unwrap();
    let chunks = sd.chunks();
    assert_eq!(chunks.len(), 2);
    assert_eq!(chunks[0].ssrc(), 1);
    assert_eq!(chunks[0].items()[0].data(), b"ab");
    assert_eq!(chunks[1].ssrc(), 2);
    assert_eq!(chunks[1].items().len(), 2);
    assert_eq!(chunks[1].items()[0].item_type(), 2);
    assert_eq!(chunks[1].items()[0].data(), b"x");
    assert_eq!(chunks[1].items()[1].item_type(), 3);
    assert_eq!(chunks[1].items()[1].length(), 0);
    let cut = [0b10000001, 202, 0x00, 0x06, 0, 0, 0, 1, 1, 5, b'a'];
    assert!(SourceDescription::try_from(&cut[..]).is_err());
}

#[test]
fn application_defined_eleven_bytes_fails() {
    let buffer = [0b10100001, 204, 0x00, 0x06, 0x12, 0x34, 0x56, 0x78, b'A', b'P', b'P'];
    assert!(ApplicationDefined::try_from(&buffer[..]).is_err());
    let block = [0u8; 23];
    assert!(ReportBlock::try_from(&block[..]).is_err());
}

#[test]
fn rtcp_length_field_bounds_the_packet() {
    // A length field of 0xFFFF declares far more than the buffer holds.
    let mut sr = vec![0b10000000, 200, 0xff, 0xff];
    sr.extend_from_slice(&[0u8; 24]);
    assert!(matches!(SenderReport::try_from(&sr[..]), Err(media_proto::error::CastError::InvalidData(_))));
    let rr = [0b10000000, 201, 0xff, 0xff, 0, 0, 0, 1];
    assert!(ReceiverReport::try_from(&rr[..]).is_err());
    let bye = [0b10000000, 203, 0xff, 0xff];
    assert!(Goodbye::try_from(&bye[..]).is_err());
    let app = [0b10000000, 204, 0xff, 0xff, 0, 0, 0, 1, b'N', b'A', b'M', b'E'];
    assert!(ApplicationDefined::try_from(&app[..]).is_err());
    let sdes = [0b10000000, 202, 0xff, 0xff];
    assert!(SourceDescription::try_from(&sdes[..]).is_err());
}

#[test]
fn rtcp_bytes_past_the_declared_length_are_not_read() {
    // APP data stops at 4 * (length + 1) = 16 bytes.
    let app = [0b10000001, 204, 0x00, 0x03, 0, 0, 0, 1, b'N', b'A', b'M', b'E', 1, 2, 3, 4, 9, 9, 9];
    let a = ApplicationDefined::try_from(&app[..]).unwrap();
    assert_eq!(a.data(), &[1, 2, 3, 4]);
    // A goodbye reason beyond the declared packet is not seen.
    let bye = [0b10000001, 203, 0x00, 0x01, 0x12, 0x34, 0x56, 0x78, 4, b'T', b'e', b's', b't'];
    let g = Goodbye::try_from(&bye[..]).unwrap();
    assert_eq!(g.reason(), None);
}
