use media_proto::parsing::{Codec, PayloadParser};
use media_proto::codec::{annex_b_frame, concat_parameter_sets, get_sps_pps_bytes, AacCodec, CodecType, H264Codec, H265Codec, PackatizationMode};

#[test]
fn aac_fmtp() {
    let data = b"a=fmtp:97 streamtype=5; profile-level-id=15; mode=AAC-hbr; config=1190; sizeLength=13; indexLength=3; indexDeltaLength=3; profile=1;\r\n";
    let c = AacCodec::parse(48000, Some(2), data).unwrap();
    assert_eq!(c, AacCodec::new(97, 48000, Some(2), 13, 3, 3, Some(vec![0x11, 0x90])));
    assert_eq!(c.format(), 97);
    assert_eq!(c.clock_rate(), 48000);
    assert_eq!(c.channel_count(), Some(2));
    assert_eq!(c.size_length(), 13);
    assert_eq!(c.index_length(), 3);
    assert_eq!(c.index_delta_length(), 3);
    assert_eq!(c.config_bytes(), Some(&vec![0x11, 0x90]));
}

#[test]
fn aac_errors() {
    assert!(AacCodec::parse(48000, Some(2), b"sizeLength=13; indexLength=3; indexDeltaLength=3; config=invalid").is_err());
    assert!(AacCodec::parse(48000, Some(2), b"invalid fmtp data").is_err());
    assert!(AacCodec::parse(48000, None, b"a=fmtp:97 config=119; sizeLength=13; indexLength=3; indexDeltaLength=3").is_err());
    assert!(AacCodec::parse(48000, None, b"a=fmtp:97 config=1190; sizeLength=13; indexLength=3").is_err());
    let c = AacCodec::from_fmtp_internal(5, 8000, None, b"config=ABcd;sizeLength=1;indexLength=2;indexDeltaLength=-3").unwrap();
    assert_eq!(c.config_bytes(), Some(&vec![0xab, 0xcd]));
    assert_eq!(c.index_delta_length(), -3);
}

#[test]
fn h264_sps_pps_assembly() {
    let c = H264Codec::parse(
        90000,
        None,
        b"a=fmtp:96 profile-level-id=42e01f; packetization-mode=1; sprop-parameter-sets=Z0IAH5WoFAFuQA==,aM4G4g==",
    )
    .unwrap();
    assert_eq!(
        c.sps_pps_bytes(),
        &[0, 0, 0, 1, 0x67, 0x42, 0x00, 0x1f, 0x95, 0xa8, 0x14, 0x01, 0x6e, 0x40, 0, 0, 0, 1, 0x68, 0xce, 0x06, 0xe2]
    );
    assert_eq!(*c.packetization_mode(), PackatizationMode::NonInterleaved);
    assert_eq!(c.profile_level_id(), "42e01f");
    assert_eq!(c.format(), 96);
}

#[test]
fn h264_single_nal() {
    let c = H264Codec::parse(
        90000,
        None,
        b"a=fmtp:96 profile-level-id=42e01f; packetization-mode=0; sprop-parameter-sets=Z0IAH5WoFAFuQA==",
    )
    .unwrap();
    assert_eq!(
        c,
        H264Codec::new(
            96,
            90000,
            None,
            "42e01f".to_string(),
            PackatizationMode::SingleNalUnit,
            vec![0, 0, 0, 1, 103, 66, 0, 31, 149, 168, 20, 1, 110, 64],
        )
    );
    assert!(H264Codec::parse(90000, None, b"invalid fmtp data").is_err());
    assert!(H264Codec::parse(90000, None, b"a=fmtp:96 profile-level-id=42e01f; packetization-mode=3; sprop-parameter-sets=Z0IAH5WoFAFuQA==").is_err());
    assert!(H264Codec::parse(90000, None, b"a=fmtp:96 profile-level-id=42e01f; sprop-parameter-sets=Z0IAH5WoFAFuQA==").is_err());
    assert_eq!(PackatizationMode::from_bits(2), Some(PackatizationMode::Interleaved));
    assert_eq!(PackatizationMode::from_bits(3), None);
    assert!(get_sps_pps_bytes(b"!!!").is_err());
}

#[test]
fn h265_fmtp() {
    let c = H265Codec::parse(
        90000,
        None,
        b"a=fmtp:96 profile-id=1; sprop-vps=Z0IAH5WoFAFuQA==; sprop-sps=Z0IAH5WoFAFuQA==; sprop-pps=aM4G4g==",
    )
    .unwrap();
    assert_eq!(
        c,
        H265Codec::new(
            96,
            90000,
            None,
            1,
            vec![103, 66, 0, 31, 149, 168, 20, 1, 110, 64, 104, 206, 6, 226, 103, 66, 0, 31, 149, 168, 20, 1, 110, 64],
        )
    );
    assert_eq!(c.profile_id(), 1);
    assert_eq!(c.sps_pps_vps_bytes().len(), 24);
    assert!(H265Codec::parse(90000, None, b"a=fmtp:96 profile-id=1; sprop-vps=Z0IAH5WoFAFuQA==; sprop-sps=Z0IAH5WoFAFuQA==").is_err());
    assert!(H265Codec::parse(90000, None, b"a=fmtp:96 profile-id=1; sprop-vps=Z0IAH5WoFAFuQA==; sprop-pps=aM4G4g==").is_err());
    assert!(H265Codec::parse(90000, None, b"a=fmtp:96 profile-id=1; sprop-sps=Z0IAH5WoFAFuQA==; sprop-pps=aM4G4g==").is_err());
    assert!(H265Codec::parse(90000, None, b"invalid fmtp data").is_err());
}

#[test]
fn codec_type_dispatch() {
    let c = CodecType::parse(b"0 PCMU/8000").unwrap();
    assert_eq!(c, CodecType::Unsupported("PCMU".to_string()));
    assert!(!c.is_supported());
    assert_eq!(c.get_name(), "PCMU");
    let c = CodecType::parse(b"97 mpeg4-generic/48000/2\r\na=fmtp:97 config=1190; sizeLength=13; indexLength=3; indexDeltaLength=3").unwrap();
    assert!(c.is_supported());
    assert_eq!(c.get_name(), "MPEG4-GENERIC");
    assert!(CodecType::parse(b"97 H264/90000\r\na=fmtp:97 packetization-mode=1").is_err());
    assert!(CodecType::parse(b"97 opus/x/2").is_err());
}

#[test]
fn codec_trait_and_payload_parser() {
    let c = <CodecType as PayloadParser>::parse(b"x").is_err();
    assert!(c);
    let aac = AacCodec::new(97, 48000, Some(2), 13, 3, 3, None);
    assert_eq!(Codec::name(&aac), "MPEG4-GENERIC");
    assert_eq!(Codec::clock_rate(&aac), 48000);
    let b = <media_proto::sdp::Bandwidth as PayloadParser>::parse(b"AS:64").unwrap();
    assert_eq!(b.element(), 64);
}

#[test]
fn parameter_set_assembly() {
    assert_eq!(annex_b_frame(&[0x67, 1], Some(&[0x68, 2])), vec![0, 0, 0, 1, 0x67, 1, 0, 0, 0, 1, 0x68, 2]);
    assert_eq!(annex_b_frame(&[0x67], None), vec![0, 0, 0, 1, 0x67]);
    assert_eq!(concat_parameter_sets(&[1], &[2, 3], &[4]), vec![1, 2, 3, 4]);
}
