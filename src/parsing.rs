//! The common shape of the text decoders and of the codec descriptions.

use vstd::prelude::*;
use crate::codec::{AacCodec, CodecType, H264Codec, H265Codec};
use crate::error::ParsingError;
use crate::media_description::MediaDescription;
use crate::media_session::MediaSession;
use crate::net::ConnectionAddresses;
use crate::sdp::{Bandwidth, Origin};
use crate::timing::{RepeatTimes, Timing};

verus! {

/// A record decoded from the bytes of one SDP value. Each implementation
/// forwards to the type's own `parse`, whose contract says what it returns.
pub trait PayloadParser: Sized {
    fn parse(data: &[u8]) -> Result<Self, ParsingError>;
}

impl PayloadParser for Bandwidth {
    fn parse(data: &[u8]) -> Result<Bandwidth, ParsingError> {
        Bandwidth::parse(data)
    }
}

impl PayloadParser for Origin {
    fn parse(data: &[u8]) -> Result<Origin, ParsingError> {
        Origin::parse(data)
    }
}

impl PayloadParser for ConnectionAddresses {
    fn parse(data: &[u8]) -> Result<ConnectionAddresses, ParsingError> {
        ConnectionAddresses::parse(data)
    }
}

impl PayloadParser for Timing {
    fn parse(data: &[u8]) -> Result<Timing, ParsingError> {
        Timing::parse(data)
    }
}

impl PayloadParser for RepeatTimes {
    fn parse(data: &[u8]) -> Result<RepeatTimes, ParsingError> {
        RepeatTimes::parse(data)
    }
}

impl PayloadParser for CodecType {
    fn parse(data: &[u8]) -> Result<CodecType, ParsingError> {
        CodecType::parse(data)
    }
}

impl PayloadParser for MediaDescription {
    fn parse(data: &[u8]) -> Result<MediaDescription, ParsingError> {
        MediaDescription::parse(data)
    }
}

impl PayloadParser for MediaSession {
    fn parse(data: &[u8]) -> Result<MediaSession, ParsingError> {
        MediaSession::parse(data)
    }
}

/// A codec description: its format id, clock rate, channel count and name.
pub trait Codec {
    fn channel_count(&self) -> Option<u8>;

    fn clock_rate(&self) -> u32;

    fn format(&self) -> u16;

    fn name(&self) -> &'static str;
}

impl Codec for AacCodec {
    fn channel_count(&self) -> Option<u8> {
        AacCodec::channel_count(self)
    }

    fn clock_rate(&self) -> u32 {
        AacCodec::clock_rate(self)
    }

    fn format(&self) -> u16 {
        AacCodec::format(self)
    }

    fn name(&self) -> &'static str {
        "MPEG4-GENERIC"
    }
}

impl Codec for H264Codec {
    fn channel_count(&self) -> Option<u8> {
        H264Codec::channel_count(self)
    }

    fn clock_rate(&self) -> u32 {
        H264Codec::clock_rate(self)
    }

    fn format(&self) -> u16 {
        H264Codec::format(self)
    }

    fn name(&self) -> &'static str {
        "H264"
    }
}

impl Codec for H265Codec {
    fn channel_count(&self) -> Option<u8> {
        H265Codec::channel_count(self)
    }

    fn clock_rate(&self) -> u32 {
        H265Codec::clock_rate(self)
    }

    fn format(&self) -> u16 {
        H265Codec::format(self)
    }

    fn name(&self) -> &'static str {
        "H265"
    }
}

} // verus!
