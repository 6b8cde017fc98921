//! The media description: an `m=` line, an optional `c=` line and one
//! `rtpmap` block per declared format.

use vstd::prelude::*;
use vstd::slice::slice_subrange;
use crate::bytes::{
    lemma_while_separate_trimmed_shrinks, separate, separate_spec, starts_with, starts_with_spec, tokens_of,
    while_separate_trimmed, while_separate_trimmed_spec,
};
use crate::codec::{codec_type_of, CodecType, CodecTypeView, NEW_LINE, RTPMAP_KEY, TRIM_NEW_LINE};
use crate::error::ParsingError;
use crate::net::{connection_ok, is_connection_of, ConnectionAddresses, SLASH, SPACE};
use crate::sdp::{payload_type_of, transport_of, Bandwidth, DataTransferMode, MediaTransportProtocol, PayloadType, SdpPort};
use crate::text::{number_fits, number_value, utf8_to_u16, utf8_to_u8};

verus! {

/// `c=`.
pub const CONNECTION_KEY: [u8; 2] = [99, 61];

/// The first RTP port and the number of ports of `<port>[/<count>]`
/// (`max(1, count)`).
pub open spec fn ports_of(block: Seq<u8>) -> Option<(int, int)> {
    match separate_spec(block, SLASH@) {
        Some((p, c)) => if number_fits(p, 0, u16::MAX as int) && number_fits(c, 0, u8::MAX as int) {
            Some((number_value(p), if number_value(c) > 1 {
                number_value(c)
            } else {
                1
            }))
        } else {
            None
        },
        None => if number_fits(block, 0, u16::MAX as int) {
            Some((number_value(block), 1))
        } else {
            None
        },
    }
}

/// Whether `ports` are `count` RTP/RTCP pairs `(base + 2i, base + 2i + 1)`.
pub open spec fn ports_match(ports: Seq<SdpPort>, base: int, count: int) -> bool {
    &&& ports.len() == count
    &&& forall|i: int| 0 <= i < count ==> (#[trigger] ports[i]).spec_rtp_port() == base + 2 * i
        && ports[i].spec_rtcp_port() == base + 2 * i + 1
}

/// Decodes `<port>[/<count>]` into `max(1, count)` port pairs at
/// `port, port + 2, ...`, each with its RTCP port one above; fails when a
/// port would pass 65535.
pub fn get_ports(ports_block: &[u8]) -> (r: Result<Vec<SdpPort>, ParsingError>)
    ensures
        r is Ok <==> (ports_of(ports_block@) matches Some((base, count)) && base + 2 * (count - 1) + 1 <= u16::MAX),
        r matches Ok(v) ==> ports_of(ports_block@) matches Some((base, count)) && ports_match(v@, base, count),
{
    let (port, count) = match separate(ports_block, SLASH.as_slice()) {
        Some((p, c)) => {
            let port = match utf8_to_u16(p) {
                Ok(v) => v,
                Err(e) => return Err(ParsingError::Utf8Error(e)),
            };
            let count = match utf8_to_u8(c) {
                Ok(v) => v,
                Err(e) => return Err(ParsingError::Utf8Error(e)),
            };
            (port, if count > 1 { count } else { 1 })
        },
        None => {
            let port = match utf8_to_u16(ports_block) {
                Ok(v) => v,
                Err(e) => return Err(ParsingError::Utf8Error(e)),
            };
            (port, 1u8)
        },
    };
    if port as u32 + 2 * (count as u32 - 1) + 1 > 65535 {
        return Err(ParsingError::from_bytes(ports_block));
    }
    let mut ports: Vec<SdpPort> = Vec::new();
    let mut i: u8 = 0;
    while i < count
        invariant
            i <= count,
            port as u32 + 2 * (count as u32 - 1) + 1 <= 65535,
            ports_match(ports@, port as int, i as int),
        decreases count - i,
    {
        let rtp = port + 2 * (i as u16);
        ports.push(SdpPort::new(rtp, rtp + 1));
        i = i + 1;
    }
    Ok(ports)
}

/// The parts of a media description: media token, ports text, transport
/// token, format tokens, the optional connection text, and the `rtpmap`
/// blocks (each the text after one `a=rtpmap:`).
pub struct MediaParts {
    pub media: Seq<u8>,
    pub ports: Seq<u8>,
    pub proto: Seq<u8>,
    pub formats: Seq<Seq<u8>>,
    pub connection: Option<Seq<u8>>,
    pub blocks: Seq<Seq<u8>>,
}

/// The rtpmap blocks of the lines after the `m=` line (and `c=` line).
pub open spec fn rtpmap_blocks(text: Seq<u8>) -> Seq<Seq<u8>> {
    match separate_spec(text, RTPMAP_KEY@) {
        Some((_, after)) => tokens_of(after, RTPMAP_KEY@, TRIM_NEW_LINE@),
        None => Seq::<Seq<u8>>::empty(),
    }
}

/// Splits a media description into its parts.
pub open spec fn media_parts(data: Seq<u8>) -> Option<MediaParts> {
    match while_separate_trimmed_spec(data, NEW_LINE@, TRIM_NEW_LINE@) {
        None => None,
        Some((top, bot)) => match separate_spec(top, SPACE@) {
            None => None,
            Some((media, r1)) => match separate_spec(r1, SPACE@) {
                None => None,
                Some((ports, r2)) => match separate_spec(r2, SPACE@) {
                    None => None,
                    Some((proto, fmts)) => {
                        let formats = tokens_of(fmts, SPACE@, SPACE@);
                        match while_separate_trimmed_spec(bot, NEW_LINE@, TRIM_NEW_LINE@) {
                            Some((line, after)) => if starts_with_spec(line, CONNECTION_KEY@) {
                                Some(
                                    MediaParts {
                                        media,
                                        ports,
                                        proto,
                                        formats,
                                        connection: Some(line.subrange(2, line.len() as int)),
                                        blocks: rtpmap_blocks(after),
                                    },
                                )
                            } else {
                                Some(
                                    MediaParts { media, ports, proto, formats, connection: None, blocks: rtpmap_blocks(bot) },
                                )
                            },
                            None => Some(
                                MediaParts { media, ports, proto, formats, connection: None, blocks: rtpmap_blocks(bot) },
                            ),
                        }
                    },
                },
            },
        },
    }
}

/// Whether a media description decodes: a known media type, valid ports,
/// a UTF-8 transport, at least one `u16` format, a valid connection line
/// when there is one, and exactly one decodable `rtpmap` block per format.
pub open spec fn media_description_ok(data: Seq<u8>) -> bool {
    match media_parts(data) {
        None => false,
        Some(p) => {
            &&& payload_type_of(p.media) is Some
            &&& ports_of(p.ports) matches Some((base, count)) && base + 2 * (count - 1) + 1 <= u16::MAX
            &&& transport_of(p.proto) is Some
            &&& p.formats.len() > 0
            &&& forall|i: int| 0 <= i < p.formats.len() ==> number_fits(#[trigger] p.formats[i], 0, u16::MAX as int)
            &&& (p.connection matches Some(c) ==> connection_ok(c))
            &&& p.blocks.len() == p.formats.len()
            &&& forall|i: int| 0 <= i < p.blocks.len() ==> (#[trigger] codec_type_of(p.blocks[i])) is Some
        },
    }
}

/// The views of a list of codecs.
pub open spec fn codec_views(v: Seq<CodecType>) -> Seq<CodecTypeView> {
    v.map_values(|c: CodecType| c@)
}

/// A media description (`m=` section).
#[derive(Debug, Clone, PartialEq, Eq)]
pub struct MediaDescription {
    bandwidth: Option<Bandwidth>,
    codecs: Vec<CodecType>,
    data_transfer_mode: Option<DataTransferMode>,
    payload_type: PayloadType,
    ports: Vec<SdpPort>,
    port_count: usize,
    transport_protocol: MediaTransportProtocol,
    connection_address: Option<ConnectionAddresses>,
}

/// Whether `m` holds what the media description `data` says.
pub open spec fn is_media_description_of(m: MediaDescription, data: Seq<u8>) -> bool {
    media_parts(data) matches Some(p) && {
        &&& payload_type_of(p.media) == Some(m.spec_payload_type())
        &&& ports_of(p.ports) matches Some((base, count)) && ports_match(m.spec_ports(), base, count)
        &&& m.spec_port_count() == m.spec_ports().len()
        &&& transport_of(p.proto) == Some(m.spec_transport())
        &&& m.spec_codecs().len() == p.blocks.len()
        &&& forall|i: int| 0 <= i < p.blocks.len() ==> codec_type_of(#[trigger] p.blocks[i]) == Some(
            m.spec_codecs()[i],
        )
        &&& match p.connection {
            Some(c) => m.spec_connection() matches Some(ca) && is_connection_of(ca, c),
            None => m.spec_connection() is None,
        }
        &&& !m.spec_bandwidth_is_some()
        &&& m.spec_data_transfer_mode() is None
    }
}

impl MediaDescription {
    pub closed spec fn spec_codecs(&self) -> Seq<CodecTypeView> {
        codec_views(self.codecs@)
    }

    pub closed spec fn spec_payload_type(&self) -> PayloadType {
        self.payload_type
    }

    pub closed spec fn spec_ports(&self) -> Seq<SdpPort> {
        self.ports@
    }

    pub closed spec fn spec_port_count(&self) -> usize {
        self.port_count
    }

    pub closed spec fn spec_transport(&self) -> crate::sdp::TransportView {
        self.transport_protocol@
    }

    pub closed spec fn spec_connection(&self) -> Option<ConnectionAddresses> {
        self.connection_address
    }

    pub closed spec fn spec_bandwidth_is_some(&self) -> bool {
        self.bandwidth is Some
    }

    pub closed spec fn spec_data_transfer_mode(&self) -> Option<DataTransferMode> {
        self.data_transfer_mode
    }

    pub fn new(
        bandwidth: Option<Bandwidth>,
        codecs: Vec<CodecType>,
        data_transfer_mode: Option<DataTransferMode>,
        payload_type: PayloadType,
        ports: Vec<SdpPort>,
        port_count: usize,
        transport_protocol: MediaTransportProtocol,
        connection_address: Option<ConnectionAddresses>,
    ) -> (r: MediaDescription)
        ensures
            r.spec_codecs() == codec_views(codecs@),
            r.spec_payload_type() == payload_type,
            r.spec_ports() == ports@,
            r.spec_port_count() == port_count,
            r.spec_transport() == transport_protocol@,
            r.spec_connection() == connection_address,
            r.spec_bandwidth_is_some() == bandwidth is Some,
            r.spec_data_transfer_mode() == data_transfer_mode,
    {
        MediaDescription {
            bandwidth,
            codecs,
            data_transfer_mode,
            payload_type,
            ports,
            port_count,
            transport_protocol,
            connection_address,
        }
    }

    /// Decodes a media description: the `m=` line's value
    /// `<media> <ports> <proto> <fmt> ...`, an optional `c=` line, then one
    /// `a=rtpmap:` block per declared format.
    pub fn parse(data: &[u8]) -> (r: Result<MediaDescription, ParsingError>)
        ensures
            r is Ok <==> media_description_ok(data@),
            r matches Ok(m) ==> is_media_description_of(m, data@),
    {
        let sp = SPACE.as_slice();
        let (top, bot) = match while_separate_trimmed(data, NEW_LINE.as_slice(), TRIM_NEW_LINE.as_slice()) {
            Some(p) => p,
            None => return Err(ParsingError::from_bytes(data)),
        };
        let (media, right) = match separate(top, sp) {
            Some(p) => p,
            None => return Err(ParsingError::from_bytes(data)),
        };
        let payload_type = match PayloadType::from_bytes(media) {
            Ok(t) => t,
            Err(e) => return Err(e),
        };
        let (ports_block, right) = match separate(right, sp) {
            Some(p) => p,
            None => return Err(ParsingError::from_bytes(data)),
        };
        let ports = match get_ports(ports_block) {
            Ok(v) => v,
            Err(e) => return Err(e),
        };
        let port_count = ports.len();
        let (proto, fmts) = match separate(right, sp) {
            Some(p) => p,
            None => return Err(ParsingError::from_bytes(data)),
        };
        let transport_protocol = match MediaTransportProtocol::from_bytes(proto) {
            Ok(t) => t,
            Err(e) => return Err(e),
        };
        let ghost all_formats = tokens_of(fmts@, SPACE@, SPACE@);
        assert(media_parts(data@) is Some && media_parts(data@)->Some_0.formats == all_formats);
        let mut format_count: usize = 0;
        let mut current: &[u8] = fmts;
        let ghost mut seen: Seq<Seq<u8>> = Seq::empty();
        assert(Seq::<Seq<u8>>::empty() + all_formats =~= all_formats);
        let flen = fmts.len();
        loop
            invariant
                media_parts(data@) is Some && media_parts(data@)->Some_0.formats == all_formats,
                all_formats == seen + tokens_of(current@, SPACE@, SPACE@),
                seen.len() + current@.len() <= flen,
                sp@ == SPACE@,
                format_count == seen.len(),
                forall|i: int| 0 <= i < seen.len() ==> number_fits(#[trigger] seen[i], 0, u16::MAX as int),
            ensures
                all_formats == seen,
                format_count == seen.len(),
                forall|i: int| 0 <= i < seen.len() ==> number_fits(#[trigger] seen[i], 0, u16::MAX as int),
            decreases current@.len(),
        {
            match while_separate_trimmed(current, sp, sp) {
                None => {
                    assert(tokens_of(current@, SPACE@, SPACE@) =~= Seq::<Seq<u8>>::empty());
                    assert(seen + Seq::<Seq<u8>>::empty() =~= seen);
                    break;
                },
                Some((left, rest)) => {
                    proof {
                        lemma_while_separate_trimmed_shrinks(current@, SPACE@, SPACE@);
                        let tl = tokens_of(rest@, SPACE@, SPACE@);
                        assert(seen + (seq![left@] + tl) =~= seen.push(left@) + tl);
                    }
                    match utf8_to_u16(left) {
                        Ok(_) => {},
                        Err(e) => {
                            proof {
                                assert(all_formats[seen.len() as int] == left@);
                            }
                            return Err(ParsingError::Utf8Error(e));
                        },
                    }
                    proof {
                        seen = seen.push(left@);
                    }
                    format_count = format_count + 1;
                    current = rest;
                },
            }
        }
        if format_count == 0 {
            return Err(ParsingError::from_bytes(data));
        }
        let mut slice = bot;
        let mut connection_address: Option<ConnectionAddresses> = None;
        if let Some((line, after)) = while_separate_trimmed(bot, NEW_LINE.as_slice(), TRIM_NEW_LINE.as_slice()) {
            if starts_with(line, CONNECTION_KEY.as_slice()) {
                let c = match ConnectionAddresses::parse(slice_subrange(line, 2, line.len())) {
                    Ok(c) => c,
                    Err(e) => return Err(e),
                };
                connection_address = Some(c);
                slice = after;
            }
        }
        let ghost blocks = rtpmap_blocks(slice@);
        assert(media_parts(data@)->Some_0.blocks == blocks);
        let mut codecs: Vec<CodecType> = Vec::new();
        match separate(slice, RTPMAP_KEY.as_slice()) {
            None => {
                return Err(ParsingError::from_bytes(data));
            },
            Some((_, after)) => {
                let mut cur: &[u8] = after;
                loop
                    invariant
                        blocks == rtpmap_blocks(slice@),
                        media_parts(data@) is Some && media_parts(data@)->Some_0.blocks == blocks,
                        blocks.len() == codec_views(codecs@).len() + tokens_of(cur@, RTPMAP_KEY@, TRIM_NEW_LINE@).len(),
                        blocks == blocks.subrange(0, codecs@.len() as int) + tokens_of(cur@, RTPMAP_KEY@, TRIM_NEW_LINE@),
                        forall|i: int| 0 <= i < codecs@.len() ==> codec_type_of(#[trigger] blocks[i]) == Some(codecs@[i]@),
                    ensures
                        blocks.len() == codecs@.len(),
                        forall|i: int| 0 <= i < codecs@.len() ==> codec_type_of(#[trigger] blocks[i]) == Some(codecs@[i]@),
                    decreases cur@.len(),
                {
                    match while_separate_trimmed(cur, RTPMAP_KEY.as_slice(), TRIM_NEW_LINE.as_slice()) {
                        None => {
                            assert(tokens_of(cur@, RTPMAP_KEY@, TRIM_NEW_LINE@) =~= Seq::<Seq<u8>>::empty());
                            break;
                        },
                        Some((block, rest)) => {
                            proof {
                                lemma_while_separate_trimmed_shrinks(cur@, RTPMAP_KEY@, TRIM_NEW_LINE@);
                                let tl = tokens_of(rest@, RTPMAP_KEY@, TRIM_NEW_LINE@);
                                assert(tokens_of(cur@, RTPMAP_KEY@, TRIM_NEW_LINE@) == seq![block@] + tl);
                                assert(blocks[codecs@.len() as int] == block@);
                                assert(blocks.subrange(0, codecs@.len() + 1 as int) + tl =~= blocks);
                            }
                            let c = match CodecType::parse(block) {
                                Ok(c) => c,
                                Err(e) => return Err(e),
                            };
                            codecs.push(c);
                            cur = rest;
                        },
                    }
                }
            },
        }
        if codecs.len() != format_count {
            return Err(ParsingError::from_bytes(data));
        }
        proof {
            assert(codec_views(codecs@).len() == codecs@.len());
        }
        Ok(MediaDescription {
            bandwidth: None,
            codecs,
            data_transfer_mode: None,
            payload_type,
            ports,
            port_count,
            transport_protocol,
            connection_address,
        })
    }

    pub fn bandwidth(&self) -> (r: Option<&Bandwidth>)
        ensures
            r is Some == self.spec_bandwidth_is_some(),
    {
        match &self.bandwidth {
            Some(b) => Some(b),
            None => None,
        }
    }

    pub fn codecs(&self) -> (r: &[CodecType])
        ensures
            codec_views(r@) == self.spec_codecs(),
    {
        self.codecs.as_slice()
    }

    pub fn data_transfer_mode(&self) -> (r: Option<DataTransferMode>)
        ensures
            r == self.spec_data_transfer_mode(),
    {
        self.data_transfer_mode
    }

    pub fn payload_type(&self) -> (r: &PayloadType)
        ensures
            *r == self.spec_payload_type(),
    {
        &self.payload_type
    }

    pub fn ports(&self) -> (r: &[SdpPort])
        ensures
            r@ == self.spec_ports(),
    {
        self.ports.as_slice()
    }

    pub fn port_count(&self) -> (r: &usize)
        ensures
            *r == self.spec_port_count(),
    {
        &self.port_count
    }

    pub fn transport_protocol(&self) -> (r: &MediaTransportProtocol)
        ensures
            r@ == self.spec_transport(),
    {
        &self.transport_protocol
    }

    pub fn connection_address(&self) -> (r: Option<&ConnectionAddresses>)
        ensures
            match r {
                Some(c) => self.spec_connection() == Some(*c),
                None => self.spec_connection() is None,
            },
    {
        match &self.connection_address {
            Some(c) => Some(c),
            None => None,
        }
    }
}

} // verus!
