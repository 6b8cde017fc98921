//! Codec descriptions carried by `rtpmap`/`fmtp` attributes: AAC
//! (`MPEG4-GENERIC`), H.264 and H.265, and the dispatcher over them.

use vstd::prelude::*;
use vstd::slice::slice_subrange;
use vstd::utf8::{decode_utf8, valid_utf8};
use crate::bytes::{
    lemma_while_separate_trimmed_shrinks, separate, separate_spec, separate_trimmed, separate_trimmed_spec,
    starts_with, starts_with_spec, tokens_of, while_separate_trimmed, while_separate_trimmed_spec,
};
use crate::error::ParsingError;
use crate::net::{hex_digit, SLASH, SPACE};
use crate::text::{number_fits, number_value, utf8_to_i32, utf8_to_string, utf8_to_u16, utf8_to_u32, utf8_to_u8};

verus! {

/// `a=fmtp:`.
pub const FMTP_KEY: [u8; 7] = [97, 61, 102, 109, 116, 112, 58];

/// `a=rtpmap:`.
pub const RTPMAP_KEY: [u8; 9] = [97, 61, 114, 116, 112, 109, 97, 112, 58];

/// LF, the end of a line; the CR of a CR LF is trimmed with the line.
pub const NEW_LINE: [u8; 1] = [10];

/// CR, LF and space.
pub const TRIM_NEW_LINE: [u8; 3] = [13, 10, 32];

/// `;`.
pub const SEMICOLON: [u8; 1] = [59];

/// `,`.
pub const COMMA: [u8; 1] = [44];

/// ` ;`.
pub const SPACE_SEMICOLON: [u8; 2] = [32, 59];

/// `sizeLength=`.
pub const SIZE_LENGTH_KEY: [u8; 11] = [115, 105, 122, 101, 76, 101, 110, 103, 116, 104, 61];

/// `indexLength=`.
pub const INDEX_LENGTH_KEY: [u8; 12] = [105, 110, 100, 101, 120, 76, 101, 110, 103, 116, 104, 61];

/// `indexDeltaLength=`.
pub const INDEX_DELTA_LENGTH_KEY: [u8; 17] = [105, 110, 100, 101, 120, 68, 101, 108, 116, 97, 76, 101, 110, 103, 116, 104, 61];

/// `config=`.
pub const CONFIG_KEY: [u8; 7] = [99, 111, 110, 102, 105, 103, 61];

/// `sprop-parameter-sets=`.
pub const SPROP_KEY: [u8; 21] = [115, 112, 114, 111, 112, 45, 112, 97, 114, 97, 109, 101, 116, 101, 114, 45, 115, 101, 116, 115, 61];

/// `packetization-mode=`.
pub const PACKETIZATION_MODE_KEY: [u8; 19] = [112, 97, 99, 107, 101, 116, 105, 122, 97, 116, 105, 111, 110, 45, 109, 111, 100, 101, 61];

/// `profile-level-id=`.
pub const PROFILE_LEVEL_ID_KEY: [u8; 17] = [112, 114, 111, 102, 105, 108, 101, 45, 108, 101, 118, 101, 108, 45, 105, 100, 61];

/// `sprop-sps=`.
pub const SPS_KEY: [u8; 10] = [115, 112, 114, 111, 112, 45, 115, 112, 115, 61];

/// `sprop-vps=`.
pub const VPS_KEY: [u8; 10] = [115, 112, 114, 111, 112, 45, 118, 112, 115, 61];

/// `sprop-pps=`.
pub const PPS_KEY: [u8; 10] = [115, 112, 114, 111, 112, 45, 112, 112, 115, 61];

/// `profile-id=`.
pub const PROFILE_ID_KEY: [u8; 11] = [112, 114, 111, 102, 105, 108, 101, 45, 105, 100, 61];

/// `MPEG4-GENERIC`.
pub const AAC_NAME: [u8; 13] = [77, 80, 69, 71, 52, 45, 71, 69, 78, 69, 82, 73, 67];

/// `H264`.
pub const H264_NAME: [u8; 4] = [72, 50, 54, 52];

/// `H265`.
pub const H265_NAME: [u8; 4] = [72, 50, 54, 53];

/// The Annex-B start code `00 00 00 01`.
pub const START_MARKER: [u8; 4] = [0, 0, 0, 1];

/// What base64's standard engine decodes `b` to, when `b` is valid base64.
pub uninterp spec fn base64_decoded(b: Seq<u8>) -> Option<Seq<u8>>;

/// Relies on base64's `BASE64_STANDARD.decode`: the decoded bytes, or an
/// error when the input is not valid standard base64.
#[verifier::external_body]
fn base64_decode(b: &[u8]) -> (r: Option<Vec<u8>>)
    ensures
        match r {
            Some(v) => base64_decoded(b@) == Some(v@),
            None => base64_decoded(b@) is None,
        },
{
    base64::Engine::decode(&base64::prelude::BASE64_STANDARD, b).ok()
}

/// The bytes that a string of hexadecimal digit pairs stands for, high
/// nibble first; nothing for an odd length or a non-hexadecimal byte.
pub open spec fn hex_decoded(b: Seq<u8>) -> Option<Seq<u8>> {
    if b.len() % 2 == 0 && forall|i: int| 0 <= i < b.len() ==> (#[trigger] hex_digit(b[i])) is Some {
        Some(
            Seq::new(
                (b.len() / 2) as nat,
                |k: int| (hex_digit(b[2 * k]).unwrap() * 16 + hex_digit(b[2 * k + 1]).unwrap()) as u8,
            ),
        )
    } else {
        None
    }
}

/// Relies on `hex::decode`: an even number of hexadecimal digits of either
/// case, two per byte with the high nibble first; an error otherwise.
#[verifier::external_body]
fn hex_decode(b: &[u8]) -> (r: Option<Vec<u8>>)
    ensures
        match r {
            Some(v) => hex_decoded(b@) == Some(v@),
            None => hex_decoded(b@) is None,
        },
{
    hex::decode(b).ok()
}

/// The payload format id text and the parameters of the `a=fmtp:` line in `data`.
pub open spec fn fmtp_parts(data: Seq<u8>) -> Option<(Seq<u8>, Seq<u8>)> {
    match separate_trimmed_spec(data, FMTP_KEY@, SPACE@) {
        None => None,
        Some((_, bot)) => {
            let line = match separate_trimmed_spec(bot, NEW_LINE@, TRIM_NEW_LINE@) {
                Some((top, _)) => top,
                None => bot,
            };
            separate_spec(line, SPACE@)
        },
    }
}

/// Finds the `a=fmtp:` line of `data` and splits it into the format id
/// text and the parameters.
fn fmtp_split(data: &[u8]) -> (r: Option<(&[u8], &[u8])>)
    ensures
        match r {
            Some((f, p)) => fmtp_parts(data@) == Some((f@, p@)),
            None => fmtp_parts(data@) is None,
        },
{
    match separate_trimmed(data, FMTP_KEY.as_slice(), SPACE.as_slice()) {
        None => None,
        Some((_, bot)) => {
            let line = match separate_trimmed(bot, NEW_LINE.as_slice(), TRIM_NEW_LINE.as_slice()) {
                Some((top, _)) => top,
                None => bot,
            };
            separate(line, SPACE.as_slice())
        },
    }
}

/// The view of an optional borrowed slice.
pub open spec fn opt_view(o: Option<&[u8]>) -> Option<Seq<u8>> {
    match o {
        Some(s) => Some(s@),
        None => None,
    }
}

/// Whether an optional parameter value is there and not empty.
pub open spec fn present(p: Option<Seq<u8>>) -> bool {
    p matches Some(v) && v.len() > 0
}

/// The AAC parameters seen so far while scanning `fmtp` tokens.
pub struct AacScan {
    pub size_length: Option<Seq<u8>>,
    pub index_length: Option<Seq<u8>>,
    pub index_delta_length: Option<Seq<u8>>,
    pub config: Option<Seq<u8>>,
}

/// The rest of `tok` after the key `k`.
pub open spec fn after_key(tok: Seq<u8>, k: Seq<u8>) -> Seq<u8> {
    tok.subrange(k.len() as int, tok.len() as int)
}

/// One AAC token: a known key sets its parameter, anything else is skipped.
pub open spec fn aac_step(st: AacScan, tok: Seq<u8>) -> AacScan {
    if starts_with_spec(tok, SIZE_LENGTH_KEY@) {
        AacScan { size_length: Some(after_key(tok, SIZE_LENGTH_KEY@)), ..st }
    } else if starts_with_spec(tok, INDEX_LENGTH_KEY@) {
        AacScan { index_length: Some(after_key(tok, INDEX_LENGTH_KEY@)), ..st }
    } else if starts_with_spec(tok, INDEX_DELTA_LENGTH_KEY@) {
        AacScan { index_delta_length: Some(after_key(tok, INDEX_DELTA_LENGTH_KEY@)), ..st }
    } else if starts_with_spec(tok, CONFIG_KEY@) {
        AacScan { config: Some(after_key(tok, CONFIG_KEY@)), ..st }
    } else {
        st
    }
}

/// Scans the tokens in order; a later value of a key replaces an earlier one.
pub open spec fn aac_fold(toks: Seq<Seq<u8>>, st: AacScan) -> AacScan
    decreases toks.len(),
{
    if toks.len() == 0 {
        st
    } else {
        aac_fold(toks.drop_first(), aac_step(st, toks[0]))
    }
}

/// The AAC parameters of `;`-separated `key=value` tokens.
pub open spec fn aac_scan(params: Seq<u8>) -> AacScan {
    aac_fold(
        tokens_of(params, SEMICOLON@, SPACE@),
        AacScan { size_length: None, index_length: None, index_delta_length: None, config: None },
    )
}

/// An AAC codec description as plain values.
pub struct AacCodecView {
    pub format: u16,
    pub clock_rate: u32,
    pub channel_count: Option<u8>,
    pub size_length: i32,
    pub index_length: i32,
    pub index_delta_length: i32,
    pub config_bytes: Option<Seq<u8>>,
}

/// Whether an optional parameter is there, not empty, and an `i32`.
pub open spec fn i32_param(p: Option<Seq<u8>>) -> bool {
    present(p) && number_fits(p.unwrap(), i32::MIN as int, i32::MAX as int)
}

/// The AAC codec that the `fmtp` parameters describe: `sizeLength`,
/// `indexLength` and `indexDeltaLength` are `i32`s and `config` is
/// non-empty hexadecimal; nothing when one is missing or malformed.
pub open spec fn aac_of(format: u16, clock_rate: u32, channel_count: Option<u8>, params: Seq<u8>) -> Option<AacCodecView> {
    let st = aac_scan(params);
    if i32_param(st.size_length) && i32_param(st.index_length) && i32_param(st.index_delta_length) && present(st.config)
        && hex_decoded(st.config.unwrap()) is Some {
        Some(
            AacCodecView {
                format,
                clock_rate,
                channel_count,
                size_length: number_value(st.size_length.unwrap()) as i32,
                index_length: number_value(st.index_length.unwrap()) as i32,
                index_delta_length: number_value(st.index_delta_length.unwrap()) as i32,
                config_bytes: hex_decoded(st.config.unwrap()),
            },
        )
    } else {
        None
    }
}

/// The codec that `parse` finds in `data`: the `a=fmtp:` line's format id
/// (a `u16`) and the codec its parameters describe.
pub open spec fn aac_parse_of(clock_rate: u32, channel_count: Option<u8>, data: Seq<u8>) -> Option<AacCodecView> {
    match fmtp_parts(data) {
        Some((f, p)) => if number_fits(f, 0, u16::MAX as int) {
            aac_of(number_value(f) as u16, clock_rate, channel_count, p)
        } else {
            None
        },
        None => None,
    }
}

/// An AAC (`MPEG4-GENERIC`) codec description.
#[derive(Debug, Clone, PartialEq, Eq)]
pub struct AacCodec {
    format: u16,
    clock_rate: u32,
    channel_count: Option<u8>,
    size_length: i32,
    index_length: i32,
    index_delta_length: i32,
    config_bytes: Option<Vec<u8>>,
}

impl View for AacCodec {
    type V = AacCodecView;

    closed spec fn view(&self) -> AacCodecView {
        AacCodecView {
            format: self.format,
            clock_rate: self.clock_rate,
            channel_count: self.channel_count,
            size_length: self.size_length,
            index_length: self.index_length,
            index_delta_length: self.index_delta_length,
            config_bytes: match &self.config_bytes {
                Some(v) => Some(v@),
                None => None,
            },
        }
    }
}

impl AacCodec {
    pub fn new(
        format: u16,
        clock_rate: u32,
        channel_count: Option<u8>,
        size_length: i32,
        index_length: i32,
        index_delta_length: i32,
        config_bytes: Option<Vec<u8>>,
    ) -> (r: AacCodec)
        ensures
            r@ == (AacCodecView {
                format,
                clock_rate,
                channel_count,
                size_length,
                index_length,
                index_delta_length,
                config_bytes: match config_bytes {
                    Some(v) => Some(v@),
                    None => None,
                },
            }),
    {
        AacCodec { format, clock_rate, channel_count, size_length, index_length, index_delta_length, config_bytes }
    }

    /// Decodes the `;`-separated AAC parameters of an `fmtp` line.
    pub fn from_fmtp_internal(format: u16, clock_rate: u32, channel_count: Option<u8>, data: &[u8]) -> (r: Result<
        AacCodec,
        ParsingError,
    >)
        ensures
            r is Ok <==> aac_of(format, clock_rate, channel_count, data@) is Some,
            r matches Ok(c) ==> aac_of(format, clock_rate, channel_count, data@) == Some(c@),
    {
        let semi = SEMICOLON.as_slice();
        let sp = SPACE.as_slice();
        let mut size_length: Option<&[u8]> = None;
        let mut index_length: Option<&[u8]> = None;
        let mut index_delta_length: Option<&[u8]> = None;
        let mut config: Option<&[u8]> = None;
        let mut current: &[u8] = data;
        loop
            invariant
                aac_scan(data@) == aac_fold(
                    tokens_of(current@, SEMICOLON@, SPACE@),
                    AacScan {
                        size_length: opt_view(size_length),
                        index_length: opt_view(index_length),
                        index_delta_length: opt_view(index_delta_length),
                        config: opt_view(config),
                    },
                ),
                semi@ == SEMICOLON@,
                sp@ == SPACE@,
            ensures
                aac_scan(data@) == (AacScan {
                    size_length: opt_view(size_length),
                    index_length: opt_view(index_length),
                    index_delta_length: opt_view(index_delta_length),
                    config: opt_view(config),
                }),
            decreases current@.len(),
        {
            match while_separate_trimmed(current, semi, sp) {
                None => {
                    assert(tokens_of(current@, SEMICOLON@, SPACE@) =~= Seq::<Seq<u8>>::empty());
                    break;
                },
                Some((left, right)) => {
                    proof {
                        lemma_while_separate_trimmed_shrinks(current@, SEMICOLON@, SPACE@);
                        let tl = tokens_of(right@, SEMICOLON@, SPACE@);
                        assert((seq![left@] + tl).drop_first() =~= tl);
                        assert((seq![left@] + tl)[0] == left@);
                    }
                    if starts_with(left, SIZE_LENGTH_KEY.as_slice()) {
                        size_length = Some(slice_subrange(left, SIZE_LENGTH_KEY.len(), left.len()));
                    } else if starts_with(left, INDEX_LENGTH_KEY.as_slice()) {
                        index_length = Some(slice_subrange(left, INDEX_LENGTH_KEY.len(), left.len()));
                    } else if starts_with(left, INDEX_DELTA_LENGTH_KEY.as_slice()) {
                        index_delta_length = Some(slice_subrange(left, INDEX_DELTA_LENGTH_KEY.len(), left.len()));
                    } else if starts_with(left, CONFIG_KEY.as_slice()) {
                        config = Some(slice_subrange(left, CONFIG_KEY.len(), left.len()));
                    }
                    current = right;
                },
            }
        }
        let size_length = match size_length {
            Some(v) => v,
            None => return Err(ParsingError::from_bytes(data)),
        };
        let index_length = match index_length {
            Some(v) => v,
            None => return Err(ParsingError::from_bytes(data)),
        };
        let index_delta_length = match index_delta_length {
            Some(v) => v,
            None => return Err(ParsingError::from_bytes(data)),
        };
        if size_length.len() == 0 || index_length.len() == 0 || index_delta_length.len() == 0 {
            return Err(ParsingError::from_bytes(data));
        }
        let size_length = match utf8_to_i32(size_length) {
            Ok(v) => v,
            Err(e) => return Err(ParsingError::Utf8Error(e)),
        };
        let index_length = match utf8_to_i32(index_length) {
            Ok(v) => v,
            Err(e) => return Err(ParsingError::Utf8Error(e)),
        };
        let index_delta_length = match utf8_to_i32(index_delta_length) {
            Ok(v) => v,
            Err(e) => return Err(ParsingError::Utf8Error(e)),
        };
        let config = match config {
            Some(v) => v,
            None => return Err(ParsingError::from_bytes(data)),
        };
        if config.len() == 0 {
            return Err(ParsingError::from_bytes(data));
        }
        let config_bytes = match hex_decode(config) {
            Some(v) => v,
            None => return Err(ParsingError::from_bytes(data)),
        };
        Ok(AacCodec {
            format,
            clock_rate,
            channel_count,
            size_length,
            index_length,
            index_delta_length,
            config_bytes: Some(config_bytes),
        })
    }

    /// Finds the `a=fmtp:<format> <parameters>` line in `data` and decodes it.
    pub fn parse(clock_rate: u32, channel_count: Option<u8>, data: &[u8]) -> (r: Result<AacCodec, ParsingError>)
        ensures
            r is Ok <==> aac_parse_of(clock_rate, channel_count, data@) is Some,
            r matches Ok(c) ==> aac_parse_of(clock_rate, channel_count, data@) == Some(c@),
    {
        match fmtp_split(data) {
            Some((f, p)) => {
                let format = match utf8_to_u16(f) {
                    Ok(v) => v,
                    Err(e) => return Err(ParsingError::Utf8Error(e)),
                };
                AacCodec::from_fmtp_internal(format, clock_rate, channel_count, p)
            },
            None => Err(ParsingError::from_bytes(data)),
        }
    }

    pub fn size_length(&self) -> (r: i32)
        ensures
            r == self@.size_length,
    {
        self.size_length
    }

    pub fn index_length(&self) -> (r: i32)
        ensures
            r == self@.index_length,
    {
        self.index_length
    }

    pub fn index_delta_length(&self) -> (r: i32)
        ensures
            r == self@.index_delta_length,
    {
        self.index_delta_length
    }

    pub fn config_bytes(&self) -> (r: Option<&Vec<u8>>)
        ensures
            match r {
                Some(v) => self@.config_bytes == Some(v@),
                None => self@.config_bytes is None,
            },
    {
        match &self.config_bytes {
            Some(v) => Some(v),
            None => None,
        }
    }

    pub fn format(&self) -> (r: u16)
        ensures
            r == self@.format,
    {
        self.format
    }

    pub fn clock_rate(&self) -> (r: u32)
        ensures
            r == self@.clock_rate,
    {
        self.clock_rate
    }

    pub fn channel_count(&self) -> (r: Option<u8>)
        ensures
            r == self@.channel_count,
    {
        self.channel_count
    }
}

/// The H.264 packetization modes.
#[derive(Debug, Clone, Copy, PartialEq, Eq, Structural)]
pub enum PackatizationMode {
    SingleNalUnit,
    NonInterleaved,
    Interleaved,
}

/// The packetization mode of a wire value 0, 1 or 2.
pub open spec fn packetization_mode_of(v: int) -> Option<PackatizationMode> {
    if v == 0 {
        Some(PackatizationMode::SingleNalUnit)
    } else if v == 1 {
        Some(PackatizationMode::NonInterleaved)
    } else if v == 2 {
        Some(PackatizationMode::Interleaved)
    } else {
        None
    }
}

impl PackatizationMode {
    /// The mode of a wire value; nothing above 2.
    pub fn from_bits(bit: u8) -> (r: Option<PackatizationMode>)
        ensures
            r == packetization_mode_of(bit as int),
    {
        match bit {
            0 => Some(PackatizationMode::SingleNalUnit),
            1 => Some(PackatizationMode::NonInterleaved),
            2 => Some(PackatizationMode::Interleaved),
            _ => None,
        }
    }
}

/// `sprop-parameter-sets` decoded: each base64 NAL unit (SPS, then an
/// optional PPS after a comma) behind a 4-byte Annex-B start code.
pub open spec fn sps_pps_of(b: Seq<u8>) -> Option<Seq<u8>> {
    match separate_trimmed_spec(b, COMMA@, SPACE@) {
        Some((sps, pps)) => match (base64_decoded(sps), base64_decoded(pps)) {
            (Some(x), Some(y)) => Some(annex_b_of(x, Some(y))),
            _ => None,
        },
        None => match base64_decoded(b) {
            Some(x) => Some(annex_b_of(x, None)),
            None => None,
        },
    }
}

/// Appends the bytes of `b` to `v`.
fn append(v: &mut Vec<u8>, b: &[u8])
    ensures
        final(v)@ == old(v)@ + b@,
{
    let mut i: usize = 0;
    let ghost start = v@;
    while i < b.len()
        invariant
            i <= b@.len(),
            v@ == start + b@.subrange(0, i as int),
        decreases b@.len() - i,
    {
        v.push(b[i]);
        proof {
            assert(v@ =~= start + b@.subrange(0, i + 1));
        }
        i = i + 1;
    }
    assert(b@.subrange(0, b@.len() as int) =~= b@);
}

/// The Annex-B framing of an SPS and an optional PPS: each NAL unit behind
/// a 4-byte start code.
pub open spec fn annex_b_of(sps: Seq<u8>, pps: Option<Seq<u8>>) -> Seq<u8> {
    match pps {
        Some(p) => START_MARKER@ + sps + START_MARKER@ + p,
        None => START_MARKER@ + sps,
    }
}

/// Frames decoded parameter sets as Annex-B NAL units.
pub fn annex_b_frame(sps: &[u8], pps: Option<&[u8]>) -> (r: Vec<u8>)
    ensures
        r@ == annex_b_of(sps@, opt_view(pps)),
{
    let mut result: Vec<u8> = Vec::new();
    append(&mut result, START_MARKER.as_slice());
    append(&mut result, sps);
    if let Some(p) = pps {
        append(&mut result, START_MARKER.as_slice());
        append(&mut result, p);
    }
    proof {
        assert(Seq::<u8>::empty() + START_MARKER@ =~= START_MARKER@);
    }
    result
}

/// Decodes `sprop-parameter-sets` into Annex-B framed NAL units.
pub fn get_sps_pps_bytes(data: &[u8]) -> (r: Result<Vec<u8>, ParsingError>)
    ensures
        match r {
            Ok(v) => sps_pps_of(data@) == Some(v@),
            Err(_) => sps_pps_of(data@) is None,
        },
{
    match separate_trimmed(data, COMMA.as_slice(), SPACE.as_slice()) {
        Some((sps, pps)) => {
            let x = match base64_decode(sps) {
                Some(x) => x,
                None => return Err(ParsingError::from_bytes(sps)),
            };
            let y = match base64_decode(pps) {
                Some(y) => y,
                None => return Err(ParsingError::from_bytes(pps)),
            };
            Ok(annex_b_frame(x.as_slice(), Some(y.as_slice())))
        },
        None => {
            let x = match base64_decode(data) {
                Some(x) => x,
                None => return Err(ParsingError::from_bytes(data)),
            };
            Ok(annex_b_frame(x.as_slice(), None))
        },
    }
}

/// The H.264 parameters seen so far while scanning `fmtp` tokens.
pub struct H264Scan {
    pub profile_level_id: Option<Seq<char>>,
    pub packetization_mode: Option<PackatizationMode>,
    pub sps_pps_bytes: Seq<u8>,
}

/// One H.264 token: `profile-level-id=` (UTF-8 text), `packetization-mode=`
/// (0, 1 or 2) or `sprop-parameter-sets=`; a malformed value fails the scan.
pub open spec fn h264_step(st: H264Scan, tok: Seq<u8>) -> Option<H264Scan> {
    match separate_trimmed_spec(tok, PROFILE_LEVEL_ID_KEY@, SPACE_SEMICOLON@) {
        Some((_, id)) => if valid_utf8(id) {
            Some(H264Scan { profile_level_id: Some(decode_utf8(id)), ..st })
        } else {
            None
        },
        None => match separate_trimmed_spec(tok, PACKETIZATION_MODE_KEY@, SPACE_SEMICOLON@) {
            Some((_, bit)) => if number_fits(bit, 0, 255) && packetization_mode_of(number_value(bit)) is Some {
                Some(H264Scan { packetization_mode: packetization_mode_of(number_value(bit)), ..st })
            } else {
                None
            },
            None => match separate_trimmed_spec(tok, SPROP_KEY@, SPACE@) {
                Some((_, b)) => match sps_pps_of(b) {
                    Some(v) => Some(H264Scan { sps_pps_bytes: v, ..st }),
                    None => None,
                },
                None => Some(st),
            },
        },
    }
}

/// Scans the H.264 tokens in order, stopping at the first malformed value.
pub open spec fn h264_fold(toks: Seq<Seq<u8>>, st: H264Scan) -> Option<H264Scan>
    decreases toks.len(),
{
    if toks.len() == 0 {
        Some(st)
    } else {
        match h264_step(st, toks[0]) {
            Some(next) => h264_fold(toks.drop_first(), next),
            None => None,
        }
    }
}

/// An H.264 codec description as plain values.
pub struct H264CodecView {
    pub format: u16,
    pub clock_rate: u32,
    pub channel_count: Option<u8>,
    pub profile_level_id: Seq<char>,
    pub packetization_mode: PackatizationMode,
    pub sps_pps_bytes: Seq<u8>,
}

/// The H.264 codec that space-separated `fmtp` parameters describe; all
/// three keys are required.
pub open spec fn h264_of(format: u16, clock_rate: u32, channel_count: Option<u8>, params: Seq<u8>) -> Option<H264CodecView> {
    match h264_fold(
        tokens_of(params, SPACE@, SPACE@),
        H264Scan { profile_level_id: None, packetization_mode: None, sps_pps_bytes: Seq::<u8>::empty() },
    ) {
        Some(st) => if st.sps_pps_bytes.len() > 0 && st.profile_level_id is Some && st.packetization_mode is Some {
            Some(
                H264CodecView {
                    format,
                    clock_rate,
                    channel_count,
                    profile_level_id: st.profile_level_id.unwrap(),
                    packetization_mode: st.packetization_mode.unwrap(),
                    sps_pps_bytes: st.sps_pps_bytes,
                },
            )
        } else {
            None
        },
        None => None,
    }
}

/// The codec that `H264Codec::parse` finds in `data`.
pub open spec fn h264_parse_of(clock_rate: u32, channel_count: Option<u8>, data: Seq<u8>) -> Option<H264CodecView> {
    match fmtp_parts(data) {
        Some((f, p)) => if number_fits(f, 0, u16::MAX as int) {
            h264_of(number_value(f) as u16, clock_rate, channel_count, p)
        } else {
            None
        },
        None => None,
    }
}

/// An H.264 codec description.
#[derive(Debug, Clone, PartialEq, Eq)]
pub struct H264Codec {
    format: u16,
    clock_rate: u32,
    channel_count: Option<u8>,
    profile_level_id: String,
    packetization_mode: PackatizationMode,
    sps_pps_bytes: Vec<u8>,
}

impl View for H264Codec {
    type V = H264CodecView;

    closed spec fn view(&self) -> H264CodecView {
        H264CodecView {
            format: self.format,
            clock_rate: self.clock_rate,
            channel_count: self.channel_count,
            profile_level_id: self.profile_level_id@,
            packetization_mode: self.packetization_mode,
            sps_pps_bytes: self.sps_pps_bytes@,
        }
    }
}

impl H264Codec {
    pub fn new(
        format: u16,
        clock_rate: u32,
        channel_count: Option<u8>,
        profile_level_id: String,
        packetization_mode: PackatizationMode,
        sps_pps_bytes: Vec<u8>,
    ) -> (r: H264Codec)
        ensures
            r@ == (H264CodecView {
                format,
                clock_rate,
                channel_count,
                profile_level_id: profile_level_id@,
                packetization_mode,
                sps_pps_bytes: sps_pps_bytes@,
            }),
    {
        H264Codec { format, clock_rate, channel_count, profile_level_id, packetization_mode, sps_pps_bytes }
    }

    /// Decodes the space-separated H.264 parameters of an `fmtp` line.
    pub fn from_fmtp_internal(format: u16, clock_rate: u32, channel_count: Option<u8>, data: &[u8]) -> (r: Result<
        H264Codec,
        ParsingError,
    >)
        ensures
            r is Ok <==> h264_of(format, clock_rate, channel_count, data@) is Some,
            r matches Ok(c) ==> h264_of(format, clock_rate, channel_count, data@) == Some(c@),
    {
        let sp = SPACE.as_slice();
        let trim = SPACE_SEMICOLON.as_slice();
        let mut profile_level_id: Option<String> = None;
        let mut packetization_mode: Option<PackatizationMode> = None;
        let mut sps_pps_bytes: Vec<u8> = Vec::new();
        let mut current: &[u8] = data;
        let ghost init = H264Scan {
            profile_level_id: None,
            packetization_mode: None,
            sps_pps_bytes: Seq::<u8>::empty(),
        };
        assert(sps_pps_bytes@ =~= Seq::<u8>::empty());
        loop
            invariant
                h264_fold(tokens_of(data@, SPACE@, SPACE@), init) == h264_fold(
                    tokens_of(current@, SPACE@, SPACE@),
                    H264Scan {
                        profile_level_id: match &profile_level_id {
                            Some(s) => Some(s@),
                            None => None,
                        },
                        packetization_mode,
                        sps_pps_bytes: sps_pps_bytes@,
                    },
                ),
                sp@ == SPACE@,
                trim@ == SPACE_SEMICOLON@,
                init == (H264Scan {
                    profile_level_id: None,
                    packetization_mode: None,
                    sps_pps_bytes: Seq::<u8>::empty(),
                }),
            ensures
                h264_fold(tokens_of(data@, SPACE@, SPACE@), init) == Some(
                    H264Scan {
                        profile_level_id: match &profile_level_id {
                            Some(s) => Some(s@),
                            None => None,
                        },
                        packetization_mode,
                        sps_pps_bytes: sps_pps_bytes@,
                    },
                ),
            decreases current@.len(),
        {
            match while_separate_trimmed(current, sp, sp) {
                None => {
                    assert(tokens_of(current@, SPACE@, SPACE@) =~= Seq::<Seq<u8>>::empty());
                    break;
                },
                Some((left, right)) => {
                    let ghost st = H264Scan {
                        profile_level_id: match &profile_level_id {
                            Some(s) => Some(s@),
                            None => None,
                        },
                        packetization_mode,
                        sps_pps_bytes: sps_pps_bytes@,
                    };
                    proof {
                        lemma_while_separate_trimmed_shrinks(current@, SPACE@, SPACE@);
                        let tl = tokens_of(right@, SPACE@, SPACE@);
                        assert((seq![left@] + tl).drop_first() =~= tl);
                        assert((seq![left@] + tl)[0] == left@);
                        assert(tokens_of(current@, SPACE@, SPACE@) == seq![left@] + tl);
                        assert(h264_fold(tokens_of(current@, SPACE@, SPACE@), st) == match h264_step(st, left@) {
                            Some(next) => h264_fold(tl, next),
                            None => None,
                        });
                    }
                    if let Some((_, id)) = separate_trimmed(left, PROFILE_LEVEL_ID_KEY.as_slice(), trim) {
                        match utf8_to_string(id) {
                            Ok(s) => {
                                profile_level_id = Some(s);
                            },
                            Err(e) => {
                                assert(h264_step(st, left@) is None);
                                return Err(ParsingError::Utf8Error(e));
                            },
                        }
                    } else if let Some((_, bit)) = separate_trimmed(left, PACKETIZATION_MODE_KEY.as_slice(), trim) {
                        let v = match utf8_to_u8(bit) {
                            Ok(v) => v,
                            Err(e) => {
                                assert(h264_step(st, left@) is None);
                                return Err(ParsingError::Utf8Error(e));
                            },
                        };
                        match PackatizationMode::from_bits(v) {
                            Some(m) => {
                                packetization_mode = Some(m);
                            },
                            None => return Err(ParsingError::from_bytes(data)),
                        }
                    } else if let Some((_, b)) = separate_trimmed(left, SPROP_KEY.as_slice(), sp) {
                        sps_pps_bytes = match get_sps_pps_bytes(b) {
                            Ok(v) => v,
                            Err(e) => return Err(e),
                        };
                    }
                    current = right;
                },
            }
        }
        if sps_pps_bytes.len() == 0 {
            return Err(ParsingError::from_bytes(data));
        }
        let profile_level_id = match profile_level_id {
            Some(s) => s,
            None => return Err(ParsingError::from_bytes(data)),
        };
        let packetization_mode = match packetization_mode {
            Some(m) => m,
            None => return Err(ParsingError::from_bytes(data)),
        };
        Ok(H264Codec { format, clock_rate, channel_count, profile_level_id, packetization_mode, sps_pps_bytes })
    }

    /// Finds the `a=fmtp:<format> <parameters>` line in `data` and decodes it.
    pub fn parse(clock_rate: u32, channel_count: Option<u8>, data: &[u8]) -> (r: Result<H264Codec, ParsingError>)
        ensures
            r is Ok <==> h264_parse_of(clock_rate, channel_count, data@) is Some,
            r matches Ok(c) ==> h264_parse_of(clock_rate, channel_count, data@) == Some(c@),
    {
        match fmtp_split(data) {
            Some((f, p)) => {
                let format = match utf8_to_u16(f) {
                    Ok(v) => v,
                    Err(e) => return Err(ParsingError::Utf8Error(e)),
                };
                H264Codec::from_fmtp_internal(format, clock_rate, channel_count, p)
            },
            None => Err(ParsingError::from_bytes(data)),
        }
    }

    pub fn profile_level_id(&self) -> (r: &str)
        ensures
            r@ == self@.profile_level_id,
    {
        self.profile_level_id.as_str()
    }

    pub fn packetization_mode(&self) -> (r: &PackatizationMode)
        ensures
            *r == self@.packetization_mode,
    {
        &self.packetization_mode
    }

    pub fn sps_pps_bytes(&self) -> (r: &[u8])
        ensures
            r@ == self@.sps_pps_bytes,
    {
        self.sps_pps_bytes.as_slice()
    }

    pub fn format(&self) -> (r: u16)
        ensures
            r == self@.format,
    {
        self.format
    }

    pub fn clock_rate(&self) -> (r: u32)
        ensures
            r == self@.clock_rate,
    {
        self.clock_rate
    }

    pub fn channel_count(&self) -> (r: Option<u8>)
        ensures
            r == self@.channel_count,
    {
        self.channel_count
    }
}

/// The H.265 parameters seen so far while scanning `fmtp` tokens; an empty
/// parameter set is one not seen yet.
pub struct H265Scan {
    pub sps: Seq<u8>,
    pub vps: Seq<u8>,
    pub pps: Seq<u8>,
    pub profile_id: Option<u16>,
}

/// One H.265 token: `sprop-sps=`, `sprop-vps=`, `sprop-pps=` or
/// `profile-id=` (a `u16`, whose malformed value fails the scan).
pub open spec fn h265_step(st: H265Scan, tok: Seq<u8>) -> Option<H265Scan> {
    match separate_trimmed_spec(tok, SPS_KEY@, SPACE@) {
        Some((_, v)) => Some(H265Scan { sps: v, ..st }),
        None => match separate_trimmed_spec(tok, VPS_KEY@, SPACE@) {
            Some((_, v)) => Some(H265Scan { vps: v, ..st }),
            None => match separate_trimmed_spec(tok, PPS_KEY@, SPACE@) {
                Some((_, v)) => Some(H265Scan { pps: v, ..st }),
                None => match separate_trimmed_spec(tok, PROFILE_ID_KEY@, SPACE@) {
                    Some((_, p)) => if number_fits(p, 0, u16::MAX as int) {
                        Some(H265Scan { profile_id: Some(number_value(p) as u16), ..st })
                    } else {
                        None
                    },
                    None => Some(st),
                },
            },
        },
    }
}

/// Scans the H.265 tokens in order, stopping at the first malformed value.
pub open spec fn h265_fold(toks: Seq<Seq<u8>>, st: H265Scan) -> Option<H265Scan>
    decreases toks.len(),
{
    if toks.len() == 0 {
        Some(st)
    } else {
        match h265_step(st, toks[0]) {
            Some(next) => h265_fold(toks.drop_first(), next),
            None => None,
        }
    }
}

/// An H.265 codec description as plain values.
pub struct H265CodecView {
    pub format: u16,
    pub clock_rate: u32,
    pub channel_count: Option<u8>,
    pub profile_id: u16,
    pub sps_pps_vps_bytes: Seq<u8>,
}

/// The H.265 codec that `;`-separated `fmtp` parameters describe: the three
/// parameter sets decoded from base64 and concatenated as SPS, PPS, VPS,
/// and the profile id; all four keys are required.
pub open spec fn h265_of(format: u16, clock_rate: u32, channel_count: Option<u8>, params: Seq<u8>) -> Option<H265CodecView> {
    match h265_fold(
        tokens_of(params, SEMICOLON@, SPACE@),
        H265Scan { sps: Seq::<u8>::empty(), vps: Seq::<u8>::empty(), pps: Seq::<u8>::empty(), profile_id: None },
    ) {
        Some(st) => if st.sps.len() > 0 && st.pps.len() > 0 && st.vps.len() > 0 {
            match (base64_decoded(st.sps), base64_decoded(st.pps), base64_decoded(st.vps), st.profile_id) {
                (Some(a), Some(b), Some(c), Some(p)) => Some(
                    H265CodecView { format, clock_rate, channel_count, profile_id: p, sps_pps_vps_bytes: a + b + c },
                ),
                _ => None,
            }
        } else {
            None
        },
        None => None,
    }
}

/// The codec that `H265Codec::parse` finds in `data`.
pub open spec fn h265_parse_of(clock_rate: u32, channel_count: Option<u8>, data: Seq<u8>) -> Option<H265CodecView> {
    match fmtp_parts(data) {
        Some((f, p)) => if number_fits(f, 0, u16::MAX as int) {
            h265_of(number_value(f) as u16, clock_rate, channel_count, p)
        } else {
            None
        },
        None => None,
    }
}

/// Concatenates decoded H.265 parameter sets in the order SPS, PPS, VPS.
pub fn concat_parameter_sets(sps: &[u8], pps: &[u8], vps: &[u8]) -> (r: Vec<u8>)
    ensures
        r@ == sps@ + pps@ + vps@,
{
    let mut result: Vec<u8> = Vec::new();
    append(&mut result, sps);
    append(&mut result, pps);
    append(&mut result, vps);
    proof {
        assert(Seq::<u8>::empty() + sps@ =~= sps@);
    }
    result
}

/// An H.265 codec description.
#[derive(Debug, Clone, PartialEq, Eq)]
pub struct H265Codec {
    format: u16,
    clock_rate: u32,
    channel_count: Option<u8>,
    profile_id: u16,
    sps_pps_bytes: Vec<u8>,
}

impl View for H265Codec {
    type V = H265CodecView;

    closed spec fn view(&self) -> H265CodecView {
        H265CodecView {
            format: self.format,
            clock_rate: self.clock_rate,
            channel_count: self.channel_count,
            profile_id: self.profile_id,
            sps_pps_vps_bytes: self.sps_pps_bytes@,
        }
    }
}

impl H265Codec {
    pub fn new(format: u16, clock_rate: u32, channel_count: Option<u8>, profile_id: u16, sps_pps_bytes: Vec<u8>) -> (r: H265Codec)
        ensures
            r@ == (H265CodecView {
                format,
                clock_rate,
                channel_count,
                profile_id,
                sps_pps_vps_bytes: sps_pps_bytes@,
            }),
    {
        H265Codec { format, clock_rate, channel_count, profile_id, sps_pps_bytes }
    }

    /// Decodes the `;`-separated H.265 parameters of an `fmtp` line.
    pub fn from_fmtp_internal(format: u16, clock_rate: u32, channel_count: Option<u8>, data: &[u8]) -> (r: Result<
        H265Codec,
        ParsingError,
    >)
        ensures
            r is Ok <==> h265_of(format, clock_rate, channel_count, data@) is Some,
            r matches Ok(c) ==> h265_of(format, clock_rate, channel_count, data@) == Some(c@),
    {
        let semi = SEMICOLON.as_slice();
        let sp = SPACE.as_slice();
        let empty = slice_subrange(data, 0, 0);
        let mut sps: &[u8] = empty;
        let mut vps: &[u8] = empty;
        let mut pps: &[u8] = empty;
        let mut profile_id: Option<u16> = None;
        let mut current: &[u8] = data;
        let ghost init = H265Scan {
            sps: Seq::<u8>::empty(),
            vps: Seq::<u8>::empty(),
            pps: Seq::<u8>::empty(),
            profile_id: None,
        };
        assert(empty@ =~= Seq::<u8>::empty());
        loop
            invariant
                h265_fold(tokens_of(data@, SEMICOLON@, SPACE@), init) == h265_fold(
                    tokens_of(current@, SEMICOLON@, SPACE@),
                    H265Scan { sps: sps@, vps: vps@, pps: pps@, profile_id },
                ),
                semi@ == SEMICOLON@,
                sp@ == SPACE@,
                init == (H265Scan {
                    sps: Seq::<u8>::empty(),
                    vps: Seq::<u8>::empty(),
                    pps: Seq::<u8>::empty(),
                    profile_id: None,
                }),
            ensures
                h265_fold(tokens_of(data@, SEMICOLON@, SPACE@), init) == Some(
                    H265Scan { sps: sps@, vps: vps@, pps: pps@, profile_id },
                ),
            decreases current@.len(),
        {
            match while_separate_trimmed(current, semi, sp) {
                None => {
                    assert(tokens_of(current@, SEMICOLON@, SPACE@) =~= Seq::<Seq<u8>>::empty());
                    break;
                },
                Some((left, right)) => {
                    let ghost st = H265Scan { sps: sps@, vps: vps@, pps: pps@, profile_id };
                    proof {
                        lemma_while_separate_trimmed_shrinks(current@, SEMICOLON@, SPACE@);
                        let tl = tokens_of(right@, SEMICOLON@, SPACE@);
                        assert((seq![left@] + tl).drop_first() =~= tl);
                        assert((seq![left@] + tl)[0] == left@);
                        assert(tokens_of(current@, SEMICOLON@, SPACE@) == seq![left@] + tl);
                    }
                    if let Some((_, v)) = separate_trimmed(left, SPS_KEY.as_slice(), sp) {
                        sps = v;
                    } else if let Some((_, v)) = separate_trimmed(left, VPS_KEY.as_slice(), sp) {
                        vps = v;
                    } else if let Some((_, v)) = separate_trimmed(left, PPS_KEY.as_slice(), sp) {
                        pps = v;
                    } else if let Some((_, p)) = separate_trimmed(left, PROFILE_ID_KEY.as_slice(), sp) {
                        match utf8_to_u16(p) {
                            Ok(v) => {
                                profile_id = Some(v);
                            },
                            Err(e) => {
                                assert(h265_step(st, left@) is None);
                                return Err(ParsingError::Utf8Error(e));
                            },
                        }
                    }
                    current = right;
                },
            }
        }
        if sps.len() == 0 || pps.len() == 0 || vps.len() == 0 {
            return Err(ParsingError::from_bytes(data));
        }
        let sps_bytes = match base64_decode(sps) {
            Some(v) => v,
            None => return Err(ParsingError::from_bytes(sps)),
        };
        let pps_bytes = match base64_decode(pps) {
            Some(v) => v,
            None => return Err(ParsingError::from_bytes(pps)),
        };
        let vps_bytes = match base64_decode(vps) {
            Some(v) => v,
            None => return Err(ParsingError::from_bytes(vps)),
        };
        let sps_pps_bytes = concat_parameter_sets(sps_bytes.as_slice(), pps_bytes.as_slice(), vps_bytes.as_slice());
        let profile_id = match profile_id {
            Some(p) => p,
            None => return Err(ParsingError::from_bytes(data)),
        };
        Ok(H265Codec { format, clock_rate, channel_count, profile_id, sps_pps_bytes })
    }

    /// Finds the `a=fmtp:<format> <parameters>` line in `data` and decodes it.
    pub fn parse(clock_rate: u32, channel_count: Option<u8>, data: &[u8]) -> (r: Result<H265Codec, ParsingError>)
        ensures
            r is Ok <==> h265_parse_of(clock_rate, channel_count, data@) is Some,
            r matches Ok(c) ==> h265_parse_of(clock_rate, channel_count, data@) == Some(c@),
    {
        match fmtp_split(data) {
            Some((f, p)) => {
                let format = match utf8_to_u16(f) {
                    Ok(v) => v,
                    Err(e) => return Err(ParsingError::Utf8Error(e)),
                };
                H265Codec::from_fmtp_internal(format, clock_rate, channel_count, p)
            },
            None => Err(ParsingError::from_bytes(data)),
        }
    }

    pub fn profile_id(&self) -> (r: u16)
        ensures
            r == self@.profile_id,
    {
        self.profile_id
    }

    pub fn sps_pps_vps_bytes(&self) -> (r: &[u8])
        ensures
            r@ == self@.sps_pps_vps_bytes,
    {
        self.sps_pps_bytes.as_slice()
    }

    pub fn format(&self) -> (r: u16)
        ensures
            r == self@.format,
    {
        self.format
    }

    pub fn clock_rate(&self) -> (r: u32)
        ensures
            r == self@.clock_rate,
    {
        self.clock_rate
    }

    pub fn channel_count(&self) -> (r: Option<u8>)
        ensures
            r == self@.channel_count,
    {
        self.channel_count
    }
}

/// A byte with ASCII lowercase letters mapped to uppercase.
pub open spec fn ascii_upper(b: u8) -> u8 {
    if 97 <= b <= 122 {
        (b - 32) as u8
    } else {
        b
    }
}

/// Whether `name` equals the uppercase `key`, ignoring ASCII case.
pub open spec fn names_match(name: Seq<u8>, key: Seq<u8>) -> bool {
    name.len() == key.len() && forall|i: int| 0 <= i < name.len() ==> ascii_upper(#[trigger] name[i]) == key[i]
}

/// Whether `name` equals the uppercase `key`, ignoring ASCII case.
pub fn name_matches(name: &[u8], key: &[u8]) -> (r: bool)
    ensures
        r == names_match(name@, key@),
{
    if name.len() != key.len() {
        return false;
    }
    let mut i: usize = 0;
    while i < name.len()
        invariant
            name@.len() == key@.len(),
            i <= name@.len(),
            forall|k: int| 0 <= k < i ==> ascii_upper(#[trigger] name@[k]) == key@[k],
        decreases name@.len() - i,
    {
        let b = name[i];
        let u = if 97 <= b && b <= 122 { b - 32 } else { b };
        if u != key[i] {
            return false;
        }
        i = i + 1;
    }
    true
}

/// The name, clock rate text and optional channel count text of
/// `<name>/<clock>[/<channels>]`.
pub open spec fn codec_info_of(info: Seq<u8>) -> Option<(Seq<u8>, Seq<u8>, Option<Seq<u8>>)> {
    match separate_spec(info, SLASH@) {
        None => None,
        Some((name, other)) => match separate_spec(other, SLASH@) {
            Some((clock, ch)) => Some((name, clock, Some(ch))),
            None => Some((name, other, None)),
        },
    }
}

/// The `<name>/<clock>[/<channels>]` text of an `rtpmap` block and what
/// follows its first line.
pub open spec fn codec_block_parts(data: Seq<u8>) -> Option<(Seq<u8>, Seq<u8>)> {
    match while_separate_trimmed_spec(data, NEW_LINE@, TRIM_NEW_LINE@) {
        None => None,
        Some((line, rest)) => match separate_trimmed_spec(line, SPACE@, TRIM_NEW_LINE@) {
            None => None,
            Some((_, info)) => Some((info, rest)),
        },
    }
}

/// A codec description of any kind, as plain values.
pub enum CodecTypeView {
    Aac(AacCodecView),
    H265(H265CodecView),
    H264(H264CodecView),
    Unsupported(Seq<char>),
}

/// The codec that a name selects, decoded from the rest of its block.
pub open spec fn codec_of(name: Seq<u8>, clock_rate: u32, channel_count: Option<u8>, data: Seq<u8>) -> Option<CodecTypeView> {
    if names_match(name, AAC_NAME@) {
        match aac_parse_of(clock_rate, channel_count, data) {
            Some(v) => Some(CodecTypeView::Aac(v)),
            None => None,
        }
    } else if names_match(name, H265_NAME@) {
        match h265_parse_of(clock_rate, channel_count, data) {
            Some(v) => Some(CodecTypeView::H265(v)),
            None => None,
        }
    } else if names_match(name, H264_NAME@) {
        match h264_parse_of(clock_rate, channel_count, data) {
            Some(v) => Some(CodecTypeView::H264(v)),
            None => None,
        }
    } else if valid_utf8(name) {
        Some(CodecTypeView::Unsupported(decode_utf8(name)))
    } else {
        None
    }
}

/// What an `rtpmap` block (the text after `a=rtpmap:`) decodes to: the
/// format line `<fmt> <name>/<clock>[/<channels>]` names the codec, and a
/// supported codec is decoded from the `fmtp` line that follows.
pub open spec fn codec_type_of(data: Seq<u8>) -> Option<CodecTypeView> {
    match codec_block_parts(data) {
        None => None,
        Some((info, rest)) => match codec_info_of(info) {
            None => None,
            Some((name, clock, ch)) => if valid_utf8(name) && number_fits(clock, 0, u32::MAX as int) && (ch matches Some(
                c,
            ) ==> number_fits(c, 0, 255)) {
                codec_of(
                    name,
                    number_value(clock) as u32,
                    match ch {
                        Some(c) => Some(number_value(c) as u8),
                        None => None,
                    },
                    rest,
                )
            } else {
                None
            },
        },
    }
}

/// A codec description of any kind.
#[derive(Debug, Clone, PartialEq, Eq)]
pub enum CodecType {
    Aac(AacCodec),
    H265(H265Codec),
    H264(H264Codec),
    Unsupported(String),
}

impl View for CodecType {
    type V = CodecTypeView;

    open spec fn view(&self) -> CodecTypeView {
        match self {
            CodecType::Aac(c) => CodecTypeView::Aac(c@),
            CodecType::H265(c) => CodecTypeView::H265(c@),
            CodecType::H264(c) => CodecTypeView::H264(c@),
            CodecType::Unsupported(n) => CodecTypeView::Unsupported(n@),
        }
    }
}

/// Splits `<name>/<clock>[/<channels>]` into a UTF-8 name, a `u32` clock
/// rate and an optional `u8` channel count.
pub fn get_codec_info(data: &[u8]) -> (r: Result<(&[u8], u32, Option<u8>), ParsingError>)
    ensures
        r is Ok <==> (codec_info_of(data@) matches Some((name, clock, ch)) && valid_utf8(name) && number_fits(
            clock,
            0,
            u32::MAX as int,
        ) && (ch matches Some(c) ==> number_fits(c, 0, 255))),
        r matches Ok((n, c, ch)) ==> codec_info_of(data@) matches Some((name, clock, chs)) && n@ == name
            && c == number_value(clock) && ch == match chs {
            Some(x) => Some(number_value(x) as u8),
            None => None::<u8>,
        },
{
    let (name, other) = match separate(data, SLASH.as_slice()) {
        Some(p) => p,
        None => return Err(ParsingError::from_bytes(data)),
    };
    if !crate::text::is_utf8(name) {
        return Err(ParsingError::from_bytes(name));
    }
    match separate(other, SLASH.as_slice()) {
        Some((clock, ch)) => {
            let clock_rate = match utf8_to_u32(clock) {
                Ok(v) => v,
                Err(e) => return Err(ParsingError::Utf8Error(e)),
            };
            let channel_count = match utf8_to_u8(ch) {
                Ok(v) => v,
                Err(e) => return Err(ParsingError::Utf8Error(e)),
            };
            Ok((name, clock_rate, Some(channel_count)))
        },
        None => {
            let clock_rate = match utf8_to_u32(other) {
                Ok(v) => v,
                Err(e) => return Err(ParsingError::Utf8Error(e)),
            };
            Ok((name, clock_rate, None))
        },
    }
}

/// The codec that `name` selects (ignoring ASCII case), decoded from `data`;
/// an unknown name gives `Unsupported` with the name as text.
pub fn get_codec(name: &[u8], clock_rate: u32, channel_count: Option<u8>, data: &[u8]) -> (r: Result<CodecType, ParsingError>)
    ensures
        r is Ok <==> codec_of(name@, clock_rate, channel_count, data@) is Some,
        r matches Ok(c) ==> codec_of(name@, clock_rate, channel_count, data@) == Some(c@),
{
    if name_matches(name, AAC_NAME.as_slice()) {
        match AacCodec::parse(clock_rate, channel_count, data) {
            Ok(c) => Ok(CodecType::Aac(c)),
            Err(e) => Err(e),
        }
    } else if name_matches(name, H265_NAME.as_slice()) {
        match H265Codec::parse(clock_rate, channel_count, data) {
            Ok(c) => Ok(CodecType::H265(c)),
            Err(e) => Err(e),
        }
    } else if name_matches(name, H264_NAME.as_slice()) {
        match H264Codec::parse(clock_rate, channel_count, data) {
            Ok(c) => Ok(CodecType::H264(c)),
            Err(e) => Err(e),
        }
    } else {
        match utf8_to_string(name) {
            Ok(s) => Ok(CodecType::Unsupported(s)),
            Err(e) => Err(ParsingError::Utf8Error(e)),
        }
    }
}

impl CodecType {
    /// Decodes an `rtpmap` block: the text after `a=rtpmap:`, whose first line
    /// is `<fmt> <name>/<clock>[/<channels>]`, and the `fmtp` line after it.
    pub fn parse(data: &[u8]) -> (r: Result<CodecType, ParsingError>)
        ensures
            r is Ok <==> codec_type_of(data@) is Some,
            r matches Ok(c) ==> codec_type_of(data@) == Some(c@),
    {
        let (rtpmap, bot) = match while_separate_trimmed(data, NEW_LINE.as_slice(), TRIM_NEW_LINE.as_slice()) {
            Some(p) => p,
            None => return Err(ParsingError::from_bytes(data)),
        };
        let (_, codec_info) = match separate_trimmed(rtpmap, SPACE.as_slice(), TRIM_NEW_LINE.as_slice()) {
            Some(p) => p,
            None => return Err(ParsingError::from_bytes(data)),
        };
        let (name, clock_rate, channel_count) = match get_codec_info(codec_info) {
            Ok(t) => t,
            Err(e) => return Err(e),
        };
        get_codec(name, clock_rate, channel_count, bot)
    }

    /// Whether the codec is one of AAC, H.264 and H.265.
    pub fn is_supported(&self) -> (r: bool)
        ensures
            r == !(self@ is Unsupported),
    {
        match self {
            CodecType::Unsupported(_) => false,
            _ => true,
        }
    }

    /// The codec's name: `MPEG4-GENERIC`, `H265`, `H264`, or the unsupported name.
    pub fn get_name(&self) -> (r: &str)
        ensures
            self@ is Aac ==> r@ == seq!['M', 'P', 'E', 'G', '4', '-', 'G', 'E', 'N', 'E', 'R', 'I', 'C'],
            self@ is H265 ==> r@ == seq!['H', '2', '6', '5'],
            self@ is H264 ==> r@ == seq!['H', '2', '6', '4'],
            self@ matches CodecTypeView::Unsupported(n) ==> r@ == n,
    {
        match self {
            CodecType::Aac(_) => {
                proof {
                    reveal_strlit("MPEG4-GENERIC");
                }
                "MPEG4-GENERIC"
            },
            CodecType::H265(_) => {
                proof {
                    reveal_strlit("H265");
                }
                "H265"
            },
            CodecType::H264(_) => {
                proof {
                    reveal_strlit("H264");
                }
                "H264"
            },
            CodecType::Unsupported(name) => name.as_str(),
        }
    }
}

} // verus!
