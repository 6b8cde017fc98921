//! The RTCP report family: the shared header, report blocks, sender and
//! receiver reports, source descriptions, goodbye and application packets.

use vstd::prelude::*;
use vstd::slice::slice_subrange;
use vstd::utf8::{decode_utf8, valid_utf8};
use crate::error::CastError;
use crate::network_order::{be16, be24, be32, be64, read_u16_be, read_u24_be, read_u32_be, read_u64_be};
use crate::text::utf8_to_str;

verus! {

/// Size of the RTCP header shared by every packet.
pub const RTCP_HEADER_SIZE: usize = 4;

/// Size of a report block.
pub const REPORT_BLOCK_SIZE: usize = 24;

/// Size of the fixed part of a sender report.
pub const SENDER_REPORT_HEADER_SIZE: usize = 28;

/// Size of the fixed part of a receiver report.
pub const RECEIVER_REPORT_HEADER_SIZE: usize = 8;

/// The RTCP packet types (SR=200, RR=201, SDES=202, BYE=203, APP=204).
#[derive(Debug, Clone, Copy, PartialEq, Eq, Structural)]
pub enum RtcpPacketType {
    SenderReport,
    ReceiverReport,
    SourceDescription,
    Goodbye,
    ApplicationDefined,
}

/// The packet type that the wire value `v` stands for.
pub open spec fn packet_type_of(v: u8) -> Option<RtcpPacketType> {
    if v == 200 {
        Some(RtcpPacketType::SenderReport)
    } else if v == 201 {
        Some(RtcpPacketType::ReceiverReport)
    } else if v == 202 {
        Some(RtcpPacketType::SourceDescription)
    } else if v == 203 {
        Some(RtcpPacketType::Goodbye)
    } else if v == 204 {
        Some(RtcpPacketType::ApplicationDefined)
    } else {
        None
    }
}

impl RtcpPacketType {
    /// The packet type of a wire value; nothing for an unknown value.
    pub fn from_u8(v: u8) -> (r: Option<RtcpPacketType>)
        ensures
            r == packet_type_of(v),
    {
        match v {
            200 => Some(RtcpPacketType::SenderReport),
            201 => Some(RtcpPacketType::ReceiverReport),
            202 => Some(RtcpPacketType::SourceDescription),
            203 => Some(RtcpPacketType::Goodbye),
            204 => Some(RtcpPacketType::ApplicationDefined),
            _ => None,
        }
    }

    /// The wire value of the packet type.
    pub fn as_u8(&self) -> (r: u8)
        ensures
            packet_type_of(r) == Some(*self),
    {
        match self {
            RtcpPacketType::SenderReport => 200,
            RtcpPacketType::ReceiverReport => 201,
            RtcpPacketType::SourceDescription => 202,
            RtcpPacketType::Goodbye => 203,
            RtcpPacketType::ApplicationDefined => 204,
        }
    }
}

/// The RTCP header as plain values.
pub struct RtcpHeaderView {
    pub v_p_rc: u8,
    pub packet_type: RtcpPacketType,
    pub length: u16,
}

impl RtcpHeaderView {
    pub open spec fn version(self) -> u8 {
        self.v_p_rc / 64
    }

    pub open spec fn padding(self) -> bool {
        (self.v_p_rc / 32) % 2 == 1
    }

    pub open spec fn report_count(self) -> u8 {
        self.v_p_rc % 32
    }
}

/// Whether `b` starts with a decodable RTCP header.
pub open spec fn rtcp_header_ok(b: Seq<u8>) -> bool {
    b.len() >= 4 && packet_type_of(b[1]) is Some
}

/// The RTCP header that `b` starts with.
pub open spec fn rtcp_header_of(b: Seq<u8>) -> RtcpHeaderView {
    RtcpHeaderView { v_p_rc: b[0], packet_type: packet_type_of(b[1]).unwrap(), length: be16(b, 2) as u16 }
}

/// The fixed 4-byte prefix of every RTCP packet.
#[derive(Debug)]
pub struct RtcpHeader {
    v_p_rc: u8,
    packet_type: RtcpPacketType,
    length: u16,
}

impl View for RtcpHeader {
    type V = RtcpHeaderView;

    closed spec fn view(&self) -> RtcpHeaderView {
        RtcpHeaderView { v_p_rc: self.v_p_rc, packet_type: self.packet_type, length: self.length }
    }
}

impl RtcpHeader {
    /// A header from its fields; each bit field must fit its width.
    pub fn new(version: u8, padding: bool, report_count: u8, packet_type: RtcpPacketType, length: u16) -> (r: RtcpHeader)
        requires
            version < 4,
            report_count < 32,
        ensures
            r@.version() == version,
            r@.padding() == padding,
            r@.report_count() == report_count,
            r@.packet_type == packet_type,
            r@.length == length,
    {
        let p: u8 = if padding { 32 } else { 0 };
        RtcpHeader { v_p_rc: version * 64 + p + report_count, packet_type, length }
    }

    /// Decodes the 4-byte header; fails on a short buffer or an unknown packet type.
    pub fn try_from(value: &[u8]) -> (r: Result<RtcpHeader, CastError>)
        ensures
            r is Ok <==> rtcp_header_ok(value@),
            r matches Ok(h) ==> h@ == rtcp_header_of(value@),
            r is Err ==> r->Err_0 is InvalidData,
    {
        if value.len() < RTCP_HEADER_SIZE {
            return Err(CastError::InvalidData("Buffer too short to contain RTCP header".to_owned()));
        }
        let packet_type = match RtcpPacketType::from_u8(value[1]) {
            Some(t) => t,
            None => return Err(CastError::InvalidData("Invalid RTCP packet type".to_owned())),
        };
        Ok(RtcpHeader { v_p_rc: value[0], packet_type, length: read_u16_be(value, 2) })
    }

    pub fn version(&self) -> (r: u8)
        ensures
            r == self@.version(),
    {
        self.v_p_rc / 64
    }

    pub fn padding(&self) -> (r: bool)
        ensures
            r == self@.padding(),
    {
        (self.v_p_rc / 32) % 2 == 1
    }

    pub fn report_count(&self) -> (r: u8)
        ensures
            r == self@.report_count(),
    {
        self.v_p_rc % 32
    }

    pub fn packet_type(&self) -> (r: &RtcpPacketType)
        ensures
            *r == self@.packet_type,
    {
        &self.packet_type
    }

    pub fn length(&self) -> (r: u16)
        ensures
            r == self@.length,
    {
        self.length
    }
}

/// The number of bytes that an RTCP header declares for its packet:
/// `4 * (length + 1)`.
pub open spec fn rtcp_declared_len(b: Seq<u8>) -> int {
    4 * (be16(b, 2) + 1)
}

/// Whether `b` holds a header and the whole packet that its length field
/// declares.
pub open spec fn rtcp_length_fits(b: Seq<u8>) -> bool {
    b.len() >= 4 && rtcp_declared_len(b) <= b.len()
}

/// The packet that the header at the start of `b` declares: its first
/// `4 * (length + 1)` bytes. Nothing past them is read.
pub open spec fn rtcp_packet_of(b: Seq<u8>) -> Seq<u8> {
    b.subrange(0, rtcp_declared_len(b))
}

/// The declared packet at the start of `value`; nothing when the buffer
/// is shorter than the length field says.
fn rtcp_packet<'a>(value: &'a [u8]) -> (r: Option<&'a [u8]>)
    ensures
        match r {
            Some(p) => rtcp_length_fits(value@) && p@ == rtcp_packet_of(value@),
            None => !rtcp_length_fits(value@),
        },
{
    if value.len() < RTCP_HEADER_SIZE {
        return None;
    }
    let declared = 4 * (read_u16_be(value, 2) as usize + 1);
    if declared > value.len() {
        None
    } else {
        Some(slice_subrange(value, 0, declared))
    }
}

/// A declared packet starts with the same header as the buffer it is cut
/// from, and its length field bounds the buffer.
pub proof fn lemma_rtcp_length_bound(b: Seq<u8>)
    requires
        rtcp_length_fits(b),
    ensures
        rtcp_packet_of(b).len() == 4 * (rtcp_header_of(rtcp_packet_of(b)).length + 1),
        4 * (rtcp_header_of(rtcp_packet_of(b)).length + 1) <= b.len(),
        rtcp_header_ok(b) ==> rtcp_header_of(rtcp_packet_of(b)) == rtcp_header_of(b),
{
    let p = rtcp_packet_of(b);
    assert(p[0] == b[0] && p[1] == b[1] && p[2] == b[2] && p[3] == b[3]);
}

/// A report block as plain values.
pub struct ReportBlockView {
    pub ssrc: u32,
    pub fraction_lost: u8,
    pub cumulative_lost: u32,
    pub highest_seq_num: u32,
    pub jitter: u32,
    pub last_sr: u32,
    pub delay_since_last_sr: u32,
}

/// The report block at `b[i..i + 24]`.
pub open spec fn report_block_of(b: Seq<u8>, i: int) -> ReportBlockView {
    ReportBlockView {
        ssrc: be32(b, i) as u32,
        fraction_lost: b[i + 4],
        cumulative_lost: be24(b, i + 5) as u32,
        highest_seq_num: be32(b, i + 8) as u32,
        jitter: be32(b, i + 12) as u32,
        last_sr: be32(b, i + 16) as u32,
        delay_since_last_sr: be32(b, i + 20) as u32,
    }
}

/// The `count` report blocks that start at `b[start..]`.
pub open spec fn report_blocks_of(b: Seq<u8>, start: int, count: int) -> Seq<ReportBlockView> {
    Seq::new(count as nat, |k: int| report_block_of(b, start + 24 * k))
}

/// One reception report of a sender or receiver report.
#[derive(Debug)]
pub struct ReportBlock {
    ssrc: u32,
    fraction_lost: u8,
    cumulative_lost: u32,
    highest_seq_num: u32,
    jitter: u32,
    last_sr: u32,
    delay_since_last_sr: u32,
}

impl View for ReportBlock {
    type V = ReportBlockView;

    closed spec fn view(&self) -> ReportBlockView {
        ReportBlockView {
            ssrc: self.ssrc,
            fraction_lost: self.fraction_lost,
            cumulative_lost: self.cumulative_lost,
            highest_seq_num: self.highest_seq_num,
            jitter: self.jitter,
            last_sr: self.last_sr,
            delay_since_last_sr: self.delay_since_last_sr,
        }
    }
}

/// The views of a list of report blocks.
pub open spec fn report_block_views(v: Seq<ReportBlock>) -> Seq<ReportBlockView> {
    v.map_values(|x: ReportBlock| x@)
}

impl ReportBlock {
    /// Decodes the block at `value[start..start + 24]`.
    fn read_at(value: &[u8], start: usize) -> (r: ReportBlock)
        requires
            start + 24 <= value@.len(),
        ensures
            r@ == report_block_of(value@, start as int),
    {
        assert(value@.len() == value.len());
        ReportBlock {
            ssrc: read_u32_be(value, start),
            fraction_lost: value[start + 4],
            cumulative_lost: read_u24_be(value, start + 5),
            highest_seq_num: read_u32_be(value, start + 8),
            jitter: read_u32_be(value, start + 12),
            last_sr: read_u32_be(value, start + 16),
            delay_since_last_sr: read_u32_be(value, start + 20),
        }
    }

    /// Decodes a 24-byte report block; fails on a shorter buffer.
    pub fn try_from(value: &[u8]) -> (r: Result<ReportBlock, CastError>)
        ensures
            r is Ok <==> value@.len() >= 24,
            r matches Ok(b) ==> b@ == report_block_of(value@, 0),
            r is Err ==> r->Err_0 is InvalidData,
    {
        if value.len() < REPORT_BLOCK_SIZE {
            return Err(CastError::InvalidData("Buffer too short to contain Report Block".to_owned()));
        }
        Ok(ReportBlock::read_at(value, 0))
    }

    pub fn ssrc(&self) -> (r: u32)
        ensures
            r == self@.ssrc,
    {
        self.ssrc
    }

    pub fn fraction_lost(&self) -> (r: u8)
        ensures
            r == self@.fraction_lost,
    {
        self.fraction_lost
    }

    pub fn cumulative_lost(&self) -> (r: u32)
        ensures
            r == self@.cumulative_lost,
    {
        self.cumulative_lost
    }

    pub fn highest_seq_num(&self) -> (r: u32)
        ensures
            r == self@.highest_seq_num,
    {
        self.highest_seq_num
    }

    pub fn jitter(&self) -> (r: u32)
        ensures
            r == self@.jitter,
    {
        self.jitter
    }

    pub fn last_sr(&self) -> (r: u32)
        ensures
            r == self@.last_sr,
    {
        self.last_sr
    }

    pub fn delay_since_last_sr(&self) -> (r: u32)
        ensures
            r == self@.delay_since_last_sr,
    {
        self.delay_since_last_sr
    }
}

/// Decodes `count` consecutive report blocks starting at `value[start..]`.
fn read_report_blocks(value: &[u8], start: usize, count: usize) -> (r: Vec<ReportBlock>)
    requires
        start + 24 * count <= value@.len(),
    ensures
        report_block_views(r@) == report_blocks_of(value@, start as int, count as int),
{
    let mut blocks: Vec<ReportBlock> = Vec::new();
    let mut i: usize = 0;
    let mut off: usize = start;
    let n = value.len();
    while i < count
        invariant
            start + 24 * count <= value@.len(),
            n == value@.len(),
            i <= count,
            off == start + 24 * i,
            report_block_views(blocks@) == report_blocks_of(value@, start as int, i as int),
        decreases count - i,
    {
        proof {
            assert(24 * i + 24 <= 24 * count) by (nonlinear_arith)
                requires i < count;
        }
        let block = ReportBlock::read_at(value, off);
        let ghost prev = blocks@;
        blocks.push(block);
        proof {
            assert(blocks@ == prev.push(block));
            assert(report_block_views(blocks@) =~= report_block_views(prev).push(block@));
            assert(report_block_views(blocks@) =~= report_blocks_of(value@, start as int, i + 1));
        }
        i = i + 1;
        off = off + REPORT_BLOCK_SIZE;
    }
    blocks
}

/// Whether `b` holds a whole sender report: the 28-byte fixed part and
/// `report_count` report blocks after it.
pub open spec fn sender_report_layout_ok(b: Seq<u8>) -> bool {
    b.len() >= 28 && rtcp_header_ok(b) && b.len() >= 28 + 24 * rtcp_header_of(b).report_count()
}

/// Whether `b` holds a whole sender report packet: the header's length field
/// fits the buffer and the declared packet has the layout.
pub open spec fn sender_report_ok(b: Seq<u8>) -> bool {
    rtcp_length_fits(b) && sender_report_layout_ok(rtcp_packet_of(b))
}

/// An RTCP sender report (SR).
#[derive(Debug)]
pub struct SenderReport {
    header: RtcpHeader,
    ssrc: u32,
    ntp_timestamp: u64,
    rtp_timestamp: u32,
    packet_count: u32,
    octet_count: u32,
    report_blocks: Vec<ReportBlock>,
}

impl SenderReport {
    pub closed spec fn spec_header(&self) -> RtcpHeaderView {
        self.header@
    }

    pub closed spec fn spec_ssrc(&self) -> u32 {
        self.ssrc
    }

    pub closed spec fn spec_ntp_timestamp(&self) -> u64 {
        self.ntp_timestamp
    }

    pub closed spec fn spec_rtp_timestamp(&self) -> u32 {
        self.rtp_timestamp
    }

    pub closed spec fn spec_packet_count(&self) -> u32 {
        self.packet_count
    }

    pub closed spec fn spec_octet_count(&self) -> u32 {
        self.octet_count
    }

    pub closed spec fn spec_report_blocks(&self) -> Seq<ReportBlockView> {
        report_block_views(self.report_blocks@)
    }

    /// Decodes the packet that the header declares, `4 * (length + 1)`
    /// bytes; fails when the buffer is shorter.
    pub fn try_from(value: &[u8]) -> (r: Result<SenderReport, CastError>)
        ensures
            r is Ok <==> sender_report_ok(value@),
            r matches Ok(sr) ==> 4 * (sr.spec_header().length + 1) <= value@.len(),
            r matches Ok(sr) ==> {
                &&& sr.spec_header() == rtcp_header_of(rtcp_packet_of(value@))
                &&& sr.spec_ssrc() == be32(rtcp_packet_of(value@), 4)
                &&& sr.spec_ntp_timestamp() == be64(rtcp_packet_of(value@), 8)
                &&& sr.spec_rtp_timestamp() == be32(rtcp_packet_of(value@), 16)
                &&& sr.spec_packet_count() == be32(rtcp_packet_of(value@), 20)
                &&& sr.spec_octet_count() == be32(rtcp_packet_of(value@), 24)
                &&& sr.spec_report_blocks() == report_blocks_of(
                    rtcp_packet_of(value@),
                    28,
                    rtcp_header_of(rtcp_packet_of(value@)).report_count() as int,
                )
            },
            r is Err ==> r->Err_0 is InvalidData,
    {
        proof {
            if rtcp_length_fits(value@) {
                lemma_rtcp_length_bound(value@);
            }
        }
        match rtcp_packet(value) {
            Some(p) => SenderReport::from_packet(p),
            None => Err(CastError::InvalidData("Buffer shorter than the RTCP length field".to_owned())),
        }
    }

    /// Decodes a sender report: SSRC at 4, NTP timestamp at 8, RTP timestamp
    /// at 16, packet count at 20, octet count at 24, then the report blocks.
    fn from_packet(value: &[u8]) -> (r: Result<SenderReport, CastError>)
        ensures
            r is Ok <==> sender_report_layout_ok(value@),
            r matches Ok(sr) ==> {
                &&& sr.spec_header() == rtcp_header_of(value@)
                &&& sr.spec_ssrc() == be32(value@, 4)
                &&& sr.spec_ntp_timestamp() == be64(value@, 8)
                &&& sr.spec_rtp_timestamp() == be32(value@, 16)
                &&& sr.spec_packet_count() == be32(value@, 20)
                &&& sr.spec_octet_count() == be32(value@, 24)
                &&& sr.spec_report_blocks() == report_blocks_of(
                    value@,
                    28,
                    rtcp_header_of(value@).report_count() as int,
                )
            },
            r is Err ==> r->Err_0 is InvalidData,
    {
        if value.len() < SENDER_REPORT_HEADER_SIZE {
            return Err(CastError::InvalidData("Buffer too short to contain Sender Report header".to_owned()));
        }
        let header = match RtcpHeader::try_from(value) {
            Ok(h) => h,
            Err(e) => return Err(e),
        };
        let ssrc = read_u32_be(value, 4);
        let ntp_timestamp = read_u64_be(value, 8);
        let rtp_timestamp = read_u32_be(value, 16);
        let packet_count = read_u32_be(value, 20);
        let octet_count = read_u32_be(value, 24);
        let report_count = header.report_count() as usize;
        if value.len() < SENDER_REPORT_HEADER_SIZE + report_count * REPORT_BLOCK_SIZE {
            return Err(CastError::InvalidData("Buffer too short to contain all report blocks".to_owned()));
        }
        let report_blocks = read_report_blocks(value, SENDER_REPORT_HEADER_SIZE, report_count);
        Ok(SenderReport { header, ssrc, ntp_timestamp, rtp_timestamp, packet_count, octet_count, report_blocks })
    }

    pub fn header(&self) -> (r: &RtcpHeader)
        ensures
            r@ == self.spec_header(),
    {
        &self.header
    }

    pub fn ssrc(&self) -> (r: u32)
        ensures
            r == self.spec_ssrc(),
    {
        self.ssrc
    }

    pub fn ntp_timestamp(&self) -> (r: u64)
        ensures
            r == self.spec_ntp_timestamp(),
    {
        self.ntp_timestamp
    }

    pub fn rtp_timestamp(&self) -> (r: u32)
        ensures
            r == self.spec_rtp_timestamp(),
    {
        self.rtp_timestamp
    }

    pub fn packet_count(&self) -> (r: u32)
        ensures
            r == self.spec_packet_count(),
    {
        self.packet_count
    }

    pub fn octet_count(&self) -> (r: u32)
        ensures
            r == self.spec_octet_count(),
    {
        self.octet_count
    }

    pub fn report_blocks(&self) -> (r: &[ReportBlock])
        ensures
            report_block_views(r@) == self.spec_report_blocks(),
    {
        self.report_blocks.as_slice()
    }
}

/// Whether `b` holds a whole receiver report: header, SSRC and
/// `report_count` report blocks.
pub open spec fn receiver_report_layout_ok(b: Seq<u8>) -> bool {
    b.len() >= 8 && rtcp_header_ok(b) && b.len() >= 8 + 24 * rtcp_header_of(b).report_count()
}

/// Whether `b` holds a whole receiver report packet: the header's length field
/// fits the buffer and the declared packet has the layout.
pub open spec fn receiver_report_ok(b: Seq<u8>) -> bool {
    rtcp_length_fits(b) && receiver_report_layout_ok(rtcp_packet_of(b))
}

/// An RTCP receiver report (RR).
#[derive(Debug)]
pub struct ReceiverReport {
    header: RtcpHeader,
    ssrc: u32,
    report_blocks: Vec<ReportBlock>,
}

impl ReceiverReport {
    pub closed spec fn spec_header(&self) -> RtcpHeaderView {
        self.header@
    }

    pub closed spec fn spec_ssrc(&self) -> u32 {
        self.ssrc
    }

    pub closed spec fn spec_report_blocks(&self) -> Seq<ReportBlockView> {
        report_block_views(self.report_blocks@)
    }

    /// Decodes the packet that the header declares, `4 * (length + 1)`
    /// bytes; fails when the buffer is shorter.
    pub fn try_from(value: &[u8]) -> (r: Result<ReceiverReport, CastError>)
        ensures
            r is Ok <==> receiver_report_ok(value@),
            r matches Ok(rr) ==> 4 * (rr.spec_header().length + 1) <= value@.len(),
            r matches Ok(rr) ==> {
                &&& rr.spec_header() == rtcp_header_of(rtcp_packet_of(value@))
                &&& rr.spec_ssrc() == be32(rtcp_packet_of(value@), 4)
                &&& rr.spec_report_blocks() == report_blocks_of(
                    rtcp_packet_of(value@),
                    8,
                    rtcp_header_of(rtcp_packet_of(value@)).report_count() as int,
                )
            },
            r is Err ==> r->Err_0 is InvalidData,
    {
        proof {
            if rtcp_length_fits(value@) {
                lemma_rtcp_length_bound(value@);
            }
        }
        match rtcp_packet(value) {
            Some(p) => ReceiverReport::from_packet(p),
            None => Err(CastError::InvalidData("Buffer shorter than the RTCP length field".to_owned())),
        }
    }

    /// Decodes a receiver report: SSRC at 4, then the report blocks at 8.
    fn from_packet(value: &[u8]) -> (r: Result<ReceiverReport, CastError>)
        ensures
            r is Ok <==> receiver_report_layout_ok(value@),
            r matches Ok(rr) ==> {
                &&& rr.spec_header() == rtcp_header_of(value@)
                &&& rr.spec_ssrc() == be32(value@, 4)
                &&& rr.spec_report_blocks() == report_blocks_of(
                    value@,
                    8,
                    rtcp_header_of(value@).report_count() as int,
                )
            },
            r is Err ==> r->Err_0 is InvalidData,
    {
        if value.len() < RECEIVER_REPORT_HEADER_SIZE {
            return Err(CastError::InvalidData("Buffer too short to contain Receiver Report header".to_owned()));
        }
        let header = match RtcpHeader::try_from(value) {
            Ok(h) => h,
            Err(e) => return Err(e),
        };
        let ssrc = read_u32_be(value, 4);
        let report_count = header.report_count() as usize;
        if value.len() < RECEIVER_REPORT_HEADER_SIZE + report_count * REPORT_BLOCK_SIZE {
            return Err(CastError::InvalidData("Buffer too short to contain all report blocks".to_owned()));
        }
        let report_blocks = read_report_blocks(value, RECEIVER_REPORT_HEADER_SIZE, report_count);
        Ok(ReceiverReport { header, ssrc, report_blocks })
    }

    pub fn header(&self) -> (r: &RtcpHeader)
        ensures
            r@ == self.spec_header(),
    {
        &self.header
    }

    pub fn ssrc(&self) -> (r: u32)
        ensures
            r == self.spec_ssrc(),
    {
        self.ssrc
    }

    pub fn report_blocks(&self) -> (r: &[ReportBlock])
        ensures
            report_block_views(r@) == self.spec_report_blocks(),
    {
        self.report_blocks.as_slice()
    }
}

/// Whether `b` holds a whole application-defined packet.
pub open spec fn application_defined_layout_ok(b: Seq<u8>) -> bool {
    b.len() >= 12 && rtcp_header_ok(b)
}

/// Whether `b` holds a whole application defined packet: the header's length field
/// fits the buffer and the declared packet has the layout.
pub open spec fn application_defined_ok(b: Seq<u8>) -> bool {
    rtcp_length_fits(b) && application_defined_layout_ok(rtcp_packet_of(b))
}

/// An RTCP application-defined packet (APP).
#[derive(Debug)]
pub struct ApplicationDefined<'a> {
    header: RtcpHeader,
    subtype: u8,
    ssrc: u32,
    name: [u8; 4],
    data: &'a [u8],
}

impl<'a> ApplicationDefined<'a> {
    pub closed spec fn spec_header(&self) -> RtcpHeaderView {
        self.header@
    }

    pub closed spec fn spec_subtype(&self) -> u8 {
        self.subtype
    }

    pub closed spec fn spec_ssrc(&self) -> u32 {
        self.ssrc
    }

    pub closed spec fn spec_name(&self) -> Seq<u8> {
        self.name@
    }

    pub closed spec fn spec_data(&self) -> Seq<u8> {
        self.data@
    }

    /// Decodes the packet that the header declares, `4 * (length + 1)`
    /// bytes; fails when the buffer is shorter.
    pub fn try_from(value: &'a [u8]) -> (r: Result<ApplicationDefined<'a>, CastError>)
        ensures
            r is Ok <==> application_defined_ok(value@),
            r matches Ok(app) ==> 4 * (app.spec_header().length + 1) <= value@.len(),
            r matches Ok(app) ==> {
                &&& app.spec_header() == rtcp_header_of(rtcp_packet_of(value@))
                &&& app.spec_subtype() == rtcp_packet_of(value@)[0] % 32
                &&& app.spec_ssrc() == be32(rtcp_packet_of(value@), 4)
                &&& app.spec_name() == rtcp_packet_of(value@).subrange(8, 12)
                &&& app.spec_data() == rtcp_packet_of(value@).subrange(12, rtcp_packet_of(value@).len() as int)
            },
            r is Err ==> r->Err_0 is InvalidData,
    {
        proof {
            if rtcp_length_fits(value@) {
                lemma_rtcp_length_bound(value@);
            }
        }
        match rtcp_packet(value) {
            Some(p) => ApplicationDefined::from_packet(p),
            None => Err(CastError::InvalidData("Buffer shorter than the RTCP length field".to_owned())),
        }
    }

    /// Decodes an APP packet: subtype from the low 5 bits of byte 0, SSRC at
    /// 4, a 4-byte name at 8 and the application data from 12 on.
    fn from_packet(value: &'a [u8]) -> (r: Result<ApplicationDefined<'a>, CastError>)
        ensures
            r is Ok <==> application_defined_layout_ok(value@),
            r matches Ok(app) ==> {
                &&& app.spec_header() == rtcp_header_of(value@)
                &&& app.spec_subtype() == value@[0] % 32
                &&& app.spec_ssrc() == be32(value@, 4)
                &&& app.spec_name() == value@.subrange(8, 12)
                &&& app.spec_data() == value@.subrange(12, value@.len() as int)
            },
            r is Err ==> r->Err_0 is InvalidData,
    {
        if value.len() < 12 {
            return Err(CastError::InvalidData("Buffer too short to contain RTCP header and APP packet".to_owned()));
        }
        let header = match RtcpHeader::try_from(value) {
            Ok(h) => h,
            Err(e) => return Err(e),
        };
        let subtype = value[0] % 32;
        let ssrc = read_u32_be(value, 4);
        let name: [u8; 4] = [value[8], value[9], value[10], value[11]];
        assert(name@ =~= value@.subrange(8, 12));
        let data = slice_subrange(value, 12, value.len());
        Ok(ApplicationDefined { header, subtype, ssrc, name, data })
    }

    pub fn header(&self) -> (r: &RtcpHeader)
        ensures
            r@ == self.spec_header(),
    {
        &self.header
    }

    pub fn subtype(&self) -> (r: u8)
        ensures
            r == self.spec_subtype(),
    {
        self.subtype
    }

    pub fn ssrc(&self) -> (r: u32)
        ensures
            r == self.spec_ssrc(),
    {
        self.ssrc
    }

    pub fn name(&self) -> (r: &[u8; 4])
        ensures
            r@ == self.spec_name(),
    {
        &self.name
    }

    pub fn data(&self) -> (r: &'a [u8])
        ensures
            r@ == self.spec_data(),
    {
        self.data
    }
}

/// The `count` big-endian SSRCs that start at `b[start..]`.
pub open spec fn sources_of(b: Seq<u8>, start: int, count: int) -> Seq<u32> {
    Seq::new(count as nat, |k: int| be32(b, start + 4 * k) as u32)
}

/// Where the optional reason of a goodbye packet starts.
pub open spec fn goodbye_reason_start(b: Seq<u8>) -> int {
    4 + 4 * rtcp_header_of(b).report_count()
}

/// The bytes of the reason of a goodbye packet, when one is present.
pub open spec fn goodbye_reason_bytes(b: Seq<u8>) -> Seq<u8> {
    let o = goodbye_reason_start(b);
    b.subrange(o + 1, o + 1 + b[o])
}

/// Whether `b` holds a whole goodbye packet: header, `report_count` SSRCs
/// and, when bytes remain, a length-prefixed UTF-8 reason that fits.
pub open spec fn goodbye_layout_ok(b: Seq<u8>) -> bool {
    let o = goodbye_reason_start(b);
    &&& rtcp_header_ok(b)
    &&& b.len() >= o
    &&& o < b.len() ==> o + 1 + b[o] <= b.len() && valid_utf8(goodbye_reason_bytes(b))
}

/// Whether `b` holds a whole goodbye packet: the header's length field
/// fits the buffer and the declared packet has the layout.
pub open spec fn goodbye_ok(b: Seq<u8>) -> bool {
    rtcp_length_fits(b) && goodbye_layout_ok(rtcp_packet_of(b))
}

/// An RTCP goodbye packet (BYE).
#[derive(Debug)]
pub struct Goodbye<'a> {
    header: RtcpHeader,
    sources: Vec<u32>,
    reason: Option<&'a str>,
}

impl<'a> Goodbye<'a> {
    pub closed spec fn spec_header(&self) -> RtcpHeaderView {
        self.header@
    }

    pub closed spec fn spec_sources(&self) -> Seq<u32> {
        self.sources@
    }

    pub closed spec fn spec_reason(&self) -> Option<Seq<char>> {
        match self.reason {
            Some(s) => Some(s@),
            None => None,
        }
    }

    /// Decodes the packet that the header declares, `4 * (length + 1)`
    /// bytes; fails when the buffer is shorter.
    pub fn try_from(value: &'a [u8]) -> (r: Result<Goodbye<'a>, CastError>)
        ensures
            r is Ok <==> goodbye_ok(value@),
            r matches Ok(g) ==> 4 * (g.spec_header().length + 1) <= value@.len(),
            r matches Ok(g) ==> {
                &&& g.spec_header() == rtcp_header_of(rtcp_packet_of(value@))
                &&& g.spec_sources() == sources_of(
                    rtcp_packet_of(value@),
                    4,
                    rtcp_header_of(rtcp_packet_of(value@)).report_count() as int,
                )
                &&& g.spec_reason() == if goodbye_reason_start(rtcp_packet_of(value@)) < rtcp_packet_of(value@).len() {
                    Some(decode_utf8(goodbye_reason_bytes(rtcp_packet_of(value@))))
                } else {
                    None::<Seq<char>>
                }
            },
            r is Err && !(rtcp_header_ok(rtcp_packet_of(value@)) && rtcp_packet_of(value@).len() >= goodbye_reason_start(rtcp_packet_of(value@))
                && (goodbye_reason_start(rtcp_packet_of(value@)) < rtcp_packet_of(value@).len() ==> goodbye_reason_start(rtcp_packet_of(value@)) + 1
                + rtcp_packet_of(value@)[goodbye_reason_start(rtcp_packet_of(value@))] <= rtcp_packet_of(value@).len())) ==> r->Err_0 is InvalidData,
    {
        proof {
            if rtcp_length_fits(value@) {
                lemma_rtcp_length_bound(value@);
            }
        }
        match rtcp_packet(value) {
            Some(p) => Goodbye::from_packet(p),
            None => Err(CastError::InvalidData("Buffer shorter than the RTCP length field".to_owned())),
        }
    }

    /// Decodes a BYE packet: `report_count` SSRCs after the header, then an
    /// optional reason (a length byte and that many bytes of UTF-8 text).
    fn from_packet(value: &'a [u8]) -> (r: Result<Goodbye<'a>, CastError>)
        ensures
            r is Ok <==> goodbye_layout_ok(value@),
            r matches Ok(g) ==> {
                &&& g.spec_header() == rtcp_header_of(value@)
                &&& g.spec_sources() == sources_of(
                    value@,
                    4,
                    rtcp_header_of(value@).report_count() as int,
                )
                &&& g.spec_reason() == if goodbye_reason_start(value@) < value@.len() {
                    Some(decode_utf8(goodbye_reason_bytes(value@)))
                } else {
                    None::<Seq<char>>
                }
            },
            r is Err && !(rtcp_header_ok(value@) && value@.len() >= goodbye_reason_start(value@)
                && (goodbye_reason_start(value@) < value@.len() ==> goodbye_reason_start(value@) + 1
                + value@[goodbye_reason_start(value@)] <= value@.len())) ==> r->Err_0 is InvalidData,
    {
        if value.len() < RTCP_HEADER_SIZE {
            return Err(CastError::InvalidData("Buffer too short to contain RTCP header".to_owned()));
        }
        let header = match RtcpHeader::try_from(value) {
            Ok(h) => h,
            Err(e) => return Err(e),
        };
        let n = value.len();
        let source_count = header.report_count() as usize;
        let mut offset: usize = RTCP_HEADER_SIZE;
        if n < offset + source_count * 4 {
            return Err(CastError::InvalidData("Buffer too short to contain all sources".to_owned()));
        }
        let mut sources: Vec<u32> = Vec::new();
        let mut i: usize = 0;
        while i < source_count
            invariant
                n == value@.len(),
                4 + 4 * source_count <= n,
                i <= source_count,
                offset == 4 + 4 * i,
                sources@ == sources_of(value@, 4, i as int),
            decreases source_count - i,
        {
            sources.push(read_u32_be(value, offset));
            proof {
                assert(sources@ =~= sources_of(value@, 4, i + 1));
            }
            i = i + 1;
            offset = offset + 4;
        }
        let reason = if offset < n {
            let reason_length = value[offset] as usize;
            if offset + 1 + reason_length > n {
                return Err(CastError::InvalidData("Buffer too short to contain reason".to_owned()));
            }
            match utf8_to_str(slice_subrange(value, offset + 1, offset + 1 + reason_length)) {
                Ok(s) => Some(s),
                Err(e) => return Err(e),
            }
        } else {
            None
        };
        Ok(Goodbye { header, sources, reason })
    }

    pub fn header(&self) -> (r: &RtcpHeader)
        ensures
            r@ == self.spec_header(),
    {
        &self.header
    }

    pub fn sources(&self) -> (r: &[u32])
        ensures
            r@ == self.spec_sources(),
    {
        self.sources.as_slice()
    }

    pub fn reason(&self) -> (r: Option<&'a str>)
        ensures
            match r {
                Some(s) => self.spec_reason() == Some(s@),
                None => self.spec_reason() is None,
            },
    {
        self.reason
    }
}

/// An SDES item as plain values.
pub struct SdesItemView {
    pub item_type: u8,
    pub length: u8,
    pub data: Seq<u8>,
}

/// An SDES chunk as plain values.
pub struct SdesChunkView {
    pub ssrc: u32,
    pub items: Seq<SdesItemView>,
}

/// The SDES items that start at `b[o..]`, up to a zero type byte or the end
/// of `b`, and the offset where they stop; nothing when an item is cut short.
pub open spec fn sdes_items_from(b: Seq<u8>, o: int) -> Option<(Seq<SdesItemView>, int)>
    decreases b.len() - o,
{
    if o < 0 || o >= b.len() || b[o] == 0 {
        Some((Seq::<SdesItemView>::empty(), o))
    } else if o + 2 > b.len() || o + 2 + b[o + 1] > b.len() {
        None
    } else {
        let item = SdesItemView { item_type: b[o], length: b[o + 1], data: b.subrange(o + 2, o + 2 + b[o + 1]) };
        match sdes_items_from(b, o + 2 + b[o + 1]) {
            Some((rest, end)) => Some((seq![item] + rest, end)),
            None => None,
        }
    }
}

/// The offset after the zero byte that ends an item list, when there is one.
pub open spec fn skip_terminator(b: Seq<u8>, o: int) -> int {
    if 0 <= o < b.len() && b[o] == 0 {
        o + 1
    } else {
        o
    }
}

/// `k` SDES chunks (an SSRC and its items) from `b[o..]`, and the offset
/// where they stop; nothing when one is cut short.
pub open spec fn sdes_chunks_from(b: Seq<u8>, o: int, k: nat) -> Option<(Seq<SdesChunkView>, int)>
    decreases k,
{
    if k == 0 {
        Some((Seq::<SdesChunkView>::empty(), o))
    } else if o < 0 || o + 4 > b.len() {
        None
    } else {
        match sdes_items_from(b, o + 4) {
            None => None,
            Some((items, end)) => match sdes_chunks_from(b, skip_terminator(b, end), (k - 1) as nat) {
                None => None,
                Some((rest, e2)) => Some((seq![SdesChunkView { ssrc: be32(b, o) as u32, items }] + rest, e2)),
            },
        }
    }
}

/// Prepends what was already decoded to what a recursive decoder yields.
pub open spec fn prepend<T>(acc: Seq<T>, r: Option<(Seq<T>, int)>) -> Option<(Seq<T>, int)> {
    match r {
        Some((rest, end)) => Some((acc + rest, end)),
        None => None,
    }
}

proof fn lemma_prepend_step<T>(acc: Seq<T>, x: T, r: Option<(Seq<T>, int)>)
    ensures
        prepend(acc, prepend(seq![x], r)) == prepend(acc.push(x), r),
{
    if let Some((rest, end)) = r {
        assert(acc + (seq![x] + rest) =~= acc.push(x) + rest);
    }
}

/// An item of an SDES chunk; its data is borrowed.
#[derive(Debug)]
pub struct SdesItem<'a> {
    item_type: u8,
    length: u8,
    data: &'a [u8],
}

impl<'a> View for SdesItem<'a> {
    type V = SdesItemView;

    closed spec fn view(&self) -> SdesItemView {
        SdesItemView { item_type: self.item_type, length: self.length, data: self.data@ }
    }
}

/// The views of a list of SDES items.
pub open spec fn sdes_item_views<'a>(v: Seq<SdesItem<'a>>) -> Seq<SdesItemView> {
    v.map_values(|x: SdesItem<'a>| x@)
}

/// A chunk of a source description: an SSRC and its items.
#[derive(Debug)]
pub struct SdesChunk<'a> {
    ssrc: u32,
    items: Vec<SdesItem<'a>>,
}

impl<'a> View for SdesChunk<'a> {
    type V = SdesChunkView;

    closed spec fn view(&self) -> SdesChunkView {
        SdesChunkView { ssrc: self.ssrc, items: sdes_item_views(self.items@) }
    }
}

/// The views of a list of SDES chunks.
pub open spec fn sdes_chunk_views<'a>(v: Seq<SdesChunk<'a>>) -> Seq<SdesChunkView> {
    v.map_values(|x: SdesChunk<'a>| x@)
}

/// Decodes the items from `value[start..]` up to a zero byte or the end.
fn read_sdes_items<'a>(value: &'a [u8], start: usize) -> (r: Result<(Vec<SdesItem<'a>>, usize), CastError>)
    requires
        start <= value@.len(),
    ensures
        match r {
            Ok((items, end)) => sdes_items_from(value@, start as int) == Some((sdes_item_views(items@), end as int))
                && start <= end <= value@.len(),
            Err(e) => sdes_items_from(value@, start as int) is None && e is InvalidData,
        },
{
    let n = value.len();
    let mut items: Vec<SdesItem<'a>> = Vec::new();
    let mut offset = start;
    assert(sdes_item_views(items@) =~= Seq::<SdesItemView>::empty());
    while offset < n && value[offset] != 0
        invariant
            n == value@.len(),
            start <= offset <= n,
            sdes_items_from(value@, start as int) == prepend(
                sdes_item_views(items@),
                sdes_items_from(value@, offset as int),
            ),
        decreases n - offset,
    {
        if n - offset < 2 {
            return Err(CastError::InvalidData("Buffer too short to contain SDES item".to_owned()));
        }
        let item_type = value[offset];
        let length = value[offset + 1];
        if n - offset - 2 < length as usize {
            return Err(CastError::InvalidData("Buffer too short to contain SDES item data".to_owned()));
        }
        let data = slice_subrange(value, offset + 2, offset + 2 + length as usize);
        let item = SdesItem { item_type, length, data };
        let ghost prev = items@;
        items.push(item);
        proof {
            lemma_prepend_step(sdes_item_views(prev), item@, sdes_items_from(value@, offset + 2 + length));
            assert(sdes_item_views(items@) =~= sdes_item_views(prev).push(item@));
        }
        offset = offset + 2 + length as usize;
    }
    proof {
        assert(sdes_item_views(items@) + Seq::<SdesItemView>::empty() =~= sdes_item_views(items@));
    }
    Ok((items, offset))
}

/// Whether `b` holds a whole source description: a header and
/// `report_count` chunks.
pub open spec fn source_description_layout_ok(b: Seq<u8>) -> bool {
    rtcp_header_ok(b) && sdes_chunks_from(b, 4, rtcp_header_of(b).report_count() as nat) is Some
}

/// Whether `b` holds a whole source description packet: the header's length field
/// fits the buffer and the declared packet has the layout.
pub open spec fn source_description_ok(b: Seq<u8>) -> bool {
    rtcp_length_fits(b) && source_description_layout_ok(rtcp_packet_of(b))
}

/// An RTCP source description (SDES).
#[derive(Debug)]
pub struct SourceDescription<'a> {
    header: RtcpHeader,
    chunks: Vec<SdesChunk<'a>>,
}

impl<'a> SourceDescription<'a> {
    pub closed spec fn spec_header(&self) -> RtcpHeaderView {
        self.header@
    }

    pub closed spec fn spec_chunks(&self) -> Seq<SdesChunkView> {
        sdes_chunk_views(self.chunks@)
    }

    /// Decodes the packet that the header declares, `4 * (length + 1)`
    /// bytes; fails when the buffer is shorter.
    pub fn try_from(value: &'a [u8]) -> (r: Result<SourceDescription<'a>, CastError>)
        ensures
            r is Ok <==> source_description_ok(value@),
            r matches Ok(sd) ==> 4 * (sd.spec_header().length + 1) <= value@.len(),
            r matches Ok(sd) ==> {
                &&& sd.spec_header() == rtcp_header_of(rtcp_packet_of(value@))
                &&& Some(sd.spec_chunks()) == match sdes_chunks_from(
                    rtcp_packet_of(value@),
                    4,
                    rtcp_header_of(rtcp_packet_of(value@)).report_count() as nat,
                ) {
                    Some((c, _)) => Some(c),
                    None => None::<Seq<SdesChunkView>>,
                }
            },
            r is Err ==> r->Err_0 is InvalidData,
    {
        proof {
            if rtcp_length_fits(value@) {
                lemma_rtcp_length_bound(value@);
            }
        }
        match rtcp_packet(value) {
            Some(p) => SourceDescription::from_packet(p),
            None => Err(CastError::InvalidData("Buffer shorter than the RTCP length field".to_owned())),
        }
    }

    /// Decodes an SDES packet: `report_count` chunks, each an SSRC followed
    /// by items `<type><length><data>` ended by a zero byte.
    fn from_packet(value: &'a [u8]) -> (r: Result<SourceDescription<'a>, CastError>)
        ensures
            r is Ok <==> source_description_layout_ok(value@),
            r matches Ok(sd) ==> {
                &&& sd.spec_header() == rtcp_header_of(value@)
                &&& Some(sd.spec_chunks()) == match sdes_chunks_from(
                    value@,
                    4,
                    rtcp_header_of(value@).report_count() as nat,
                ) {
                    Some((c, _)) => Some(c),
                    None => None::<Seq<SdesChunkView>>,
                }
            },
            r is Err ==> r->Err_0 is InvalidData,
    {
        if value.len() < RTCP_HEADER_SIZE {
            return Err(CastError::InvalidData("Buffer too short to contain RTCP header".to_owned()));
        }
        let header = match RtcpHeader::try_from(value) {
            Ok(h) => h,
            Err(e) => return Err(e),
        };
        let n = value.len();
        let chunk_count = header.report_count() as usize;
        let mut chunks: Vec<SdesChunk<'a>> = Vec::new();
        let mut offset: usize = RTCP_HEADER_SIZE;
        let mut i: usize = 0;
        assert(sdes_chunk_views(chunks@) =~= Seq::<SdesChunkView>::empty());
        while i < chunk_count
            invariant
                n == value@.len(),
                i <= chunk_count,
                chunk_count == header@.report_count(),
                header@ == rtcp_header_of(value@),
                rtcp_header_ok(value@),
                offset <= n,
                sdes_chunks_from(value@, 4, chunk_count as nat) == prepend(
                    sdes_chunk_views(chunks@),
                    sdes_chunks_from(value@, offset as int, (chunk_count - i) as nat),
                ),
            decreases chunk_count - i,
        {
            if n - offset < 4 {
                assert(sdes_chunks_from(value@, offset as int, (chunk_count - i) as nat) is None);
                return Err(CastError::InvalidData("Buffer too short to contain SDES chunk".to_owned()));
            }
            let ssrc = read_u32_be(value, offset);
            let (items, end) = match read_sdes_items(value, offset + 4) {
                Ok(p) => p,
                Err(e) => return Err(e),
            };
            let next = if end < n && value[end] == 0 { end + 1 } else { end };
            let chunk = SdesChunk { ssrc, items };
            let ghost prev = chunks@;
            chunks.push(chunk);
            proof {
                lemma_prepend_step(
                    sdes_chunk_views(prev),
                    chunk@,
                    sdes_chunks_from(value@, next as int, (chunk_count - i - 1) as nat),
                );
                assert(sdes_chunk_views(chunks@) =~= sdes_chunk_views(prev).push(chunk@));
            }
            offset = next;
            i = i + 1;
        }
        Ok(SourceDescription { header, chunks })
    }

    pub fn header(&self) -> (r: &RtcpHeader)
        ensures
            r@ == self.spec_header(),
    {
        &self.header
    }

    pub fn chunks(&self) -> (r: &[SdesChunk<'a>])
        ensures
            sdes_chunk_views(r@) == self.spec_chunks(),
    {
        self.chunks.as_slice()
    }
}

impl<'a> SdesChunk<'a> {
    pub fn ssrc(&self) -> (r: u32)
        ensures
            r == self@.ssrc,
    {
        self.ssrc
    }

    pub fn items(&self) -> (r: &[SdesItem<'a>])
        ensures
            sdes_item_views(r@) == self@.items,
    {
        self.items.as_slice()
    }
}

impl<'a> SdesItem<'a> {
    pub fn item_type(&self) -> (r: u8)
        ensures
            r == self@.item_type,
    {
        self.item_type
    }

    pub fn length(&self) -> (r: u8)
        ensures
            r == self@.length,
    {
        self.length
    }

    pub fn data(&self) -> (r: &'a [u8])
        ensures
            r@ == self@.data,
    {
        self.data
    }
}

/// A decoded RTCP packet of any of the five types.
#[derive(Debug)]
pub enum RtcpPacket<'a> {
    SenderReport(SenderReport),
    ReceiverReport(ReceiverReport),
    SourceDescription(SourceDescription<'a>),
    Goodbye(Goodbye<'a>),
    ApplicationDefined(ApplicationDefined<'a>),
}

} // verus!
