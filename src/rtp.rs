//! RTP fixed header with its CSRC list, and RTP packets.

use vstd::prelude::*;
use vstd::slice::slice_subrange;
use crate::error::CastError;
use crate::network_order::{
    be16, be16_bytes, be32, be32_bytes, lemma_be16_round_trip, lemma_be32_round_trip, read_u16_be,
    read_u32_be,
};

verus! {

/// Size of the fixed part of an RTP header.
pub const RTP_HEADER_FIXED_SIZE: usize = 12;

/// The fields of an RTP header as plain values.
pub struct RtpHeaderView {
    pub v_p_x_cc: u8,
    pub marker_payload_type: u8,
    pub sequence_number: u16,
    pub timestamp: u32,
    pub ssrc: u32,
    pub csrc_list: Seq<u8>,
}

impl RtpHeaderView {
    pub open spec fn version(self) -> u8 {
        self.v_p_x_cc / 64
    }

    pub open spec fn padding(self) -> bool {
        (self.v_p_x_cc / 32) % 2 == 1
    }

    pub open spec fn extension(self) -> bool {
        (self.v_p_x_cc / 16) % 2 == 1
    }

    pub open spec fn csrc_count(self) -> u8 {
        self.v_p_x_cc % 16
    }

    pub open spec fn marker(self) -> bool {
        self.marker_payload_type / 128 == 1
    }

    pub open spec fn payload_type(self) -> u8 {
        self.marker_payload_type % 128
    }

    /// `12 + 4 * csrc_count`.
    pub open spec fn byte_size(self) -> int {
        12 + 4 * self.csrc_count()
    }

    /// The CSRC region holds exactly `4 * csrc_count` bytes.
    pub open spec fn wf(self) -> bool {
        self.csrc_list.len() == 4 * self.csrc_count()
    }

    /// The header's wire form.
    pub open spec fn encode(self) -> Seq<u8> {
        seq![self.v_p_x_cc, self.marker_payload_type] + be16_bytes(self.sequence_number)
            + be32_bytes(self.timestamp) + be32_bytes(self.ssrc) + self.csrc_list
    }
}

/// Whether `b` is long enough to hold the RTP header that it starts with.
pub open spec fn rtp_header_fits(b: Seq<u8>) -> bool {
    b.len() >= 12 && b.len() >= 12 + 4 * (b[0] % 16)
}

/// The RTP header that `b` starts with.
pub open spec fn rtp_header_of(b: Seq<u8>) -> RtpHeaderView {
    RtpHeaderView {
        v_p_x_cc: b[0],
        marker_payload_type: b[1],
        sequence_number: be16(b, 2) as u16,
        timestamp: be32(b, 4) as u32,
        ssrc: be32(b, 8) as u32,
        csrc_list: b.subrange(12, 12 + 4 * (b[0] % 16)),
    }
}

/// An RTP header; the CSRC list is borrowed from the decoded buffer.
#[derive(Debug)]
pub struct RtpHeader<'a> {
    v_p_x_cc: u8,
    marker_payload_type: u8,
    sequence_number: u16,
    timestamp: u32,
    ssrc: u32,
    csrc_list: &'a [u8],
}

impl<'a> View for RtpHeader<'a> {
    type V = RtpHeaderView;

    closed spec fn view(&self) -> RtpHeaderView {
        RtpHeaderView {
            v_p_x_cc: self.v_p_x_cc,
            marker_payload_type: self.marker_payload_type,
            sequence_number: self.sequence_number,
            timestamp: self.timestamp,
            ssrc: self.ssrc,
            csrc_list: self.csrc_list@,
        }
    }
}

impl<'a> RtpHeader<'a> {
    /// Decodes the fixed 12 bytes and the `4 * csrc_count` bytes of CSRC list
    /// that follow; fails when the buffer is shorter.
    pub fn try_from(value: &'a [u8]) -> (r: Result<RtpHeader<'a>, CastError>)
        ensures
            r is Ok <==> rtp_header_fits(value@),
            r matches Ok(h) ==> h@ == rtp_header_of(value@) && h@.wf(),
            r is Err ==> r->Err_0 is InvalidData,
    {
        let len = value.len();
        if len < RTP_HEADER_FIXED_SIZE {
            return Err(CastError::InvalidData("Buffer too short to contain RTP header".to_owned()));
        }
        let v_p_x_cc = value[0];
        let csrc_count = value[0] % 16;
        let marker_payload_type = value[1];
        let sequence_number = read_u16_be(value, 2);
        let timestamp = read_u32_be(value, 4);
        let ssrc = read_u32_be(value, 8);
        let csrc_list_end = RTP_HEADER_FIXED_SIZE + (csrc_count as usize) * 4;
        if len < csrc_list_end {
            return Err(CastError::InvalidData("Buffer too short to contain RTP header".to_owned()));
        }
        let csrc_list = slice_subrange(value, RTP_HEADER_FIXED_SIZE, csrc_list_end);
        Ok(RtpHeader { v_p_x_cc, marker_payload_type, sequence_number, timestamp, ssrc, csrc_list })
    }

    /// A header from its fields; each bit field must fit its width and the
    /// CSRC list must hold `4 * csrc_count` bytes.
    pub fn new(
        version: u8,
        padding: bool,
        extension: bool,
        csrc_count: u8,
        marker: bool,
        payload_type: u8,
        sequence_number: u16,
        timestamp: u32,
        ssrc: u32,
        csrc_list: &'a [u8],
    ) -> (r: RtpHeader<'a>)
        requires
            version < 4,
            csrc_count < 16,
            payload_type < 128,
            csrc_list@.len() == 4 * csrc_count,
        ensures
            r@.version() == version,
            r@.padding() == padding,
            r@.extension() == extension,
            r@.csrc_count() == csrc_count,
            r@.marker() == marker,
            r@.payload_type() == payload_type,
            r@.sequence_number == sequence_number,
            r@.timestamp == timestamp,
            r@.ssrc == ssrc,
            r@.csrc_list == csrc_list@,
            r@.wf(),
    {
        let p: u8 = if padding { 32 } else { 0 };
        let x: u8 = if extension { 16 } else { 0 };
        let m: u8 = if marker { 128 } else { 0 };
        RtpHeader {
            v_p_x_cc: version * 64 + p + x + csrc_count,
            marker_payload_type: m + payload_type,
            sequence_number,
            timestamp,
            ssrc,
            csrc_list,
        }
    }

    /// Writes the header's wire form at the start of `buffer` and returns
    /// the number of bytes written; the rest of `buffer` is left as it was.
    pub fn write(&self, buffer: &mut [u8]) -> (r: usize)
        requires
            old(buffer)@.len() >= 12 + self@.csrc_list.len(),
        ensures
            r == 12 + self@.csrc_list.len(),
            final(buffer)@.len() == old(buffer)@.len(),
            final(buffer)@.subrange(0, r as int) == self@.encode(),
            final(buffer)@.subrange(r as int, final(buffer)@.len() as int)
                == old(buffer)@.subrange(r as int, old(buffer)@.len() as int),
    {
        let ghost old_buf = buffer@;
        let n = self.csrc_list.len();
        let blen = buffer.len();
        buffer[0] = self.v_p_x_cc;
        buffer[1] = self.marker_payload_type;
        buffer[2] = (self.sequence_number / 256) as u8;
        buffer[3] = (self.sequence_number % 256) as u8;
        buffer[4] = (self.timestamp / 16777216) as u8;
        buffer[5] = ((self.timestamp / 65536) % 256) as u8;
        buffer[6] = ((self.timestamp / 256) % 256) as u8;
        buffer[7] = (self.timestamp % 256) as u8;
        buffer[8] = (self.ssrc / 16777216) as u8;
        buffer[9] = ((self.ssrc / 65536) % 256) as u8;
        buffer[10] = ((self.ssrc / 256) % 256) as u8;
        buffer[11] = (self.ssrc % 256) as u8;
        let mut i: usize = 0;
        while i < n
            invariant
                n == self.csrc_list@.len(),
                buffer@.len() == old_buf.len(),
                blen == old_buf.len(),
                old_buf.len() >= 12 + n,
                i <= n,
                buffer@.subrange(0, 12) == self@.encode().subrange(0, 12),
                forall|k: int| 0 <= k < i ==> buffer@[12 + k] == self.csrc_list@[k],
                forall|k: int| 12 + n <= k < old_buf.len() ==> buffer@[k] == old_buf[k],
            decreases n - i,
        {
            buffer[12 + i] = self.csrc_list[i];
            proof {
                assert(buffer@.subrange(0, 12) =~= self@.encode().subrange(0, 12));
            }
            i = i + 1;
        }
        proof {
            let e = self@.encode();
            assert(buffer@.subrange(0, 12 + n as int) =~= e) by {
                assert forall|k: int| 0 <= k < 12 + n implies buffer@[k] == e[k] by {
                    if k < 12 {
                        assert(buffer@.subrange(0, 12)[k] == e.subrange(0, 12)[k]);
                    }
                }
            }
            assert(buffer@.subrange(12 + n as int, buffer@.len() as int)
                =~= old_buf.subrange(12 + n as int, old_buf.len() as int));
        }
        RTP_HEADER_FIXED_SIZE + n
    }

    pub fn version(&self) -> (r: u8)
        ensures
            r == self@.version(),
    {
        self.v_p_x_cc / 64
    }

    pub fn padding(&self) -> (r: bool)
        ensures
            r == self@.padding(),
    {
        (self.v_p_x_cc / 32) % 2 == 1
    }

    pub fn extension(&self) -> (r: bool)
        ensures
            r == self@.extension(),
    {
        (self.v_p_x_cc / 16) % 2 == 1
    }

    pub fn csrc_count(&self) -> (r: u8)
        ensures
            r == self@.csrc_count(),
    {
        self.v_p_x_cc % 16
    }

    pub fn marker(&self) -> (r: bool)
        ensures
            r == self@.marker(),
    {
        self.marker_payload_type / 128 == 1
    }

    pub fn payload_type(&self) -> (r: u8)
        ensures
            r == self@.payload_type(),
    {
        self.marker_payload_type % 128
    }

    pub fn sequence_number(&self) -> (r: u16)
        ensures
            r == self@.sequence_number,
    {
        self.sequence_number
    }

    pub fn timestamp(&self) -> (r: u32)
        ensures
            r == self@.timestamp,
    {
        self.timestamp
    }

    pub fn ssrc(&self) -> (r: u32)
        ensures
            r == self@.ssrc,
    {
        self.ssrc
    }

    pub fn csrc_list(&self) -> (r: &'a [u8])
        ensures
            r@ == self@.csrc_list,
    {
        self.csrc_list
    }

    /// `12 + 4 * csrc_count`.
    pub fn byte_size(&self) -> (r: usize)
        ensures
            r == self@.byte_size(),
    {
        RTP_HEADER_FIXED_SIZE + (self.csrc_count() as usize) * 4
    }
}

/// The payload that follows the RTP header at the start of `b`.
pub open spec fn rtp_payload_of(b: Seq<u8>) -> Seq<u8> {
    b.subrange(rtp_header_of(b).byte_size(), b.len() as int)
}

/// An RTP packet: a header and the payload that follows it, both borrowed.
#[derive(Debug)]
pub struct RtpPacket<'a> {
    header: RtpHeader<'a>,
    payload: &'a [u8],
}

impl<'a> RtpPacket<'a> {
    /// The header of the packet.
    pub closed spec fn header_view(&self) -> RtpHeaderView {
        self.header@
    }

    /// The payload of the packet.
    pub closed spec fn payload_view(&self) -> Seq<u8> {
        self.payload@
    }

    /// Decodes the header, then takes the rest of the buffer as the payload.
    pub fn try_from(value: &'a [u8]) -> (r: Result<RtpPacket<'a>, CastError>)
        ensures
            r is Ok <==> rtp_header_fits(value@),
            r matches Ok(p) ==> p.header_view() == rtp_header_of(value@) && p.header_view().wf()
                && p.payload_view() == rtp_payload_of(value@),
            r is Err ==> r->Err_0 is InvalidData,
    {
        if value.len() < RTP_HEADER_FIXED_SIZE {
            return Err(CastError::InvalidData("Buffer too short to contain RTP header".to_owned()));
        }
        let header = match RtpHeader::try_from(value) {
            Ok(h) => h,
            Err(e) => return Err(e),
        };
        let payload_start = header.byte_size();
        let payload = slice_subrange(value, payload_start, value.len());
        Ok(RtpPacket { header, payload })
    }

    pub fn new(header: RtpHeader<'a>, payload: &'a [u8]) -> (r: RtpPacket<'a>)
        requires
            header@.wf(),
        ensures
            r.header_view() == header@,
            r.payload_view() == payload@,
    {
        RtpPacket { header, payload }
    }

    /// Writes the header and then the payload at the start of `buffer` and
    /// returns the number of bytes written.
    pub fn write(&self, buffer: &mut [u8]) -> (r: usize)
        requires
            self.header_view().wf(),
            old(buffer)@.len() >= self.header_view().byte_size() + self.payload_view().len(),
        ensures
            r == self.header_view().byte_size() + self.payload_view().len(),
            final(buffer)@.len() == old(buffer)@.len(),
            final(buffer)@.subrange(0, r as int) == self.header_view().encode() + self.payload_view(),
            final(buffer)@.subrange(r as int, final(buffer)@.len() as int)
                == old(buffer)@.subrange(r as int, old(buffer)@.len() as int),
    {
        let ghost old_buf = buffer@;
        let h = self.header.write(buffer);
        let ghost mid = buffer@;
        let n = self.payload.len();
        let blen = buffer.len();
        proof {
            assert forall|k: int| h + n <= k < old_buf.len() implies buffer@[k] == old_buf[k] by {
                assert(buffer@.subrange(h as int, blen as int)[k - h] == old_buf.subrange(
                    h as int,
                    blen as int,
                )[k - h]);
            }
        }
        let mut i: usize = 0;
        while i < n
            invariant
                n == self.payload@.len(),
                buffer@.len() == old_buf.len(),
                blen == old_buf.len(),
                old_buf.len() >= h + n,
                h == self.header@.encode().len(),
                i <= n,
                buffer@.subrange(0, h as int) == self.header@.encode(),
                forall|k: int| 0 <= k < i ==> buffer@[h + k] == self.payload@[k],
                forall|k: int| h + n <= k < old_buf.len() ==> buffer@[k] == old_buf[k],
            decreases n - i,
        {
            buffer[h + i] = self.payload[i];
            proof {
                assert(buffer@.subrange(0, h as int) =~= self.header@.encode());
            }
            i = i + 1;
        }
        proof {
            let e = self.header@.encode() + self.payload@;
            assert(buffer@.subrange(0, h + n as int) =~= e) by {
                assert forall|k: int| 0 <= k < h + n implies buffer@[k] == e[k] by {
                    if k < h {
                        assert(buffer@.subrange(0, h as int)[k] == self.header@.encode()[k]);
                    }
                }
            }
            assert(buffer@.subrange(h + n as int, buffer@.len() as int)
                =~= old_buf.subrange(h + n as int, old_buf.len() as int));
        }
        h + n
    }

    pub fn header(&self) -> (r: &RtpHeader<'a>)
        ensures
            r@ == self.header_view(),
    {
        &self.header
    }

    pub fn payload(&self) -> (r: &'a [u8])
        ensures
            r@ == self.payload_view(),
    {
        self.payload
    }

    /// The header's size plus the payload's length.
    pub fn byte_size(&self) -> (r: usize)
        requires
            self.header_view().byte_size() + self.payload_view().len() <= usize::MAX,
        ensures
            r == self.header_view().byte_size() + self.payload_view().len(),
    {
        self.header.byte_size() + self.payload.len()
    }
}

/// Decoding the wire form of a well-formed RTP header, whatever follows it,
/// gives back the same header.
pub proof fn lemma_rtp_header_round_trip(h: RtpHeaderView, rest: Seq<u8>)
    requires
        h.wf(),
    ensures
        rtp_header_fits(h.encode() + rest),
        rtp_header_of(h.encode() + rest) == h,
{
    let b = h.encode() + rest;
    let n = h.csrc_list.len();
    assert(b.len() == 12 + n + rest.len());
    assert(b[0] == h.v_p_x_cc);
    assert(b[1] == h.marker_payload_type);
    assert(b.subrange(2, 4) =~= be16_bytes(h.sequence_number));
    assert(b.subrange(4, 8) =~= be32_bytes(h.timestamp));
    assert(b.subrange(8, 12) =~= be32_bytes(h.ssrc));
    lemma_be16_round_trip(h.sequence_number, b, 2);
    lemma_be32_round_trip(h.timestamp, b, 4);
    lemma_be32_round_trip(h.ssrc, b, 8);
    assert(b.subrange(12, 12 + 4 * (b[0] % 16)) =~= h.csrc_list);
    assert(rtp_header_of(b) =~= h);
}

/// Decoding the wire form of an RTP packet gives back its header and payload.
pub proof fn lemma_rtp_packet_round_trip(h: RtpHeaderView, payload: Seq<u8>)
    requires
        h.wf(),
    ensures
        rtp_header_fits(h.encode() + payload),
        rtp_header_of(h.encode() + payload) == h,
        rtp_payload_of(h.encode() + payload) == payload,
{
    lemma_rtp_header_round_trip(h, payload);
    let e = h.encode();
    let b = e + payload;
    assert(e.len() == h.byte_size());
    assert(rtp_header_of(b).byte_size() == e.len());
    assert(b.subrange(e.len() as int, b.len() as int) =~= payload);
}

} // verus!
