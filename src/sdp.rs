//! Small SDP records: bandwidth, direction, media and transport tokens,
//! ports, attributes and the origin line.

use vstd::prelude::*;
use vstd::string::StringSliceAdditionalSpecFns;
use vstd::utf8::{decode_utf8, valid_utf8};
use crate::bytes::{bytes_equal, separate_trimmed, separate_trimmed_spec};
use crate::error::ParsingError;
use crate::net::{
    address_type_of, ip_text_ok, is_ip_of, network_type_of, parse_ip, AddressType, IpAddress, NetworkType, SPACE,
};
use crate::text::{number_fits, number_value, utf8_to_string, utf8_to_u32};

verus! {

/// `:`.
pub const COLON: [u8; 1] = [58];

/// `inactive`.
pub const INACTIVE: [u8; 8] = [105, 110, 97, 99, 116, 105, 118, 101];

/// `recvonly`.
pub const RECVONLY: [u8; 8] = [114, 101, 99, 118, 111, 110, 108, 121];

/// `sendonly`.
pub const SENDONLY: [u8; 8] = [115, 101, 110, 100, 111, 110, 108, 121];

/// `sendrecv`.
pub const SENDRECV: [u8; 8] = [115, 101, 110, 100, 114, 101, 99, 118];

/// `video`.
pub const VIDEO: [u8; 5] = [118, 105, 100, 101, 111];

/// `audio`.
pub const AUDIO: [u8; 5] = [97, 117, 100, 105, 111];

/// `application`.
pub const APPLICATION: [u8; 11] = [97, 112, 112, 108, 105, 99, 97, 116, 105, 111, 110];

/// `data`.
pub const DATA: [u8; 4] = [100, 97, 116, 97];

/// `control`.
pub const CONTROL: [u8; 7] = [99, 111, 110, 116, 114, 111, 108];

/// `RTP/AVP`.
pub const RTP_AVP: [u8; 7] = [82, 84, 80, 47, 65, 86, 80];

/// `RTP/SAVP`.
pub const RTP_SAVP: [u8; 8] = [82, 84, 80, 47, 83, 65, 86, 80];

/// ASCII bytes read as characters.
pub open spec fn ascii_chars(b: Seq<u8>) -> Seq<char> {
    b.map_values(|x: u8| x as char)
}

/// The `b=` line: a bandwidth modifier and a value in kbps.
#[derive(Debug, Clone, PartialEq, Eq)]
pub struct Bandwidth {
    index: String,
    element: u32,
}

/// The modifier and value texts of `<bwtype>:<bandwidth>`.
pub open spec fn bandwidth_parts(data: Seq<u8>) -> Option<(Seq<u8>, Seq<u8>)> {
    separate_trimmed_spec(data, COLON@, SPACE@)
}

/// Whether a `b=` value decodes.
pub open spec fn bandwidth_ok(data: Seq<u8>) -> bool {
    bandwidth_parts(data) matches Some((i, e)) && valid_utf8(i) && number_fits(e, 0, u32::MAX as int)
}

/// Whether `b` holds what the `b=` value `data` says.
pub open spec fn is_bandwidth_of(b: Bandwidth, data: Seq<u8>) -> bool {
    bandwidth_parts(data) matches Some((i, e)) && b.spec_index() == decode_utf8(i)
        && b.spec_element() == number_value(e)
}

impl Bandwidth {
    pub closed spec fn spec_index(&self) -> Seq<char> {
        self.index@
    }

    pub closed spec fn spec_element(&self) -> u32 {
        self.element
    }

    /// Decodes `<bwtype>:<bandwidth>`; the modifier stays text, the value is a `u32`.
    pub fn parse(data: &[u8]) -> (r: Result<Bandwidth, ParsingError>)
        ensures
            r is Ok <==> bandwidth_ok(data@),
            r matches Ok(b) ==> is_bandwidth_of(b, data@),
    {
        match separate_trimmed(data, COLON.as_slice(), SPACE.as_slice()) {
            Some((first, second)) => {
                let index = match utf8_to_string(first) {
                    Ok(s) => s,
                    Err(e) => return Err(ParsingError::Utf8Error(e)),
                };
                let element = match utf8_to_u32(second) {
                    Ok(v) => v,
                    Err(e) => return Err(ParsingError::Utf8Error(e)),
                };
                Ok(Bandwidth { index, element })
            },
            None => Err(ParsingError::from_bytes(data)),
        }
    }

    pub fn new(index: String, element: u32) -> (r: Bandwidth)
        ensures
            r.spec_index() == index@,
            r.spec_element() == element,
    {
        Bandwidth { index, element }
    }

    pub fn index(&self) -> (r: &str)
        ensures
            r@ == self.spec_index(),
    {
        self.index.as_str()
    }

    pub fn element(&self) -> (r: u32)
        ensures
            r == self.spec_element(),
    {
        self.element
    }
}

/// The direction of a media stream (`a=` line).
#[derive(Debug, Clone, Copy, PartialEq, Eq, Structural)]
pub enum DataTransferMode {
    Inactive,
    Receive,
    Send,
    SendReceive,
}

/// The two-bit code of a direction: bit 0 receive, bit 1 send.
pub open spec fn direction_bits(m: DataTransferMode) -> u8 {
    match m {
        DataTransferMode::Inactive => 0,
        DataTransferMode::Receive => 1,
        DataTransferMode::Send => 2,
        DataTransferMode::SendReceive => 3,
    }
}

/// The direction that a wire token names.
pub open spec fn direction_of(b: Seq<u8>) -> Option<DataTransferMode> {
    if b == INACTIVE@ {
        Some(DataTransferMode::Inactive)
    } else if b == RECVONLY@ {
        Some(DataTransferMode::Receive)
    } else if b == SENDONLY@ {
        Some(DataTransferMode::Send)
    } else if b == SENDRECV@ {
        Some(DataTransferMode::SendReceive)
    } else {
        None
    }
}

impl DataTransferMode {
    /// The direction of a two-bit code; nothing above 3.
    pub fn from_bit(bits: u8) -> (r: Option<DataTransferMode>)
        ensures
            bits < 4 <==> r is Some,
            r matches Some(m) ==> direction_bits(m) == bits,
    {
        match bits {
            0 => Some(DataTransferMode::Inactive),
            1 => Some(DataTransferMode::Receive),
            2 => Some(DataTransferMode::Send),
            3 => Some(DataTransferMode::SendReceive),
            _ => None,
        }
    }

    /// Same as `from_bit`.
    pub fn from_bits(bits: u8) -> (r: Option<DataTransferMode>)
        ensures
            bits < 4 <==> r is Some,
            r matches Some(m) ==> direction_bits(m) == bits,
    {
        DataTransferMode::from_bit(bits)
    }

    /// `inactive`, `recvonly`, `sendonly` or `sendrecv`; any other token is nothing.
    pub fn from_bytes(bytes: &[u8]) -> (r: Option<DataTransferMode>)
        ensures
            r == direction_of(bytes@),
    {
        if bytes_equal(bytes, INACTIVE.as_slice()) {
            Some(DataTransferMode::Inactive)
        } else if bytes_equal(bytes, RECVONLY.as_slice()) {
            Some(DataTransferMode::Receive)
        } else if bytes_equal(bytes, SENDONLY.as_slice()) {
            Some(DataTransferMode::Send)
        } else if bytes_equal(bytes, SENDRECV.as_slice()) {
            Some(DataTransferMode::SendReceive)
        } else {
            None
        }
    }

    /// The two-bit code.
    pub fn as_u8(self) -> (r: u8)
        ensures
            r == direction_bits(self),
    {
        match self {
            DataTransferMode::Inactive => 0,
            DataTransferMode::Receive => 1,
            DataTransferMode::Send => 2,
            DataTransferMode::SendReceive => 3,
        }
    }

    /// Same as `as_u8`.
    pub fn bits(self) -> (r: u8)
        ensures
            r == direction_bits(self),
    {
        self.as_u8()
    }
}

/// The media type of an `m=` line.
#[derive(Debug, Clone, Copy, PartialEq, Eq, Structural)]
pub enum PayloadType {
    Video,
    Audio,
    Application,
    Data,
    Control,
}

/// The wire token of a media type.
pub open spec fn payload_type_token(p: PayloadType) -> Seq<u8> {
    match p {
        PayloadType::Video => VIDEO@,
        PayloadType::Audio => AUDIO@,
        PayloadType::Application => APPLICATION@,
        PayloadType::Data => DATA@,
        PayloadType::Control => CONTROL@,
    }
}

/// The media type that a wire token names.
pub open spec fn payload_type_of(b: Seq<u8>) -> Option<PayloadType> {
    if b == VIDEO@ {
        Some(PayloadType::Video)
    } else if b == AUDIO@ {
        Some(PayloadType::Audio)
    } else if b == APPLICATION@ {
        Some(PayloadType::Application)
    } else if b == DATA@ {
        Some(PayloadType::Data)
    } else if b == CONTROL@ {
        Some(PayloadType::Control)
    } else {
        None
    }
}

impl PayloadType {
    /// The wire token.
    pub fn as_str(&self) -> (r: &'static str)
        ensures
            r@ == ascii_chars(payload_type_token(*self)),
    {
        match self {
            PayloadType::Video => {
                proof {
                    reveal_strlit("video");
                    assert(seq!['v', 'i', 'd', 'e', 'o'] =~= ascii_chars(VIDEO@));
                }
                "video"
            },
            PayloadType::Audio => {
                proof {
                    reveal_strlit("audio");
                    assert(seq!['a', 'u', 'd', 'i', 'o'] =~= ascii_chars(AUDIO@));
                }
                "audio"
            },
            PayloadType::Application => {
                proof {
                    reveal_strlit("application");
                    assert(seq!['a', 'p', 'p', 'l', 'i', 'c', 'a', 't', 'i', 'o', 'n'] =~= ascii_chars(APPLICATION@));
                }
                "application"
            },
            PayloadType::Data => {
                proof {
                    reveal_strlit("data");
                    assert(seq!['d', 'a', 't', 'a'] =~= ascii_chars(DATA@));
                }
                "data"
            },
            PayloadType::Control => {
                proof {
                    reveal_strlit("control");
                    assert(seq!['c', 'o', 'n', 't', 'r', 'o', 'l'] =~= ascii_chars(CONTROL@));
                }
                "control"
            },
        }
    }

    /// The media type of a wire token; `InvalidData` for any other token.
    pub fn from_bytes(bytes: &[u8]) -> (r: Result<PayloadType, ParsingError>)
        ensures
            r is Ok <==> payload_type_of(bytes@) is Some,
            r matches Ok(p) ==> payload_type_of(bytes@) == Some(p),
            r is Err && valid_utf8(bytes@) ==> r->Err_0 is InvalidData,
    {
        if bytes_equal(bytes, VIDEO.as_slice()) {
            Ok(PayloadType::Video)
        } else if bytes_equal(bytes, AUDIO.as_slice()) {
            Ok(PayloadType::Audio)
        } else if bytes_equal(bytes, APPLICATION.as_slice()) {
            Ok(PayloadType::Application)
        } else if bytes_equal(bytes, DATA.as_slice()) {
            Ok(PayloadType::Data)
        } else if bytes_equal(bytes, CONTROL.as_slice()) {
            Ok(PayloadType::Control)
        } else {
            Err(ParsingError::from_bytes(bytes))
        }
    }

    /// `from_bytes` on the UTF-8 bytes of `s`.
    pub fn from_str(s: &str) -> (r: Result<PayloadType, ParsingError>)
        ensures
            r is Ok <==> payload_type_of(s.spec_bytes()) is Some,
            r matches Ok(p) ==> payload_type_of(s.spec_bytes()) == Some(p),
    {
        PayloadType::from_bytes(s.as_bytes())
    }
}

/// The transport protocol of an `m=` line.
#[derive(Debug, Clone, PartialEq, Eq)]
pub enum MediaTransportProtocol {
    RtpAvp,
    RtpSavp,
    Unknown(String),
}

/// A transport protocol as plain values.
pub enum TransportView {
    RtpAvp,
    RtpSavp,
    Unknown(Seq<char>),
}

impl View for MediaTransportProtocol {
    type V = TransportView;

    open spec fn view(&self) -> TransportView {
        match self {
            MediaTransportProtocol::RtpAvp => TransportView::RtpAvp,
            MediaTransportProtocol::RtpSavp => TransportView::RtpSavp,
            MediaTransportProtocol::Unknown(s) => TransportView::Unknown(s@),
        }
    }
}

/// The transport protocol that a token names; any other UTF-8 token is
/// kept as text.
pub open spec fn transport_of(b: Seq<u8>) -> Option<TransportView> {
    if b == RTP_AVP@ {
        Some(TransportView::RtpAvp)
    } else if b == RTP_SAVP@ {
        Some(TransportView::RtpSavp)
    } else if valid_utf8(b) {
        Some(TransportView::Unknown(decode_utf8(b)))
    } else {
        None
    }
}

impl MediaTransportProtocol {
    /// `RTP/AVP`, `RTP/SAVP`, or any other UTF-8 token kept as text.
    pub fn from_bytes(bytes: &[u8]) -> (r: Result<MediaTransportProtocol, ParsingError>)
        ensures
            r is Ok <==> transport_of(bytes@) is Some,
            r matches Ok(t) ==> transport_of(bytes@) == Some(t@),
            r is Err ==> r->Err_0 is Utf8Error,
    {
        if bytes_equal(bytes, RTP_AVP.as_slice()) {
            Ok(MediaTransportProtocol::RtpAvp)
        } else if bytes_equal(bytes, RTP_SAVP.as_slice()) {
            Ok(MediaTransportProtocol::RtpSavp)
        } else {
            match utf8_to_string(bytes) {
                Ok(s) => Ok(MediaTransportProtocol::Unknown(s)),
                Err(e) => Err(ParsingError::Utf8Error(e)),
            }
        }
    }
}

/// An RTP port and its RTCP port.
#[derive(Debug, Clone, Copy, PartialEq, Eq, Structural)]
pub struct SdpPort {
    rtp_port: u16,
    rtcp_port: u16,
}

impl SdpPort {
    pub closed spec fn spec_rtp_port(&self) -> u16 {
        self.rtp_port
    }

    pub closed spec fn spec_rtcp_port(&self) -> u16 {
        self.rtcp_port
    }

    pub fn new(rtp_port: u16, rtcp_port: u16) -> (r: SdpPort)
        ensures
            r.spec_rtp_port() == rtp_port,
            r.spec_rtcp_port() == rtcp_port,
    {
        SdpPort { rtp_port, rtcp_port }
    }

    pub fn rtp_port(&self) -> (r: u16)
        ensures
            r == self.spec_rtp_port(),
    {
        self.rtp_port
    }

    pub fn rtcp_port(&self) -> (r: u16)
        ensures
            r == self.spec_rtcp_port(),
    {
        self.rtcp_port
    }
}

/// An attribute line that is not a direction: a name and an optional value.
#[derive(Debug, Clone, PartialEq, Eq)]
pub struct UnknownMediaAttribute {
    name: String,
    value: Option<String>,
}

impl UnknownMediaAttribute {
    pub closed spec fn spec_name(&self) -> Seq<char> {
        self.name@
    }

    pub closed spec fn spec_value(&self) -> Option<Seq<char>> {
        match &self.value {
            Some(v) => Some(v@),
            None => None,
        }
    }

    pub fn new(name: String, value: Option<String>) -> (r: UnknownMediaAttribute)
        ensures
            r.spec_name() == name@,
            r.spec_value() == match value {
                Some(v) => Some(v@),
                None => None::<Seq<char>>,
            },
    {
        UnknownMediaAttribute { name, value }
    }

    pub fn name(&self) -> (r: &str)
        ensures
            r@ == self.spec_name(),
    {
        self.name.as_str()
    }

    pub fn value(&self) -> (r: Option<&str>)
        ensures
            match r {
                Some(v) => self.spec_value() == Some(v@),
                None => self.spec_value() is None,
            },
    {
        match &self.value {
            Some(v) => Some(v.as_str()),
            None => None,
        }
    }
}

/// The six space-separated texts of an origin line.
pub open spec fn origin_parts(data: Seq<u8>) -> Option<(Seq<u8>, Seq<u8>, Seq<u8>, Seq<u8>, Seq<u8>, Seq<u8>)> {
    match separate_trimmed_spec(data, SPACE@, SPACE@) {
        None => None,
        Some((user, o1)) => match separate_trimmed_spec(o1, SPACE@, SPACE@) {
            None => None,
            Some((id, o2)) => match separate_trimmed_spec(o2, SPACE@, SPACE@) {
                None => None,
                Some((version, o3)) => match separate_trimmed_spec(o3, SPACE@, SPACE@) {
                    None => None,
                    Some((nt, o4)) => match separate_trimmed_spec(o4, SPACE@, SPACE@) {
                        None => None,
                        Some((at, addr)) => Some((user, id, version, nt, at, addr)),
                    },
                },
            },
        },
    }
}

/// Whether an origin line decodes: six fields, known network and address
/// types, an address of that family and UTF-8 user name and session texts.
pub open spec fn origin_ok(data: Seq<u8>) -> bool {
    match origin_parts(data) {
        None => false,
        Some((user, id, version, nt, at, addr)) => {
            &&& network_type_of(nt) is Some
            &&& address_type_of(at) is Some
            &&& ip_text_ok(addr, address_type_of(at).unwrap())
            &&& valid_utf8(user)
            &&& valid_utf8(id)
            &&& valid_utf8(version)
        },
    }
}

/// Whether `o` holds what the origin line `data` says.
pub open spec fn is_origin_of(o: Origin, data: Seq<u8>) -> bool {
    origin_parts(data) matches Some((user, id, version, nt, at, addr)) && {
        &&& o.spec_user_name() == decode_utf8(user)
        &&& o.spec_session_id() == decode_utf8(id)
        &&& o.spec_session_version() == decode_utf8(version)
        &&& network_type_of(nt) == Some(o.spec_network_type())
        &&& address_type_of(at) == Some(o.spec_address_type())
        &&& is_ip_of(o.spec_network_address(), addr, o.spec_address_type())
    }
}

/// The `o=` line: who created the session, its id and version, and from where.
#[derive(Debug, Clone, PartialEq, Eq)]
pub struct Origin {
    user_name: String,
    session_version: String,
    session_id: String,
    network_type: NetworkType,
    address_type: AddressType,
    network_address: IpAddress,
}

impl Origin {
    pub closed spec fn spec_user_name(&self) -> Seq<char> {
        self.user_name@
    }

    pub closed spec fn spec_session_version(&self) -> Seq<char> {
        self.session_version@
    }

    pub closed spec fn spec_session_id(&self) -> Seq<char> {
        self.session_id@
    }

    pub closed spec fn spec_network_type(&self) -> NetworkType {
        self.network_type
    }

    pub closed spec fn spec_address_type(&self) -> AddressType {
        self.address_type
    }

    pub closed spec fn spec_network_address(&self) -> IpAddress {
        self.network_address
    }

    /// Whether this is the origin that a session has before any `o=` line:
    /// empty texts, `IN IP4` and the loopback address.
    pub open spec fn spec_is_default(&self) -> bool {
        &&& self.spec_user_name().len() == 0
        &&& self.spec_session_version().len() == 0
        &&& self.spec_session_id().len() == 0
        &&& self.spec_network_type() == NetworkType::Internet
        &&& self.spec_address_type() == AddressType::Ipv4
        &&& self.spec_network_address() matches IpAddress::V4(o) && o@ == seq![127u8, 0, 0, 1]
    }

    pub fn new(
        user_name: String,
        session_version: String,
        session_id: String,
        address_type: AddressType,
        network_address: IpAddress,
    ) -> (r: Origin)
        ensures
            r.spec_user_name() == user_name@,
            r.spec_session_version() == session_version@,
            r.spec_session_id() == session_id@,
            r.spec_network_type() == NetworkType::Internet,
            r.spec_address_type() == address_type,
            r.spec_network_address() == network_address,
    {
        Origin {
            user_name,
            session_version,
            session_id,
            network_type: NetworkType::Internet,
            address_type,
            network_address,
        }
    }

    /// The origin of a session that has no `o=` line yet.
    pub fn default() -> (r: Origin)
        ensures
            r.spec_is_default(),
    {
        let user_name = String::new();
        let session_version = String::new();
        let session_id = String::new();
        Origin {
            user_name,
            session_version,
            session_id,
            network_type: NetworkType::Internet,
            address_type: AddressType::Ipv4,
            network_address: IpAddress::localhost(),
        }
    }

    /// Whether this is the default origin.
    pub fn is_default(&self) -> (r: bool)
        ensures
            r == self.spec_is_default(),
    {
        if !self.user_name.as_str().is_empty() || !self.session_version.as_str().is_empty()
            || !self.session_id.as_str().is_empty() {
            return false;
        }
        if self.network_type != NetworkType::Internet || self.address_type != AddressType::Ipv4 {
            return false;
        }
        match &self.network_address {
            IpAddress::V4(o) => {
                let r = o[0] == 127 && o[1] == 0 && o[2] == 0 && o[3] == 1;
                proof {
                    if r {
                        assert(o@ =~= seq![127u8, 0, 0, 1]);
                    }
                    if o@ == seq![127u8, 0, 0, 1] {
                        assert(o@[0] == 127 && o@[1] == 0 && o@[2] == 0 && o@[3] == 1);
                    }
                }
                r
            },
            IpAddress::V6(_) => false,
        }
    }

    /// Decodes `<user> <sess-id> <sess-version> <nettype> <addrtype> <address>`.
    pub fn parse(data: &[u8]) -> (r: Result<Origin, ParsingError>)
        ensures
            r is Ok <==> origin_ok(data@),
            r matches Ok(o) ==> is_origin_of(o, data@),
    {
        let sp = SPACE.as_slice();
        let (user_name, other) = match separate_trimmed(data, sp, sp) {
            Some(p) => p,
            None => return Err(ParsingError::from_bytes(data)),
        };
        let (session_id, other) = match separate_trimmed(other, sp, sp) {
            Some(p) => p,
            None => return Err(ParsingError::from_bytes(data)),
        };
        let (session_version, other) = match separate_trimmed(other, sp, sp) {
            Some(p) => p,
            None => return Err(ParsingError::from_bytes(data)),
        };
        let (network_type, other) = match separate_trimmed(other, sp, sp) {
            Some(p) => p,
            None => return Err(ParsingError::from_bytes(data)),
        };
        let (address_type, network_address) = match separate_trimmed(other, sp, sp) {
            Some(p) => p,
            None => return Err(ParsingError::from_bytes(data)),
        };
        let network_type = match NetworkType::from_bytes(network_type) {
            Some(t) => t,
            None => return Err(ParsingError::from_bytes(data)),
        };
        let address_type = match AddressType::from_bytes(address_type) {
            Some(t) => t,
            None => return Err(ParsingError::from_bytes(data)),
        };
        let network_address = match parse_ip(network_address, address_type) {
            Ok(a) => a,
            Err(e) => return Err(e),
        };
        let user_name = match utf8_to_string(user_name) {
            Ok(s) => s,
            Err(e) => return Err(ParsingError::Utf8Error(e)),
        };
        let session_id = match utf8_to_string(session_id) {
            Ok(s) => s,
            Err(e) => return Err(ParsingError::Utf8Error(e)),
        };
        let session_version = match utf8_to_string(session_version) {
            Ok(s) => s,
            Err(e) => return Err(ParsingError::Utf8Error(e)),
        };
        Ok(Origin { user_name, session_version, session_id, network_type, address_type, network_address })
    }

    pub fn user_name(&self) -> (r: &str)
        ensures
            r@ == self.spec_user_name(),
    {
        self.user_name.as_str()
    }

    pub fn session_version(&self) -> (r: &str)
        ensures
            r@ == self.spec_session_version(),
    {
        self.session_version.as_str()
    }

    pub fn session_id(&self) -> (r: &str)
        ensures
            r@ == self.spec_session_id(),
    {
        self.session_id.as_str()
    }

    pub fn network_type(&self) -> (r: &NetworkType)
        ensures
            *r == self.spec_network_type(),
    {
        &self.network_type
    }

    pub fn address_type(&self) -> (r: &AddressType)
        ensures
            *r == self.spec_address_type(),
    {
        &self.address_type
    }

    pub fn network_address(&self) -> (r: IpAddress)
        ensures
            r == self.spec_network_address(),
    {
        self.network_address
    }
}

} // verus!
