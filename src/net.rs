//! Network and address types, IP address text, and SDP connection
//! addresses with their multicast fan-out.

use vstd::prelude::*;
use vstd::string::StringSliceAdditionalSpecFns;
use vstd::utf8::valid_utf8;
use crate::bytes::{
    find, first_occurrence_from, lemma_separate_byte_shrinks, separate_byte_spec, separate_trimmed,
    separate_trimmed_spec, separate_value,
};
use crate::error::ParsingError;
use crate::text::{digits_value, is_digit, number_fits, number_value, utf8_to_u8};

verus! {

/// `IN`.
pub const IN_TOKEN: [u8; 2] = [73, 78];

/// `IP4`.
pub const IP4_TOKEN: [u8; 3] = [73, 80, 52];

/// `IP6`.
pub const IP6_TOKEN: [u8; 3] = [73, 80, 54];

/// ` `.
pub const SPACE: [u8; 1] = [32];

/// `/`.
pub const SLASH: [u8; 1] = [47];

/// The network type of a connection or origin line.
#[derive(Debug, Clone, Copy, PartialEq, Eq, Structural)]
pub enum NetworkType {
    Internet,
}

/// The network type that a wire token names.
pub open spec fn network_type_of(b: Seq<u8>) -> Option<NetworkType> {
    if b == IN_TOKEN@ {
        Some(NetworkType::Internet)
    } else {
        None
    }
}

impl NetworkType {
    pub fn default() -> (r: NetworkType)
        ensures
            r == NetworkType::Internet,
    {
        NetworkType::Internet
    }

    /// `IN` is `Internet`; any other token is nothing.
    pub fn from_bytes(value: &[u8]) -> (r: Option<NetworkType>)
        ensures
            r == network_type_of(value@),
    {
        if crate::bytes::bytes_equal(value, IN_TOKEN.as_slice()) {
            Some(NetworkType::Internet)
        } else {
            None
        }
    }

    /// `from_bytes` on the UTF-8 bytes of `value`.
    pub fn from_str(value: &str) -> (r: Option<NetworkType>)
        ensures
            r == network_type_of(value.spec_bytes()),
    {
        NetworkType::from_bytes(value.as_bytes())
    }

    /// The wire token.
    pub fn as_str(&self) -> (r: &'static str)
        ensures
            r@ == seq!['I', 'N'],
    {
        proof {
            reveal_strlit("IN");
        }
        "IN"
    }
}

/// The address family of a connection or origin line.
#[derive(Debug, Clone, Copy, PartialEq, Eq, Structural)]
pub enum AddressType {
    Ipv4,
    Ipv6,
}

/// The address type that a wire token names.
pub open spec fn address_type_of(b: Seq<u8>) -> Option<AddressType> {
    if b == IP4_TOKEN@ {
        Some(AddressType::Ipv4)
    } else if b == IP6_TOKEN@ {
        Some(AddressType::Ipv6)
    } else {
        None
    }
}

impl AddressType {
    pub fn default() -> (r: AddressType)
        ensures
            r == AddressType::Ipv4,
    {
        AddressType::Ipv4
    }

    /// `IP4` and `IP6`; any other token is nothing.
    pub fn from_bytes(value: &[u8]) -> (r: Option<AddressType>)
        ensures
            r == address_type_of(value@),
    {
        if crate::bytes::bytes_equal(value, IP4_TOKEN.as_slice()) {
            Some(AddressType::Ipv4)
        } else if crate::bytes::bytes_equal(value, IP6_TOKEN.as_slice()) {
            Some(AddressType::Ipv6)
        } else {
            None
        }
    }

    /// `from_bytes` on the UTF-8 bytes of `value`.
    pub fn from_str(value: &str) -> (r: Option<AddressType>)
        ensures
            r == address_type_of(value.spec_bytes()),
    {
        AddressType::from_bytes(value.as_bytes())
    }

    /// The wire token.
    pub fn as_str(&self) -> (r: &'static str)
        ensures
            *self == AddressType::Ipv4 ==> r@ == seq!['I', 'P', '4'],
            *self == AddressType::Ipv6 ==> r@ == seq!['I', 'P', '6'],
    {
        match self {
            AddressType::Ipv4 => {
                proof {
                    reveal_strlit("IP4");
                }
                "IP4"
            },
            AddressType::Ipv6 => {
                proof {
                    reveal_strlit("IP6");
                }
                "IP6"
            },
        }
    }
}

/// An IP address: four octets, or eight 16-bit segments.
#[derive(Debug, Clone, Copy, PartialEq, Eq)]
pub enum IpAddress {
    V4([u8; 4]),
    V6([u16; 8]),
}

/// The components of an address, most significant first.
pub open spec fn ip_components(a: IpAddress) -> Seq<int> {
    match a {
        IpAddress::V4(o) => o@.map_values(|x: u8| x as int),
        IpAddress::V6(g) => g@.map_values(|x: u16| x as int),
    }
}

impl IpAddress {
    /// The IPv4 loopback address, `127.0.0.1`.
    pub fn localhost() -> (r: IpAddress)
        ensures
            r matches IpAddress::V4(o) && o@ == seq![127u8, 0, 0, 1],
    {
        let o: [u8; 4] = [127, 0, 0, 1];
        assert(o@ =~= seq![127u8, 0, 0, 1]);
        IpAddress::V4(o)
    }
}

/// A decimal octet: one to three digits, no leading zero, at most 255.
pub open spec fn decimal_octet(t: Seq<u8>) -> Option<u8> {
    if 1 <= t.len() <= 3 && (forall|i: int| 0 <= i < t.len() ==> is_digit(#[trigger] t[i])) && (t.len()
        == 1 || t[0] != 48) && digits_value(t) <= 255 {
        Some(digits_value(t) as u8)
    } else {
        None
    }
}

/// The four octets of a dotted-quad IPv4 address text.
pub open spec fn ipv4_of(s: Seq<u8>) -> Option<Seq<u8>> {
    match separate_byte_spec(s, 46) {
        Some((a, r1)) => match separate_byte_spec(r1, 46) {
            Some((b, r2)) => match separate_byte_spec(r2, 46) {
                Some((c, d)) => match (decimal_octet(a), decimal_octet(b), decimal_octet(c), decimal_octet(d)) {
                    (Some(x0), Some(x1), Some(x2), Some(x3)) => Some(seq![x0, x1, x2, x3]),
                    _ => None,
                },
                None => None,
            },
            None => None,
        },
        None => None,
    }
}

/// The value of an ASCII hexadecimal digit.
pub open spec fn hex_digit(b: u8) -> Option<nat> {
    if 48 <= b <= 57 {
        Some((b - 48) as nat)
    } else if 97 <= b <= 102 {
        Some((b - 87) as nat)
    } else if 65 <= b <= 70 {
        Some((b - 55) as nat)
    } else {
        None
    }
}

/// The value of a string of hexadecimal digits.
pub open spec fn hex_value(t: Seq<u8>) -> nat
    decreases t.len(),
{
    if t.len() == 0 {
        0
    } else {
        hex_value(t.drop_last()) * 16 + hex_digit(t.last()).unwrap_or(0)
    }
}

/// An IPv6 group: one to four hexadecimal digits.
pub open spec fn hex_group(t: Seq<u8>) -> Option<u16> {
    if 1 <= t.len() <= 4 && forall|i: int| 0 <= i < t.len() ==> (#[trigger] hex_digit(t[i])) is Some {
        Some(hex_value(t) as u16)
    } else {
        None
    }
}

/// The last item of a group list: a hexadecimal group or, at the end of an
/// address (`tail`), a dotted-quad IPv4 address that stands for two groups.
pub open spec fn last_group(t: Seq<u8>, tail: bool) -> Option<Seq<u16>> {
    match hex_group(t) {
        Some(v) => Some(seq![v]),
        None => if tail {
            match ipv4_of(t) {
                Some(o) => Some(seq![(o[0] * 256 + o[1]) as u16, (o[2] * 256 + o[3]) as u16]),
                None => None,
            }
        } else {
            None
        },
    }
}

/// The groups of a non-empty `:`-separated list of hexadecimal groups; at
/// the end of an address the last item may be a dotted quad.
pub open spec fn colon_groups(s: Seq<u8>, tail: bool) -> Option<Seq<u16>>
    decreases s.len(),
{
    match separate_byte_spec(s, 58) {
        Some((g, rest)) => if rest.len() < s.len() {
            match (hex_group(g), colon_groups(rest, tail)) {
                (Some(v), Some(vs)) => Some(seq![v] + vs),
                _ => None,
            }
        } else {
            None
        },
        None => last_group(s, tail),
    }
}

/// The groups of a possibly empty `:`-separated list of hexadecimal groups.
pub open spec fn colon_groups_or_empty(s: Seq<u8>, tail: bool) -> Option<Seq<u16>> {
    if s.len() == 0 {
        Some(Seq::<u16>::empty())
    } else {
        colon_groups(s, tail)
    }
}

/// The eight segments of an IPv6 address text: eight groups, or groups
/// around one `::` that stands for at least one zero group; the last two
/// groups may be written as a dotted-quad IPv4 address.
pub open spec fn ipv6_of(s: Seq<u8>) -> Option<Seq<u16>> {
    match first_occurrence_from(s, seq![58u8, 58u8], 0) {
        None => match colon_groups(s, true) {
            Some(g) => if g.len() == 8 {
                Some(g)
            } else {
                None
            },
            None => None,
        },
        Some(i) => match (
            colon_groups_or_empty(s.subrange(0, i), false),
            colon_groups_or_empty(s.subrange(i + 2, s.len() as int), true),
        ) {
            (Some(h), Some(t)) => if h.len() + t.len() <= 7 {
                Some(h + Seq::new((8 - h.len() - t.len()) as nat, |k: int| 0u16) + t)
            } else {
                None
            },
            _ => None,
        },
    }
}

/// The address that `s` writes in the family `ty`.
pub open spec fn ip_text_ok(s: Seq<u8>, ty: AddressType) -> bool {
    match ty {
        AddressType::Ipv4 => ipv4_of(s) is Some,
        AddressType::Ipv6 => ipv6_of(s) is Some,
    }
}

/// Whether `a` is the address that `s` writes in the family `ty`.
pub open spec fn is_ip_of(a: IpAddress, s: Seq<u8>, ty: AddressType) -> bool {
    match ty {
        AddressType::Ipv4 => a matches IpAddress::V4(o) && ipv4_of(s) == Some(o@),
        AddressType::Ipv6 => a matches IpAddress::V6(g) && ipv6_of(s) == Some(g@),
    }
}

fn parse_decimal_octet(t: &[u8]) -> (r: Option<u8>)
    ensures
        r == decimal_octet(t@),
{
    let n = t.len();
    if n < 1 || n > 3 {
        return None;
    }
    if n > 1 && t[0] == 48 {
        return None;
    }
    if t[0] == 45 {
        assert(!is_digit(t@[0]));
        return None;
    }
    match utf8_to_u8(t) {
        Ok(v) => Some(v),
        Err(_) => {
            proof {
                if (forall|i: int| 0 <= i < t@.len() ==> is_digit(#[trigger] t@[i])) {
                    assert(t@[0] != 45);
                    assert(!number_fits(t@, 0, 255));
                }
            }
            None
        },
    }
}

fn parse_ipv4(s: &[u8]) -> (r: Option<[u8; 4]>)
    ensures
        match r {
            Some(o) => ipv4_of(s@) == Some(o@),
            None => ipv4_of(s@) is None,
        },
{
    let (a, r1) = match separate_value(s, 46) {
        Some(p) => p,
        None => return None,
    };
    let (b, r2) = match separate_value(r1, 46) {
        Some(p) => p,
        None => return None,
    };
    let (c, d) = match separate_value(r2, 46) {
        Some(p) => p,
        None => return None,
    };
    let x0 = match parse_decimal_octet(a) {
        Some(x) => x,
        None => return None,
    };
    let x1 = match parse_decimal_octet(b) {
        Some(x) => x,
        None => return None,
    };
    let x2 = match parse_decimal_octet(c) {
        Some(x) => x,
        None => return None,
    };
    let x3 = match parse_decimal_octet(d) {
        Some(x) => x,
        None => return None,
    };
    let o: [u8; 4] = [x0, x1, x2, x3];
    assert(o@ =~= seq![x0, x1, x2, x3]);
    Some(o)
}

fn parse_hex_group(t: &[u8]) -> (r: Option<u16>)
    ensures
        r == hex_group(t@),
{
    let n = t.len();
    if n < 1 || n > 4 {
        return None;
    }
    let mut v: u16 = 0;
    let mut i: usize = 0;
    assert(t@.subrange(0, 0) =~= Seq::<u8>::empty());
    while i < n
        invariant
            n == t@.len(),
            1 <= n <= 4,
            i <= n,
            forall|k: int| 0 <= k < i ==> (#[trigger] hex_digit(t@[k])) is Some,
            v == hex_value(t@.subrange(0, i as int)),
            v < pow16(i as nat),
        decreases n - i,
    {
        let b = t[i];
        let d: u16 = if 48 <= b && b <= 57 {
            (b - 48) as u16
        } else if 97 <= b && b <= 102 {
            (b - 87) as u16
        } else if 65 <= b && b <= 70 {
            (b - 55) as u16
        } else {
            return None;
        };
        assert(t@.subrange(0, i + 1).drop_last() =~= t@.subrange(0, i as int));
        assert(v * 16 + d < pow16((i + 1) as nat)) by (nonlinear_arith)
            requires
                v < pow16(i as nat),
                d < 16,
                pow16((i + 1) as nat) == pow16(i as nat) * 16,
        ;
        proof {
            lemma_pow16_bound(i as nat);
        }
        v = v * 16 + d;
        i = i + 1;
    }
    assert(t@.subrange(0, n as int) =~= t@);
    Some(v)
}

/// `16^k`.
pub open spec fn pow16(k: nat) -> nat
    decreases k,
{
    if k == 0 {
        1
    } else {
        pow16((k - 1) as nat) * 16
    }
}

proof fn lemma_pow16_bound(k: nat)
    requires
        k < 4,
    ensures
        pow16(k + 1) <= 65536,
        pow16(k + 1) == pow16(k) * 16,
{
    reveal_with_fuel(pow16, 5);
}

fn parse_colon_groups(s: &[u8], tail: bool) -> (r: Option<Vec<u16>>)
    ensures
        match r {
            Some(g) => colon_groups(s@, tail) == Some(g@),
            None => colon_groups(s@, tail) is None,
        },
{
    let mut acc: Vec<u16> = Vec::new();
    let mut cur: &[u8] = s;
    loop
        invariant
            colon_groups(s@, tail) == match colon_groups(cur@, tail) {
                Some(vs) => Some(acc@ + vs),
                None => None::<Seq<u16>>,
            },
        decreases cur@.len(),
    {
        match separate_value(cur, 58) {
            Some((g, rest)) => {
                proof {
                    lemma_separate_byte_shrinks(cur@, 58);
                }
                let v = match parse_hex_group(g) {
                    Some(v) => v,
                    None => return None,
                };
                let ghost prev = acc@;
                acc.push(v);
                proof {
                    match colon_groups(rest@, tail) {
                        Some(vs) => {
                            assert(prev + (seq![v] + vs) =~= acc@ + vs);
                        },
                        None => {},
                    }
                }
                cur = rest;
            },
            None => {
                match parse_hex_group(cur) {
                    Some(v) => {
                        acc.push(v);
                    },
                    None => {
                        if !tail {
                            return None;
                        }
                        let o = match parse_ipv4(cur) {
                            Some(o) => o,
                            None => return None,
                        };
                        let ghost prev = acc@;
                        acc.push((o[0] as u16) * 256 + o[1] as u16);
                        acc.push((o[2] as u16) * 256 + o[3] as u16);
                        proof {
                            assert(acc@ =~= prev + seq![
                                (o@[0] * 256 + o@[1]) as u16,
                                (o@[2] * 256 + o@[3]) as u16,
                            ]);
                        }
                    },
                }
                return Some(acc);
            },
        }
    }
}

fn parse_colon_groups_or_empty(s: &[u8], tail: bool) -> (r: Option<Vec<u16>>)
    ensures
        match r {
            Some(g) => colon_groups_or_empty(s@, tail) == Some(g@),
            None => colon_groups_or_empty(s@, tail) is None,
        },
{
    if s.len() == 0 {
        let v: Vec<u16> = Vec::new();
        assert(v@ =~= Seq::<u16>::empty());
        Some(v)
    } else {
        parse_colon_groups(s, tail)
    }
}

fn parse_ipv6(s: &[u8]) -> (r: Option<[u16; 8]>)
    ensures
        match r {
            Some(g) => ipv6_of(s@) == Some(g@),
            None => ipv6_of(s@) is None,
        },
{
    let n = s.len();
    let dc: [u8; 2] = [58, 58];
    assert(dc@ =~= seq![58u8, 58u8]);
    let groups: Vec<u16> = match find(s, dc.as_slice()) {
        None => {
            let g = match parse_colon_groups(s, true) {
                Some(g) => g,
                None => return None,
            };
            if g.len() != 8 {
                return None;
            }
            g
        },
        Some(i) => {
            proof {
                crate::bytes::lemma_first_occurrence_bounds(s@, seq![58u8, 58u8], 0);
            }
            let h = match parse_colon_groups_or_empty(vstd::slice::slice_subrange(s, 0, i), false) {
                Some(h) => h,
                None => return None,
            };
            let t = match parse_colon_groups_or_empty(vstd::slice::slice_subrange(s, i + 2, n), true) {
                Some(t) => t,
                None => return None,
            };
            if h.len() > 7 || t.len() > 7 - h.len() {
                return None;
            }
            let zeros = 8 - h.len() - t.len();
            let mut g = h;
            let ghost hv = g@;
            let mut k: usize = 0;
            while k < zeros
                invariant
                    k <= zeros,
                    g@ == hv + Seq::new(k as nat, |j: int| 0u16),
                decreases zeros - k,
            {
                g.push(0);
                proof {
                    assert(g@ =~= hv + Seq::new((k + 1) as nat, |j: int| 0u16));
                }
                k = k + 1;
            }
            let ghost mid = g@;
            let mut j: usize = 0;
            while j < t.len()
                invariant
                    j <= t@.len(),
                    g@ == mid + t@.subrange(0, j as int),
                decreases t@.len() - j,
            {
                g.push(t[j]);
                proof {
                    assert(g@ =~= mid + t@.subrange(0, j + 1));
                }
                j = j + 1;
            }
            assert(t@.subrange(0, t@.len() as int) =~= t@);
            g
        },
    };
    assert(groups@.len() == 8);
    let a: [u16; 8] = [
        groups[0],
        groups[1],
        groups[2],
        groups[3],
        groups[4],
        groups[5],
        groups[6],
        groups[7],
    ];
    assert(a@ =~= groups@);
    Some(a)
}

/// Parses `data` as an address of the family `ty`: a `Utf8Error` when it
/// is not UTF-8, `InvalidData` when it is no address of that family.
pub fn parse_ip(data: &[u8], ty: AddressType) -> (r: Result<IpAddress, ParsingError>)
    ensures
        r is Ok <==> ip_text_ok(data@, ty),
        r matches Ok(a) ==> is_ip_of(a, data@, ty),
        r is Err && !valid_utf8(data@) ==> r->Err_0 is Utf8Error,
        r is Err && valid_utf8(data@) ==> r->Err_0 is InvalidData,
{
    let parsed = match ty {
        AddressType::Ipv4 => match parse_ipv4(data) {
            Some(o) => Some(IpAddress::V4(o)),
            None => None,
        },
        AddressType::Ipv6 => match parse_ipv6(data) {
            Some(g) => Some(IpAddress::V6(g)),
            None => None,
        },
    };
    match parsed {
        Some(a) => Ok(a),
        None => Err(ParsingError::from_bytes(data)),
    }
}

/// The index of the lowest-order component of an address.
pub open spec fn last_index(a: IpAddress) -> int {
    match a {
        IpAddress::V4(_) => 3,
        IpAddress::V6(_) => 7,
    }
}

/// The largest value of one component of an address.
pub open spec fn component_max(a: IpAddress) -> int {
    match a {
        IpAddress::V4(_) => 255,
        IpAddress::V6(_) => 65535,
    }
}

/// `a` is `base` with `k` added to its lowest-order component, which stays
/// in range.
pub open spec fn is_step(a: IpAddress, base: IpAddress, k: int) -> bool {
    let c = ip_components(base);
    let i = last_index(base);
    &&& a is V4 <==> base is V4
    &&& c[i] + k <= component_max(base)
    &&& ip_components(a) == c.update(i, c[i] + k)
}

/// Adds `digit` to the lowest-order component: the fourth octet of an IPv4
/// address, the eighth segment of an IPv6 address; nothing on overflow.
pub fn add_digit(a: &IpAddress, digit: u8) -> (r: Option<IpAddress>)
    ensures
        r is Some <==> ip_components(*a)[last_index(*a)] + digit <= component_max(*a),
        r matches Some(b) ==> is_step(b, *a, digit as int),
{
    match a {
        IpAddress::V4(o) => {
            if o[3] as u16 + digit as u16 > 255 {
                return None;
            }
            let n: [u8; 4] = [o[0], o[1], o[2], o[3] + digit];
            proof {
                assert(ip_components(IpAddress::V4(n)) =~= ip_components(*a).update(3, o[3] + digit));
            }
            Some(IpAddress::V4(n))
        },
        IpAddress::V6(g) => {
            if g[7] as u32 + digit as u32 > 65535 {
                return None;
            }
            let n: [u16; 8] = [g[0], g[1], g[2], g[3], g[4], g[5], g[6], g[7] + digit as u16];
            proof {
                assert(ip_components(IpAddress::V6(n)) =~= ip_components(*a).update(7, g[7] + digit));
            }
            Some(IpAddress::V6(n))
        },
    }
}

/// The parts of a connection line `<nettype> <addrtype> <addr>[/ttl[/count]]`:
/// network type, address type, address text, ttl text and count text.
pub open spec fn connection_parts(data: Seq<u8>) -> Option<(NetworkType, AddressType, Seq<u8>, Option<Seq<u8>>, Option<Seq<u8>>)> {
    match separate_trimmed_spec(data, SPACE@, SPACE@) {
        None => None,
        Some((nt, o1)) => match network_type_of(nt) {
            None => None,
            Some(net) => match separate_trimmed_spec(o1, SPACE@, SPACE@) {
                None => None,
                Some((at, o2)) => match address_type_of(at) {
                    None => None,
                    Some(ty) => match separate_trimmed_spec(o2, SLASH@, SPACE@) {
                        None => Some((net, ty, o2, None, None)),
                        Some((addr, o3)) => match separate_trimmed_spec(o3, SLASH@, SPACE@) {
                            None => Some((net, ty, addr, Some(o3), None)),
                            Some((ttl, cnt)) => Some((net, ty, addr, Some(ttl), Some(cnt))),
                        },
                    },
                },
            },
        },
    }
}

/// The number of addresses that a count text asks for: `max(1, count)`.
pub open spec fn address_count(cnt: Option<Seq<u8>>) -> int {
    match cnt {
        Some(c) => if number_value(c) > 1 {
            number_value(c)
        } else {
            1
        },
        None => 1,
    }
}

/// Whether a connection line decodes: its parts are there, ttl and count
/// are `u8` numbers, the address is one of its family, and the fan-out
/// does not overflow the address's lowest-order component.
pub open spec fn connection_ok(data: Seq<u8>) -> bool {
    match connection_parts(data) {
        None => false,
        Some((net, ty, addr, ttl, cnt)) => {
            &&& (ttl matches Some(t) ==> number_fits(t, 0, 255))
            &&& (cnt matches Some(c) ==> number_fits(c, 0, 255))
            &&& ip_text_ok(addr, ty)
            &&& exists|a: IpAddress| #[trigger] is_ip_of(a, addr, ty) && ip_components(a)[last_index(a)] + address_count(cnt) - 1 <= component_max(a)
        },
    }
}

proof fn lemma_ip_of_unique(a: IpAddress, b: IpAddress, s: Seq<u8>, ty: AddressType)
    requires
        is_ip_of(a, s, ty),
        is_ip_of(b, s, ty),
    ensures
        ip_components(a) == ip_components(b),
        last_index(a) == last_index(b),
        component_max(a) == component_max(b),
{
}

proof fn lemma_step_compose(c: IpAddress, b: IpAddress, a: IpAddress, k: int)
    requires
        is_step(b, a, k),
        is_step(c, b, 1),
    ensures
        is_step(c, a, k + 1),
{
    let ca = ip_components(a);
    let i = last_index(a);
    assert(ip_components(c) =~= ca.update(i, ca[i] + k + 1));
}

/// Whether `c` holds what the connection line `data` says: its network
/// and address types, its ttl, and `max(1, count)` addresses that start at
/// the written address and step by one in the lowest-order component.
pub open spec fn is_connection_of(c: ConnectionAddresses, data: Seq<u8>) -> bool {
    connection_parts(data) matches Some((net, ty, addr, ttl, cnt)) && {
        &&& c.spec_net_type() == net
        &&& c.spec_addr_type() == ty
        &&& c.spec_ttl() == match ttl {
            Some(t) => Some(number_value(t) as u8),
            None => None::<u8>,
        }
        &&& c.spec_addresses().len() == address_count(cnt)
        &&& is_ip_of(c.spec_addresses()[0], addr, ty)
        &&& forall|i: int| 0 <= i < c.spec_addresses().len() ==> is_step(
            #[trigger] c.spec_addresses()[i],
            c.spec_addresses()[0],
            i,
        )
    }
}

/// Each address of a fan-out is the one before it with its lowest-order
/// component one higher.
pub proof fn lemma_fan_out_steps(s: Seq<IpAddress>)
    requires
        s.len() > 0,
        forall|i: int| 0 <= i < s.len() ==> is_step(#[trigger] s[i], s[0], i),
    ensures
        forall|i: int| 0 <= i < s.len() - 1 ==> is_step(#[trigger] s[i + 1], s[i], 1),
{
    assert forall|i: int| 0 <= i < s.len() - 1 implies is_step(#[trigger] s[i + 1], s[i], 1) by {
        assert(is_step(s[i], s[0], i));
        assert(is_step(s[i + 1], s[0], i + 1));
        let c = ip_components(s[0]);
        let k = last_index(s[0]);
        assert(ip_components(s[i + 1]) =~= ip_components(s[i]).update(k, ip_components(s[i])[k] + 1));
    }
}

/// The addresses of a connection line: a base address and, for a multicast
/// count, the addresses that follow it.
#[derive(Debug, Clone, PartialEq, Eq)]
pub struct ConnectionAddresses {
    net_type: NetworkType,
    addr_type: AddressType,
    addresses: Vec<IpAddress>,
    ttl: Option<u8>,
}

impl ConnectionAddresses {
    pub closed spec fn spec_net_type(&self) -> NetworkType {
        self.net_type
    }

    pub closed spec fn spec_addr_type(&self) -> AddressType {
        self.addr_type
    }

    pub closed spec fn spec_addresses(&self) -> Seq<IpAddress> {
        self.addresses@
    }

    pub closed spec fn spec_ttl(&self) -> Option<u8> {
        self.ttl
    }

    /// Decodes `<nettype> <addrtype> <addr>[/ttl[/count]]`; the addresses are
    /// `addr, addr+1, ..., addr+count-1` in the lowest-order component.
    pub fn parse(data: &[u8]) -> (r: Result<ConnectionAddresses, ParsingError>)
        ensures
            r is Ok <==> connection_ok(data@),
            r matches Ok(c) ==> is_connection_of(c, data@),
            r is Err && valid_utf8(data@) && (connection_parts(data@) matches Some((net, ty, addr, ttl, cnt)) && (ttl matches Some(
                t,
            ) ==> number_fits(t, 0, 255)) && (cnt matches Some(c) ==> number_fits(c, 0, 255)) && ip_text_ok(addr, ty))
                ==> r->Err_0 is InvalidData,
    {
        let sp = SPACE.as_slice();
        let sl = SLASH.as_slice();
        let (net_text, other) = match separate_trimmed(data, sp, sp) {
            Some(p) => p,
            None => return Err(ParsingError::from_bytes(data)),
        };
        let net_type = match NetworkType::from_bytes(net_text) {
            Some(t) => t,
            None => return Err(ParsingError::from_bytes(net_text)),
        };
        let (addr_text, other) = match separate_trimmed(other, sp, sp) {
            Some(p) => p,
            None => return Err(ParsingError::from_bytes(data)),
        };
        let addr_type = match AddressType::from_bytes(addr_text) {
            Some(t) => t,
            None => return Err(ParsingError::from_bytes(addr_text)),
        };
        let mut ttl: Option<u8> = None;
        let mut count: u8 = 1;
        let base = match separate_trimmed(other, sl, sp) {
            Some((addr_slice, rest)) => {
                match separate_trimmed(rest, sl, sp) {
                    Some((ttl_slice, count_slice)) => {
                        ttl = match utf8_to_u8(ttl_slice) {
                            Ok(v) => Some(v),
                            Err(e) => return Err(ParsingError::Utf8Error(e)),
                        };
                        count = match utf8_to_u8(count_slice) {
                            Ok(v) => v,
                            Err(e) => return Err(ParsingError::Utf8Error(e)),
                        };
                    },
                    None => {
                        ttl = match utf8_to_u8(rest) {
                            Ok(v) => Some(v),
                            Err(e) => return Err(ParsingError::Utf8Error(e)),
                        };
                    },
                }
                match parse_ip(addr_slice, addr_type) {
                    Ok(a) => a,
                    Err(e) => return Err(e),
                }
            },
            None => match parse_ip(other, addr_type) {
                Ok(a) => a,
                Err(e) => return Err(e),
            },
        };
        let ghost parts = connection_parts(data@);
        assert(is_ip_of(base, parts->Some_0.2, addr_type));
        let total: u8 = if count > 1 { count } else { 1 };
        let mut addresses: Vec<IpAddress> = Vec::new();
        addresses.push(base);
        let mut current = base;
        let mut i: u8 = 1;
        proof {
            assert(ip_components(base) =~= ip_components(base).update(
                last_index(base),
                ip_components(base)[last_index(base)] + 0,
            ));
        }
        assert(total as int == address_count(parts->Some_0.4));
        while i < total
            invariant
                parts == connection_parts(data@),
                parts is Some,
                parts->Some_0.1 == addr_type,
                is_ip_of(base, parts->Some_0.2, addr_type),
                total as int == address_count(parts->Some_0.4),
                1 <= i <= total,
                addresses@.len() == i,
                addresses@[0] == base,
                current == addresses@[i - 1],
                forall|k: int| 0 <= k < i ==> is_step(#[trigger] addresses@[k], base, k),
            decreases total - i,
        {
            current = match add_digit(&current, 1) {
                Some(a) => a,
                None => {
                    proof {
                        assert(is_step(addresses@[i - 1], base, i - 1));
                        assert forall|a: IpAddress| #[trigger] is_ip_of(a, parts->Some_0.2, addr_type) implies !(
                        ip_components(a)[last_index(a)] + total - 1 <= component_max(a)) by {
                            lemma_ip_of_unique(a, base, parts->Some_0.2, addr_type);
                        }
                    }
                    return Err(ParsingError::from_bytes(data));
                },
            };
            proof {
                lemma_step_compose(current, addresses@[i - 1], base, i - 1);
            }
            addresses.push(current);
            i = i + 1;
        }
        Ok(ConnectionAddresses { net_type, addr_type, addresses, ttl })
    }

    /// A connection on the Internet network type.
    pub fn new(addr_type: AddressType, addresses: Vec<IpAddress>, ttl: Option<u8>) -> (r: ConnectionAddresses)
        ensures
            r.spec_net_type() == NetworkType::Internet,
            r.spec_addr_type() == addr_type,
            r.spec_addresses() == addresses@,
            r.spec_ttl() == ttl,
    {
        ConnectionAddresses { net_type: NetworkType::Internet, addr_type, addresses, ttl }
    }

    pub fn net_type(&self) -> (r: &NetworkType)
        ensures
            *r == self.spec_net_type(),
    {
        &self.net_type
    }

    pub fn addr_type(&self) -> (r: &AddressType)
        ensures
            *r == self.spec_addr_type(),
    {
        &self.addr_type
    }

    pub fn addresses(&self) -> (r: &[IpAddress])
        ensures
            r@ == self.spec_addresses(),
    {
        self.addresses.as_slice()
    }

    pub fn ttl(&self) -> (r: Option<u8>)
        ensures
            r == self.spec_ttl(),
    {
        self.ttl
    }
}

} // verus!
