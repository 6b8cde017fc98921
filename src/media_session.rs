//! The SDP session driver: a line-oriented state machine over a session
//! description, from its session-level lines to its media sections.

use vstd::prelude::*;
use vstd::utf8::{decode_utf8, valid_utf8};
use crate::bytes::{
    lemma_while_separate_trimmed_shrinks, separate, separate_spec, separate_trimmed, separate_trimmed_spec, tokens_of,
    trim, trim_spec, while_separate_trimmed, while_separate_trimmed_spec,
};
use crate::codec::{NEW_LINE, TRIM_NEW_LINE};
use crate::error::ParsingError;
use crate::media_description::{is_media_description_of, media_description_ok, MediaDescription};
use crate::net::{connection_ok, is_connection_of, ConnectionAddresses, IpAddress, SPACE};
use crate::sdp::{
    bandwidth_ok, direction_of, is_bandwidth_of, is_origin_of, origin_ok, Bandwidth, DataTransferMode, Origin,
    UnknownMediaAttribute,
};
use crate::text::{number_fits, number_value, utf8_to_i32, utf8_to_string};
use crate::timing::{is_timing_of, timing_of, Timing};

verus! {

/// `=`.
pub const EQUAL: [u8; 1] = [61];

/// `m=`, the start of the first media section.
pub const MEDIA_KEY: [u8; 2] = [109, 61];

/// LF `m=`, the start of each further media section.
pub const MEDIA_SEPARATOR: [u8; 3] = [10, 109, 61];

#[verifier::external_type_specification]
#[verifier::external_body]
pub struct ExUri(http::Uri);

/// Whether the `http` crate accepts `b` as a URI.
pub uninterp spec fn uri_accepts(b: Seq<u8>) -> bool;

/// Relies on `http::Uri::try_from(&[u8])`: a URI when the bytes are one
/// that the crate accepts, an error otherwise.
#[verifier::external_body]
fn parse_uri(b: &[u8]) -> (r: Option<http::Uri>)
    ensures
        r is Some <==> uri_accepts(b@),
{
    http::Uri::try_from(b).ok()
}

/// The key and value of a `<key>=<value>` line, both trimmed of spaces.
pub open spec fn line_key_value(line: Seq<u8>) -> Option<(Seq<u8>, Seq<u8>)> {
    separate_trimmed_spec(line, EQUAL@, SPACE@)
}

/// Whether `key` is the single byte `b`.
pub open spec fn is_single(key: Seq<u8>, b: u8) -> bool {
    key.len() == 1 && key[0] == b
}

/// Whether `line` is a `<k>=<value>` line.
pub open spec fn key_is(line: Seq<u8>, k: u8) -> bool {
    line_key_value(line) matches Some((key, _)) && is_single(key, k)
}

/// The value of a `<key>=<value>` line.
pub open spec fn value_of(line: Seq<u8>) -> Seq<u8> {
    line_key_value(line).unwrap().1
}

/// The text of the media sections: all that follows the first `m=`.
pub open spec fn media_text(text: Seq<u8>) -> Option<Seq<u8>> {
    match separate_spec(text, MEDIA_KEY@) {
        Some((_, after)) => Some(after),
        None => None,
    }
}

/// The session-level lines of `text`, in order, up to the first `m=` line,
/// and what follows the first `m=` when there is an `m=` line (`None` when
/// there is none, `Some(None)` when its `m=` cannot be found).
pub open spec fn session_scan(text: Seq<u8>) -> (Seq<Seq<u8>>, Option<Option<Seq<u8>>>)
    decreases text.len(),
{
    match while_separate_trimmed_spec(text, NEW_LINE@, TRIM_NEW_LINE@) {
        None => (Seq::<Seq<u8>>::empty(), None),
        Some((line, rest)) => if key_is(line, 109) {
            (Seq::<Seq<u8>>::empty(), Some(media_text(text)))
        } else if rest.len() < text.len() {
            let (ls, m) = session_scan(rest);
            (seq![line] + ls, m)
        } else {
            (seq![line], None)
        },
    }
}

/// Whether an attribute value decodes: `<name> <value>` with both UTF-8, a
/// direction token, or a UTF-8 name alone.
pub open spec fn attribute_ok(v: Seq<u8>) -> bool {
    match separate_trimmed_spec(v, SPACE@, SPACE@) {
        Some((k, w)) => valid_utf8(k) && valid_utf8(w),
        None => direction_of(v) is Some || valid_utf8(v),
    }
}

/// Whether a session-level line decodes: its value suits its key; lines
/// without `=` and unknown keys are skipped.
pub open spec fn line_ok(line: Seq<u8>) -> bool {
    match line_key_value(line) {
        None => true,
        Some((k, v)) => if is_single(k, 118) {
            number_fits(v, i32::MIN as int, i32::MAX as int)
        } else if is_single(k, 111) {
            origin_ok(v)
        } else if is_single(k, 115) || is_single(k, 105) || is_single(k, 101) || is_single(k, 112) {
            valid_utf8(v)
        } else if is_single(k, 117) {
            uri_accepts(v)
        } else if is_single(k, 99) {
            connection_ok(v)
        } else if is_single(k, 98) {
            bandwidth_ok(v)
        } else if is_single(k, 116) {
            timing_of(v) is Some
        } else if is_single(k, 97) {
            attribute_ok(v)
        } else {
            true
        },
    }
}

/// The value of the last line with key `k`.
pub open spec fn last_value(lines: Seq<Seq<u8>>, k: u8) -> Option<Seq<u8>>
    decreases lines.len(),
{
    if lines.len() == 0 {
        None
    } else if key_is(lines.last(), k) {
        Some(value_of(lines.last()))
    } else {
        last_value(lines.drop_last(), k)
    }
}

/// The text of the last value with key `k`, decoded.
pub open spec fn last_text(lines: Seq<Seq<u8>>, k: u8) -> Option<Seq<char>> {
    match last_value(lines, k) {
        Some(v) => Some(decode_utf8(v)),
        None => None,
    }
}

/// The unknown attributes (name and optional value) that an attribute
/// value adds: none for a bare direction token.
pub open spec fn attribute_entry(v: Seq<u8>) -> Seq<(Seq<char>, Option<Seq<char>>)> {
    match separate_trimmed_spec(v, SPACE@, SPACE@) {
        Some((k, w)) => seq![(decode_utf8(k), Some(decode_utf8(w)))],
        None => if direction_of(v) is Some {
            Seq::empty()
        } else {
            seq![(decode_utf8(v), None::<Seq<char>>)]
        },
    }
}

/// The unknown attributes of the `a=` lines, in order.
pub open spec fn attributes_of(lines: Seq<Seq<u8>>) -> Seq<(Seq<char>, Option<Seq<char>>)>
    decreases lines.len(),
{
    if lines.len() == 0 {
        Seq::empty()
    } else if key_is(lines.last(), 97) {
        attributes_of(lines.drop_last()) + attribute_entry(value_of(lines.last()))
    } else {
        attributes_of(lines.drop_last())
    }
}

/// The direction of the last `a=` line that is a bare direction token.
pub open spec fn direction_of_lines(lines: Seq<Seq<u8>>) -> Option<DataTransferMode>
    decreases lines.len(),
{
    if lines.len() == 0 {
        None
    } else if key_is(lines.last(), 97) && separate_trimmed_spec(value_of(lines.last()), SPACE@, SPACE@) is None
        && direction_of(value_of(lines.last())) is Some {
        direction_of(value_of(lines.last()))
    } else {
        direction_of_lines(lines.drop_last())
    }
}

/// The media sections of the text after the first `m=`.
pub open spec fn media_chunks(after: Seq<u8>) -> Seq<Seq<u8>> {
    tokens_of(after, MEDIA_SEPARATOR@, TRIM_NEW_LINE@)
}

/// The session-level lines of a session description.
pub open spec fn session_lines(data: Seq<u8>) -> Seq<Seq<u8>> {
    session_scan(trim_spec(data, TRIM_NEW_LINE@)).0
}

/// Whether the origin line `t` holds a session's default origin.
pub open spec fn origin_text_is_default(t: Seq<u8>) -> bool {
    exists|o: Origin| is_origin_of(o, t) && o.spec_is_default()
}

/// Whether a session description decodes: every session-level line
/// decodes, there is an `m=` line and each media section decodes, and the
/// session is valid (a non-default origin, a non-empty name, at least one
/// media section).
pub open spec fn session_ok(data: Seq<u8>) -> bool {
    let (lines, media) = session_scan(trim_spec(data, TRIM_NEW_LINE@));
    &&& forall|i: int| 0 <= i < lines.len() ==> line_ok(#[trigger] lines[i])
    &&& media matches Some(Some(after)) && media_chunks(after).len() > 0 && forall|j: int|
        0 <= j < media_chunks(after).len() ==> media_description_ok(#[trigger] media_chunks(after)[j])
    &&& last_value(lines, 111) matches Some(o) && !origin_text_is_default(o)
    &&& last_value(lines, 115) matches Some(s) && s.len() > 0
}

/// A session description.
#[derive(Debug, Clone, PartialEq, Eq)]
pub struct MediaSession {
    protocol_version: i32,
    originator_of_session: Origin,
    session_name: String,
    media_title: Option<String>,
    uri_of_description: Option<http::Uri>,
    email_address: Option<String>,
    phone_number: Option<String>,
    network_address: IpAddress,
    connection_addresses: Option<ConnectionAddresses>,
    encryption_key: Option<String>,
    bandwidth: Option<Bandwidth>,
    timing: Option<Timing>,
    media_descriptions: Vec<MediaDescription>,
    media_attributes: Vec<UnknownMediaAttribute>,
    data_transfer_mode: Option<DataTransferMode>,
}

/// The text of an optional string.
pub open spec fn opt_text(s: Option<String>) -> Option<Seq<char>> {
    match s {
        Some(t) => Some(t@),
        None => None,
    }
}

/// The name and value texts of attributes.
pub open spec fn attribute_views(v: Seq<UnknownMediaAttribute>) -> Seq<(Seq<char>, Option<Seq<char>>)> {
    v.map_values(|a: UnknownMediaAttribute| (a.spec_name(), a.spec_value()))
}

impl MediaSession {
    pub closed spec fn spec_protocol_version(&self) -> i32 {
        self.protocol_version
    }

    pub closed spec fn spec_originator(&self) -> Origin {
        self.originator_of_session
    }

    pub closed spec fn spec_session_name(&self) -> Seq<char> {
        self.session_name@
    }

    pub closed spec fn spec_media_title(&self) -> Option<Seq<char>> {
        opt_text(self.media_title)
    }

    pub closed spec fn spec_has_uri(&self) -> bool {
        self.uri_of_description is Some
    }

    pub closed spec fn spec_email_address(&self) -> Option<Seq<char>> {
        opt_text(self.email_address)
    }

    pub closed spec fn spec_phone_number(&self) -> Option<Seq<char>> {
        opt_text(self.phone_number)
    }

    pub closed spec fn spec_network_address(&self) -> IpAddress {
        self.network_address
    }

    pub closed spec fn spec_connection(&self) -> Option<ConnectionAddresses> {
        self.connection_addresses
    }

    pub closed spec fn spec_encryption_key(&self) -> Option<Seq<char>> {
        opt_text(self.encryption_key)
    }

    pub closed spec fn spec_bandwidth(&self) -> Option<Bandwidth> {
        self.bandwidth
    }

    pub closed spec fn spec_timing(&self) -> Option<Timing> {
        self.timing
    }

    pub closed spec fn spec_media_descriptions(&self) -> Seq<MediaDescription> {
        self.media_descriptions@
    }

    pub closed spec fn spec_media_attributes(&self) -> Seq<(Seq<char>, Option<Seq<char>>)> {
        attribute_views(self.media_attributes@)
    }

    pub closed spec fn spec_data_transfer_mode(&self) -> Option<DataTransferMode> {
        self.data_transfer_mode
    }

    /// A session is valid when it has a non-default origin, a non-empty
    /// name and at least one media description.
    pub open spec fn spec_is_valid(&self) -> bool {
        !self.spec_originator().spec_is_default() && self.spec_session_name().len() > 0
            && self.spec_media_descriptions().len() > 0
    }
}

/// Whether `ms` holds what the session description `data` says: each field
/// from the last line of its key before the first `m=` line, the unknown
/// attributes in order, and one media description per media section.
pub open spec fn is_session_of(ms: MediaSession, data: Seq<u8>) -> bool {
    let (lines, media) = session_scan(trim_spec(data, TRIM_NEW_LINE@));
    &&& ms.spec_protocol_version() == match last_value(lines, 118) {
        Some(v) => number_value(v),
        None => 0,
    }
    &&& last_value(lines, 111) matches Some(o) && is_origin_of(ms.spec_originator(), o)
    &&& last_text(lines, 115) == Some(ms.spec_session_name())
    &&& ms.spec_media_title() == last_text(lines, 105)
    &&& ms.spec_has_uri() == (last_value(lines, 117) is Some)
    &&& ms.spec_email_address() == last_text(lines, 101)
    &&& ms.spec_phone_number() == last_text(lines, 112)
    &&& match last_value(lines, 99) {
        Some(c) => ms.spec_connection() matches Some(ca) && is_connection_of(ca, c),
        None => ms.spec_connection() is None,
    }
    &&& match last_value(lines, 98) {
        Some(b) => ms.spec_bandwidth() matches Some(bw) && is_bandwidth_of(bw, b),
        None => ms.spec_bandwidth() is None,
    }
    &&& match last_value(lines, 116) {
        Some(t) => ms.spec_timing() matches Some(tm) && is_timing_of(tm, t),
        None => ms.spec_timing() is None,
    }
    &&& ms.spec_encryption_key() is None
    &&& ms.spec_network_address() matches IpAddress::V4(a) && a@ == seq![127u8, 0, 0, 1]
    &&& ms.spec_media_attributes() == attributes_of(lines)
    &&& ms.spec_data_transfer_mode() == direction_of_lines(lines)
    &&& media matches Some(Some(after)) && ms.spec_media_descriptions().len() == media_chunks(after).len()
        && forall|j: int| 0 <= j < media_chunks(after).len() ==> is_media_description_of(
        #[trigger] ms.spec_media_descriptions()[j],
        media_chunks(after)[j],
    )
    &&& ms.spec_is_valid()
}

proof fn lemma_lines_push(seen: Seq<Seq<u8>>, line: Seq<u8>)
    ensures
        forall|k: u8| #[trigger] last_value(seen.push(line), k) == if key_is(line, k) {
            Some(value_of(line))
        } else {
            last_value(seen, k)
        },
        attributes_of(seen.push(line)) == if key_is(line, 97) {
            attributes_of(seen) + attribute_entry(value_of(line))
        } else {
            attributes_of(seen)
        },
        direction_of_lines(seen.push(line)) == if key_is(line, 97) && separate_trimmed_spec(
            value_of(line),
            SPACE@,
            SPACE@,
        ) is None && direction_of(value_of(line)) is Some {
            direction_of(value_of(line))
        } else {
            direction_of_lines(seen)
        },
{
    assert(seen.push(line).drop_last() =~= seen);
    assert(seen.push(line).last() == line);
}

proof fn lemma_origin_default_determined(a: Origin, b: Origin, t: Seq<u8>)
    requires
        is_origin_of(a, t),
        is_origin_of(b, t),
    ensures
        a.spec_is_default() == b.spec_is_default(),
{
}

proof fn lemma_decode_nonempty(b: Seq<u8>)
    requires
        valid_utf8(b),
    ensures
        decode_utf8(b).len() == 0 <==> b.len() == 0,
{
}

/// Whether the key of a line is the single byte `k`.
fn is_key(key: &[u8], k: u8) -> (r: bool)
    ensures
        r == is_single(key@, k),
{
    key.len() == 1 && key[0] == k
}

/// Decodes each media section of the text after the first `m=`.
fn parse_media_descriptions(after: &[u8]) -> (r: Result<Vec<MediaDescription>, ParsingError>)
    ensures
        r is Ok <==> forall|j: int| 0 <= j < media_chunks(after@).len() ==> media_description_ok(
            #[trigger] media_chunks(after@)[j],
        ),
        r matches Ok(v) ==> v@.len() == media_chunks(after@).len() && forall|j: int|
            0 <= j < media_chunks(after@).len() ==> is_media_description_of(#[trigger] v@[j], media_chunks(after@)[j]),
{
    let ghost chunks = media_chunks(after@);
    let mut mds: Vec<MediaDescription> = Vec::new();
    let mut cur: &[u8] = after;
    assert(chunks.subrange(0, 0) + tokens_of(cur@, MEDIA_SEPARATOR@, TRIM_NEW_LINE@) =~= chunks);
    loop
        invariant
            chunks == media_chunks(after@),
            chunks == chunks.subrange(0, mds@.len() as int) + tokens_of(cur@, MEDIA_SEPARATOR@, TRIM_NEW_LINE@),
            mds@.len() <= chunks.len(),
            forall|j: int| 0 <= j < mds@.len() ==> is_media_description_of(#[trigger] mds@[j], chunks[j]),
            forall|j: int| 0 <= j < mds@.len() ==> media_description_ok(#[trigger] chunks[j]),
        ensures
            mds@.len() == chunks.len(),
            forall|j: int| 0 <= j < mds@.len() ==> is_media_description_of(#[trigger] mds@[j], chunks[j]),
            forall|j: int| 0 <= j < mds@.len() ==> media_description_ok(#[trigger] chunks[j]),
        decreases cur@.len(),
    {
        match while_separate_trimmed(cur, MEDIA_SEPARATOR.as_slice(), TRIM_NEW_LINE.as_slice()) {
            None => {
                assert(tokens_of(cur@, MEDIA_SEPARATOR@, TRIM_NEW_LINE@) =~= Seq::<Seq<u8>>::empty());
                assert(chunks.subrange(0, mds@.len() as int) + Seq::<Seq<u8>>::empty() =~= chunks.subrange(
                    0,
                    mds@.len() as int,
                ));
                break;
            },
            Some((chunk, rest)) => {
                proof {
                    lemma_while_separate_trimmed_shrinks(cur@, MEDIA_SEPARATOR@, TRIM_NEW_LINE@);
                    let tl = tokens_of(rest@, MEDIA_SEPARATOR@, TRIM_NEW_LINE@);
                    assert(tokens_of(cur@, MEDIA_SEPARATOR@, TRIM_NEW_LINE@) == seq![chunk@] + tl);
                    assert(chunks[mds@.len() as int] == chunk@);
                    assert(chunks.subrange(0, mds@.len() + 1 as int) + tl =~= chunks);
                }
                let m = match MediaDescription::parse(chunk) {
                    Ok(m) => m,
                    Err(e) => return Err(e),
                };
                mds.push(m);
                cur = rest;
            },
        }
    }
    Ok(mds)
}

impl MediaSession {
    /// Decodes a session description. Lines end in LF or CR LF; each is
    /// `<key>=<value>`. Session-level keys `v o s i u e p c b t a` set their
    /// field (a later line replaces an earlier one); at the first `m=` line
    /// the rest is split at each LF `m=` into media descriptions. The
    /// session must be valid.
    pub fn parse(data: &[u8]) -> (r: Result<MediaSession, ParsingError>)
        ensures
            r is Ok <==> session_ok(data@),
            r matches Ok(ms) ==> is_session_of(ms, data@),
    {
        let text = trim(data, TRIM_NEW_LINE.as_slice());
        let eq = EQUAL.as_slice();
        let sp = SPACE.as_slice();
        let mut slice: &[u8] = text;
        let ghost mut seen: Seq<Seq<u8>> = Seq::empty();
        let mut protocol_version: i32 = 0;
        let mut originator_of_session = Origin::default();
        let mut session_name = String::new();
        let mut media_title: Option<String> = None;
        let mut uri_of_description: Option<http::Uri> = None;
        let mut email_address: Option<String> = None;
        let mut phone_number: Option<String> = None;
        let mut connection_addresses: Option<ConnectionAddresses> = None;
        let mut bandwidth: Option<Bandwidth> = None;
        let mut timing: Option<Timing> = None;
        let mut media_attributes: Vec<UnknownMediaAttribute> = Vec::new();
        let mut data_transfer_mode: Option<DataTransferMode> = None;
        let mut media_after: Option<&[u8]> = None;
        assert(Seq::<Seq<u8>>::empty() + session_scan(slice@).0 =~= session_scan(slice@).0);
        assert(attribute_views(media_attributes@) =~= Seq::<(Seq<char>, Option<Seq<char>>)>::empty());
        loop
            invariant_except_break
                media_after is None,
            invariant
                text@ == trim_spec(data@, TRIM_NEW_LINE@),
                eq@ == EQUAL@,
                sp@ == SPACE@,
                session_scan(text@) == (seen + session_scan(slice@).0, session_scan(slice@).1),
                forall|i: int| 0 <= i < seen.len() ==> line_ok(#[trigger] seen[i]),
                protocol_version == match last_value(seen, 118) {
                    Some(v) => number_value(v),
                    None => 0,
                },
                match last_value(seen, 111) {
                    Some(o) => is_origin_of(originator_of_session, o),
                    None => originator_of_session.spec_is_default(),
                },
                match last_value(seen, 115) {
                    Some(v) => session_name@ == decode_utf8(v) && valid_utf8(v),
                    None => session_name@.len() == 0,
                },
                opt_text(media_title) == last_text(seen, 105),
                (uri_of_description is Some) == (last_value(seen, 117) is Some),
                opt_text(email_address) == last_text(seen, 101),
                opt_text(phone_number) == last_text(seen, 112),
                match last_value(seen, 99) {
                    Some(c) => connection_addresses matches Some(ca) && is_connection_of(ca, c),
                    None => connection_addresses is None,
                },
                match last_value(seen, 98) {
                    Some(b) => bandwidth matches Some(bw) && is_bandwidth_of(bw, b),
                    None => bandwidth is None,
                },
                match last_value(seen, 116) {
                    Some(t) => timing matches Some(tm) && is_timing_of(tm, t),
                    None => timing is None,
                },
                attribute_views(media_attributes@) == attributes_of(seen),
                data_transfer_mode == direction_of_lines(seen),
            ensures
                text@ == trim_spec(data@, TRIM_NEW_LINE@),
                session_scan(text@).0 == seen,
                session_scan(text@).1 == match media_after {
                    Some(a) => Some(Some(a@)),
                    None => None::<Option<Seq<u8>>>,
                },
                forall|i: int| 0 <= i < seen.len() ==> line_ok(#[trigger] seen[i]),
                protocol_version == match last_value(seen, 118) {
                    Some(v) => number_value(v),
                    None => 0,
                },
                match last_value(seen, 111) {
                    Some(o) => is_origin_of(originator_of_session, o),
                    None => originator_of_session.spec_is_default(),
                },
                match last_value(seen, 115) {
                    Some(v) => session_name@ == decode_utf8(v) && valid_utf8(v),
                    None => session_name@.len() == 0,
                },
                opt_text(media_title) == last_text(seen, 105),
                (uri_of_description is Some) == (last_value(seen, 117) is Some),
                opt_text(email_address) == last_text(seen, 101),
                opt_text(phone_number) == last_text(seen, 112),
                match last_value(seen, 99) {
                    Some(c) => connection_addresses matches Some(ca) && is_connection_of(ca, c),
                    None => connection_addresses is None,
                },
                match last_value(seen, 98) {
                    Some(b) => bandwidth matches Some(bw) && is_bandwidth_of(bw, b),
                    None => bandwidth is None,
                },
                match last_value(seen, 116) {
                    Some(t) => timing matches Some(tm) && is_timing_of(tm, t),
                    None => timing is None,
                },
                attribute_views(media_attributes@) == attributes_of(seen),
                data_transfer_mode == direction_of_lines(seen),
            decreases slice@.len(),
        {
            let (line, rest) = match while_separate_trimmed(slice, NEW_LINE.as_slice(), TRIM_NEW_LINE.as_slice()) {
                None => {
                    assert(seen + Seq::<Seq<u8>>::empty() =~= seen);
                    break;
                },
                Some(p) => p,
            };
            proof {
                lemma_while_separate_trimmed_shrinks(slice@, NEW_LINE@, TRIM_NEW_LINE@);
                lemma_lines_push(seen, line@);
            }
            let kv = separate_trimmed(line, eq, sp);
            if let Some((key, _)) = kv {
                if is_key(key, 109) {
                    match separate(slice, MEDIA_KEY.as_slice()) {
                        Some((_, after)) => {
                            media_after = Some(after);
                            assert(seen + Seq::<Seq<u8>>::empty() =~= seen);
                            break;
                        },
                        None => {
                            return Err(ParsingError::from_bytes(data));
                        },
                    }
                }
            }
            proof {
                let tl = session_scan(rest@).0;
                assert(seen + (seq![line@] + tl) =~= seen.push(line@) + tl);
                assert(session_scan(text@).0[seen.len() as int] == line@);
            }
            if let Some((key, value)) = kv {
                if is_key(key, 118) {
                    protocol_version = match utf8_to_i32(value) {
                        Ok(v) => v,
                        Err(e) => return Err(ParsingError::Utf8Error(e)),
                    };
                } else if is_key(key, 111) {
                    originator_of_session = match Origin::parse(value) {
                        Ok(o) => o,
                        Err(e) => return Err(e),
                    };
                } else if is_key(key, 115) {
                    session_name = match utf8_to_string(value) {
                        Ok(s) => s,
                        Err(e) => return Err(ParsingError::Utf8Error(e)),
                    };
                } else if is_key(key, 105) {
                    media_title = match utf8_to_string(value) {
                        Ok(s) => Some(s),
                        Err(e) => return Err(ParsingError::Utf8Error(e)),
                    };
                } else if is_key(key, 117) {
                    uri_of_description = match parse_uri(value) {
                        Some(u) => Some(u),
                        None => return Err(ParsingError::from_bytes(value)),
                    };
                } else if is_key(key, 101) {
                    email_address = match utf8_to_string(value) {
                        Ok(s) => Some(s),
                        Err(e) => return Err(ParsingError::Utf8Error(e)),
                    };
                } else if is_key(key, 112) {
                    phone_number = match utf8_to_string(value) {
                        Ok(s) => Some(s),
                        Err(e) => return Err(ParsingError::Utf8Error(e)),
                    };
                } else if is_key(key, 99) {
                    connection_addresses = match ConnectionAddresses::parse(value) {
                        Ok(c) => Some(c),
                        Err(e) => return Err(e),
                    };
                } else if is_key(key, 98) {
                    bandwidth = match Bandwidth::parse(value) {
                        Ok(b) => Some(b),
                        Err(e) => return Err(e),
                    };
                } else if is_key(key, 116) {
                    timing = match Timing::parse(value) {
                        Ok(t) => Some(t),
                        Err(e) => return Err(e),
                    };
                } else if is_key(key, 97) {
                    let ghost prev = media_attributes@;
                    match separate_trimmed(value, sp, sp) {
                        Some((name, v)) => {
                            let name = match utf8_to_string(name) {
                                Ok(s) => s,
                                Err(e) => return Err(ParsingError::Utf8Error(e)),
                            };
                            let v = match utf8_to_string(v) {
                                Ok(s) => s,
                                Err(e) => return Err(ParsingError::Utf8Error(e)),
                            };
                            let a = UnknownMediaAttribute::new(name, Some(v));
                            media_attributes.push(a);
                            proof {
                                assert(attribute_views(media_attributes@) =~= attribute_views(prev) + seq![
                                    (a.spec_name(), a.spec_value()),
                                ]);
                            }
                        },
                        None => match DataTransferMode::from_bytes(value) {
                            Some(m) => {
                                data_transfer_mode = Some(m);
                                proof {
                                    assert(attribute_views(prev) + Seq::empty() =~= attribute_views(prev));
                                }
                            },
                            None => {
                                let name = match utf8_to_string(value) {
                                    Ok(s) => s,
                                    Err(e) => return Err(ParsingError::Utf8Error(e)),
                                };
                                let a = UnknownMediaAttribute::new(name, None);
                                media_attributes.push(a);
                                proof {
                                    assert(attribute_views(media_attributes@) =~= attribute_views(prev) + seq![
                                        (a.spec_name(), a.spec_value()),
                                    ]);
                                }
                            },
                        },
                    }
                }
            }
            proof {
                seen = seen.push(line@);
            }
            slice = rest;
        }
        let after = match media_after {
            Some(a) => a,
            None => return Err(ParsingError::from_bytes(data)),
        };
        let media_descriptions = match parse_media_descriptions(after) {
            Ok(v) => v,
            Err(e) => return Err(e),
        };
        if originator_of_session.is_default() {
            return Err(ParsingError::from_bytes(data));
        }
        if session_name.as_str().is_empty() {
            proof {
                if let Some(v) = last_value(seen, 115) {
                    lemma_decode_nonempty(v);
                }
            }
            return Err(ParsingError::from_bytes(data));
        }
        if media_descriptions.len() == 0 {
            return Err(ParsingError::from_bytes(data));
        }
        proof {
            let o = last_value(seen, 111).unwrap();
            assert forall|x: Origin| is_origin_of(x, o) implies !x.spec_is_default() by {
                lemma_origin_default_determined(x, originator_of_session, o);
            }
            let v = last_value(seen, 115).unwrap();
            lemma_decode_nonempty(v);
        }
        Ok(MediaSession {
            protocol_version,
            originator_of_session,
            session_name,
            media_title,
            uri_of_description,
            email_address,
            phone_number,
            network_address: IpAddress::localhost(),
            connection_addresses,
            encryption_key: None,
            bandwidth,
            timing,
            media_descriptions,
            media_attributes,
            data_transfer_mode,
        })
    }
}

impl MediaSession {
    /// A session before any line is read: version 0, the default origin,
    /// an empty name, no optional field, no media and no attribute.
    pub fn default() -> (r: MediaSession)
        ensures
            r.spec_protocol_version() == 0,
            r.spec_originator().spec_is_default(),
            r.spec_session_name().len() == 0,
            r.spec_media_title() is None,
            !r.spec_has_uri(),
            r.spec_email_address() is None,
            r.spec_phone_number() is None,
            r.spec_network_address() matches IpAddress::V4(a) && a@ == seq![127u8, 0, 0, 1],
            r.spec_connection() is None,
            r.spec_encryption_key() is None,
            r.spec_bandwidth() is None,
            r.spec_timing() is None,
            r.spec_media_descriptions().len() == 0,
            r.spec_media_attributes().len() == 0,
            r.spec_data_transfer_mode() is None,
    {
        MediaSession {
            protocol_version: 0,
            originator_of_session: Origin::default(),
            session_name: String::new(),
            media_title: None,
            uri_of_description: None,
            email_address: None,
            phone_number: None,
            network_address: IpAddress::localhost(),
            connection_addresses: None,
            encryption_key: None,
            bandwidth: None,
            timing: None,
            media_descriptions: Vec::new(),
            media_attributes: Vec::new(),
            data_transfer_mode: None,
        }
    }

    pub fn protocol_version(&self) -> (r: i32)
        ensures
            r == self.spec_protocol_version(),
    {
        self.protocol_version
    }

    pub fn originator_of_session(&self) -> (r: &Origin)
        ensures
            *r == self.spec_originator(),
    {
        &self.originator_of_session
    }

    pub fn session_name(&self) -> (r: &str)
        ensures
            r@ == self.spec_session_name(),
    {
        self.session_name.as_str()
    }

    pub fn media_title(&self) -> (r: Option<&String>)
        ensures
            match r {
                Some(t) => self.spec_media_title() == Some(t@),
                None => self.spec_media_title() is None,
            },
    {
        match &self.media_title {
            Some(t) => Some(t),
            None => None,
        }
    }

    pub fn uri_of_description(&self) -> (r: Option<&http::Uri>)
        ensures
            r is Some == self.spec_has_uri(),
    {
        match &self.uri_of_description {
            Some(u) => Some(u),
            None => None,
        }
    }

    pub fn email_address(&self) -> (r: Option<&String>)
        ensures
            match r {
                Some(t) => self.spec_email_address() == Some(t@),
                None => self.spec_email_address() is None,
            },
    {
        match &self.email_address {
            Some(t) => Some(t),
            None => None,
        }
    }

    pub fn phone_number(&self) -> (r: Option<&String>)
        ensures
            match r {
                Some(t) => self.spec_phone_number() == Some(t@),
                None => self.spec_phone_number() is None,
            },
    {
        match &self.phone_number {
            Some(t) => Some(t),
            None => None,
        }
    }

    pub fn network_address(&self) -> (r: IpAddress)
        ensures
            r == self.spec_network_address(),
    {
        self.network_address
    }

    pub fn connection_address(&self) -> (r: &Option<ConnectionAddresses>)
        ensures
            *r == self.spec_connection(),
    {
        &self.connection_addresses
    }

    pub fn encryption_key(&self) -> (r: Option<&String>)
        ensures
            match r {
                Some(t) => self.spec_encryption_key() == Some(t@),
                None => self.spec_encryption_key() is None,
            },
    {
        match &self.encryption_key {
            Some(t) => Some(t),
            None => None,
        }
    }

    pub fn bandwidth(&self) -> (r: Option<&Bandwidth>)
        ensures
            match r {
                Some(b) => self.spec_bandwidth() == Some(*b),
                None => self.spec_bandwidth() is None,
            },
    {
        match &self.bandwidth {
            Some(b) => Some(b),
            None => None,
        }
    }

    pub fn timing(&self) -> (r: Option<&Timing>)
        ensures
            match r {
                Some(t) => self.spec_timing() == Some(*t),
                None => self.spec_timing() is None,
            },
    {
        match &self.timing {
            Some(t) => Some(t),
            None => None,
        }
    }

    pub fn media_descriptions(&self) -> (r: &[MediaDescription])
        ensures
            r@ == self.spec_media_descriptions(),
    {
        self.media_descriptions.as_slice()
    }

    pub fn media_attributes(&self) -> (r: &[UnknownMediaAttribute])
        ensures
            attribute_views(r@) == self.spec_media_attributes(),
    {
        self.media_attributes.as_slice()
    }

    pub fn data_transfer_mode(&self) -> (r: Option<DataTransferMode>)
        ensures
            r == self.spec_data_transfer_mode(),
    {
        self.data_transfer_mode
    }

    /// Sets the session-level direction.
    pub fn set_data_transfer_mode(&mut self, data_transfer_mode: Option<DataTransferMode>)
        ensures
            final(self).spec_data_transfer_mode() == data_transfer_mode,
            final(self).spec_protocol_version() == old(self).spec_protocol_version(),
            final(self).spec_originator() == old(self).spec_originator(),
            final(self).spec_session_name() == old(self).spec_session_name(),
            final(self).spec_media_descriptions() == old(self).spec_media_descriptions(),
            final(self).spec_media_attributes() == old(self).spec_media_attributes(),
            final(self).spec_connection() == old(self).spec_connection(),
            final(self).spec_timing() == old(self).spec_timing(),
            final(self).spec_bandwidth() == old(self).spec_bandwidth(),
            final(self).spec_media_title() == old(self).spec_media_title(),
            final(self).spec_has_uri() == old(self).spec_has_uri(),
            final(self).spec_email_address() == old(self).spec_email_address(),
            final(self).spec_phone_number() == old(self).spec_phone_number(),
            final(self).spec_network_address() == old(self).spec_network_address(),
            final(self).spec_encryption_key() == old(self).spec_encryption_key(),
    {
        self.data_transfer_mode = data_transfer_mode;
    }

    /// Whether the session has a non-default origin, a non-empty name and
    /// at least one media description.
    pub fn is_valid(&self) -> (r: bool)
        ensures
            r == self.spec_is_valid(),
    {
        !self.originator_of_session.is_default() && !self.session_name.as_str().is_empty()
            && self.media_descriptions.len() > 0
    }
}

} // verus!
