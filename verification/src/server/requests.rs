//! Requests: their types, the layout of a request frame as spec functions,
//! and the decoders that read a frame payload into a request.

use crate::server::model::{ApiKey, ApiKeyVariant, DecodeError, Topic, MAX_COMPACT_LEN};
use crate::server::wire::{
    be_value_16, be_value_2, be_value_4, lemma_skip_is_suffix, lemma_suffix_of_suffix, signed,
    ByteCursor,
};
use vstd::prelude::*;

pub mod layout;

verus! {

/// A decoded request. Each variant owns its header.
#[derive(Debug, PartialEq)]
pub enum Request {
    ApiVersions(ApiVersions),
    Fetch(Fetch),
}

/// A version-negotiation request: it has no body.
#[derive(Copy, Clone, Debug, PartialEq, Eq, Structural)]
pub struct ApiVersions {
    pub header: RequestHeader,
}

/// A fetch request, as far as this endpoint keeps it: the session and the
/// topics asked for, in the order of the frame.
#[derive(Debug, PartialEq)]
pub struct Fetch {
    pub header: RequestHeader,
    pub session_id: i32,
    pub topics: Vec<Topic>,
}

/// The fixed eight bytes that open every request.
#[derive(Copy, Clone, Debug, PartialEq, Eq, Structural)]
pub struct RequestHeader {
    pub request_api_key: ApiKey,
    pub request_api_version: i16,
    pub correlation_id: i32,
}

/// A fetch request as a mathematical value.
pub struct FetchView {
    pub header: RequestHeader,
    pub session_id: i32,
    pub topics: Seq<Topic>,
}

/// A request as a mathematical value.
pub enum RequestView {
    ApiVersions(ApiVersions),
    Fetch(FetchView),
}

impl View for Fetch {
    type V = FetchView;

    open spec fn view(&self) -> FetchView {
        FetchView { header: self.header, session_id: self.session_id, topics: self.topics@ }
    }
}

impl View for Request {
    type V = RequestView;

    open spec fn view(&self) -> RequestView {
        match self {
            Request::ApiVersions(request) => RequestView::ApiVersions(*request),
            Request::Fetch(request) => RequestView::Fetch(request@),
        }
    }
}

/// Whether `version` lies in the range registered for `key`.
pub open spec fn version_supported(key: ApiKey, version: i16) -> bool {
    ApiKeyVariant::of(key).spec_versions().contains(version)
}

impl RequestView {
    /// The header that the request arrived with.
    pub open spec fn header(self) -> RequestHeader {
        match self {
            RequestView::ApiVersions(request) => request.header,
            RequestView::Fetch(request) => request.header,
        }
    }

    /// Whether the header's version lies in the range registered for the
    /// header's key.
    pub open spec fn version_supported(self) -> bool {
        version_supported(self.header().request_api_key, self.header().request_api_version)
    }

    /// Whether the request's topics fit a compact array. Every decoded
    /// request does: the count arrives in one byte.
    pub open spec fn well_formed(self) -> bool {
        match self {
            RequestView::ApiVersions(_) => true,
            RequestView::Fetch(request) => request.topics.len() <= MAX_COMPACT_LEN,
        }
    }
}

/// Access to the header of a request.
pub trait HasRequestHeader {
    /// The header, as a value in contracts.
    spec fn spec_header(&self) -> RequestHeader;

    /// The header that the request arrived with.
    fn header(&self) -> (header: &RequestHeader)
        ensures
            *header == self.spec_header(),
    ;
}

impl HasRequestHeader for Request {
    open spec fn spec_header(&self) -> RequestHeader {
        self@.header()
    }

    fn header(&self) -> (header: &RequestHeader) {
        match self {
            Request::ApiVersions(api_versions_request) => &api_versions_request.header,
            Request::Fetch(fetch_request) => &fetch_request.header,
        }
    }
}

/// The registered range of every API key is exact at both ends: its two
/// bounds are supported versions and their outer neighbours are not. The
/// neighbours exist, since no bound sits at an end of the 16-bit range.
pub proof fn version_bounds_are_exact(key: ApiKey)
    ensures
        ({
            let range = ApiKeyVariant::of(key).spec_versions();
            &&& range.api_key == key
            &&& i16::MIN < range.min_version <= range.max_version < i16::MAX
            &&& !version_supported(key, (range.min_version - 1) as i16)
            &&& version_supported(key, range.min_version)
            &&& version_supported(key, range.max_version)
            &&& !version_supported(key, (range.max_version + 1) as i16)
        }),
{
}

/// The number of entries that a compact-array count byte announces: one less
/// than the byte, and none for a zero byte.
pub open spec fn compact_len(marker: u8) -> nat {
    if marker == 0 {
        0
    } else {
        (marker - 1) as nat
    }
}

/// The header at the start of a payload, and the bytes behind it. The key is
/// resolved as soon as its two bytes are read, so an unknown key is reported
/// even where the rest of the header is missing.
pub open spec fn decode_header(bytes: Seq<u8>) -> Result<(RequestHeader, Seq<u8>), DecodeError> {
    if bytes.len() < 2 {
        Err(DecodeError::BufferUnderrun)
    } else {
        match ApiKey::spec_parse(signed(be_value_2(bytes), 0x1_0000) as i16) {
            Err(error) => Err(error),
            Ok(key) => if bytes.len() < 8 {
                Err(DecodeError::BufferUnderrun)
            } else {
                Ok(
                    (
                        RequestHeader {
                            request_api_key: key,
                            request_api_version: signed(be_value_2(bytes.skip(2)), 0x1_0000) as i16,
                            correlation_id: signed(be_value_4(bytes.skip(4)), 0x1_0000_0000) as i32,
                        },
                        bytes.skip(8),
                    ),
                )
            },
        }
    }
}

/// The topic at the start of `bytes`, and the bytes behind it. A topic is a
/// 16-byte identifier, a compact count of partitions, that many partition
/// entries, and a tag byte. A partition entry is 33 bytes wide: partition id
/// (4), leader epoch (4), fetch offset (8), last fetched epoch (4), log start
/// offset (8), maximum bytes (4) and a tag byte. Only the identifier is kept.
pub open spec fn decode_topic(bytes: Seq<u8>) -> Result<(Topic, Seq<u8>), DecodeError> {
    if bytes.len() < 17 {
        Err(DecodeError::BufferUnderrun)
    } else {
        let width = 17 + 33 * compact_len(bytes[16]) + 1;
        if bytes.len() < width {
            Err(DecodeError::BufferUnderrun)
        } else {
            Ok((Topic { id: be_value_16(bytes) as u128 }, bytes.skip(width as int)))
        }
    }
}

/// The first `count` topics at the start of `bytes`, in the order of the
/// frame, and the bytes behind them.
pub open spec fn decode_topics(bytes: Seq<u8>, count: nat) -> Result<
    (Seq<Topic>, Seq<u8>),
    DecodeError,
>
    decreases count,
{
    if count == 0 {
        Ok((Seq::empty(), bytes))
    } else {
        match decode_topics(bytes, (count - 1) as nat) {
            Err(error) => Err(error),
            Ok((topics, rest)) => match decode_topic(rest) {
                Err(error) => Err(error),
                Ok((topic, rest)) => Ok((topics.push(topic), rest)),
            },
        }
    }
}

/// What stands in front of the topic array of a fetch body: the session id
/// and the count byte of the topics, and the bytes behind them.
///
/// In front of the topics are: the client id (a 16-bit length and that many
/// bytes) and a tag byte; 21 bytes of fixed fields (maximum wait, minimum
/// bytes, maximum bytes, each 4 bytes, the isolation level in 1, then the
/// session id and the session epoch, each 4); and the count byte.
pub open spec fn decode_fetch_fields(bytes: Seq<u8>) -> Result<((i32, u8), Seq<u8>), DecodeError> {
    if bytes.len() < 2 {
        Err(DecodeError::BufferUnderrun)
    } else {
        let fields = bytes.skip(2 + be_value_2(bytes) + 1);
        if bytes.len() < 2 + be_value_2(bytes) + 1 + 21 + 1 {
            Err(DecodeError::BufferUnderrun)
        } else {
            Ok(
                (
                    (signed(be_value_4(fields.skip(13)), 0x1_0000_0000) as i32, fields[21]),
                    fields.skip(22),
                ),
            )
        }
    }
}

/// The fetch request whose body starts `bytes`, and the bytes behind it.
///
/// The body is: the fields in front of the topics; a compact array of
/// topics; then one byte each for the forgotten-topics count, the rack-id
/// length and the closing tag buffer. Those three bytes are consumed
/// whatever they hold, and no rack-id bytes follow.
pub open spec fn decode_fetch(header: RequestHeader, bytes: Seq<u8>) -> Result<
    (FetchView, Seq<u8>),
    DecodeError,
> {
    match decode_fetch_fields(bytes) {
        Err(error) => Err(error),
        Ok(((session_id, marker), body)) => match decode_topics(body, compact_len(marker)) {
            Err(error) => Err(error),
            Ok((topics, rest)) => if rest.len() < 3 {
                Err(DecodeError::BufferUnderrun)
            } else {
                Ok((FetchView { header, session_id, topics }, rest.skip(3)))
            },
        },
    }
}

/// The request whose body starts `bytes`, of the type that the header's key
/// names, and the bytes behind the body. A version-negotiation request has
/// no body.
pub open spec fn decode_body(header: RequestHeader, bytes: Seq<u8>) -> Result<
    (RequestView, Seq<u8>),
    DecodeError,
> {
    match header.request_api_key {
        ApiKey::Versions => Ok((RequestView::ApiVersions(ApiVersions { header }), bytes)),
        ApiKey::Fetch => match decode_fetch(header, bytes) {
            Err(error) => Err(error),
            Ok((request, rest)) => Ok((RequestView::Fetch(request), rest)),
        },
    }
}

/// The request that a frame payload holds: its header, then the body that
/// the header's key calls for. Bytes behind the body are not looked at.
pub open spec fn decode_request(payload: Seq<u8>) -> Result<RequestView, DecodeError> {
    match decode_header(payload) {
        Err(error) => Err(error),
        Ok((header, body)) => match decode_body(header, body) {
            Err(error) => Err(error),
            Ok((request, _)) => Ok(request),
        },
    }
}

/// Once a topic fails to decode, asking for more topics fails the same way.
pub proof fn lemma_decode_topics_error_persists(bytes: Seq<u8>, failed: nat, count: nat)
    requires
        failed <= count,
        decode_topics(bytes, failed) is Err,
    ensures
        decode_topics(bytes, count) == decode_topics(bytes, failed),
    decreases count,
{
    if failed < count {
        lemma_decode_topics_error_persists(bytes, failed, (count - 1) as nat);
    }
}

/// Decoding never yields more topics than were asked for, and what is left
/// is the end of what was given.
pub proof fn lemma_decode_topics_shape(bytes: Seq<u8>, count: nat)
    ensures
        decode_topics(bytes, count) matches Ok((topics, rest)) ==> topics.len() == count
            && rest.is_suffix_of(bytes),
    decreases count,
{
    if count > 0 {
        lemma_decode_topics_shape(bytes, (count - 1) as nat);
    }
}

impl RequestHeader {
    /// Reads the eight header bytes: key, version and correlation id.
    pub fn parse(request: &mut ByteCursor) -> (result: Result<RequestHeader, DecodeError>)
        ensures
            match result {
                Ok(header) => decode_header(old(request)@) == Ok::<_, DecodeError>(
                    (header, final(request)@),
                ),
                Err(error) => decode_header(old(request)@) == Err::<(RequestHeader, Seq<u8>), _>(
                    error,
                ) && final(request)@.is_suffix_of(old(request)@),
            },
    {
        let ghost start = request@;
        let raw_key: i16 = request.get_i16()?;
        let request_api_key = ApiKey::parse(raw_key)?;
        let request_api_version: i16 = request.get_i16()?;
        let correlation_id: i32 = request.get_i32()?;
        proof {
            assert(start.skip(2).skip(2) == start.skip(4));
            assert(start.skip(4).skip(4) == start.skip(8));
        }
        Ok(RequestHeader { request_api_key, request_api_version, correlation_id })
    }
}

impl Request {
    /// Decodes a frame payload: the header, then the body of the request
    /// type that the header names.
    pub fn parse_request(payload: &[u8]) -> (result: Result<Request, DecodeError>)
        ensures
            match result {
                Ok(request) => decode_request(payload@) == Ok::<_, DecodeError>(request@)
                    && request@.well_formed(),
                Err(error) => decode_request(payload@) == Err::<RequestView, _>(error),
            },
    {
        let mut request = ByteCursor::new(payload);
        let request_header = RequestHeader::parse(&mut request)?;
        Self::parse_body(request_header, &mut request)
    }

    /// Decodes the body that follows `header`, of the request type that the
    /// header's key names.
    pub fn parse_body(header: RequestHeader, request: &mut ByteCursor) -> (result: Result<
        Request,
        DecodeError,
    >)
        ensures
            match result {
                Ok(decoded) => decode_body(header, old(request)@) == Ok::<_, DecodeError>(
                    (decoded@, final(request)@),
                ) && decoded@.well_formed(),
                Err(error) => decode_body(header, old(request)@) == Err::<
                    (RequestView, Seq<u8>),
                    _,
                >(error) && final(request)@.is_suffix_of(old(request)@),
            },
    {
        match header.request_api_key {
            ApiKey::Versions => Ok(
                Request::ApiVersions(Request::parse_api_versions(header, request)),
            ),
            ApiKey::Fetch => {
                let fetch = Request::parse_fetch(header, request)?;
                Ok(Request::Fetch(fetch))
            },
        }
    }

    /// Decodes the body of a fetch request.
    pub fn parse_fetch(header: RequestHeader, request: &mut ByteCursor) -> (result: Result<
        Fetch,
        DecodeError,
    >)
        ensures
            match result {
                Ok(fetch) => decode_fetch(header, old(request)@) == Ok::<_, DecodeError>(
                    (fetch@, final(request)@),
                ) && fetch.topics@.len() <= MAX_COMPACT_LEN,
                Err(error) => decode_fetch(header, old(request)@) == Err::<
                    (FetchView, Seq<u8>),
                    _,
                >(error) && final(request)@.is_suffix_of(old(request)@),
            },
    {
        let ghost start = request@;
        let (session_id, marker) = Request::parse_fetch_fields(request)?;
        let topic_length: u8 = marker.saturating_sub(1);
        let ghost body = request@;
        let mut topics: Vec<Topic> = Vec::with_capacity(topic_length as usize);
        let mut decoded: u8 = 0;
        while decoded < topic_length
            invariant
                decoded <= topic_length,
                start == old(request)@,
                decode_fetch_fields(start) == Ok::<_, DecodeError>(((session_id, marker), body)),
                topic_length == compact_len(marker),
                body.is_suffix_of(start),
                decode_topics(body, decoded as nat) == Ok::<_, DecodeError>((topics@, request@)),
            decreases topic_length - decoded,
        {
            let ghost before = request@;
            proof {
                lemma_decode_topics_shape(body, decoded as nat);
                if decode_topic(request@) is Err {
                    lemma_decode_topics_error_persists(
                        body,
                        (decoded + 1) as nat,
                        topic_length as nat,
                    );
                }
            }
            let parsed = Request::parse_topic(request);
            proof {
                if parsed is Err {
                    lemma_suffix_of_suffix(request@, before, body);
                    lemma_suffix_of_suffix(request@, body, start);
                }
            }
            let topic = parsed?;
            topics.push(topic);
            decoded += 1;
        }
        let ghost rest = request@;
        proof {
            lemma_decode_topics_shape(body, topic_length as nat);
            lemma_suffix_of_suffix(rest, body, start);
        }
        let _forgotten_topics_data_count: u8 = request.get_u8()?;
        let _rack_id_len: u8 = request.get_u8()?;
        request.advance(1)?;
        proof {
            assert(request@ == rest.skip(3));
        }

        Ok(Fetch { header, session_id, topics })
    }

    /// Reads what stands in front of the topic array of a fetch body, and
    /// hands back the session id and the count byte of the topics.
    fn parse_fetch_fields(request: &mut ByteCursor) -> (result: Result<(i32, u8), DecodeError>)
        ensures
            match result {
                Ok(kept) => decode_fetch_fields(old(request)@) == Ok::<_, DecodeError>(
                    (kept, final(request)@),
                ) && final(request)@.is_suffix_of(old(request)@),
                Err(error) => decode_fetch_fields(old(request)@) == Err::<
                    ((i32, u8), Seq<u8>),
                    _,
                >(error) && final(request)@.is_suffix_of(old(request)@),
            },
    {
        let ghost start = request@;
        let client_id_len: u16 = request.get_u16()?;
        proof {
            lemma_skip_is_suffix(start, 2);
        }
        request.advance(client_id_len as usize)?;
        proof {
            assert(request@ == start.skip(2 + client_id_len));
            lemma_skip_is_suffix(start, 2 + client_id_len);
        }
        request.advance(1)?;
        let ghost fields = request@;
        proof {
            assert(fields == start.skip(2 + client_id_len + 1));
            lemma_skip_is_suffix(start, 2 + client_id_len + 1);
        }

        let _max_wait_ms: i32 = request.get_i32()?;
        proof {
            lemma_skip_is_suffix(fields, 4);
            lemma_suffix_of_suffix(request@, fields, start);
        }
        let _min_bytes: i32 = request.get_i32()?;
        proof {
            assert(request@ == fields.skip(8));
            lemma_skip_is_suffix(fields, 8);
            lemma_suffix_of_suffix(request@, fields, start);
        }
        let _max_bytes: i32 = request.get_i32()?;
        proof {
            assert(request@ == fields.skip(12));
            lemma_skip_is_suffix(fields, 12);
            lemma_suffix_of_suffix(request@, fields, start);
        }
        let _isolation_level: i8 = request.get_i8()?;
        proof {
            assert(request@ == fields.skip(13));
            lemma_skip_is_suffix(fields, 13);
            lemma_suffix_of_suffix(request@, fields, start);
        }
        let session_id: i32 = request.get_i32()?;
        proof {
            assert(request@ == fields.skip(17));
            lemma_skip_is_suffix(fields, 17);
            lemma_suffix_of_suffix(request@, fields, start);
        }
        let _session_epoch: i32 = request.get_i32()?;
        proof {
            assert(request@ == fields.skip(21));
            lemma_skip_is_suffix(fields, 21);
            lemma_suffix_of_suffix(request@, fields, start);
        }
        let marker: u8 = request.get_u8()?;
        proof {
            assert(request@ == fields.skip(22));
            lemma_skip_is_suffix(fields, 22);
            lemma_suffix_of_suffix(request@, fields, start);
        }
        Ok((session_id, marker))
    }

    /// Decodes one topic of a fetch request. Its partition entries are read
    /// for their shape and dropped.
    pub fn parse_topic(request: &mut ByteCursor) -> (result: Result<Topic, DecodeError>)
        ensures
            match result {
                Ok(topic) => decode_topic(old(request)@) == Ok::<_, DecodeError>(
                    (topic, final(request)@),
                ),
                Err(error) => decode_topic(old(request)@) == Err::<(Topic, Seq<u8>), _>(error)
                    && final(request)@.is_suffix_of(old(request)@),
            },
    {
        let ghost start = request@;
        let uuid: u128 = request.get_u128()?;
        let partition_count: u8 = request.get_u8()?.saturating_sub(1);
        proof {
            assert(request@ == start.skip(17));
        }
        let mut read: u8 = 0;
        while read < partition_count
            invariant
                read <= partition_count,
                start == old(request)@,
                uuid == be_value_16(start),
                start.len() >= 17,
                partition_count == compact_len(start[16]),
                start.len() >= 17 + 33 * read,
                request@ == start.skip(17 + 33 * read),
            decreases partition_count - read,
        {
            let ghost entry = request@;
            let _partition: u32 = request.get_u32()?;
            let _current_leader_epoch: u32 = request.get_u32()?;
            let _fetch_offset: u64 = request.get_u64()?;
            let _last_fetched_epoch: u32 = request.get_u32()?;
            let _log_start_offset: u64 = request.get_u64()?;
            let _partition_max_bytes: u32 = request.get_u32()?;
            request.advance(1)?;
            proof {
                assert(request@ == entry.skip(33));
            }
            read += 1;
        }
        request.advance(1)?;
        proof {
            assert(request@ == start.skip(17 + 33 * partition_count + 1));
        }
        Ok(Topic { id: uuid })
    }

    /// Decodes the body of a version-negotiation request: there is none, so
    /// nothing is read.
    pub fn parse_api_versions(header: RequestHeader, _buffer: &mut ByteCursor) -> (request:
        ApiVersions)
        ensures
            request.header == header,
            final(_buffer)@ == old(_buffer)@,
    {
        ApiVersions { header: header }
    }

    /// Whether the request's version is one that its API key accepts.
    pub fn is_request_api_version_header_valid(&self) -> (valid: bool)
        ensures
            valid == self@.version_supported(),
    {
        match self {
            Request::ApiVersions(api_versions_request) => Self::is_request_api_version_valid(
                api_versions_request.header.request_api_key,
                api_versions_request.header.request_api_version,
            ),
            Request::Fetch(fetch_request) => Self::is_request_api_version_valid(
                fetch_request.header.request_api_key,
                fetch_request.header.request_api_version,
            ),
        }
    }

    /// Whether `version` lies in the range registered for `key`.
    pub fn is_request_api_version_valid(key: ApiKey, version: i16) -> (valid: bool)
        ensures
            valid == version_supported(key, version),
    {
        match key {
            ApiKey::Versions => (ApiKeyVariant::Versions).versions().is_version_valid(version),
            ApiKey::Fetch => (ApiKeyVariant::Fetch).versions().is_version_valid(version),
        }
    }
}

} // verus!
