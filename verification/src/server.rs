//! The protocol pipeline: wire primitives, the data model, request decoding,
//! response encoding, and the handling of one request.

use crate::request_handler::{dispatch, process_request};
use crate::server::model::{DecodeError, WireSerialization};
use crate::server::requests::{
    decode_header, decode_request, version_supported, HasRequestHeader, Request, RequestHeader,
    RequestView,
};
use crate::server::responses::api_versions::lemma_api_versions_format_len;
use crate::server::responses::fetch::lemma_fetch_format_len;
use crate::server::responses::ResponseView;
use crate::server::wire::{
    be_bytes_2, be_bytes_4, be_value_4, buf_put, buf_put_i16, buf_put_i32, lemma_be_bytes_2_len,
    lemma_be_bytes_4_len, lemma_be_round_trip_4, lemma_be_value_of_front, signed, ByteCursor,
};
use vstd::prelude::*;

pub mod model;
pub mod requests;
pub mod responses;
pub mod wire;

verus! {

/// The outcome that a response reports to the client.
#[derive(Copy, Clone, Debug, PartialEq, Eq, Structural)]
pub enum ErrorCode {
    /// The request was accepted.
    NoError,
    /// The request's version lies outside the range registered for its key.
    UnsupportedVersion,
}

impl ErrorCode {
    /// The number that stands for the outcome on the wire.
    pub open spec fn spec_code(self) -> i16 {
        match self {
            ErrorCode::NoError => 0,
            ErrorCode::UnsupportedVersion => 35,
        }
    }

    /// The number that stands for the outcome on the wire.
    pub fn code(self) -> (code: i16)
        ensures
            code == self.spec_code(),
    {
        match self {
            ErrorCode::NoError => 0,
            ErrorCode::UnsupportedVersion => 35,
        }
    }
}

/// The payload length that a frame's four-byte prefix announces: a
/// big-endian signed number. A negative length announces no frame.
pub fn frame_length(prefix: &[u8]) -> (length: Option<usize>)
    ensures
        match length {
            Some(length) => prefix@.len() >= 4 && length == signed(
                be_value_4(prefix@),
                0x1_0000_0000,
            ),
            None => prefix@.len() < 4 || signed(be_value_4(prefix@), 0x1_0000_0000) < 0,
        },
{
    let mut cursor = ByteCursor::new(prefix);
    match cursor.get_i32() {
        Ok(length) => if length < 0 {
            None
        } else {
            Some(length as usize)
        },
        Err(_) => None,
    }
}

/// The short frame that reports an unsupported version: a length of 6, the
/// correlation id, the error code, and no body.
pub open spec fn error_frame(correlation_id: i32) -> Seq<u8> {
    be_bytes_4(6) + be_bytes_4(correlation_id as int) + be_bytes_2(
        ErrorCode::UnsupportedVersion.spec_code() as int,
    )
}

/// The frame that answers a request. Where the request's version is
/// supported: the length of what follows, the correlation id, and the encoded
/// body of the dispatched response. Where it is not: the error frame.
pub open spec fn response_frame(request: RequestView) -> Seq<u8> {
    if request.version_supported() {
        be_bytes_4(4 + dispatch(request).wire_format().len() as int) + be_bytes_4(
            request.header().correlation_id as int,
        ) + dispatch(request).wire_format()
    } else {
        error_frame(request.header().correlation_id)
    }
}

/// What one frame payload is answered with. The version is checked as soon
/// as the header is decoded: where it is unsupported the error frame is the
/// answer and the body is never decoded. A payload that cannot be decoded
/// has no answer.
pub open spec fn frame_reply(payload: Seq<u8>) -> Result<Seq<u8>, DecodeError> {
    match decode_header(payload) {
        Err(error) => Err(error),
        Ok((header, _)) => if !version_supported(
            header.request_api_key,
            header.request_api_version,
        ) {
            Ok(error_frame(header.correlation_id))
        } else {
            match decode_request(payload) {
                Err(error) => Err(error),
                Ok(request) => Ok(response_frame(request)),
            }
        },
    }
}

/// The response to a well-formed request is well formed, and its frame is
/// short: behind the length come the correlation id and a body of at most 13
/// bytes around 254 topic entries of 55 bytes each.
pub proof fn lemma_dispatch_fits_frame(request: RequestView)
    requires
        request.well_formed(),
    ensures
        dispatch(request).well_formed(),
        4 + dispatch(request).wire_format().len() <= 4 + 13 + 55 * 254,
{
    match dispatch(request) {
        ResponseView::ApiVersions(response) => {
            lemma_api_versions_format_len(response);
        },
        ResponseView::Fetch(response) => {
            lemma_fetch_format_len(response);
        },
    }
}

/// Builds the response frame for a decoded request: checks the version,
/// then either reports it as unsupported or dispatches the request and
/// encodes the response.
pub fn handle_request(request: &Request) -> (response: Vec<u8>)
    requires
        request@.well_formed(),
    ensures
        response@ == response_frame(request@),
{
    let mut response: Vec<u8> = Vec::new();

    let error_code = if !request.is_request_api_version_header_valid() {
        ErrorCode::UnsupportedVersion
    } else {
        ErrorCode::NoError
    };

    if error_code != ErrorCode::NoError {
        buf_put_i32(&mut response, 4 + 2);
        buf_put_i32(&mut response, request.header().correlation_id);
        buf_put_i16(&mut response, error_code.code());
        return response;
    }
    proof {
        lemma_dispatch_fits_frame(request@);
    }

    let mut data: Vec<u8> = Vec::new();
    process_request(request).to_wire_format(&mut data);

    let length: usize = 4 + data.len();
    buf_put_i32(&mut response, length as i32);
    buf_put_i32(&mut response, request.header().correlation_id);
    buf_put(&mut response, data.as_slice());
    response
}

/// Answers one frame payload: decodes the header, checks the version, and
/// only then decodes the body, dispatches and encodes. An unsupported
/// version is answered with the error frame, whatever the body holds.
pub fn process_frame(payload: &[u8]) -> (result: Result<Vec<u8>, DecodeError>)
    ensures
        match result {
            Ok(response) => frame_reply(payload@) == Ok::<_, DecodeError>(response@),
            Err(error) => frame_reply(payload@) == Err::<Seq<u8>, _>(error),
        },
{
    let mut cursor = ByteCursor::new(payload);
    let header = RequestHeader::parse(&mut cursor)?;
    if !Request::is_request_api_version_valid(header.request_api_key, header.request_api_version) {
        let mut response: Vec<u8> = Vec::new();
        buf_put_i32(&mut response, 4 + 2);
        buf_put_i32(&mut response, header.correlation_id);
        buf_put_i16(&mut response, ErrorCode::UnsupportedVersion.code());
        return Ok(response);
    }
    let request = Request::parse_body(header, &mut cursor)?;
    Ok(handle_request(&request))
}

/// A frame made of the length of what follows, an id and a body reads back
/// as that length and that id.
proof fn lemma_frame_reads_back(correlation_id: i32, body: Seq<u8>)
    requires
        4 + body.len() <= i32::MAX,
    ensures
        ({
            let frame = be_bytes_4(4 + body.len() as int) + be_bytes_4(correlation_id as int)
                + body;
            &&& frame.len() == 8 + body.len()
            &&& signed(be_value_4(frame), 0x1_0000_0000) == 4 + body.len()
            &&& signed(be_value_4(frame.skip(4)), 0x1_0000_0000) == correlation_id
        }),
{
    let length = be_bytes_4(4 + body.len() as int);
    let id = be_bytes_4(correlation_id as int);
    lemma_be_bytes_4_len(4 + body.len() as int);
    lemma_be_bytes_4_len(correlation_id as int);
    assert(length + id + body == length + (id + body));
    assert((length + id + body).skip(4) == id + body);
    lemma_be_value_of_front(length, id + body);
    lemma_be_value_of_front(id, body);
    lemma_be_round_trip_4(4 + body.len() as int);
    lemma_be_round_trip_4(correlation_id as int);
}

/// Every response frame is well framed: its first four bytes announce the
/// number of bytes that follow them, and the next four echo the request's
/// correlation id.
pub proof fn response_frame_is_well_framed(request: RequestView)
    requires
        request.well_formed(),
    ensures
        response_frame(request).len() >= 8,
        signed(be_value_4(response_frame(request)), 0x1_0000_0000) == response_frame(
            request,
        ).len() - 4,
        signed(be_value_4(response_frame(request).skip(4)), 0x1_0000_0000)
            == request.header().correlation_id,
{
    if request.version_supported() {
        lemma_dispatch_fits_frame(request);
        lemma_frame_reads_back(request.header().correlation_id, dispatch(request).wire_format());
    } else {
        let code = be_bytes_2(ErrorCode::UnsupportedVersion.spec_code() as int);
        lemma_be_bytes_2_len(ErrorCode::UnsupportedVersion.spec_code() as int);
        lemma_frame_reads_back(request.header().correlation_id, code);
    }
}

/// The response frame is a function of the request's value alone: two equal
/// requests are answered with the same bytes, body and framing alike.
pub proof fn equal_requests_get_equal_responses(first: RequestView, second: RequestView)
    requires
        first == second,
    ensures
        dispatch(first) == dispatch(second),
        dispatch(first).wire_format() == dispatch(second).wire_format(),
        response_frame(first) == response_frame(second),
{
}

/// Handling a decoded request and answering its frame agree: wherever a
/// payload decodes to a request, the payload's answer is that request's
/// response frame.
pub proof fn frame_reply_of_decoded_request(payload: Seq<u8>)
    requires
        decode_request(payload) is Ok,
    ensures
        frame_reply(payload) == Ok::<_, DecodeError>(response_frame(decode_request(payload)->Ok_0)),
{
}

} // verus!
