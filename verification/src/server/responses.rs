//! Responses: their types, their wire form, and the dispatch variant that
//! carries an error code.

use crate::request_handler::{advertised_keys, dispatch, echo_topics, lemma_echo_topics_push};
use crate::server::model::{ApiKeyVariant, WireSerialization, MAX_COMPACT_LEN};
use crate::server::requests;
use crate::server::ErrorCode;
use vstd::prelude::*;

pub mod api_versions;
pub mod fetch;

verus! {

/// A response body, ready to be encoded.
#[derive(Debug, PartialEq)]
pub enum Response {
    ApiVersions(ApiVersions),
    Fetch(Fetch),
}

/// The answer to a fetch request: one entry per requested topic, in the
/// order of the request.
#[derive(Debug, PartialEq)]
pub struct Fetch {
    pub throttle_time_in_ms: i32,
    pub session_id: i32,
    pub topics: Vec<fetch::FetchTopicResponse>,
}

/// The answer to a version-negotiation request: the advertised API keys.
#[derive(Debug, PartialEq)]
pub struct ApiVersions {
    pub api_key_versions: Vec<ApiKeyVariant>,
    pub throttle_time_in_ms: i32,
}

/// A fetch response as a mathematical value.
pub struct FetchView {
    pub throttle_time_in_ms: i32,
    pub session_id: i32,
    pub topics: Seq<fetch::FetchTopicResponse>,
}

/// A version-negotiation response as a mathematical value.
pub struct ApiVersionsView {
    pub api_key_versions: Seq<ApiKeyVariant>,
    pub throttle_time_in_ms: i32,
}

/// A response as a mathematical value.
pub enum ResponseView {
    ApiVersions(ApiVersionsView),
    Fetch(FetchView),
}

impl View for Fetch {
    type V = FetchView;

    open spec fn view(&self) -> FetchView {
        FetchView {
            throttle_time_in_ms: self.throttle_time_in_ms,
            session_id: self.session_id,
            topics: self.topics@,
        }
    }
}

impl View for ApiVersions {
    type V = ApiVersionsView;

    open spec fn view(&self) -> ApiVersionsView {
        ApiVersionsView {
            api_key_versions: self.api_key_versions@,
            throttle_time_in_ms: self.throttle_time_in_ms,
        }
    }
}

impl View for Response {
    type V = ResponseView;

    open spec fn view(&self) -> ResponseView {
        match self {
            Response::ApiVersions(response) => ResponseView::ApiVersions(response@),
            Response::Fetch(response) => ResponseView::Fetch(response@),
        }
    }
}

impl ResponseView {
    /// Whether the response's array fits a compact array's one-byte count.
    pub open spec fn well_formed(self) -> bool {
        match self {
            ResponseView::ApiVersions(response) => response.api_key_versions.len()
                <= MAX_COMPACT_LEN,
            ResponseView::Fetch(response) => response.topics.len() <= MAX_COMPACT_LEN,
        }
    }

    /// The bytes of the response body on the wire.
    pub open spec fn wire_format(self) -> Seq<u8> {
        match self {
            ResponseView::ApiVersions(response) => api_versions::api_versions_format(response),
            ResponseView::Fetch(response) => fetch::fetch_format(response),
        }
    }
}

impl WireSerialization for Response {
    open spec fn encodable(&self) -> bool {
        self@.well_formed()
    }

    open spec fn wire_format(&self) -> Seq<u8> {
        self@.wire_format()
    }

    fn to_wire_format(&self, buffer: &mut Vec<u8>) {
        match self {
            Response::ApiVersions(api_versions_response) => {
                let outcome: Result<&ApiVersions, ErrorCode> = Ok(api_versions_response);
                outcome.to_wire_format(buffer)
            },
            Response::Fetch(fetch_response) => fetch_response.to_wire_format(buffer),
        }
    }
}

/// Dispatch with the outcome of the version check at hand. A
/// version-negotiation request is answered only where the outcome is `Ok`;
/// any other outcome is handed back as the error. A fetch request is
/// answered whatever the outcome.
pub fn process_request(request: &requests::Request, error_code: ErrorCode) -> (result: Result<
    Response,
    ErrorCode,
>)
    ensures
        match result {
            Ok(response) => response@ == dispatch(request@) && (request@ is ApiVersions
                ==> error_code == ErrorCode::NoError),
            Err(error) => request@ is ApiVersions && error == error_code && error_code
                != ErrorCode::NoError,
        },
{
    match request {
        requests::Request::ApiVersions(api_versions_request) => {
            let response = process_api_versions_request(api_versions_request, error_code)?;
            Ok(Response::ApiVersions(response))
        },
        requests::Request::Fetch(fetch_request) => {
            Ok(Response::Fetch(process_fetch_request(fetch_request)))
        },
    }
}

fn process_api_versions_request(_request: &requests::ApiVersions, error_code: ErrorCode) -> (result:
    Result<ApiVersions, ErrorCode>)
    ensures
        match result {
            Ok(response) => error_code == ErrorCode::NoError && response@ == (ApiVersionsView {
                api_key_versions: advertised_keys(),
                throttle_time_in_ms: 0,
            }),
            Err(error) => error == error_code && error_code != ErrorCode::NoError,
        },
{
    match error_code {
        ErrorCode::NoError => {
            let mut api_key_versions: Vec<ApiKeyVariant> = Vec::new();
            api_key_versions.push(ApiKeyVariant::Fetch);
            api_key_versions.push(ApiKeyVariant::Versions);
            proof {
                assert(api_key_versions@ =~= advertised_keys());
            }
            Ok(ApiVersions { api_key_versions, throttle_time_in_ms: 0 })
        },
        _ => Err(error_code),
    }
}

fn process_fetch_request(request: &requests::Fetch) -> (response: Fetch)
    ensures
        response@ == (FetchView {
            throttle_time_in_ms: 0,
            session_id: request.session_id,
            topics: echo_topics(request.topics@),
        }),
{
    let mut topics: Vec<fetch::FetchTopicResponse> = Vec::new();
    let mut i: usize = 0;
    while i < request.topics.len()
        invariant
            i <= request.topics@.len(),
            topics@ == echo_topics(request.topics@.take(i as int)),
        decreases request.topics@.len() - i,
    {
        proof {
            lemma_echo_topics_push(request.topics@.take(i as int), request.topics@[i as int]);
            assert(request.topics@.take(i as int).push(request.topics@[i as int])
                == request.topics@.take(i + 1));
        }
        topics.push(fetch::FetchTopicResponse { topic_id: request.topics[i].id });
        i += 1;
    }
    proof {
        assert(request.topics@.take(i as int) == request.topics@);
    }
    Fetch { throttle_time_in_ms: 0, session_id: request.session_id, topics }
}

} // verus!
