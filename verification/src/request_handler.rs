//! The request dispatcher: from a decoded request to the response that
//! answers it. It reads nothing but its argument.

use crate::server::model::{ApiKeyVariant, Topic};
use crate::server::requests;
use crate::server::responses;
use crate::server::responses::fetch::FetchTopicResponse;
use vstd::prelude::*;

verus! {

/// The API keys that every version-negotiation response advertises, whatever
/// was asked: fetch first, then version negotiation.
pub open spec fn advertised_keys() -> Seq<ApiKeyVariant> {
    seq![ApiKeyVariant::Fetch, ApiKeyVariant::Versions]
}

/// The response entries for the topics of a request: one per topic, in the
/// same order, each with its topic's id.
pub open spec fn echo_topics(topics: Seq<Topic>) -> Seq<FetchTopicResponse> {
    Seq::new(topics.len(), |i: int| FetchTopicResponse { topic_id: topics[i].id })
}

/// The response that answers a request.
pub open spec fn dispatch(request: requests::RequestView) -> responses::ResponseView {
    match request {
        requests::RequestView::ApiVersions(_) => responses::ResponseView::ApiVersions(
            responses::ApiVersionsView {
                api_key_versions: advertised_keys(),
                throttle_time_in_ms: 0,
            },
        ),
        requests::RequestView::Fetch(request) => responses::ResponseView::Fetch(
            responses::FetchView {
                throttle_time_in_ms: 0,
                session_id: request.session_id,
                topics: echo_topics(request.topics),
            },
        ),
    }
}

/// Echoing one more topic appends its entry.
pub proof fn lemma_echo_topics_push(topics: Seq<Topic>, topic: Topic)
    ensures
        echo_topics(topics.push(topic)) == echo_topics(topics).push(
            FetchTopicResponse { topic_id: topic.id },
        ),
{
}

/// Answers a request.
pub fn process_request(request: &requests::Request) -> (response: responses::Response)
    ensures
        response@ == dispatch(request@),
{
    match request {
        requests::Request::ApiVersions(api_versions_request) => {
            responses::Response::ApiVersions(process_api_versions_request(api_versions_request))
        },
        requests::Request::Fetch(fetch_request) => {
            responses::Response::Fetch(process_fetch_request(fetch_request))
        },
    }
}

fn process_api_versions_request(_request: &requests::ApiVersions) -> (response:
    responses::ApiVersions)
    ensures
        response@ == (responses::ApiVersionsView {
            api_key_versions: advertised_keys(),
            throttle_time_in_ms: 0,
        }),
{
    let mut api_key_versions: Vec<ApiKeyVariant> = Vec::new();
    api_key_versions.push(ApiKeyVariant::Fetch);
    api_key_versions.push(ApiKeyVariant::Versions);
    proof {
        assert(api_key_versions@ =~= advertised_keys());
    }
    responses::ApiVersions { api_key_versions, throttle_time_in_ms: 0 }
}

fn process_fetch_request(request: &requests::Fetch) -> (response: responses::Fetch)
    ensures
        response@ == (responses::FetchView {
            throttle_time_in_ms: 0,
            session_id: request.session_id,
            topics: echo_topics(request.topics@),
        }),
{
    let mut topics: Vec<FetchTopicResponse> = Vec::new();
    let mut i: usize = 0;
    while i < request.topics.len()
        invariant
            i <= request.topics@.len(),
            topics@ == echo_topics(request.topics@.take(i as int)),
        decreases request.topics@.len() - i,
    {
        proof {
            lemma_echo_topics_push(request.topics@.take(i as int), request.topics@[i as int]);
            assert(request.topics@.take(i as int).push(request.topics@[i as int])
                == request.topics@.take(i + 1));
        }
        topics.push(FetchTopicResponse { topic_id: request.topics[i].id });
        i += 1;
    }
    proof {
        assert(request.topics@.take(i as int) == request.topics@);
    }
    responses::Fetch { throttle_time_in_ms: 0, session_id: request.session_id, topics }
}

} // verus!
