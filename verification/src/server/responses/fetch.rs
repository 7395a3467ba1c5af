//! The wire form of a fetch response.

use crate::server::model::{WireSerialization, MAX_COMPACT_LEN};
use crate::server::responses::{Fetch, FetchView};
use crate::server::wire::{
    be_bytes_1, be_bytes_16, be_bytes_2, be_bytes_4, be_bytes_8, buf_put_i16, buf_put_i32,
    buf_put_i64, buf_put_i8, buf_put_u128, buf_put_u8, lemma_be_bytes_16_len, lemma_be_bytes_8_len,
};
use vstd::prelude::*;

verus! {

/// The entry of a fetch response for one requested topic.
#[derive(Copy, Clone, Debug, PartialEq, Eq, Structural)]
pub struct FetchTopicResponse {
    pub topic_id: u128,
}

/// The error code that every synthetic partition reports. It is a fixed
/// placeholder: no log is read.
pub const PARTITION_ERROR_CODE: i16 = 100;

/// The bytes of the one partition that every topic entry reports: index 0,
/// the placeholder error code, high watermark, last stable offset and log
/// start offset all 0, no aborted transactions, preferred read replica 0, an
/// empty record batch (length marker 1), and an empty tag buffer.
pub open spec fn partition_format() -> Seq<u8> {
    be_bytes_4(0) + be_bytes_2(PARTITION_ERROR_CODE as int) + be_bytes_8(0) + be_bytes_8(0)
        + be_bytes_8(0) + be_bytes_1(0) + be_bytes_4(0) + be_bytes_1(1) + be_bytes_1(0)
}

/// The bytes of one topic entry: the 16-byte topic id, a compact array that
/// holds the one synthetic partition, and an empty tag buffer.
pub open spec fn topic_format(topic: FetchTopicResponse) -> Seq<u8> {
    be_bytes_16(topic.topic_id as int) + be_bytes_1(2) + partition_format() + be_bytes_1(0)
}

/// The bytes of the topic entries, one after the other in their order.
pub open spec fn topics_format(topics: Seq<FetchTopicResponse>) -> Seq<u8>
    decreases topics.len(),
{
    if topics.len() == 0 {
        Seq::empty()
    } else {
        topics_format(topics.drop_last()) + topic_format(topics.last())
    }
}

/// The bytes of a fetch response body: an empty tag buffer first, throttle
/// time, error code 0, the session id, the compact array of topic entries,
/// and an empty tag buffer.
pub open spec fn fetch_format(response: FetchView) -> Seq<u8> {
    be_bytes_1(0) + be_bytes_4(response.throttle_time_in_ms as int) + be_bytes_2(0) + be_bytes_4(
        response.session_id as int,
    ) + be_bytes_1(response.topics.len() as int + 1) + topics_format(response.topics) + be_bytes_1(0)
}

/// One topic entry occupies 55 bytes, whatever its id.
pub proof fn lemma_topic_format_len(topic: FetchTopicResponse)
    ensures
        topic_format(topic).len() == 55,
{
    lemma_be_bytes_8_len(0);
    lemma_be_bytes_16_len(topic.topic_id as int);
    assert(partition_format().len() == 37);
}

/// Every topic entry has the same width, so the entries of `topics` occupy
/// that width times their number.
pub proof fn lemma_topics_format_len(topics: Seq<FetchTopicResponse>)
    ensures
        topics_format(topics).len() == 55 * topics.len(),
    decreases topics.len(),
{
    if topics.len() > 0 {
        lemma_topics_format_len(topics.drop_last());
        lemma_topic_format_len(topics.last());
    }
}

/// A fetch response body is 13 bytes around its topic entries.
pub proof fn lemma_fetch_format_len(response: FetchView)
    ensures
        fetch_format(response).len() == 13 + 55 * response.topics.len(),
{
    let head = be_bytes_1(0) + be_bytes_4(response.throttle_time_in_ms as int) + be_bytes_2(0)
        + be_bytes_4(response.session_id as int) + be_bytes_1(response.topics.len() as int + 1);
    assert(head.len() == 12);
    let entries = topics_format(response.topics);
    assert(entries.len() == 55 * response.topics.len()) by {
        lemma_topics_format_len(response.topics);
    }
    assert((head + entries + be_bytes_1(0)).len() == 12 + entries.len() + 1);
}

impl WireSerialization for FetchTopicResponse {
    open spec fn encodable(&self) -> bool {
        true
    }

    open spec fn wire_format(&self) -> Seq<u8> {
        topic_format(*self)
    }

    fn to_wire_format(&self, buffer: &mut Vec<u8>) {
        buf_put_u128(buffer, self.topic_id);
        let partition_length: i8 = 1;
        buf_put_i8(buffer, partition_length + 1);
        buf_put_i32(buffer, 0);
        buf_put_i16(buffer, PARTITION_ERROR_CODE);
        buf_put_i64(buffer, 0);
        buf_put_i64(buffer, 0);
        buf_put_i64(buffer, 0);
        buf_put_i8(buffer, 0);
        buf_put_i32(buffer, 0);
        buf_put_i8(buffer, 1);
        buf_put_i8(buffer, 0);
        buf_put_i8(buffer, 0);
    }
}

impl WireSerialization for Fetch {
    open spec fn encodable(&self) -> bool {
        self.topics@.len() <= MAX_COMPACT_LEN
    }

    open spec fn wire_format(&self) -> Seq<u8> {
        fetch_format(self@)
    }

    fn to_wire_format(&self, buffer: &mut Vec<u8>) {
        buf_put_i8(buffer, 0);
        buf_put_i32(buffer, self.throttle_time_in_ms);
        buf_put_i16(buffer, 0);
        buf_put_i32(buffer, self.session_id);
        let count: usize = self.topics.len();
        buf_put_u8(buffer, count as u8 + 1);
        let ghost head = buffer@;
        let mut i: usize = 0;
        while i < count
            invariant
                i <= count,
                count == self.topics@.len(),
                buffer@ == head + topics_format(self.topics@.take(i as int)),
            decreases count - i,
        {
            proof {
                assert(self.topics@.take(i + 1).drop_last() == self.topics@.take(i as int));
            }
            self.topics[i].to_wire_format(buffer);
            i += 1;
        }
        proof {
            assert(self.topics@.take(count as int) == self.topics@);
        }
        buf_put_i8(buffer, 0);
    }
}

} // verus!
