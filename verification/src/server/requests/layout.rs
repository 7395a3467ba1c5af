//! The body of a fetch request as a client writes it, and the proof that the
//! decoder reads back from it what the endpoint keeps: the session id and
//! the topic ids in their order. Partition detail is dropped by design.
//!
//! The encoders of the composite parts are opaque, so that a proof sees
//! their bytes only where it reveals them.

use crate::server::model::{DecodeError, Topic, MAX_COMPACT_LEN};
use crate::server::requests::{
    compact_len, decode_fetch, decode_topic, decode_topics, FetchView, RequestHeader,
};
use crate::server::wire::{
    be_bytes_1, be_bytes_16, be_bytes_2, be_bytes_4, be_bytes_8, be_value_16, be_value_2,
    be_value_4, lemma_be_bytes_16_len, lemma_be_bytes_2_len, lemma_be_bytes_4_len,
    lemma_be_bytes_8_len, lemma_be_round_trip_16, lemma_be_round_trip_2,
    lemma_be_round_trip_4, lemma_be_value_16_of_front, lemma_be_value_of_front, signed,
};
use vstd::prelude::*;

verus! {

/// One partition entry of a fetch request.
pub struct PartitionFields {
    pub partition: u32,
    pub current_leader_epoch: u32,
    pub fetch_offset: u64,
    pub last_fetched_epoch: u32,
    pub log_start_offset: u64,
    pub partition_max_bytes: u32,
}

/// One topic of a fetch request, with its partition entries.
pub struct TopicFields {
    pub id: u128,
    pub partitions: Seq<PartitionFields>,
}

/// Everything that the body of a fetch request carries. The last two fields
/// are the bytes that stand for the forgotten-topics count and the rack-id
/// length.
pub struct FetchFields {
    pub client_id: Seq<u8>,
    pub max_wait_ms: i32,
    pub min_bytes: i32,
    pub max_bytes: i32,
    pub isolation_level: i8,
    pub session_id: i32,
    pub session_epoch: i32,
    pub topics: Seq<TopicFields>,
    pub forgotten_topics_marker: u8,
    pub rack_id_marker: u8,
}

impl FetchFields {
    /// Whether the lengths fit their counts on the wire: the client id a
    /// 16-bit length, the topics and each topic's partitions a compact
    /// array.
    pub open spec fn well_formed(self) -> bool {
        &&& self.client_id.len() <= 0xffff
        &&& self.topics.len() <= MAX_COMPACT_LEN
        &&& forall|i: int|
            0 <= i < self.topics.len() ==> (#[trigger] self.topics[i]).partitions.len()
                <= MAX_COMPACT_LEN
    }
}

/// The 33 bytes of one partition entry.
#[verifier::opaque]
pub open spec fn encode_partition(fields: PartitionFields) -> Seq<u8> {
    be_bytes_4(fields.partition as int) + be_bytes_4(fields.current_leader_epoch as int)
        + be_bytes_8(fields.fetch_offset as int) + be_bytes_4(fields.last_fetched_epoch as int)
        + be_bytes_8(fields.log_start_offset as int) + be_bytes_4(
        fields.partition_max_bytes as int,
    ) + be_bytes_1(0)
}

/// The partition entries one after the other.
pub open spec fn encode_partitions(partitions: Seq<PartitionFields>) -> Seq<u8>
    decreases partitions.len(),
{
    if partitions.len() == 0 {
        Seq::empty()
    } else {
        encode_partitions(partitions.drop_last()) + encode_partition(partitions.last())
    }
}

/// One topic: its id, the compact array of its partitions, and a tag byte.
#[verifier::opaque]
pub open spec fn encode_topic(fields: TopicFields) -> Seq<u8> {
    be_bytes_16(fields.id as int) + be_bytes_1(fields.partitions.len() as int + 1)
        + encode_partitions(fields.partitions) + be_bytes_1(0)
}

/// The topics one after the other.
pub open spec fn encode_topics(topics: Seq<TopicFields>) -> Seq<u8>
    decreases topics.len(),
{
    if topics.len() == 0 {
        Seq::empty()
    } else {
        encode_topics(topics.drop_last()) + encode_topic(topics.last())
    }
}

/// The fixed fields between the client id and the topic array.
#[verifier::opaque]
pub open spec fn encode_limits(fields: FetchFields) -> Seq<u8> {
    be_bytes_4(fields.max_wait_ms as int) + be_bytes_4(fields.min_bytes as int) + be_bytes_4(
        fields.max_bytes as int,
    ) + be_bytes_1(fields.isolation_level as int) + be_bytes_4(fields.session_id as int)
        + be_bytes_4(fields.session_epoch as int)
}

/// The three bytes that close the body.
pub open spec fn encode_trailer(fields: FetchFields) -> Seq<u8> {
    seq![fields.forgotten_topics_marker, fields.rack_id_marker, 0u8]
}

/// The body of a fetch request.
#[verifier::opaque]
pub open spec fn encode_fetch(fields: FetchFields) -> Seq<u8> {
    be_bytes_2(fields.client_id.len() as int) + fields.client_id + be_bytes_1(0) + encode_limits(
        fields,
    ) + be_bytes_1(fields.topics.len() as int + 1) + encode_topics(fields.topics)
        + encode_trailer(fields)
}

/// What the endpoint keeps of the topics: their ids, in their order.
pub open spec fn kept_topics(topics: Seq<TopicFields>) -> Seq<Topic> {
    Seq::new(topics.len(), |i: int| Topic { id: topics[i].id })
}

/// One partition entry is 33 bytes wide.
pub proof fn lemma_encode_partition_len(fields: PartitionFields)
    ensures
        encode_partition(fields).len() == 33,
{
    reveal(encode_partition);
    lemma_be_bytes_4_len(fields.partition as int);
    lemma_be_bytes_4_len(fields.current_leader_epoch as int);
    lemma_be_bytes_8_len(fields.fetch_offset as int);
    lemma_be_bytes_4_len(fields.last_fetched_epoch as int);
    lemma_be_bytes_8_len(fields.log_start_offset as int);
    lemma_be_bytes_4_len(fields.partition_max_bytes as int);
    lemma_be_bytes_2_len(0);
}

/// Partition entries occupy 33 bytes each.
pub proof fn lemma_encode_partitions_len(partitions: Seq<PartitionFields>)
    ensures
        encode_partitions(partitions).len() == 33 * partitions.len(),
    decreases partitions.len(),
{
    if partitions.len() > 0 {
        lemma_encode_partitions_len(partitions.drop_last());
        lemma_encode_partition_len(partitions.last());
    }
}

/// The parts that a written topic is made of.
struct TopicParts {
    id: Seq<u8>,
    count: Seq<u8>,
    entries: Seq<u8>,
    tag: Seq<u8>,
}

/// A written topic is made of 16 bytes that spell its id, one byte that
/// announces the number of its partitions, 33 bytes for each partition, and
/// a tag byte.
proof fn lemma_topic_parts(fields: TopicFields) -> (parts: TopicParts)
    requires
        fields.partitions.len() <= MAX_COMPACT_LEN,
    ensures
        encode_topic(fields) == parts.id + parts.count + parts.entries + parts.tag,
        parts.id.len() == 16,
        be_value_16(parts.id) == fields.id,
        parts.count.len() == 1,
        compact_len(parts.count[0]) == fields.partitions.len(),
        parts.entries.len() == 33 * fields.partitions.len(),
        parts.tag.len() == 1,
{
    reveal(encode_topic);
    lemma_be_bytes_16_len(fields.id as int);
    lemma_be_round_trip_16(fields.id as int);
    lemma_encode_partitions_len(fields.partitions);
    TopicParts {
        id: be_bytes_16(fields.id as int),
        count: be_bytes_1(fields.partitions.len() as int + 1),
        entries: encode_partitions(fields.partitions),
        tag: be_bytes_1(0),
    }
}

/// A topic laid out as an id, a count byte, partition entries of the
/// counted width and a tag byte decodes to the number that the id spells,
/// and the read ends behind the tag byte.
proof fn lemma_decode_topic_parts(parts: TopicParts, rest: Seq<u8>)
    requires
        parts.id.len() == 16,
        parts.count.len() == 1,
        parts.tag.len() == 1,
        parts.entries.len() == 33 * compact_len(parts.count[0]),
    ensures
        decode_topic(parts.id + parts.count + parts.entries + parts.tag + rest) == Ok::<
            _,
            DecodeError,
        >((Topic { id: be_value_16(parts.id) as u128 }, rest)),
{
    let behind_id = parts.count + parts.entries + parts.tag + rest;
    let bytes = parts.id + parts.count + parts.entries + parts.tag + rest;
    assert(bytes[16] == parts.count[0]);
    assert(bytes == parts.id + behind_id);
    lemma_be_value_16_of_front(parts.id, behind_id);
    assert(bytes.skip(18 + 33 * compact_len(parts.count[0]) as int) == rest);
}

/// A written topic is read back as its id, and the read ends where the
/// topic ends.
pub proof fn lemma_decode_encoded_topic(fields: TopicFields, rest: Seq<u8>)
    requires
        fields.partitions.len() <= MAX_COMPACT_LEN,
    ensures
        decode_topic(encode_topic(fields) + rest) == Ok::<_, DecodeError>(
            (Topic { id: fields.id }, rest),
        ),
{
    let parts = lemma_topic_parts(fields);
    lemma_decode_topic_parts(parts, rest);
}

/// Written topics are read back as their ids in their order, and the read
/// ends where the last topic ends.
pub proof fn lemma_decode_encoded_topics(topics: Seq<TopicFields>, rest: Seq<u8>)
    requires
        forall|i: int|
            0 <= i < topics.len() ==> (#[trigger] topics[i]).partitions.len() <= MAX_COMPACT_LEN,
    ensures
        decode_topics(encode_topics(topics) + rest, topics.len()) == Ok::<_, DecodeError>(
            (kept_topics(topics), rest),
        ),
    decreases topics.len(),
{
    if topics.len() == 0 {
        assert(encode_topics(topics) + rest == rest);
        assert(kept_topics(topics) == Seq::<Topic>::empty());
    } else {
        let front = topics.drop_last();
        let last = topics.last();
        assert(encode_topics(topics) + rest == encode_topics(front) + (encode_topic(last) + rest));
        lemma_decode_encoded_topics(front, encode_topic(last) + rest);
        lemma_decode_encoded_topic(last, rest);
        assert(kept_topics(front).push(Topic { id: last.id }) == kept_topics(topics));
    }
}

/// A written 32-bit number that sits behind 13 other bytes is read back by
/// skipping them, whatever follows it.
proof fn lemma_read_behind_13(front: Seq<u8>, value: i32, back: Seq<u8>)
    requires
        front.len() == 13,
    ensures
        signed(be_value_4((front + be_bytes_4(value as int) + back).skip(13)), 0x1_0000_0000)
            == value,
{
    let field = be_bytes_4(value as int);
    lemma_be_bytes_4_len(value as int);
    assert((front + field + back).skip(13) == field + back);
    lemma_be_value_of_front(field, back);
    lemma_be_round_trip_4(value as int);
}

/// The fixed fields are 21 bytes wide, and the number spelled 13 bytes in
/// is the session id.
proof fn lemma_session_id_in_limits(fields: FetchFields)
    ensures
        encode_limits(fields).len() == 21,
        signed(be_value_4(encode_limits(fields).skip(13)), 0x1_0000_0000) == fields.session_id,
{
    reveal(encode_limits);
    let front = be_bytes_4(fields.max_wait_ms as int) + be_bytes_4(fields.min_bytes as int)
        + be_bytes_4(fields.max_bytes as int) + be_bytes_1(fields.isolation_level as int);
    assert(front.len() == 13) by {
        lemma_be_bytes_4_len(fields.max_wait_ms as int);
        lemma_be_bytes_4_len(fields.min_bytes as int);
        lemma_be_bytes_4_len(fields.max_bytes as int);
        lemma_be_bytes_2_len(fields.isolation_level as int);
    }
    lemma_be_bytes_4_len(fields.session_id as int);
    lemma_be_bytes_4_len(fields.session_epoch as int);
    lemma_read_behind_13(front, fields.session_id, be_bytes_4(fields.session_epoch as int));
}

/// The parts that a written fetch body is made of.
struct FetchParts {
    length: Seq<u8>,
    client_id: Seq<u8>,
    tag: Seq<u8>,
    limits: Seq<u8>,
    count: Seq<u8>,
    entries: Seq<u8>,
    trailer: Seq<u8>,
}

impl FetchParts {
    /// The parts one after the other.
    spec fn joined(self) -> Seq<u8> {
        self.length + self.client_id + self.tag + self.limits + self.count + self.entries
            + self.trailer
    }

    /// Whether the parts have the widths of the layout: two bytes that spell
    /// the length of the client id, a tag byte, 21 bytes of fixed fields, a
    /// count byte, and three closing bytes.
    spec fn well_formed(self) -> bool {
        &&& self.length.len() == 2
        &&& be_value_2(self.length) == self.client_id.len()
        &&& self.tag.len() == 1
        &&& self.limits.len() == 21
        &&& self.count.len() == 1
        &&& self.trailer.len() == 3
    }
}

/// A written fetch body is made of parts with the widths of the layout;
/// its fixed fields spell the session id 13 bytes in, its count byte
/// announces the number of its topics, and its entries are the written
/// topics.
proof fn lemma_fetch_parts(fields: FetchFields) -> (parts: FetchParts)
    requires
        fields.well_formed(),
    ensures
        encode_fetch(fields) == parts.joined(),
        parts.well_formed(),
        signed(be_value_4(parts.limits.skip(13)), 0x1_0000_0000) == fields.session_id,
        compact_len(parts.count[0]) == fields.topics.len(),
        parts.entries == encode_topics(fields.topics),
{
    reveal(encode_fetch);
    lemma_be_round_trip_2(fields.client_id.len() as int);
    lemma_session_id_in_limits(fields);
    FetchParts {
        length: be_bytes_2(fields.client_id.len() as int),
        client_id: fields.client_id,
        tag: be_bytes_1(0),
        limits: encode_limits(fields),
        count: be_bytes_1(fields.topics.len() as int + 1),
        entries: encode_topics(fields.topics),
        trailer: encode_trailer(fields),
    }
}

/// A fetch body made of well-formed parts decodes as far as its topics do:
/// the session id is the number spelled 13 bytes into the fixed fields, the
/// topics are those that the entries decode to, and the read ends behind
/// the three closing bytes.
proof fn lemma_decode_fetch_parts(
    header: RequestHeader,
    parts: FetchParts,
    rest: Seq<u8>,
    topics: Seq<Topic>,
)
    requires
        parts.well_formed(),
        decode_topics(parts.entries + (parts.trailer + rest), compact_len(parts.count[0]))
            == Ok::<_, DecodeError>((topics, parts.trailer + rest)),
    ensures
        decode_fetch(header, parts.joined() + rest) == Ok::<_, DecodeError>(
            (
                FetchView {
                    header,
                    session_id: signed(be_value_4(parts.limits.skip(13)), 0x1_0000_0000) as i32,
                    topics,
                },
                rest,
            ),
        ),
{
    let behind_length = parts.client_id + parts.tag + parts.limits + parts.count + parts.entries
        + parts.trailer + rest;
    let behind_count = parts.entries + (parts.trailer + rest);
    let bytes = parts.joined() + rest;
    assert(bytes == parts.length + behind_length);
    lemma_be_value_of_front(parts.length, behind_length);
    let fields = bytes.skip(2 + be_value_2(bytes) + 1);
    assert(fields == parts.limits + parts.count + behind_count);
    assert(fields.skip(13) == parts.limits.skip(13) + (parts.count + behind_count));
    lemma_be_value_of_front(parts.limits.skip(13), parts.count + behind_count);
    assert(fields[21] == parts.count[0]);
    assert(fields.skip(22) == behind_count);
    assert((parts.trailer + rest).skip(3) == rest);
}

/// Encoding then decoding the body of a fetch request gives back the
/// session id and the topic ids in their order, with any number of topics
/// and of partitions that the format can count, and leaves what followed
/// the body. The partition entries, the limits and the client id are not
/// part of what comes back.
pub proof fn fetch_round_trip(header: RequestHeader, fields: FetchFields, rest: Seq<u8>)
    requires
        fields.well_formed(),
    ensures
        decode_fetch(header, encode_fetch(fields) + rest) == Ok::<_, DecodeError>(
            (
                FetchView {
                    header,
                    session_id: fields.session_id,
                    topics: kept_topics(fields.topics),
                },
                rest,
            ),
        ),
{
    let parts = lemma_fetch_parts(fields);
    lemma_decode_encoded_topics(fields.topics, parts.trailer + rest);
    lemma_decode_fetch_parts(header, parts, rest, kept_topics(fields.topics));
}

} // verus!
