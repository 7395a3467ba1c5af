use bytes::BufMut;
use kafka_broker::server::frame_length;
use kafka_broker::server::model::{ApiKey, DecodeError, Topic};
use kafka_broker::server::requests::{ApiVersions, Fetch, Request, RequestHeader};
use kafka_broker::server::wire::ByteCursor;

#[test]
fn test_parse_request_api_versions_request() {
    let request_body_length = 8;
    let request_api_key: ApiKey = ApiKey::Versions;
    let request_api_version: i16 = 2;
    let correlation_id: i32 = 42;

    let mut request_data = vec![];
    request_data.put_i32(request_body_length as i32);
    request_data.put_i16(request_api_key.code());
    request_data.put_i16(request_api_version);
    request_data.put_i32(correlation_id);

    let length = frame_length(&request_data[..4]).unwrap();
    assert_eq!(length, request_data.len() - 4);
    let request = Request::parse_request(&request_data[4..4 + length]).unwrap();
    let expected_request = Request::ApiVersions(ApiVersions {
        header: RequestHeader {
            request_api_key: request_api_key,
            request_api_version: request_api_version,
            correlation_id: correlation_id,
        },
    });

    assert_eq!(request, expected_request);
}

#[test]
fn test_parse_fetch_request() {
    let mut request_data = vec![];

    let request_body_length = 89;
    let request_api_key: ApiKey = ApiKey::Fetch;
    let request_api_version: i16 = 18;
    let correlation_id: i32 = 42;

    request_data.put_i32(request_body_length as i32);
    request_data.put_i16(request_api_key.code());
    request_data.put_i16(request_api_version);
    request_data.put_i32(correlation_id);

    let client_id_len = 2;
    request_data.put_u16(client_id_len);
    request_data.put_bytes(0, client_id_len as usize);
    request_data.put_u8(0);

    let max_wait_ms = 1;
    let min_bytes = 2;
    let max_bytes = 3;
    let isolation_level = 4;
    let session_id = 5;
    let session_epoch = 6;
    request_data.put_i32(max_wait_ms);
    request_data.put_i32(min_bytes);
    request_data.put_i32(max_bytes);
    request_data.put_i8(isolation_level);
    request_data.put_i32(session_id);
    request_data.put_i32(session_epoch);

    let topic_count = 1;
    request_data.put_u8(topic_count + 1);

    for _ in 0..topic_count {
        let uuid = 7;
        request_data.put_u128(uuid);
        let partition_count = 1;
        request_data.put_u8(partition_count + 1);
        for _ in 0..partition_count {
            let partition = 8;
            let current_leader_epoch = 9;
            let fetch_offset = 10;
            let last_fetched_epoch = 11;
            let log_start_offset = 12;
            let partition_max_bytes = 13;
            request_data.put_u32(partition);
            request_data.put_u32(current_leader_epoch);
            request_data.put_u64(fetch_offset);
            request_data.put_u32(last_fetched_epoch);
            request_data.put_u64(log_start_offset);
            request_data.put_u32(partition_max_bytes);
            request_data.put_u8(0); // TAG_BUFFER
        }
        request_data.put_u8(0); // TAG_BUFFER
    }
    let forgotten_topics_data_count = 1;
    request_data.put_u8(forgotten_topics_data_count - 1);

    let rack_id_len = 0;
    request_data.put_u8(rack_id_len + 1);

    request_data.put_u8(0); // TAG_BUFFER

    let length = frame_length(&request_data[..4]).unwrap();
    assert_eq!(length, request_data.len() - 4);
    let request = Request::parse_request(&request_data[4..4 + length]).unwrap();
    let expected_request = Request::Fetch(Fetch {
        header: RequestHeader {
            request_api_key: request_api_key,
            request_api_version: request_api_version,
            correlation_id: correlation_id,
        },
        session_id: 5,
        topics: vec![Topic { id: 7 }],
    });

    assert_eq!(request, expected_request);
}

fn fetch_payload(
    client_id: &[u8],
    session_id: i32,
    topics: &[(u128, u8)],
    topic_marker: u8,
    trailer: &[u8],
) -> Vec<u8> {
    let mut data = vec![];
    data.put_i16(1);
    data.put_i16(16);
    data.put_i32(1234);
    data.put_u16(client_id.len() as u16);
    data.put_slice(client_id);
    data.put_u8(0);
    data.put_i32(500);
    data.put_i32(1);
    data.put_i32(i32::MAX);
    data.put_i8(-1);
    data.put_i32(session_id);
    data.put_i32(-7);
    data.put_u8(topic_marker);
    for (id, partitions) in topics {
        data.put_u128(*id);
        data.put_u8(partitions + 1);
        for partition in 0..*partitions {
            data.put_u32(partition as u32);
            data.put_u32(u32::MAX);
            data.put_u64(u64::MAX);
            data.put_u32(3);
            data.put_u64(1 << 40);
            data.put_u32(1 << 20);
            data.put_u8(0);
        }
        data.put_u8(0);
    }
    data.put_slice(trailer);
    data
}

fn fetch_request(session_id: i32, ids: &[u128]) -> Request {
    Request::Fetch(Fetch {
        header: RequestHeader {
            request_api_key: ApiKey::Fetch,
            request_api_version: 16,
            correlation_id: 1234,
        },
        session_id,
        topics: ids.iter().map(|id| Topic { id: *id }).collect(),
    })
}

#[test]
fn fetch_round_trip_keeps_session_and_topic_ids_in_order() {
    let topics = [(1u128 << 100, 3u8), (5, 0), (u128::MAX, 1), (5, 2)];
    let payload = fetch_payload(b"client", -85, &topics, 5, &[1, 1, 0]);
    assert_eq!(
        Request::parse_request(&payload),
        Ok(fetch_request(-85, &[1u128 << 100, 5, u128::MAX, 5]))
    );
}

#[test]
fn fetch_round_trip_with_the_most_topics_and_partitions() {
    let topics: Vec<(u128, u8)> = (0..254u32).map(|i| (i as u128 * 3, 254u8)).collect();
    let ids: Vec<u128> = topics.iter().map(|topic| topic.0).collect();
    let payload = fetch_payload(&[0; 300], i32::MIN, &topics, 255, &[1, 1, 0]);
    assert_eq!(payload.len(), 8 + 2 + 300 + 1 + 21 + 1 + 254 * (18 + 254 * 33) + 3);
    assert_eq!(Request::parse_request(&payload), Ok(fetch_request(i32::MIN, &ids)));
}

#[test]
fn a_zero_topic_count_byte_means_no_topics() {
    let payload = fetch_payload(b"", 9, &[], 0, &[1, 1, 0]);
    assert_eq!(Request::parse_request(&payload), Ok(fetch_request(9, &[])));
    let payload = fetch_payload(b"", 9, &[], 1, &[1, 1, 0]);
    assert_eq!(Request::parse_request(&payload), Ok(fetch_request(9, &[])));
}

#[test]
fn a_zero_partition_count_byte_means_no_partitions() {
    let mut payload = fetch_payload(b"", 9, &[], 2, &[]);
    payload.put_u128(37);
    payload.put_u8(0);
    payload.put_u8(0);
    payload.put_slice(&[1, 1, 0]);
    assert_eq!(Request::parse_request(&payload), Ok(fetch_request(9, &[37])));
}

#[test]
fn closing_bytes_are_consumed_whatever_they_hold() {
    let payload = fetch_payload(b"id", 9, &[(37, 0)], 2, &[0, 0, 0]);
    assert_eq!(Request::parse_request(&payload), Ok(fetch_request(9, &[37])));
    let payload = fetch_payload(b"id", 9, &[(37, 0)], 2, &[255, 200, 9]);
    assert_eq!(Request::parse_request(&payload), Ok(fetch_request(9, &[37])));
}

#[test]
fn bytes_behind_the_body_are_ignored() {
    let mut payload = fetch_payload(b"id", 9, &[(37, 1)], 2, &[1, 1, 0]);
    payload.put_slice(&[9, 9, 9, 9]);
    assert_eq!(Request::parse_request(&payload), Ok(fetch_request(9, &[37])));
    let versions: Vec<u8> = vec![0, 18, 0, 3, 0, 0, 0, 1, 77, 77];
    assert_eq!(
        Request::parse_request(&versions),
        Ok(Request::ApiVersions(ApiVersions {
            header: RequestHeader {
                request_api_key: ApiKey::Versions,
                request_api_version: 3,
                correlation_id: 1,
            },
        }))
    );
}

#[test]
fn every_truncation_of_a_fetch_payload_is_an_underrun() {
    let payload = fetch_payload(b"abc", 9, &[(37, 2), (38, 0)], 3, &[1, 1, 0]);
    assert!(Request::parse_request(&payload).is_ok());
    for cut in 0..payload.len() {
        assert_eq!(
            Request::parse_request(&payload[..cut]),
            Err(DecodeError::BufferUnderrun),
            "{}",
            cut
        );
    }
}

#[test]
fn a_client_id_longer_than_the_frame_is_an_underrun() {
    let mut payload = vec![];
    payload.put_i16(1);
    payload.put_i16(4);
    payload.put_i32(1);
    payload.put_u16(u16::MAX);
    payload.put_slice(&[0; 100]);
    assert_eq!(Request::parse_request(&payload), Err(DecodeError::BufferUnderrun));
}

#[test]
fn more_topics_announced_than_sent_is_an_underrun() {
    let payload = fetch_payload(b"", 9, &[(37, 0)], 3, &[1, 1, 0]);
    assert_eq!(Request::parse_request(&payload), Err(DecodeError::BufferUnderrun));
}

#[test]
fn an_unknown_key_is_reported_before_the_rest_of_the_header_is_read() {
    assert_eq!(Request::parse_request(&[0, 3]), Err(DecodeError::UnknownApiKey(3)));
    assert_eq!(
        Request::parse_request(&[128, 0, 0, 0, 0, 0, 0, 0]),
        Err(DecodeError::UnknownApiKey(i16::MIN))
    );
    assert_eq!(Request::parse_request(&[0]), Err(DecodeError::BufferUnderrun));
    assert_eq!(Request::parse_request(&[0, 18, 0]), Err(DecodeError::BufferUnderrun));
}

#[test]
fn header_fields_are_signed_big_endian() {
    let payload: Vec<u8> = vec![0, 18, 255, 254, 128, 0, 0, 1];
    assert_eq!(
        Request::parse_request(&payload),
        Ok(Request::ApiVersions(ApiVersions {
            header: RequestHeader {
                request_api_key: ApiKey::Versions,
                request_api_version: -2,
                correlation_id: i32::MIN + 1,
            },
        }))
    );
    let mut cursor = ByteCursor::new(&payload);
    assert_eq!(
        RequestHeader::parse(&mut cursor),
        Ok(RequestHeader {
            request_api_key: ApiKey::Versions,
            request_api_version: -2,
            correlation_id: i32::MIN + 1,
        })
    );
    assert_eq!(cursor.remaining(), 0);
}

#[test]
fn parse_topic_leaves_the_cursor_behind_the_topic() {
    let mut data = vec![];
    data.put_u128(0xfeed);
    data.put_u8(3);
    data.put_slice(&[7; 66]);
    data.put_u8(0);
    data.put_slice(&[1, 2, 3]);
    let mut cursor = ByteCursor::new(&data);
    assert_eq!(Request::parse_topic(&mut cursor), Ok(Topic { id: 0xfeed }));
    assert_eq!(cursor.remaining(), 3);
    assert_eq!(cursor.get_u8(), Ok(1));
}

#[test]
fn parse_fetch_leaves_the_cursor_behind_the_body() {
    let payload = fetch_payload(b"xy", 77, &[(1, 1)], 2, &[1, 1, 0, 42]);
    let mut cursor = ByteCursor::new(&payload);
    let header = RequestHeader::parse(&mut cursor).unwrap();
    let fetch = Request::parse_fetch(header, &mut cursor).unwrap();
    assert_eq!(fetch.session_id, 77);
    assert_eq!(fetch.topics, vec![Topic { id: 1 }]);
    assert_eq!(cursor.remaining(), 1);
    assert_eq!(cursor.get_u8(), Ok(42));
}

#[test]
fn parse_api_versions_reads_nothing() {
    let data: Vec<u8> = vec![1, 2, 3];
    let mut cursor = ByteCursor::new(&data);
    let header = RequestHeader {
        request_api_key: ApiKey::Versions,
        request_api_version: 1,
        correlation_id: 2,
    };
    assert_eq!(Request::parse_api_versions(header, &mut cursor), ApiVersions { header });
    assert_eq!(cursor.remaining(), 3);
}

#[test]
fn parse_body_follows_the_key_of_the_header() {
    let payload = fetch_payload(b"", 3, &[], 1, &[1, 1, 0]);
    let mut cursor = ByteCursor::new(&payload);
    let header = RequestHeader::parse(&mut cursor).unwrap();
    assert_eq!(Request::parse_body(header, &mut cursor), Ok(fetch_request(3, &[])));
    let versions_header = RequestHeader {
        request_api_key: ApiKey::Versions,
        request_api_version: 16,
        correlation_id: 1234,
    };
    let mut cursor = ByteCursor::new(&payload);
    assert_eq!(
        Request::parse_body(versions_header, &mut cursor),
        Ok(Request::ApiVersions(ApiVersions { header: versions_header }))
    );
    assert_eq!(cursor.remaining(), payload.len());
}
