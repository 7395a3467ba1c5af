use kafka_broker::server::model::{ApiKey, DecodeError, Topic};
use kafka_broker::server::requests::{ApiVersions, Fetch, Request, RequestHeader};
use kafka_broker::server::{frame_length, handle_request, process_frame, ErrorCode};

#[test]
fn test_handle_versions_request() {
    let result = handle_request(&Request::ApiVersions(ApiVersions {
        header: RequestHeader {
            request_api_key: ApiKey::Versions,
            request_api_version: 4,
            correlation_id: 311908132,
        },
    }));

    assert_eq!(
        result,
        vec![
            0, 0, 0, 26, 18, 151, 87, 36, 0, 0, 3, 0, 1, 0, 0, 0, 16, 0, 0, 18, 0, 1, 0, 4, 0,
            0, 0, 0, 0, 0
        ]
    );
}

#[test]
fn test_handle_connection_should_fail_with_body_35_if_the_api_version_is_incorrect() {
    let result = handle_request(&Request::ApiVersions(ApiVersions {
        header: RequestHeader {
            request_api_key: ApiKey::Versions,
            request_api_version: -1,
            correlation_id: 311908132,
        },
    }));

    assert_eq!(
        result,
        vec![
            0,
            0,
            0,
            6,
            18,
            151,
            87,
            36,
            0,
            ErrorCode::UnsupportedVersion.code() as u8
        ]
    );
}

#[test]
fn error_codes_have_their_wire_numbers() {
    assert_eq!(ErrorCode::NoError.code(), 0);
    assert_eq!(ErrorCode::UnsupportedVersion.code(), 35);
}

#[test]
fn handle_fetch_request_frames_the_encoded_body() {
    let result = handle_request(&Request::Fetch(Fetch {
        header: RequestHeader {
            request_api_key: ApiKey::Fetch,
            request_api_version: 16,
            correlation_id: -2,
        },
        session_id: 85,
        topics: vec![Topic { id: 37 }],
    }));

    let mut expected: Vec<u8> = vec![0, 0, 0, 72, 255, 255, 255, 254];
    expected.extend_from_slice(&[0, 0, 0, 0, 0, 0, 0, 0, 0, 0, 85, 2]);
    expected.extend_from_slice(&[0, 0, 0, 0, 0, 0, 0, 0, 0, 0, 0, 0, 0, 0, 0, 37]);
    expected.extend_from_slice(&[2, 0, 0, 0, 0, 0, 100]);
    expected.extend_from_slice(&[0; 24]);
    expected.extend_from_slice(&[0, 0, 0, 0, 0, 1, 0, 0, 0]);
    assert_eq!(result.len(), 4 + 72);
    assert_eq!(result, expected);
}

#[test]
fn handle_fetch_request_with_unsupported_version_has_no_body() {
    let result = handle_request(&Request::Fetch(Fetch {
        header: RequestHeader {
            request_api_key: ApiKey::Fetch,
            request_api_version: 17,
            correlation_id: 1,
        },
        session_id: 85,
        topics: vec![Topic { id: 37 }],
    }));
    assert_eq!(result, vec![0, 0, 0, 6, 0, 0, 0, 1, 0, 35]);
}

#[test]
fn handling_the_same_request_twice_gives_the_same_bytes() {
    let request = Request::Fetch(Fetch {
        header: RequestHeader {
            request_api_key: ApiKey::Fetch,
            request_api_version: 3,
            correlation_id: 99,
        },
        session_id: 4,
        topics: vec![Topic { id: 5 }, Topic { id: 6 }],
    });
    let first = handle_request(&request);
    let second = handle_request(&request);
    assert_eq!(first, second);
    assert_eq!(first.len(), 4 + 4 + 13 + 2 * 55);
}

#[test]
fn process_frame_answers_a_versions_request() {
    let payload: Vec<u8> = vec![0, 18, 0, 4, 18, 151, 87, 36];
    assert_eq!(
        process_frame(&payload),
        Ok(vec![
            0, 0, 0, 26, 18, 151, 87, 36, 0, 0, 3, 0, 1, 0, 0, 0, 16, 0, 0, 18, 0, 1, 0, 4, 0,
            0, 0, 0, 0, 0
        ])
    );
}

#[test]
fn process_frame_reports_an_unsupported_version() {
    let payload: Vec<u8> = vec![0, 18, 255, 255, 18, 151, 87, 36];
    assert_eq!(process_frame(&payload), Ok(vec![0, 0, 0, 6, 18, 151, 87, 36, 0, 35]));
}

#[test]
fn process_frame_skips_the_body_of_an_unsupported_version() {
    // A fetch header with version 17 and a body that stops after one byte.
    let payload: Vec<u8> = vec![0, 1, 0, 17, 0, 0, 0, 9, 0];
    assert_eq!(process_frame(&payload), Ok(vec![0, 0, 0, 6, 0, 0, 0, 9, 0, 35]));
    // With a supported version the same body is an underrun.
    let payload: Vec<u8> = vec![0, 1, 0, 16, 0, 0, 0, 9, 0];
    assert_eq!(process_frame(&payload), Err(DecodeError::BufferUnderrun));
}

#[test]
fn process_frame_fails_on_an_unknown_api_key() {
    let payload: Vec<u8> = vec![0, 2, 0, 4, 0, 0, 0, 1];
    assert_eq!(process_frame(&payload), Err(DecodeError::UnknownApiKey(2)));
    let payload: Vec<u8> = vec![255, 255];
    assert_eq!(process_frame(&payload), Err(DecodeError::UnknownApiKey(-1)));
}

#[test]
fn process_frame_fails_on_a_short_header() {
    assert_eq!(process_frame(&[]), Err(DecodeError::BufferUnderrun));
    assert_eq!(process_frame(&[0]), Err(DecodeError::BufferUnderrun));
    assert_eq!(process_frame(&[0, 18, 0, 4, 0, 0, 0]), Err(DecodeError::BufferUnderrun));
}

#[test]
fn process_frame_agrees_with_parse_then_handle() {
    let payload: Vec<u8> = vec![
        0, 1, 0, 4, 0, 0, 0, 42, 0, 0, 0, 0, 0, 0, 1, 0, 0, 0, 2, 0, 0, 0, 3, 4, 0, 0, 0, 5, 0,
        0, 0, 6, 1, 0, 0, 0,
    ];
    let request = Request::parse_request(&payload).unwrap();
    assert_eq!(process_frame(&payload), Ok(handle_request(&request)));
}

#[test]
fn frame_length_reads_a_big_endian_signed_prefix() {
    assert_eq!(frame_length(&[0, 0, 0, 8]), Some(8));
    assert_eq!(frame_length(&[0, 0, 1, 2]), Some(258));
    assert_eq!(frame_length(&[0, 0, 0, 0]), Some(0));
    assert_eq!(frame_length(&[127, 255, 255, 255]), Some(2147483647));
    assert_eq!(frame_length(&[255, 255, 255, 255]), None);
    assert_eq!(frame_length(&[128, 0, 0, 0]), None);
    assert_eq!(frame_length(&[0, 0, 8]), None);
}

#[test]
fn response_frames_announce_their_length_and_echo_the_correlation_id() {
    let requests = [
        Request::ApiVersions(ApiVersions {
            header: RequestHeader {
                request_api_key: ApiKey::Versions,
                request_api_version: 1,
                correlation_id: -5,
            },
        }),
        Request::ApiVersions(ApiVersions {
            header: RequestHeader {
                request_api_key: ApiKey::Versions,
                request_api_version: 0,
                correlation_id: i32::MIN,
            },
        }),
        Request::Fetch(Fetch {
            header: RequestHeader {
                request_api_key: ApiKey::Fetch,
                request_api_version: 0,
                correlation_id: i32::MAX,
            },
            session_id: 1,
            topics: (0..254u32).map(|i| Topic { id: i as u128 }).collect(),
        }),
    ];
    for request in &requests {
        let frame = handle_request(request);
        assert_eq!(frame_length(&frame[..4]), Some(frame.len() - 4));
        let echoed = i32::from_be_bytes([frame[4], frame[5], frame[6], frame[7]]);
        let expected = match request {
            Request::ApiVersions(versions) => versions.header.correlation_id,
            Request::Fetch(fetch) => fetch.header.correlation_id,
        };
        assert_eq!(echoed, expected);
    }
    let largest = handle_request(&requests[2]);
    assert_eq!(largest.len(), 4 + 4 + 13 + 254 * 55);
}
