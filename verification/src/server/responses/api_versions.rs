//! The wire form of a version-negotiation response.

use crate::server::model::{ApiKeyVariant, WireSerialization, MAX_COMPACT_LEN};
use crate::server::responses::{ApiVersions, ApiVersionsView};
use crate::server::wire::{be_bytes_1, be_bytes_2, be_bytes_4, buf_put_i16, buf_put_i32, buf_put_i8, buf_put_u8};
use crate::server::ErrorCode;
use vstd::prelude::*;

verus! {

/// The bytes of the advertised entries, one after the other in their order.
pub open spec fn entries_format(entries: Seq<ApiKeyVariant>) -> Seq<u8>
    decreases entries.len(),
{
    if entries.len() == 0 {
        Seq::empty()
    } else {
        entries_format(entries.drop_last()) + entries.last().wire_format()
    }
}

/// The bytes of a version-negotiation response body: error code 0, the
/// compact array of advertised entries, the throttle time, and an empty tag
/// buffer.
pub open spec fn api_versions_format(response: ApiVersionsView) -> Seq<u8> {
    be_bytes_2(0) + be_bytes_1(response.api_key_versions.len() as int + 1) + entries_format(
        response.api_key_versions,
    ) + be_bytes_4(response.throttle_time_in_ms as int) + be_bytes_1(0)
}

/// Every advertised entry occupies 7 bytes.
pub proof fn lemma_entries_format_len(entries: Seq<ApiKeyVariant>)
    ensures
        entries_format(entries).len() == 7 * entries.len(),
    decreases entries.len(),
{
    if entries.len() > 0 {
        lemma_entries_format_len(entries.drop_last());
    }
}

/// A version-negotiation response body is 8 bytes around its entries.
pub proof fn lemma_api_versions_format_len(response: ApiVersionsView)
    ensures
        api_versions_format(response).len() == 8 + 7 * response.api_key_versions.len(),
{
    lemma_entries_format_len(response.api_key_versions);
}

impl WireSerialization for ApiVersions {
    open spec fn encodable(&self) -> bool {
        self.api_key_versions@.len() <= MAX_COMPACT_LEN
    }

    open spec fn wire_format(&self) -> Seq<u8> {
        api_versions_format(self@)
    }

    fn to_wire_format(&self, buffer: &mut Vec<u8>) {
        let outcome: Result<&ApiVersions, ErrorCode> = Ok(self);
        outcome.to_wire_format(buffer);
    }
}

impl<'a> WireSerialization for Result<&'a ApiVersions, ErrorCode> {
    open spec fn encodable(&self) -> bool {
        match self {
            Ok(response) => response.api_key_versions@.len() <= MAX_COMPACT_LEN,
            Err(_) => true,
        }
    }

    /// A response body where there is one; where there is an error, its code
    /// alone.
    open spec fn wire_format(&self) -> Seq<u8> {
        match self {
            Ok(response) => api_versions_format(response@),
            Err(error_code) => be_bytes_2(error_code.spec_code() as int),
        }
    }

    fn to_wire_format(&self, buffer: &mut Vec<u8>) {
        match self {
            Ok(response) => {
                buf_put_i16(buffer, ErrorCode::NoError.code());
                let count: usize = response.api_key_versions.len();
                buf_put_u8(buffer, count as u8 + 1);
                let ghost head = buffer@;
                let mut i: usize = 0;
                while i < count
                    invariant
                        i <= count,
                        count == response.api_key_versions@.len(),
                        buffer@ == head + entries_format(
                            response.api_key_versions@.take(i as int),
                        ),
                    decreases count - i,
                {
                    proof {
                        assert(response.api_key_versions@.take(i + 1).drop_last()
                            == response.api_key_versions@.take(i as int));
                    }
                    response.api_key_versions[i].to_wire_format(buffer);
                    i += 1;
                }
                proof {
                    assert(response.api_key_versions@.take(count as int)
                        == response.api_key_versions@);
                }
                buf_put_i32(buffer, response.throttle_time_in_ms);
                buf_put_i8(buffer, 0);
            },
            Err(error_code) => buf_put_i16(buffer, error_code.code()),
        }
    }
}

} // verus!
