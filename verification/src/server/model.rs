//! The data model shared by requests and responses.

use crate::server::wire::{be_bytes_1, be_bytes_2, buf_put_i16, buf_put_i8};
use vstd::prelude::*;

verus! {

/// The largest number of entries a compact array of this protocol can carry:
/// its count travels in one byte as the number of entries plus one.
pub const MAX_COMPACT_LEN: usize = 254;

/// Why a frame could not be decoded into a request.
#[derive(Copy, Clone, Debug, PartialEq, Eq, Structural)]
pub enum DecodeError {
    /// The header names an API key outside the supported set; the raw value
    /// is kept.
    UnknownApiKey(i16),
    /// The frame ended before a field was complete.
    BufferUnderrun,
}

/// A value with a binary form on the wire.
pub trait WireSerialization {
    /// Whether the value fits the format's one-byte array counts.
    spec fn encodable(&self) -> bool;

    /// The bytes that stand for the value on the wire.
    spec fn wire_format(&self) -> Seq<u8>;

    /// Appends the value's wire form to `buffer`.
    fn to_wire_format(&self, buffer: &mut Vec<u8>)
        requires
            self.encodable(),
        ensures
            final(buffer)@ == old(buffer)@ + self.wire_format(),
    ;
}

/// The request types this endpoint understands.
#[derive(Copy, Clone, Debug, PartialEq, Eq, Structural)]
pub enum ApiKey {
    Fetch,
    Versions,
}

impl ApiKey {
    /// The number that names the key in a request header.
    pub open spec fn spec_code(self) -> i16 {
        match self {
            ApiKey::Fetch => 1,
            ApiKey::Versions => 18,
        }
    }

    /// The key that `value` names, if it names one.
    pub open spec fn spec_parse(value: i16) -> Result<ApiKey, DecodeError> {
        if value == 1 {
            Ok(ApiKey::Fetch)
        } else if value == 18 {
            Ok(ApiKey::Versions)
        } else {
            Err(DecodeError::UnknownApiKey(value))
        }
    }

    /// The number that names the key in a request header.
    pub fn code(self) -> (code: i16)
        ensures
            code == self.spec_code(),
    {
        match self {
            ApiKey::Fetch => 1,
            ApiKey::Versions => 18,
        }
    }

    /// Resolves a header's key number. A number that names no key is an
    /// error that carries the number; nothing is defaulted.
    pub fn parse(value: i16) -> (result: Result<ApiKey, DecodeError>)
        ensures
            result == Self::spec_parse(value),
            match result {
                Ok(key) => key.spec_code() == value,
                Err(error) => error == DecodeError::UnknownApiKey(value) && forall|key: ApiKey|
                    key.spec_code() != value,
            },
    {
        match value {
            1 => Ok(ApiKey::Fetch),
            18 => Ok(ApiKey::Versions),
            _ => Err(DecodeError::UnknownApiKey(value)),
        }
    }

    /// Parsing undoes `code`: every key is found again from its number.
    pub proof fn parse_inverts_code(self)
        ensures
            Self::spec_parse(self.spec_code()) == Ok::<ApiKey, DecodeError>(self),
    {
    }
}

/// The inclusive range of versions accepted for one API key.
#[derive(Copy, Clone, Debug, PartialEq, Eq, Structural)]
pub struct ApiKeyVersions {
    pub api_key: ApiKey,
    pub min_version: i16,
    pub max_version: i16,
}

impl ApiKeyVersions {
    /// Whether `version` lies in the range, both ends included.
    pub open spec fn contains(&self, version: i16) -> bool {
        self.min_version <= version <= self.max_version
    }

    /// Whether `version` lies in the range, both ends included.
    pub fn is_version_valid(&self, version: i16) -> (valid: bool)
        ensures
            valid == self.contains(version),
    {
        self.min_version <= version && version <= self.max_version
    }
}

/// The API keys that are advertised to clients.
#[derive(Copy, Clone, Debug, PartialEq, Eq, Structural)]
pub enum ApiKeyVariant {
    Fetch,
    Versions,
}

impl ApiKeyVariant {
    /// The registered version range of the key.
    pub open spec fn spec_versions(&self) -> ApiKeyVersions {
        match self {
            ApiKeyVariant::Versions => ApiKeyVersions {
                api_key: ApiKey::Versions,
                min_version: 1,
                max_version: 4,
            },
            ApiKeyVariant::Fetch => ApiKeyVersions {
                api_key: ApiKey::Fetch,
                min_version: 0,
                max_version: 16,
            },
        }
    }

    /// The advertised entry of a request's key.
    pub open spec fn of(key: ApiKey) -> ApiKeyVariant {
        match key {
            ApiKey::Versions => ApiKeyVariant::Versions,
            ApiKey::Fetch => ApiKeyVariant::Fetch,
        }
    }

    /// The registered version range of the key.
    pub fn versions(&self) -> (range: ApiKeyVersions)
        ensures
            range == self.spec_versions(),
    {
        match self {
            ApiKeyVariant::Versions => ApiKeyVersions {
                api_key: ApiKey::Versions,
                min_version: 1,
                max_version: 4,
            },
            ApiKeyVariant::Fetch => ApiKeyVersions {
                api_key: ApiKey::Fetch,
                min_version: 0,
                max_version: 16,
            },
        }
    }
}

impl WireSerialization for ApiKeyVariant {
    open spec fn encodable(&self) -> bool {
        true
    }

    /// Key number, lowest and highest version, each in two bytes, then an
    /// empty tag buffer.
    open spec fn wire_format(&self) -> Seq<u8> {
        be_bytes_2(self.spec_versions().api_key.spec_code() as int) + be_bytes_2(
            self.spec_versions().min_version as int,
        ) + be_bytes_2(self.spec_versions().max_version as int) + be_bytes_1(0)
    }

    fn to_wire_format(&self, buffer: &mut Vec<u8>) {
        let version_info = self.versions();
        buf_put_i16(buffer, version_info.api_key.code());
        buf_put_i16(buffer, version_info.min_version);
        buf_put_i16(buffer, version_info.max_version);
        buf_put_i8(buffer, 0);
    }
}

/// A topic of a fetch request: a 128-bit identifier.
#[derive(Copy, Clone, Debug, PartialEq, Eq, Structural)]
pub struct Topic {
    pub id: u128,
}

} // verus!
