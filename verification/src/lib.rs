//! A minimal broker-side endpoint for a length-framed binary RPC protocol
//! shaped after the Kafka wire protocol: request decoding, version checks,
//! dispatch and response encoding, each with a proved contract.

pub mod request_handler;
pub mod server;
