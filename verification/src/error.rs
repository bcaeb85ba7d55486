//! The failures that the forwarder's core can report.

use crate::message::DnsMessage;
use crate::remote_host::RemoteHostError;
use dns_message_parser::DecodeError;
use dns_message_parser::EncodeError;
use vstd::prelude::*;

verus! {

/// `dns_message_parser::DecodeError`: why bytes are no DNS message.
#[verifier::external_type_specification]
#[verifier::external_body]
pub struct ExDecodeError(DecodeError);

/// `dns_message_parser::EncodeError`: why a DNS message cannot be written.
#[verifier::external_type_specification]
#[verifier::external_body]
pub struct ExEncodeError(EncodeError);

/// A failure of the forwarder's core.
#[derive(Debug)]
pub enum Error {
    /// The bytes are no DNS message.
    Decode(DecodeError),
    /// The DNS message cannot be written as bytes.
    Encode(EncodeError),
    /// The session has no connection.
    IsNotConnected,
    /// The cache fallback is switched on while the cache size is zero.
    CacheSize,
    /// Every attempt to connect to the DoH server failed.
    CouldNotConnectServer,
    /// Every attempt to connect to this host and port failed.
    CouldNotConnect(String, u16),
    /// Neither the cache nor the server nor the fallback gave a response to
    /// this request.
    CouldNotGetResponse(DnsMessage),
    /// The HTTP status is not a success; holds the status code.
    HeaderStatus(u16),
    /// The content type is not `application/dns-message`; holds its value.
    HeaderContentType(Vec<u8>),
    /// The response has no content type.
    HeaderNoContentType,
    /// The DNS message is a response where a request was expected.
    DnsNotRequest(DnsMessage),
    /// The DNS message is a request where a response was expected.
    DnsNotResponse(DnsMessage),
    /// The HTTP/2 stream failed before any byte of the body arrived.
    H2,
    /// The remote host settings could not be read.
    RemoteHost(RemoteHostError),
}

impl From<RemoteHostError> for Error {
    fn from(error: RemoteHostError) -> (r: Error) {
        Error::RemoteHost(error)
    }
}

impl vstd::std_specs::convert::FromSpecImpl<RemoteHostError> for Error {
    open spec fn obeys_from_spec() -> bool {
        true
    }

    open spec fn from_spec(error: RemoteHostError) -> Error {
        Error::RemoteHost(error)
    }
}

} // verus!
