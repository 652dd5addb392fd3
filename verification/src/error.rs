//! Error taxonomy shared by the node's services.
//!
//! Two closed shapes leave the process: a [`ServiceError`] (domain and source)
//! for local service faults, and a bus-level failure for remote peers. The
//! remaining types describe where a fault was observed before it is reduced
//! to one of those shapes.

use std::collections::HashMap;
use vstd::prelude::*;
use vstd::std_specs::convert::FromSpecImpl;

verus! {

/// Error kind of the transport socket library, carried unchanged.
#[verifier::external_type_specification]
#[verifier::external_body]
pub struct ExZmqError(zmq::Error);

/// `zmq::Error` is a plain `Copy` enumeration: its clone is the value itself.
pub assume_specification[ <zmq::Error as Clone>::clone ](err: &zmq::Error) -> (ret: zmq::Error)
    ensures
        ret == *err,
;

/// Failure of an asynchronous task to run to completion, carried unchanged.
#[verifier::external_type_specification]
#[verifier::external_body]
pub struct ExJoinError(tokio::task::JoinError);

/// Operating-system level input/output error, carried unchanged.
#[verifier::external_type_specification]
#[verifier::external_body]
pub struct ExIoError(std::io::Error);

/// Integer parsing error of the standard library.
#[verifier::external_type_specification]
#[verifier::external_body]
pub struct ExParseIntError(core::num::ParseIntError);

/// Error of parsing a number with a fraction, of the standard library.
#[verifier::external_type_specification]
#[verifier::external_body]
pub struct ExParseFloatError(core::num::ParseFloatError);

/// Hexadecimal decoding error of the hash library.
#[verifier::external_type_specification]
#[verifier::external_body]
pub struct ExHexError(bitcoin::hashes::hex::Error);

/// Error text that crosses a foreign-function or WASM boundary.
#[derive(Clone, Debug)]
pub struct InteroperableError(pub String);

impl From<String> for InteroperableError {
    fn from(text: String) -> (ret: Self) {
        InteroperableError(text)
    }
}

impl FromSpecImpl<String> for InteroperableError {
    open spec fn obeys_from_spec() -> bool {
        true
    }

    open spec fn from_spec(text: String) -> Self {
        InteroperableError(text)
    }
}

/// Faults that prevent the node from starting.
#[derive(Debug)]
pub enum BootstrapError {
    TorNotYetSupported,
    IoError(std::io::Error),
    ArgParseError(String),
    ZmqSocketError(zmq::Error),
    MultithreadError(tokio::task::JoinError),
    /// Failure of the monitoring socket, by its message.
    MonitorSocketError(String),
    Other,
}

impl BootstrapError {
    /// An argument-parsing fault with the given message.
    pub fn arg_parse(err: &str) -> (ret: Self)
        ensures
            ret matches BootstrapError::ArgParseError(text) && text@ == err@,
    {
        BootstrapError::ArgParseError(err.to_owned())
    }
}

impl From<String> for BootstrapError {
    fn from(err: String) -> (ret: Self) {
        BootstrapError::ArgParseError(err)
    }
}

impl FromSpecImpl<String> for BootstrapError {
    open spec fn obeys_from_spec() -> bool {
        true
    }

    open spec fn from_spec(err: String) -> Self {
        BootstrapError::ArgParseError(err)
    }
}

impl From<std::io::Error> for BootstrapError {
    fn from(err: std::io::Error) -> (ret: Self) {
        BootstrapError::IoError(err)
    }
}

impl FromSpecImpl<std::io::Error> for BootstrapError {
    open spec fn obeys_from_spec() -> bool {
        true
    }

    open spec fn from_spec(err: std::io::Error) -> Self {
        BootstrapError::IoError(err)
    }
}

impl From<zmq::Error> for BootstrapError {
    fn from(err: zmq::Error) -> (ret: Self) {
        BootstrapError::ZmqSocketError(err)
    }
}

impl FromSpecImpl<zmq::Error> for BootstrapError {
    open spec fn obeys_from_spec() -> bool {
        true
    }

    open spec fn from_spec(err: zmq::Error) -> Self {
        BootstrapError::ZmqSocketError(err)
    }
}

impl From<tokio::task::JoinError> for BootstrapError {
    fn from(err: tokio::task::JoinError) -> (ret: Self) {
        BootstrapError::MultithreadError(err)
    }
}

impl FromSpecImpl<tokio::task::JoinError> for BootstrapError {
    open spec fn obeys_from_spec() -> bool {
        true
    }

    open spec fn from_spec(err: tokio::task::JoinError) -> Self {
        BootstrapError::MultithreadError(err)
    }
}

/// A value could not be parsed. The cause is deliberately discarded: every
/// parse failure collapses into this one kind.
#[derive(Clone, Copy, Debug, PartialEq, Eq, Structural)]
pub struct ParseError;

impl From<core::num::ParseIntError> for ParseError {
    fn from(err: core::num::ParseIntError) -> (ret: Self) {
        ParseError
    }
}

impl FromSpecImpl<core::num::ParseIntError> for ParseError {
    open spec fn obeys_from_spec() -> bool {
        true
    }

    open spec fn from_spec(err: core::num::ParseIntError) -> Self {
        ParseError
    }
}

impl From<core::num::ParseFloatError> for ParseError {
    fn from(err: core::num::ParseFloatError) -> (ret: Self) {
        ParseError
    }
}

impl FromSpecImpl<core::num::ParseFloatError> for ParseError {
    open spec fn obeys_from_spec() -> bool {
        true
    }

    open spec fn from_spec(err: core::num::ParseFloatError) -> Self {
        ParseError
    }
}

impl From<bitcoin::hashes::hex::Error> for ParseError {
    fn from(err: bitcoin::hashes::hex::Error) -> (ret: Self) {
        ParseError
    }
}

impl FromSpecImpl<bitcoin::hashes::hex::Error> for ParseError {
    open spec fn obeys_from_spec() -> bool {
        true
    }

    open spec fn from_spec(err: bitcoin::hashes::hex::Error) -> Self {
        ParseError
    }
}

/// Role of the transport socket on which a runtime error was observed.
#[derive(Clone, Copy, PartialEq, Eq, Debug, Structural)]
pub enum ServiceSocketType {
    Request,
    Reply,
    Publish,
    Subscribe,
}

/// A fault of the running service as a whole.
#[derive(Clone, PartialEq, Eq, Debug)]
pub enum RuntimeError {
    /// Transport-socket error: the socket role, the socket's name and the
    /// error kind.
    Zmq(ServiceSocketType, String, zmq::Error),
}

impl RuntimeError {
    /// What every helper constructor below builds. Each of them records the
    /// request role, also those named after another role: this is how the
    /// helpers have always behaved, and it is kept. A caller that needs the
    /// true role builds the variant itself.
    pub open spec fn tagged(self, socket: Seq<char>, err: zmq::Error) -> bool {
        self matches RuntimeError::Zmq(role, name, kind) && role == ServiceSocketType::Request
            && name@ == socket && kind == err
    }

    pub fn zmq_request(socket: &str, err: zmq::Error) -> (ret: Self)
        ensures
            ret.tagged(socket@, err),
    {
        RuntimeError::Zmq(ServiceSocketType::Request, socket.to_owned(), err)
    }

    /// Tags the error with the request role, as [`RuntimeError::zmq_request`] does.
    pub fn zmq_reply(socket: &str, err: zmq::Error) -> (ret: Self)
        ensures
            ret.tagged(socket@, err),
    {
        RuntimeError::Zmq(ServiceSocketType::Request, socket.to_owned(), err)
    }

    /// Tags the error with the request role, as [`RuntimeError::zmq_request`] does.
    pub fn zmq_publish(socket: &str, err: zmq::Error) -> (ret: Self)
        ensures
            ret.tagged(socket@, err),
    {
        RuntimeError::Zmq(ServiceSocketType::Request, socket.to_owned(), err)
    }

    /// Tags the error with the request role, as [`RuntimeError::zmq_request`] does.
    pub fn zmq_subscribe(socket: &str, err: zmq::Error) -> (ret: Self)
        ensures
            ret.tagged(socket@, err),
    {
        RuntimeError::Zmq(ServiceSocketType::Request, socket.to_owned(), err)
    }
}

/// Misuse of the API by a client. Always specific to one request.
#[derive(Clone, PartialEq, Eq, Debug)]
pub enum ApiErrorType {
    MalformedRequest { request: String },
    UnknownCommand { command: String },
    UnimplementedCommand,
    MissedArgument { request: String, argument: String },
    UnknownArgument { request: String, argument: String },
    MalformedArgument { request: String, argument: String },
}

/// Subsystem in which a service error arose.
#[derive(Clone, PartialEq, Eq, Debug)]
pub enum ServiceErrorDomain {
    Io,
    Storage,
    Index,
    Cache,
    Multithreading,
    P2pwire,
    Api(ApiErrorType),
    Monitoring,
    Bifrost,
    BpNode,
    LnpNode,
    Bitcoin,
    Lightning,
    Schema,
    Internal,
}

impl From<ApiErrorType> for ServiceErrorDomain {
    fn from(err: ApiErrorType) -> (ret: Self) {
        ServiceErrorDomain::Api(err)
    }
}

impl FromSpecImpl<ApiErrorType> for ServiceErrorDomain {
    open spec fn obeys_from_spec() -> bool {
        true
    }

    open spec fn from_spec(err: ApiErrorType) -> Self {
        ServiceErrorDomain::Api(err)
    }
}

/// Component that reported a service error.
#[derive(Clone, PartialEq, Eq, Debug)]
pub enum ServiceErrorSource {
    Broker,
    Stash,
    Contract(String),
}

/// A local service error: what failed, and where.
#[derive(Clone, PartialEq, Eq, Debug)]
pub struct ServiceError {
    pub domain: ServiceErrorDomain,
    pub service: ServiceErrorSource,
}

impl ServiceError {
    /// An error of the given domain reported by the named contract.
    pub fn contract(domain: ServiceErrorDomain, contract_name: &str) -> (ret: Self)
        ensures
            ret.domain == domain,
            ret.service matches ServiceErrorSource::Contract(name) && name@ == contract_name@,
    {
        ServiceError { domain, service: ServiceErrorSource::Contract(contract_name.to_owned()) }
    }
}

/// The dispatcher's choice between a fault of the whole service and a fault
/// of one request.
#[derive(Clone, PartialEq, Eq, Debug)]
pub enum RoutedError {
    Global(RuntimeError),
    RequestSpecific(ServiceError),
}

impl RoutedError {
    /// API misuse concerns one request only and never escalates.
    pub fn api(err: ApiErrorType, service: ServiceErrorSource) -> (ret: Self)
        ensures
            ret == RoutedError::RequestSpecific(
                ServiceError { domain: ServiceErrorDomain::Api(err), service },
            ),
    {
        RoutedError::RequestSpecific(ServiceError { domain: ServiceErrorDomain::Api(err), service })
    }

    /// Whether the fault degrades the service as a whole.
    pub fn is_global(&self) -> (ret: bool)
        ensures
            ret == (self is Global),
    {
        match self {
            RoutedError::Global(_) => true,
            RoutedError::RequestSpecific(_) => false,
        }
    }
}

/// A service error in a form fit for display or serialization.
#[derive(Debug)]
pub struct ServiceErrorRepresentation {
    pub domain: String,
    pub service: String,
    pub name: String,
    pub description: String,
    pub info: HashMap<String, String>,
}

} // verus!
