//! Boundary layer of a smart-contract validation node: opaque handles and
//! result envelopes for foreign callers, the error taxonomy, and the
//! message-bus protocol with its wire format.

pub mod bus;
pub mod codec;
pub mod encoding;
pub mod error;
pub mod ffi;
pub mod messages;
pub mod rpc;
pub mod wire;
