//! Control-channel establishment for an L2TP tunnel.
//!
//! The crate holds the wire codec for attribute-value pairs, the message
//! envelope around them, the challenge authenticator, and the state machine
//! that sequences the three-message handshake. Every function is verified
//! against a mathematical model of the wire format; the transport itself is
//! left to the caller, who performs the actions the state machine asks for.

pub mod bytes;
pub mod avp;
pub mod digest;
pub mod handshake;
pub mod message;
