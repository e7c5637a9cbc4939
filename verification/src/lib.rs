//! Decoders for layered network packet formats: Ethernet II frames, IPv4 and
//! IPv6 headers, TCP and UDP headers, and DNS messages.
//!
//! Every decoder is a pure function of the bytes it is given. Its contract
//! equates the result with a specification function over `Seq<u8>`, so the
//! wire format itself is what callers reason about.

pub mod dns;
pub mod ethernet;
pub mod ipv4;
pub mod ipv6;
pub mod resolve;
pub mod tcp;
pub mod udp;
pub mod wire;
