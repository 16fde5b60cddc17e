//! Verified core of a single-producer, multi-consumer media relay
//! (a selective forwarding unit).
//!
//! The library holds the relay's logic: the registry of consumers and the
//! single producer binding, the kind-filtered packet fan-out decisions, and
//! the state machine that sequences a participant's join handshake. The
//! surrounding transport stack (session establishment, packet encoding,
//! network traversal) is an external collaborator: the executable shell
//! drives it and feeds its outcomes to the verified state machines here.

pub mod forward;
pub mod handshake;
pub mod media;
pub mod router;
pub mod transport;
