//! Bridge between a host runtime and a handheld calculator reached over USB:
//! device-session lifecycle, file-system operations, progress throttling and
//! error normalization.
//!
//! The bridge itself performs no USB traffic: the transport and the wire
//! protocol are collaborators, consumed behind the boundary. What stands
//! here is the decision layer — which device position to open, which
//! progress callbacks to surface, how a transfer buffer is shaped, and how
//! every collaborator failure is normalized before it crosses back to the
//! caller.

pub mod clock;
pub mod device;
pub mod error;
pub mod throttle;
