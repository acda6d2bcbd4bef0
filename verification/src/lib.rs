//! Verified core of a network-terminal gateway.
//!
//! The crate models one remote shell session: a control-protocol codec that
//! classifies inbound channel messages (resize envelopes versus raw
//! keystrokes), a session state machine that drives the bidirectional relay
//! between a pseudo-terminal and a message channel, and a multi-session
//! server model showing that concurrent sessions are isolated from one
//! another. All process, terminal and socket I/O lives outside the library
//! and is driven by the decisions these functions return.

pub mod codec;
pub mod bridge;
pub mod server;
