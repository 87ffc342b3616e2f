//! Client side of a STOMP-like text protocol over a reliable byte stream:
//! the frame codec and the login handshake, with their behaviour stated
//! in contracts and proved.
//!
//! - [`text`], [`escape`], [`names`]: bytes, header escaping, and the fixed
//!   vocabulary of commands and header names.
//! - [`frame`]: the wire-level unit, its exact wire bytes, and the
//!   incremental reader that finds one frame at the front of a buffer.
//! - [`message`], [`conversion`]: the typed messages of both directions and
//!   their mapping to and from frames.
//! - [`buffer`], [`client`]: the byte buffer of a connection and the codec
//!   that decodes from it and encodes into it.
//! - [`handshake`]: what is sent first and what the first reply means.
//! - [`frame_laws`], [`message_laws`], [`stream_laws`]: what holds of these
//!   together: reading undoes writing, and a stream decodes to the same
//!   messages however it is cut into chunks.
//!
//! Opening sockets and moving bytes is left to the caller.

pub mod error;
pub mod text;
pub mod escape;
pub mod names;
pub mod buffer;
pub mod frame;
pub mod frame_laws;
pub mod message;
pub mod message_laws;
pub mod conversion;
pub mod client;
pub mod stream_laws;
pub mod handshake;

pub use crate::client::{subscribe, ClientCodec};
pub use crate::error::ClientError;
pub use crate::frame::{parse_frame, Frame, ParseOutcome};
pub use crate::handshake::{client_handshake, connect_request, HandshakeState};
pub use crate::message::{AckMode, FromServer, Message, ToServer};
