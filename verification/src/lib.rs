//! The logic of a remote-desktop application: the wire formats, the session
//! rules and the decisions that capture, encoding, transport, rendering and
//! input injection are driven by.
//!
//! Everything here computes from plain values to plain values. Sockets,
//! windows, codecs and files belong to the program around this library.

pub mod assoc;
pub mod autostart;
pub mod bytes;
pub mod clipboard;
pub mod codec;
pub mod config;
pub mod control;
pub mod double;
pub mod driver;
pub mod elevation;
pub mod engine;
pub mod fec;
pub mod handshake;
pub mod ice;
pub mod ids;
pub mod inbox;
pub mod injector;
pub mod input;
pub mod keyhook;
pub mod liveness;
pub mod media;
pub mod names;
pub mod packet;
pub mod random;
pub mod receiver;
pub mod scancode;
pub mod secret;
pub mod sender;
pub mod session;
pub mod signaling;
pub mod stun;
pub mod text;
pub mod transfer;
pub mod transport;
pub mod turn;
pub mod utf16;
pub mod window;
