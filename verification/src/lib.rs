//! Core of a host-side LAN remote-desktop companion: a UDP stream receiver
//! that reassembles chunked frames, a feedback sender, and a TCP input relay
//! (server and client) that authenticates peers and dispatches input events.

pub mod b64;
pub mod client;
pub mod clock;
pub mod codec;
pub mod feedback;
pub mod input;
pub mod rate;
pub mod receiver;
pub mod server;
pub mod stream_id;
pub mod text;
