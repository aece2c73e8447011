//! Control plane of a peer-to-peer remote-access link: signed session
//! handshakes over a fixed wire format, the trust store and the replay
//! cache behind them, the per-peer connection state machine, the control
//! session engine with its retries and keepalive, discovery, and the dial
//! planner and bitrate controller beside them, with their behaviour stated
//! as contracts.

pub mod codes;
pub mod daemon;
pub mod decode;
pub mod discovery;
pub mod engine;
pub mod error;
pub mod hex;
pub mod identity;
pub mod input;
pub mod media;
pub mod network;
pub mod peers;
pub mod replay;
pub mod security;
pub mod session;
pub mod state_machine;
pub mod text;
pub mod trust;
pub mod wire;
pub mod wire_laws;
