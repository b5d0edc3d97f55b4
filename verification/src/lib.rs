//! Raw eye camera streaming for the VIVE Focus Vision: the decisions, formats and state machines
//! of the headset side and of the PC side, each with its contract.

pub mod bytes;
pub mod connection;
pub mod descriptors;
pub mod frames;
pub mod hand_tracking_gate;
pub mod http;
pub mod jpeg;
pub mod negotiation;
pub mod search;
pub mod server;
pub mod session;
pub mod stream;
pub mod text;
pub mod usb;
