//! Core of a multi-process chat relay: message model and rendering, the
//! origin-stamped envelope wire codec, the room membership registry with an
//! atomic claim, the per-connection session state machine, and the lossy
//! local fanout hub. Transport (sockets, the shared bus, the shared store)
//! lives outside this crate and exchanges plain values with it.

pub mod codec;
pub mod hub;
pub mod message;
pub mod registry;
pub mod relay;
pub mod session;
pub mod server_id;
