//! The logic of a DTLS client and server over UDP: the peers that share one UDP socket, the
//! sinks that keep datagrams apart, and the text of what is sent, printed and parsed.
pub mod args;
pub mod buffer;
pub mod calls;
pub mod channel;
pub mod hex;
pub mod history;
pub mod laws;
pub mod message;
pub mod model;
pub mod net;
pub mod poll;
pub mod udp;
pub mod util;
