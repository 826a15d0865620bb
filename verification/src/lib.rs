//! Transfer core of a peer-to-peer file-sharing tool: chunking and hashing of
//! file content, the transport-independent transfer command protocol, and the
//! rendezvous mailbox two peers use to exchange connection-setup messages
//! through a relay.
pub mod chunks;
pub mod errors;
pub mod hashing;
pub mod mailbox;
pub mod protocol;
