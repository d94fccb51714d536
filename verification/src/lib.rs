//! Verified core of the Titan IP overlay client: the protobuf wire format of
//! the tunnel frames, the frames the client sends and how it routes the frames
//! it receives, the keepalive state machine, the endpoint discovery steps and
//! the per-connection decisions of the TCP and UDP proxies.
pub mod varint;
pub mod wire;
pub mod messages;
pub mod frames;
pub mod keepalive;
pub mod endpoints;
pub mod proxy;
pub mod sessions;
