//! The browser side of the server: the binary frames that clients exchange over
//! a WebSocket, the decisions of a connection, and the gateway.

pub mod codec;
pub mod gateway;
pub mod session;
