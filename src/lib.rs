//! Pinhole: a server-driven UI protocol. This library holds its verified core:
//! frame handling, the message model, capability negotiation, route matching,
//! the server's request dispatch, the client's session steps, scoped client
//! storage and style resolution.

pub mod capabilities;
pub mod client_error;
pub mod form;
pub mod layout;
pub mod messages;
pub mod network;
pub mod node;
pub mod router;
pub mod server;
pub mod session;
pub mod state;
pub mod storage;
pub mod style;
pub mod text;
pub mod tls;
