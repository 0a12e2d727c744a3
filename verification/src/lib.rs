//! A Thrift-compatible RPC runtime: binary wire protocol, framing, message
//! model, the decisions of the client and server engines, an IDL parser and
//! a code generator.

pub mod errors;
pub mod protocol;
pub mod wire;
pub mod buffer;
pub mod binary;
pub mod connection;
pub mod context;
pub mod message;
pub mod codec;
pub mod types;
pub mod unique;
pub mod value;
pub mod schema;
pub mod derive;
pub mod utils;
pub mod roundtrip;
pub mod evolution;
pub mod declared;
pub mod descriptors;
pub mod demo;
pub mod client;
pub mod server;
pub mod transport;
pub mod text;
pub mod thrift_parser;
pub mod friends;
pub mod generator;
