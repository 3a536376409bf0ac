//! Speakrs: the data model, key encodings, wire protocol and command
//! handling of a chat client and server, with their contracts.
pub mod auth;
pub mod bytes;
pub mod codec;
pub mod command;
pub mod compound;
pub mod config;
pub mod connect;
pub mod connection;
pub mod event;
pub mod key;
pub mod keygen;
pub mod order;
pub mod protocol;
pub mod repl;
pub mod schema;
pub mod text;
pub mod uuid_gen;
pub mod wire;
