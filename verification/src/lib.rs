//! The core of a streaming message-passing platform: the envelope that
//! every message travels in, and the decisions of the hub and the client
//! about it.
//!
//! - [`frame`] lays out a frame on the wire and [`decode`] takes one apart;
//!   [`dto`] builds events, rpc requests and rpc responses, with [`meta`],
//!   [`route`] and [`key`] as their metadata and [`json`] for structured
//!   payloads.
//! - [`addr`] splits dotted addresses, [`subscribes`] turns the index of
//!   subscriptions round.
//! - [`server`] decides what a hub does with a handshake and with each
//!   message of a connection, [`table`] is its address table.
//! - [`client`] pairs rpc responses with the callers that wait for them,
//!   [`proto`] holds the control messages and the flat protocol, [`ids`]
//!   draws identifiers.
//!
//! The encoded form of the metadata is handed in and out as bytes: the
//! functions here frame and check, and know nothing of how a metadata record
//! is written.

pub mod addr;
pub mod client;
pub mod decode;
pub mod dto;
pub mod frame;
pub mod ids;
pub mod json;
pub mod key;
pub mod meta;
pub mod proto;
pub mod route;
pub mod server;
pub mod subscribes;
pub mod table;
