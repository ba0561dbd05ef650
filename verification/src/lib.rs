//! Client-side protocol engine for a long-running sbt server.
//!
//! The server multiplexes many conversations onto one byte stream. This
//! library turns that stream into framed payloads (`codec`, `line_codec`),
//! knows the messages that travel in them (`messages`, `events`), assigns
//! every inbound event to the response that it belongs to (`correlation`),
//! and drives one connection from handshake to the end of each call
//! (`proto`). `sbt_utils` names the socket of a running server.
//!
//! The library moves no bytes itself. Every function says in its contract
//! what it returns and changes, over the models that this crate defines,
//! and is proved to do so. What is believed without proof of the `bytes`
//! and `url` crates and of `std::str::from_utf8` is stated in `buffer`,
//! `sbt_utils` and `text`.

pub mod buffer;
pub mod codec;
pub mod codec_laws;
pub mod correlation;
pub mod decimal;
pub mod events;
pub mod line_codec;
pub mod messages;
pub mod proto;
pub mod sbt_utils;
pub mod text;
