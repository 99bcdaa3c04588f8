//! An MCP server that exposes a plain IRC client as tools: connecting to a
//! network, sending, receiving, status and quitting.
//!
//! The servers, the nick and the channels are pinned at startup; the tools cannot
//! connect elsewhere, use another nick, or post to other channels. This library
//! is the client's logic on plain values. It decides what is written, read and
//! answered; reading and writing themselves, and time, are its caller's.
pub mod connect;
pub mod irc;
pub mod json;
pub mod laws;
pub mod mcp;
pub mod pinned;
pub mod state;
pub mod text;
pub mod tools;
