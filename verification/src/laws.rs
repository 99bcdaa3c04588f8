//! What holds of the client as a whole.
pub mod connecting;
pub mod events;
pub mod json;
pub mod protocol;
pub mod reports;
pub mod requests;
pub mod sending;
pub mod session;
pub mod startup;
pub mod text;
