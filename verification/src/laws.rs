//! What the library promises across its functions.
//!
//! Each law is a proof function: its parameters are what it holds of, and its
//! statement says in terms of inputs and results what an operation is for.
pub mod acceptance;
pub mod authenticator;
pub mod board;
pub mod cbor;
pub mod command_line;
pub mod configuration;
pub mod database;
pub mod information;
pub mod keys;
pub mod listing;
pub mod management;
pub mod pin;
pub mod presence;
pub mod records;
pub mod requests;
pub mod selftest;
pub mod settings;
pub mod states;
pub mod storage;
pub mod text;
pub mod transport;
pub mod u2f;
pub mod update;
pub mod wire;
