//! Push-to-talk voice over onion services: the verified core.

pub mod aead;
pub mod app;
pub mod audio;
pub mod bytes;
pub mod cli;
pub mod config;
pub mod crypto;
pub mod double;
pub mod error;
pub mod proto;
pub mod qr;
pub mod replay;
pub mod secret;
pub mod selftest;
pub mod session;
pub mod text;
pub mod transport;
pub mod tui;
