//! The plain records and small state holders of the desktop client that
//! hosts the crawler: its barcode scanner, its synchronisation status and
//! the envelopes of its commands.

pub mod commands;
pub mod crypto;
pub mod export;
pub mod http;
pub mod scanner;
pub mod sync;
