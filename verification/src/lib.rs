//! A clipboard inbox shared between paired machines on one local network:
//! framing, pairing codes, content hashing, de-duplication and the decisions
//! that drive the transport, all with their contracts.

pub mod bytes;
pub mod certificate;
pub mod cipher;
pub mod clipboard;
pub mod commands;
pub mod crypto;
pub mod discovery;
pub mod hex;
pub mod identity;
pub mod key_store;
pub mod notification;
pub mod pairing;
pub mod protocol;
pub mod recent;
pub mod state;
pub mod storage;
pub mod text;
pub mod transport;
pub mod tray;
