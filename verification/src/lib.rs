//! Parsing and batching of Bluetooth Low Energy advertising packets
//! captured by a sniffer, with their contracts proved by Verus.

pub mod text;
pub mod hex_text;
pub mod numbers;
pub mod oui;
pub mod packet;
pub mod config;
pub mod sniffer;
pub mod delivery;
pub mod heartbeat;
pub mod tester;
pub mod advertising;
